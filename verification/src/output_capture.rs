//! What is done with each line that a managed process or a shell job
//! writes: the line is stamped, written down for the log file, and sent on
//! as a live notification.
//!
//! Reading the streams line by line, one reader per stream, is the host's
//! part; the lines of one stream arrive here in the order read.

use crate::events::{process_log_event, JobOutput};
use crate::log_handler::{encode_line, log_file_name, LogAppend, LogHandler};
use crate::timestamp::{event_timestamp, has_stamp_chars, is_date_time_stamp, is_time_stamp};
use crate::types::LogEntry;
use vstd::prelude::*;
use vstd::string::StringExecFns;

verus! {

/// The two output streams of a process.
#[derive(Debug, Clone, Copy, PartialEq, Eq, Structural)]
pub enum OutputStream {
    Stdout,
    Stderr,
}

impl OutputStream {
    /// The level under which a line of the stream is logged.
    pub open spec fn level(self) -> Seq<char> {
        match self {
            OutputStream::Stdout => "stdout"@,
            OutputStream::Stderr => "stderr"@,
        }
    }

    pub fn level_name(&self) -> (name: &'static str)
        ensures
            name@ == self.level(),
    {
        match self {
            OutputStream::Stdout => "stdout",
            OutputStream::Stderr => "stderr",
        }
    }

    /// Whether a job's line from this stream is sent as an error line.
    pub fn is_error(&self) -> (e: bool)
        ensures
            e == (*self == OutputStream::Stderr),
    {
        match self {
            OutputStream::Stdout => false,
            OutputStream::Stderr => true,
        }
    }

    /// Both levels can stand between brackets in a log line.
    pub proof fn lemma_level_is_label(self)
        ensures
            crate::log_handler::is_label(self.level()),
    {
        reveal_strlit("stdout");
        reveal_strlit("stderr");
    }
}

/// A line of output that is stamped by the clock and logged under the level
/// of its stream is read back from the log as it was written.
pub proof fn lemma_captured_line_is_writable(
    stamp: Seq<char>,
    stream: OutputStream,
    message: Seq<char>,
)
    requires
        has_stamp_chars(stamp),
        crate::log_handler::is_single_line(message),
    ensures
        crate::log_handler::is_writable(
            crate::types::LogEntryView { timestamp: stamp, level: stream.level(), message },
        ),
{
    crate::log_handler::lemma_stamp_is_label(stamp);
    stream.lemma_level_is_label();
}

/// What one captured line of a process leads to: a line to append to the
/// log file, and a notification to send under `event_name`.
#[derive(Debug)]
pub struct CapturedLine {
    pub append: LogAppend,
    pub event_name: String,
    pub event: LogEntry,
}

/// Takes in one line that a process wrote on a stream.
pub fn capture_line(
    log_handler: &LogHandler,
    process_id: &str,
    stream: OutputStream,
    message: &str,
) -> (c: CapturedLine)
    ensures
        c.append.path.dir@ == log_handler.dir(),
        c.append.path.file_name@ == log_file_name(process_id@),
        is_date_time_stamp(c.append.timestamp@),
        has_stamp_chars(c.append.timestamp@),
        c.append.line@ == encode_line(c.append.timestamp@, stream.level(), message@),
        c.event_name@ == "process:log:"@ + process_id@,
        is_time_stamp(c.event.timestamp@),
        has_stamp_chars(c.event.timestamp@),
        c.event.level@ == stream.level(),
        c.event.message@ == message@,
{
    let timestamp = event_timestamp();
    let append = log_handler.write_log(process_id, stream.level_name(), message);
    CapturedLine {
        append,
        event_name: process_log_event(process_id),
        event: LogEntry {
            timestamp,
            level: String::from_str(stream.level_name()),
            message: String::from_str(message),
        },
    }
}

/// Takes in one line that a shell job wrote on a stream.
pub fn capture_job_line(job_id: &str, stream: OutputStream, line: &str) -> (o: JobOutput)
    ensures
        o.job_id@ == job_id@,
        o.line@ == line@,
        o.is_error == (stream == OutputStream::Stderr),
        is_time_stamp(o.timestamp@),
        has_stamp_chars(o.timestamp@),
{
    JobOutput {
        job_id: String::from_str(job_id),
        line: String::from_str(line),
        is_error: stream.is_error(),
        timestamp: event_timestamp(),
    }
}

} // verus!
