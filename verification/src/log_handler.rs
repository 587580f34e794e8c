//! The log store's codec and decisions: where the log of a process lies, how
//! a captured line is written down, and how a log file is read back.
//!
//! A line is written as `[<timestamp>] [<level>] <message>` and a line break.
//! Reading takes the first two bracketed parts of each line for timestamp
//! and level and what follows the second closing bracket, trimmed, for the
//! message; a line without two bracketed parts is passed over.
//!
//! The host opens, appends to, reads, renames and deletes the files.

use crate::monitoring::BYTES_PER_MB;
use crate::text::{chars_of, string_of, trim, trim_range};
use crate::timestamp::{
    backup_timestamp, has_stamp_chars, is_compact_stamp, is_date_time_stamp, log_timestamp,
};
use crate::types::{LogEntry, LogEntryView};
use vstd::prelude::*;
use vstd::string::StringExecFns;

verus! {

/// A file of the log directory: the directory and the file's name in it.
#[derive(Debug)]
pub struct LogPath {
    pub dir: String,
    pub file_name: String,
}

/// One line to append to a log file.
#[derive(Debug)]
pub struct LogAppend {
    pub path: LogPath,
    pub timestamp: String,
    pub line: String,
}

/// A log file to rename, with the timestamp that its new name holds.
#[derive(Debug)]
pub struct LogRotation {
    pub from: LogPath,
    pub to: LogPath,
    pub timestamp: String,
}

/// The name of the log file of a process.
pub open spec fn log_file_name(process_id: Seq<char>) -> Seq<char> {
    process_id + ".log"@
}

/// The name under which a log file is set aside.
pub open spec fn backup_file_name(process_id: Seq<char>, stamp: Seq<char>) -> Seq<char> {
    process_id + "."@ + stamp + ".log"@
}

/// A log line as it stands in the file, line break included.
pub open spec fn encode_line(timestamp: Seq<char>, level: Seq<char>, message: Seq<char>) -> Seq<
    char,
> {
    seq!['['] + timestamp + seq![']', ' ', '['] + level + seq![']', ' '] + message + seq!['\n']
}

/// The position of the first `c` in `s` at or after `from`, and the length
/// of `s` where there is none.
pub open spec fn find_from(s: Seq<char>, c: char, from: int) -> int
    decreases s.len() - from,
{
    if from >= s.len() {
        s.len() as int
    } else if from >= 0 && s[from] == c {
        from
    } else {
        find_from(s, c, from + 1)
    }
}

/// A search that starts within the text ends at its start or after it, and
/// within the text or at its end; before its end it has found `c`.
pub proof fn lemma_find_from_bounds(s: Seq<char>, c: char, from: int)
    requires
        0 <= from <= s.len(),
    ensures
        from <= find_from(s, c, from) <= s.len(),
        find_from(s, c, from) < s.len() ==> s[find_from(s, c, from)] == c,
        forall|i: int| from <= i < find_from(s, c, from) ==> s[i] != c,
    decreases s.len() - from,
{
    if from < s.len() && s[from] != c {
        lemma_find_from_bounds(s, c, from + 1);
    }
}

/// What one line of a log file holds, if it has two bracketed parts.
pub open spec fn parse_line(line: Seq<char>) -> Option<LogEntryView> {
    let open1 = find_from(line, '[', 0);
    let close1 = find_from(line, ']', open1 + 1);
    let open2 = find_from(line, '[', close1 + 1);
    let close2 = find_from(line, ']', open2 + 1);
    if close2 < line.len() {
        Some(
            LogEntryView {
                timestamp: line.subrange(open1 + 1, close1),
                level: line.subrange(open2 + 1, close2),
                message: trim(line.subrange(close2 + 1, line.len() as int)),
            },
        )
    } else {
        None
    }
}

/// The entries of a log file, first line first.
pub open spec fn parse_log(content: Seq<char>) -> Seq<LogEntryView>
    decreases content.len(),
{
    if content.len() == 0 {
        Seq::empty()
    } else {
        let end = find_from(content, '\n', 0);
        let rest = if 0 <= end < content.len() {
            content.subrange(end + 1, content.len() as int)
        } else {
            Seq::empty()
        };
        match parse_line(content.subrange(0, end)) {
            Some(entry) => seq![entry] + parse_log(rest),
            None => parse_log(rest),
        }
    }
}

/// The last `limit` of the entries, or all of them where there are no more
/// than that or no limit is given.
pub open spec fn limited<E>(entries: Seq<E>, limit: Option<usize>) -> Seq<E> {
    match limit {
        Some(k) => if entries.len() > k {
            entries.subrange(entries.len() - k, entries.len() as int)
        } else {
            entries
        },
        None => entries,
    }
}

/// What a read returns: nothing where there is no file, else the last
/// `limit` entries of the file.
pub open spec fn read_result(content: Option<Seq<char>>, limit: Option<usize>) -> Seq<
    LogEntryView,
> {
    match content {
        Some(text) => limited(parse_log(text), limit),
        None => Seq::empty(),
    }
}

/// The views of a list of entries.
pub open spec fn entry_views(entries: Seq<LogEntry>) -> Seq<LogEntryView> {
    entries.map_values(|e: LogEntry| e@)
}

/// A log file is set aside once it holds more whole megabytes than the limit.
pub open spec fn needs_rotation(size_bytes: Option<u64>, max_size_mb: u64) -> bool {
    match size_bytes {
        Some(size) => size / BYTES_PER_MB > max_size_mb,
        None => false,
    }
}

/// A text that can stand between brackets in a log line: it holds neither a
/// closing bracket nor a line break.
pub open spec fn is_label(s: Seq<char>) -> bool {
    forall|i: int| 0 <= i < s.len() ==> #[trigger] s[i] != ']' && s[i] != '\n'
}

/// A text without a line break.
pub open spec fn is_single_line(s: Seq<char>) -> bool {
    forall|i: int| 0 <= i < s.len() ==> #[trigger] s[i] != '\n'
}

/// An entry that is read back as it was written: timestamp and level can
/// stand between brackets, and the message is one line.
pub open spec fn is_writable(e: LogEntryView) -> bool {
    is_label(e.timestamp) && is_label(e.level) && is_single_line(e.message)
}

/// The entry as a read returns it: the message comes back trimmed.
pub open spec fn as_read(e: LogEntryView) -> LogEntryView {
    LogEntryView { message: trim(e.message), ..e }
}

/// What a log file holds after these entries were written to it in turn.
pub open spec fn written(entries: Seq<LogEntryView>) -> Seq<char>
    decreases entries.len(),
{
    if entries.len() == 0 {
        Seq::empty()
    } else {
        encode_line(entries[0].timestamp, entries[0].level, entries[0].message) + written(
            entries.drop_first(),
        )
    }
}

/// A search finds the first `c`: the position `at`, when no `c` stands
/// before it from the start of the search, and `at` holds one or is the end.
pub proof fn lemma_find_from_first(s: Seq<char>, c: char, from: int, at: int)
    requires
        0 <= from <= at <= s.len(),
        forall|i: int| from <= i < at ==> s[i] != c,
        at < s.len() ==> s[at] == c,
    ensures
        find_from(s, c, from) == at,
    decreases at - from,
{
    if from < at {
        lemma_find_from_first(s, c, from + 1, at);
    }
}

/// A timestamp of the clock can stand between brackets.
pub proof fn lemma_stamp_is_label(s: Seq<char>)
    requires
        has_stamp_chars(s),
    ensures
        is_label(s),
{
    assert forall|i: int| 0 <= i < s.len() implies #[trigger] s[i] != ']' && s[i] != '\n' by {
        assert(crate::timestamp::is_stamp_char(s[i]));
    }
}

/// A written line, without its line break, is read back as the entry that
/// was written, the message trimmed.
pub proof fn lemma_line_round_trip(e: LogEntryView)
    requires
        is_writable(e),
    ensures
        encode_line(e.timestamp, e.level, e.message).len() > 0,
        encode_line(e.timestamp, e.level, e.message).last() == '\n',
        is_single_line(encode_line(e.timestamp, e.level, e.message).drop_last()),
        parse_line(encode_line(e.timestamp, e.level, e.message).drop_last()) == Some(as_read(e)),
{
    let ts = e.timestamp;
    let level = e.level;
    let msg = e.message;
    let line = seq!['['] + ts + seq![']', ' ', '['] + level + seq![']', ' '] + msg;
    assert(encode_line(ts, level, msg).drop_last() == line);
    let close1 = 1 + ts.len() as int;
    let open2 = close1 + 2;
    let close2 = open2 + 1 + level.len() as int;
    assert(line.len() == close2 + 2 + msg.len());
    assert(line[0] == '[');
    assert forall|i: int| 1 <= i < close1 implies line[i] == ts[i - 1] by {}
    assert(line[close1] == ']');
    assert(line[close1 + 1] == ' ');
    assert(line[open2] == '[');
    assert forall|i: int| open2 + 1 <= i < close2 implies line[i] == level[i - open2 - 1] by {}
    assert(line[close2] == ']');
    assert(line[close2 + 1] == ' ');
    assert forall|i: int| close2 + 2 <= i < line.len() implies line[i] == msg[i - close2 - 2] by {}
    assert(is_single_line(line));
    lemma_find_from_first(line, '[', 0, 0);
    lemma_find_from_first(line, ']', 1, close1);
    lemma_find_from_first(line, '[', close1 + 1, open2);
    lemma_find_from_first(line, ']', open2 + 1, close2);
    assert(line.subrange(1, close1) == ts);
    assert(line.subrange(open2 + 1, close2) == level);
    let tail = line.subrange(close2 + 1, line.len() as int);
    assert(tail[0] == ' ');
    assert(crate::text::is_whitespace(' '));
    assert(tail.drop_first() == msg);
    assert(trim(tail) == trim(msg));
}

/// Reading a file that was written entry by entry gives the entries back in
/// the order of writing, each as `as_read` says: with a limit of `k`, the
/// last `k` of them where more were written, and all of them otherwise.
pub proof fn lemma_read_after_writes(entries: Seq<LogEntryView>, limit: Option<usize>)
    requires
        forall|i: int| 0 <= i < entries.len() ==> is_writable(#[trigger] entries[i]),
    ensures
        parse_log(written(entries)) == entries.map_values(|e: LogEntryView| as_read(e)),
        read_result(Some(written(entries)), limit) == limited(
            entries.map_values(|e: LogEntryView| as_read(e)),
            limit,
        ),
        limit is Some && limit->0 < entries.len() ==> read_result(Some(written(entries)), limit)
            == entries.map_values(|e: LogEntryView| as_read(e)).subrange(
            entries.len() - limit->0,
            entries.len() as int,
        ),
        limit is Some && limit->0 >= entries.len() ==> read_result(Some(written(entries)), limit)
            == entries.map_values(|e: LogEntryView| as_read(e)),
    decreases entries.len(),
{
    let read = entries.map_values(|e: LogEntryView| as_read(e));
    if entries.len() == 0 {
        assert(parse_log(written(entries)) == read);
    } else {
        let e = entries[0];
        let others = entries.drop_first();
        let encoded = encode_line(e.timestamp, e.level, e.message);
        let line = encoded.drop_last();
        let content = written(entries);
        lemma_line_round_trip(e);
        lemma_read_after_writes(others, limit);
        assert(encoded == line.push('\n'));
        assert(content == encoded + written(others));
        assert forall|i: int| 0 <= i < line.len() implies content[i] != '\n' by {
            assert(content[i] == line[i]);
        }
        assert(content[line.len() as int] == '\n');
        lemma_find_from_first(content, '\n', 0, line.len() as int);
        assert(content.subrange(0, line.len() as int) == line);
        assert(content.subrange(line.len() as int + 1, content.len() as int) == written(others));
        assert(parse_log(content) == seq![as_read(e)] + parse_log(written(others)));
        assert(seq![as_read(e)] + others.map_values(|e: LogEntryView| as_read(e)) == read);
    }
}

/// After its file was deleted a log reads as empty, whatever the limit.
pub proof fn lemma_read_after_clear(limit: Option<usize>)
    ensures
        read_result(None, limit) == Seq::<LogEntryView>::empty(),
{
}

fn find_char(v: &Vec<char>, lo: usize, hi: usize, c: char, from: usize) -> (r: usize)
    requires
        lo <= from <= hi <= v.len(),
    ensures
        from <= r <= hi,
        r - lo == find_from(v@.subrange(lo as int, hi as int), c, from - lo),
{
    let ghost line = v@.subrange(lo as int, hi as int);
    let mut i: usize = from;
    while i < hi && v[i] != c
        invariant
            lo <= from <= i <= hi <= v.len(),
            line == v@.subrange(lo as int, hi as int),
            find_from(line, c, from - lo) == find_from(line, c, i - lo),
        decreases hi - i,
    {
        assert(line[i - lo] == v@[i as int]);
        i += 1;
    }
    proof {
        if i < hi {
            assert(line[i - lo] == v@[i as int]);
        }
    }
    i
}

/// The position after `i`, kept within `hi`.
fn step_past(i: usize, hi: usize) -> (r: usize)
    requires
        i <= hi,
    ensures
        r == (if i < hi {
            i + 1
        } else {
            hi as int
        }),
{
    if i < hi {
        i + 1
    } else {
        hi
    }
}

fn parse_range(v: &Vec<char>, lo: usize, hi: usize) -> (r: Option<LogEntry>)
    requires
        lo <= hi <= v.len(),
    ensures
        match r {
            Some(e) => parse_line(v@.subrange(lo as int, hi as int)) == Some(e@),
            None => parse_line(v@.subrange(lo as int, hi as int)) is None,
        },
{
    let ghost line = v@.subrange(lo as int, hi as int);
    let open1 = find_char(v, lo, hi, '[', lo);
    let close1 = find_char(v, lo, hi, ']', step_past(open1, hi));
    let open2 = find_char(v, lo, hi, '[', step_past(close1, hi));
    let close2 = find_char(v, lo, hi, ']', step_past(open2, hi));
    if close2 < hi {
        let timestamp = string_of(v, open1 + 1, close1);
        let level = string_of(v, open2 + 1, close2);
        let (a, b) = trim_range(v, close2 + 1, hi);
        let message = string_of(v, a, b);
        proof {
            assert(line.subrange(open1 + 1 - lo, close1 - lo) == v@.subrange(
                open1 + 1,
                close1 as int,
            ));
            assert(line.subrange(open2 + 1 - lo, close2 - lo) == v@.subrange(
                open2 + 1,
                close2 as int,
            ));
            assert(line.subrange(close2 + 1 - lo, line.len() as int) == v@.subrange(
                close2 + 1,
                hi as int,
            ));
        }
        Some(LogEntry { timestamp, level, message })
    } else {
        None
    }
}

/// Reads a whole log file.
pub fn parse_entries(content: &str) -> (entries: Vec<LogEntry>)
    ensures
        entry_views(entries@) == parse_log(content@),
{
    let v = chars_of(content);
    let n = v.len();
    let mut entries: Vec<LogEntry> = Vec::new();
    let mut pos: usize = 0;
    proof {
        assert(v@.subrange(0, n as int) == v@);
        assert(entry_views(entries@) + parse_log(v@) == parse_log(v@));
    }
    while pos < n
        invariant
            n == v.len(),
            pos <= n,
            parse_log(v@) == entry_views(entries@) + parse_log(v@.subrange(pos as int, n as int)),
        decreases n - pos,
    {
        let ghost rest = v@.subrange(pos as int, n as int);
        let ghost before = entry_views(entries@);
        let end = find_char(&v, pos, n, '\n', pos);
        let entry = parse_range(&v, pos, end);
        let next = step_past(end, n);
        proof {
            lemma_find_from_bounds(rest, '\n', 0);
            assert(rest.subrange(0, end - pos) == v@.subrange(pos as int, end as int));
            if end < n {
                assert(rest.subrange(end - pos + 1, rest.len() as int) == v@.subrange(
                    next as int,
                    n as int,
                ));
            } else {
                assert(v@.subrange(next as int, n as int) == Seq::<char>::empty());
            }
        }
        match entry {
            Some(e) => {
                entries.push(e);
                proof {
                    assert(entry_views(entries@) == before.push(e@));
                    assert(before + (seq![e@] + parse_log(v@.subrange(next as int, n as int)))
                        == before.push(e@) + parse_log(v@.subrange(next as int, n as int)));
                }
            },
            None => {},
        }
        pos = next;
    }
    proof {
        assert(v@.subrange(n as int, n as int) == Seq::<char>::empty());
        assert(entry_views(entries@) + Seq::<LogEntryView>::empty() == entry_views(entries@));
    }
    entries
}

/// Keeps the last `limit` entries.
pub fn apply_limit(entries: Vec<LogEntry>, limit: Option<usize>) -> (kept: Vec<LogEntry>)
    ensures
        entry_views(kept@) == limited(entry_views(entries@), limit),
        kept@ == limited(entries@, limit),
{
    let ghost all = entries@;
    let mut entries = entries;
    match limit {
        Some(k) => {
            if entries.len() > k {
                let start = entries.len() - k;
                let kept = entries.split_off(start);
                proof {
                    assert(entry_views(kept@) == entry_views(all).subrange(
                        start as int,
                        all.len() as int,
                    ));
                }
                kept
            } else {
                entries
            }
        },
        None => entries,
    }
}

/// Writes a log line down, line break included.
pub fn encode_entry(timestamp: &str, level: &str, message: &str) -> (line: String)
    ensures
        line@ == encode_line(timestamp@, level@, message@),
{
    let mut line = String::new();
    line.push('[');
    line.append(timestamp);
    line.push(']');
    line.push(' ');
    line.push('[');
    line.append(level);
    line.push(']');
    line.push(' ');
    line.append(message);
    line.push('\n');
    assert(line@ == encode_line(timestamp@, level@, message@));
    line
}

pub struct LogHandler {
    log_dir: String,
}

impl LogHandler {
    /// The directory that holds the log files.
    pub closed spec fn dir(&self) -> Seq<char> {
        self.log_dir@
    }

    /// A log store over a directory, which the host has made sure exists.
    pub fn new(log_dir: String) -> (h: LogHandler)
        ensures
            h.dir() == log_dir@,
    {
        LogHandler { log_dir }
    }

    pub fn log_dir(&self) -> (d: &String)
        ensures
            d@ == self.dir(),
    {
        &self.log_dir
    }

    /// Where the log of a process lies: `<process id>.log` in the log
    /// directory.
    pub fn get_log_file(&self, process_id: &str) -> (path: LogPath)
        ensures
            path.dir@ == self.dir(),
            path.file_name@ == log_file_name(process_id@),
    {
        let mut file_name = String::from_str(process_id);
        file_name.append(".log");
        LogPath { dir: self.log_dir.clone(), file_name }
    }

    /// The line to append for a captured message, stamped with the local
    /// time, and the file to append it to.
    pub fn write_log(&self, process_id: &str, level: &str, message: &str) -> (w: LogAppend)
        ensures
            w.path.dir@ == self.dir(),
            w.path.file_name@ == log_file_name(process_id@),
            is_date_time_stamp(w.timestamp@),
            has_stamp_chars(w.timestamp@),
            w.line@ == encode_line(w.timestamp@, level@, message@),
    {
        let timestamp = log_timestamp();
        let line = encode_entry(timestamp.as_str(), level, message);
        LogAppend { path: self.get_log_file(process_id), timestamp, line }
    }

    /// The entries of a log, given what its file holds, or `None` where
    /// there is no file: the last `limit` of them, oldest first.
    pub fn read_logs(&self, content: Option<&str>, limit: Option<usize>) -> (entries: Vec<LogEntry>)
        ensures
            entry_views(entries@) == read_result(
                match content {
                    Some(text) => Some(text@),
                    None => None,
                },
                limit,
            ),
    {
        match content {
            Some(text) => apply_limit(parse_entries(text), limit),
            None => Vec::new(),
        }
    }

    /// The file to delete to clear the log of a process, if the file exists.
    pub fn clear_logs(&self, process_id: &str, exists: bool) -> (path: Option<LogPath>)
        ensures
            path is Some <==> exists,
            path matches Some(p) ==> p.dir@ == self.dir() && p.file_name@ == log_file_name(
                process_id@,
            ),
    {
        if exists {
            Some(self.get_log_file(process_id))
        } else {
            None
        }
    }

    /// Decides whether the log of a process is to be set aside, given the
    /// size of its file (`None` where there is no file), and under which
    /// name.
    pub fn rotate_log(&self, process_id: &str, max_size_mb: u64, size_bytes: Option<u64>) -> (r:
        Option<LogRotation>)
        ensures
            r is Some <==> needs_rotation(size_bytes, max_size_mb),
            r matches Some(rotation) ==> {
                &&& rotation.from.dir@ == self.dir()
                &&& rotation.from.file_name@ == log_file_name(process_id@)
                &&& rotation.to.dir@ == self.dir()
                &&& is_compact_stamp(rotation.timestamp@)
                &&& has_stamp_chars(rotation.timestamp@)
                &&& rotation.to.file_name@ == backup_file_name(process_id@, rotation.timestamp@)
            },
    {
        match size_bytes {
            Some(size) => {
                if size / BYTES_PER_MB > max_size_mb {
                    let timestamp = backup_timestamp();
                    let mut file_name = String::from_str(process_id);
                    file_name.append(".");
                    file_name.append(timestamp.as_str());
                    file_name.append(".log");
                    Some(
                        LogRotation {
                            from: self.get_log_file(process_id),
                            to: LogPath { dir: self.log_dir.clone(), file_name },
                            timestamp,
                        },
                    )
                } else {
                    None
                }
            },
            None => None,
        }
    }
}

} // verus!
