use process_supervisor::commands::get_logs;
use process_supervisor::log_handler::{apply_limit, encode_entry, parse_entries, LogHandler};
use process_supervisor::output_capture::{capture_job_line, capture_line, OutputStream};
use process_supervisor::timestamp::{backup_timestamp, event_timestamp, log_timestamp};
use process_supervisor::types::LogEntry;

fn shape(text: &str) -> String {
    text.chars().map(|c| if c.is_ascii_digit() { '9' } else { c }).collect()
}

fn triples(entries: &[LogEntry]) -> Vec<(String, String, String)> {
    entries
        .iter()
        .map(|e| (e.timestamp.clone(), e.level.clone(), e.message.clone()))
        .collect()
}

fn five_lines() -> String {
    let mut content = String::new();
    for i in 0..5 {
        content.push_str(&encode_entry(
            &format!("2024-05-01 10:00:0{}.000", i),
            "stdout",
            &format!("line {}", i),
        ));
    }
    content
}

#[test]
fn timestamps_have_their_pattern() {
    assert_eq!(shape(&log_timestamp()), "9999-99-99 99:99:99.999");
    assert_eq!(shape(&event_timestamp()), "99:99:99.999");
    assert_eq!(shape(&backup_timestamp()), "99999999_999999");
}

#[test]
fn timestamps_show_a_date_and_a_time_of_day() {
    let numbers = |text: &str| -> Vec<u32> {
        text.split(|c: char| !c.is_ascii_digit())
            .filter(|part| !part.is_empty())
            .map(|part| part.parse().unwrap())
            .collect()
    };
    let n = numbers(&log_timestamp());
    assert_eq!(n.len(), 7);
    assert!(n[0] >= 2024);
    assert!((1..=12).contains(&n[1]) && (1..=31).contains(&n[2]));
    assert!(n[3] < 24 && n[4] < 60 && n[5] <= 60 && n[6] < 1000);
    let n = numbers(&event_timestamp());
    assert_eq!(n.len(), 4);
    assert!(n[0] < 24 && n[1] < 60 && n[2] <= 60 && n[3] < 1000);
    let stamp = backup_timestamp();
    assert_eq!(stamp.len(), 15);
    assert_eq!(stamp.chars().nth(8), Some('_'));
}

#[test]
fn log_file_lies_in_the_log_directory() {
    let handler = LogHandler::new("/data/logs".to_string());
    assert_eq!(handler.log_dir(), "/data/logs");
    let path = handler.get_log_file("abc-123");
    assert_eq!(path.dir, "/data/logs");
    assert_eq!(path.file_name, "abc-123.log");
    assert_eq!(handler.get_log_file("").file_name, ".log");
}

#[test]
fn encoded_line_has_the_documented_form() {
    assert_eq!(
        encode_entry("2024-05-01 10:00:00.123", "stderr", "boom [1]"),
        "[2024-05-01 10:00:00.123] [stderr] boom [1]\n"
    );
    assert_eq!(encode_entry("", "", ""), "[] [] \n");
}

#[test]
fn write_log_stamps_and_encodes() {
    let handler = LogHandler::new("logs".to_string());
    let w = handler.write_log("p1", "stdout", "hello world");
    assert_eq!(w.path.dir, "logs");
    assert_eq!(w.path.file_name, "p1.log");
    assert_eq!(shape(&w.timestamp), "9999-99-99 99:99:99.999");
    assert_eq!(w.line, format!("[{}] [stdout] hello world\n", w.timestamp));
}

#[test]
fn parse_reads_back_what_was_written() {
    let entries = parse_entries(&five_lines());
    assert_eq!(entries.len(), 5);
    for (i, e) in entries.iter().enumerate() {
        assert_eq!(e.timestamp, format!("2024-05-01 10:00:0{}.000", i));
        assert_eq!(e.level, "stdout");
        assert_eq!(e.message, format!("line {}", i));
    }
}

#[test]
fn read_with_limit_keeps_the_last_entries_in_order() {
    let handler = LogHandler::new("logs".to_string());
    let content = five_lines();
    let all = triples(&handler.read_logs(Some(&content), None));
    assert_eq!(all.len(), 5);
    for k in 0..5usize {
        let got = triples(&handler.read_logs(Some(&content), Some(k)));
        assert_eq!(got, all[5 - k..].to_vec(), "limit {}", k);
    }
    for k in [5usize, 6, 1000, usize::MAX] {
        let got = triples(&handler.read_logs(Some(&content), Some(k)));
        assert_eq!(got, all, "limit {}", k);
    }
    let last_two = handler.read_logs(Some(&content), Some(2));
    assert_eq!(last_two[0].message, "line 3");
    assert_eq!(last_two[1].message, "line 4");
}

#[test]
fn read_of_missing_or_cleared_log_is_empty() {
    let handler = LogHandler::new("logs".to_string());
    assert!(handler.read_logs(None, None).is_empty());
    assert!(handler.read_logs(None, Some(3)).is_empty());
    assert!(handler.read_logs(Some(""), Some(3)).is_empty());
    let cleared = handler.clear_logs("p1", true).unwrap();
    assert_eq!(cleared.dir, "logs");
    assert_eq!(cleared.file_name, "p1.log");
    assert!(handler.clear_logs("p1", false).is_none());
    assert!(get_logs(&handler, None).is_empty());
}

#[test]
fn get_logs_shows_the_last_thousand() {
    let handler = LogHandler::new("logs".to_string());
    let mut content = String::new();
    for i in 0..1003 {
        content.push_str(&encode_entry("t", "stdout", &format!("m{}", i)));
    }
    let entries = get_logs(&handler, Some(&content));
    assert_eq!(entries.len(), 1000);
    assert_eq!(entries[0].message, "m3");
    assert_eq!(entries[999].message, "m1002");
}

#[test]
fn lines_without_two_bracketed_parts_are_dropped() {
    let content = "\n\
        plain text\n\
        [only one] part\n\
        [2024] [stdout] kept\n\
        [a] [unclosed\n\
        ] [ ] [\n\
        \r\n\
        [t2] [stderr]   spaced out  \r\n\
        [t3] [stdout]\n\
        no newline at end [x] [y] tail";
    let got = triples(&parse_entries(content));
    let expected: Vec<(String, String, String)> = [
        ("2024", "stdout", "kept"),
        ("t2", "stderr", "spaced out"),
        ("t3", "stdout", ""),
        ("x", "y", "tail"),
    ]
    .iter()
    .map(|(a, b, c)| (a.to_string(), b.to_string(), c.to_string()))
    .collect();
    assert_eq!(got, expected);
}

#[test]
fn brackets_in_the_message_are_kept() {
    let line = encode_entry("t", "stdout", "  [warn] a[0] = ]x[  ");
    let got = triples(&parse_entries(&line));
    assert_eq!(got, vec![("t".to_string(), "stdout".to_string(), "[warn] a[0] = ]x[".to_string())]);
}

#[test]
fn apply_limit_takes_the_tail() {
    let entries = parse_entries(&five_lines());
    let kept = apply_limit(entries, Some(0));
    assert!(kept.is_empty());
    let kept = apply_limit(parse_entries(&five_lines()), Some(1));
    assert_eq!(kept.len(), 1);
    assert_eq!(kept[0].message, "line 4");
    let kept = apply_limit(parse_entries(&five_lines()), None);
    assert_eq!(kept.len(), 5);
}

#[test]
fn rotation_is_asked_for_above_the_limit() {
    let handler = LogHandler::new("logs".to_string());
    let mb: u64 = 1024 * 1024;
    assert!(handler.rotate_log("p", 10, None).is_none());
    assert!(handler.rotate_log("p", 10, Some(0)).is_none());
    assert!(handler.rotate_log("p", 10, Some(10 * mb)).is_none());
    assert!(handler.rotate_log("p", 10, Some(11 * mb - 1)).is_none());
    let r = handler.rotate_log("p", 10, Some(11 * mb)).unwrap();
    assert_eq!(r.from.dir, "logs");
    assert_eq!(r.from.file_name, "p.log");
    assert_eq!(r.to.dir, "logs");
    assert_eq!(shape(&r.timestamp), "99999999_999999");
    assert_eq!(r.to.file_name, format!("p.{}.log", r.timestamp));
    assert!(handler.rotate_log("p", 0, Some(mb)).is_some());
    assert!(handler.rotate_log("p", 0, Some(mb - 1)).is_none());
    assert!(handler.rotate_log("p", u64::MAX, Some(u64::MAX)).is_none());
}

#[test]
fn captured_lines_are_logged_and_announced() {
    let handler = LogHandler::new("logs".to_string());
    let c = capture_line(&handler, "id-1", OutputStream::Stderr, "oops");
    assert_eq!(c.append.path.file_name, "id-1.log");
    assert_eq!(c.append.line, format!("[{}] [stderr] oops\n", c.append.timestamp));
    assert_eq!(c.event_name, "process:log:id-1");
    assert_eq!(shape(&c.event.timestamp), "99:99:99.999");
    assert_eq!(c.event.level, "stderr");
    assert_eq!(c.event.message, "oops");
    assert_eq!(OutputStream::Stdout.level_name(), "stdout");
    assert_eq!(OutputStream::Stderr.level_name(), "stderr");
}

#[test]
fn per_stream_order_is_kept() {
    let handler = LogHandler::new("logs".to_string());
    let mut content = String::new();
    for i in 0..5 {
        let c = capture_line(&handler, "p", OutputStream::Stdout, &format!("out {}", i));
        content.push_str(&c.append.line);
    }
    let entries = handler.read_logs(Some(&content), Some(3));
    let messages: Vec<String> = entries.iter().map(|e| e.message.clone()).collect();
    assert_eq!(messages, vec!["out 2".to_string(), "out 3".to_string(), "out 4".to_string()]);
    assert!(entries.iter().all(|e| e.level == "stdout"));
}

#[test]
fn job_lines_carry_the_error_flag() {
    let o = capture_job_line("job-1", OutputStream::Stdout, "done");
    assert_eq!(o.job_id, "job-1");
    assert_eq!(o.line, "done");
    assert!(!o.is_error);
    assert_eq!(shape(&o.timestamp), "99:99:99.999");
    let e = capture_job_line("job-1", OutputStream::Stderr, "bad");
    assert!(e.is_error);
    assert!(OutputStream::Stderr.is_error());
    assert!(!OutputStream::Stdout.is_error());
}
