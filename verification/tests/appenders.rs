use fast_log::consts::LogSize;
use fast_log::plugin::{buffer, logger_buffer};
use fast_log::record::command_record;
use fast_log::{Command, FastLogRecord};

fn line(module: &str, text: &str) -> FastLogRecord {
    let mut r = command_record(Command::CommandRecord, text.to_string());
    r.module = module.to_string();
    r
}

#[test]
fn buffer_appender_collects_lines_in_the_second_buffer() {
    let mut b = buffer::BufferAppender::new(64).unwrap();
    let reports = b.do_logs(&[line("", "ab"), line("", "cd")]);
    assert!(reports.is_empty());
    assert_eq!(b.get_buffer().as_str(), "abcd");
}

#[test]
fn buffer_appender_get_buffer_is_writable() {
    let mut b = buffer::BufferAppender::new(0).unwrap();
    b.get_buffer().push_str("x");
    b.do_logs(&[line("", "y")]);
    assert_eq!(b.get_buffer().as_str(), "xy");
}

#[test]
fn buffer_appender_reports_its_size_at_exit() {
    let mut b = buffer::BufferAppender::new(77).unwrap();
    let exit = command_record(Command::CommandExit, "e".to_string());
    let reports = b.do_logs(&[line("", "a"), exit.clone(), exit]);
    assert_eq!(reports, vec![77, 77]);
    assert_eq!(b.get_buffer().as_str(), "aee");
}

#[test]
fn buffer_appender_flush_keeps_the_second_buffer() {
    let mut b = buffer::BufferAppender::new(8).unwrap();
    let f = command_record(Command::CommandFlush(3), "f".to_string());
    let reports = b.do_logs(&[line("", "a"), f]);
    assert!(reports.is_empty());
    assert_eq!(b.get_buffer().as_str(), "af");
}

#[test]
fn logger_buffer_keeps_one_buffer_per_module() {
    let mut b = logger_buffer::BufferAppender::new(LogSize::KB(1)).unwrap();
    let (reports, end) = b.do_logs(&[line("a", "1"), line("b", "2"), line("a", "3")]);
    assert!(reports.is_empty());
    assert!(!end);
    assert_eq!(b.get_buffer("a").as_str(), "13");
    assert_eq!(b.get_buffer("b").as_str(), "2");
    assert_eq!(b.get_buffer("c").as_str(), "");
}

#[test]
fn logger_buffer_empties_a_buffer_over_the_limit() {
    let mut b = logger_buffer::BufferAppender::new(LogSize::B(3)).unwrap();
    let (reports, end) = b.do_logs(&[line("a", "12"), line("b", "1"), line("a", "34")]);
    assert_eq!(reports, vec![4]);
    assert!(!end);
    assert_eq!(b.get_buffer("a").as_str(), "");
    assert_eq!(b.get_buffer("b").as_str(), "1");
}

#[test]
fn logger_buffer_counts_bytes_not_chars() {
    let mut b = logger_buffer::BufferAppender::new(LogSize::B(3)).unwrap();
    let (reports, _) = b.do_logs(&[line("a", "éé")]);
    assert_eq!(reports, vec![4]);
}

#[test]
fn logger_buffer_exit_reports_and_empties_all() {
    let mut b = logger_buffer::BufferAppender::new(LogSize::KB(1)).unwrap();
    let mut exit = command_record(Command::CommandExit, "!".to_string());
    exit.module = "b".to_string();
    let (reports, end) = b.do_logs(&[line("a", "xyz"), exit, line("a", "q")]);
    assert_eq!(reports, vec![3, 1]);
    assert!(end);
    assert_eq!(b.get_buffer("a").as_str(), "q");
    assert_eq!(b.get_buffer("b").as_str(), "");
}

#[test]
fn log_size_lengths() {
    assert_eq!(LogSize::B(5).len(), 5);
    assert_eq!(LogSize::KB(2).len(), 2048);
    assert_eq!(LogSize::MB(1).len(), 1048576);
    assert_eq!(LogSize::GB(1).len(), 1073741824);
    assert_eq!(LogSize::TB(1).len(), 1099511627776);
    assert_eq!(LogSize::EB(1).len(), 1152921504606846976);
    assert_eq!(LogSize::EB(0).len(), 0);
}
