use fast_log::formats::{chrono_can_render, custom_line, decimal_text, fastdate_can_render, format_line, level_name, CustomLog, LogFormat};
use fast_log::record::{timestamp_now, timestamp_of, Timestamp};
use fast_log::console_filter::{colorize, str_contains, ConsoleAppenderWithFilter, LogFilter};
use fast_log::record::command_record;
use fast_log::{Command, Level};

#[test]
fn colorize_wraps_in_the_level_colour() {
    assert_eq!(colorize(Level::Error, "x"), "\x1b[31mx\x1b[0m");
    assert_eq!(colorize(Level::Warn, "x"), "\x1b[33mx\x1b[0m");
    assert_eq!(colorize(Level::Info, ""), "\x1b[32m\x1b[0m");
    assert_eq!(colorize(Level::Debug, "d"), "\x1b[36md\x1b[0m");
    assert_eq!(colorize(Level::Trace, "t"), "\x1b[35mt\x1b[0m");
}

#[test]
fn console_filter_shows_info_and_above_in_order() {
    let mut recs = Vec::new();
    for (lvl, text) in [(Level::Debug, "d"), (Level::Error, "e"), (Level::Trace, "t"), (Level::Info, "i"), (Level::Warn, "w")] {
        let mut r = command_record(Command::CommandRecord, text.to_string());
        r.level = lvl;
        recs.push(r);
    }
    let out = ConsoleAppenderWithFilter {}.do_logs(&recs);
    let lines: Vec<String> = out.iter().map(|r| r.formated.clone()).collect();
    assert_eq!(lines, vec!["\x1b[31me\x1b[0m", "\x1b[32mi\x1b[0m", "\x1b[33mw\x1b[0m"]);
}

#[test]
fn substring_search() {
    assert!(str_contains("abc", ""));
    assert!(str_contains("abc", "bc"));
    assert!(!str_contains("abc", "cb"));
    assert!(!str_contains("ab", "abc"));
    assert!(str_contains("/home/u/.cargo/registry/x.rs", ".cargo"));
    assert!(str_contains("ééx", "éx"));
}

#[test]
fn log_filter_drops_cargo_sources() {
    let f = LogFilter {};
    assert!(f.do_log(None));
    assert!(f.do_log(Some("src/main.rs")));
    assert!(!f.do_log(Some("/root/.cargo/registry/src/lib.rs")));
}

#[test]
fn example_line_formats() {
    assert_eq!(decimal_text(0), "0");
    assert_eq!(decimal_text(7), "7");
    assert_eq!(decimal_text(1204), "1204");
    assert_eq!(decimal_text(u32::MAX), "4294967295");
    assert_eq!(level_name(Level::Warn), "WARN");
    assert_eq!(
        format_line("T", Level::Info, "a.rs", Some(12), "hi", false),
        "[T] [INFO] [a.rs:12]: hi\n"
    );
    assert_eq!(format_line("T", Level::Error, "a.rs", None, "hi", false), "[T] [ERROR] [a.rs:0]: hi\n");
    assert_eq!(format_line("T", Level::Debug, "a.rs", Some(1), "hi", true), "[T] [DEBUG]: hi\n");
    assert_eq!(custom_line("T", Level::Trace, "m", "x"), "T TRACE m - x\n");

    let mut r = command_record(Command::CommandRecord, String::new());
    r.args = "msg".to_string();
    r.file = "f.rs".to_string();
    r.line = Some(9);
    r.now = Timestamp { secs: 0, nanos: 0 };
    LogFormat { short: false }.do_format(&mut r);
    assert_eq!(r.formated, "[1970-01-01 00:00:00.000000] [INFO] [f.rs:9]: msg\n");
    r.module = "m".to_string();
    let lines = CustomLog {}.do_logs(&[r.clone()]);
    assert_eq!(lines.len(), 1);
    assert!(lines[0].starts_with("1970-01-01"));
    assert!(lines[0].ends_with(" INFO m - msg\n"));
}

#[test]
fn time_stamps_at_the_edges_of_the_ranges() {
    let mut r = command_record(Command::CommandRecord, String::new());
    r.args = "m".to_string();
    r.now = Timestamp { secs: 8210266876799, nanos: 999_999_999 };
    assert!(chrono_can_render(r.now));
    LogFormat { short: true }.do_format(&mut r);
    assert_eq!(r.formated, "[+262142-12-31 23:59:59.999999] [INFO]: m\n");
    assert!(!chrono_can_render(Timestamp { secs: 8210266876800, nanos: 0 }));
    r.now = Timestamp { secs: -8334601228800, nanos: 0 };
    assert!(chrono_can_render(r.now));
    LogFormat { short: true }.do_format(&mut r);
    assert!(r.formated.starts_with("[-262143-01-01 00:00:00.000000]"));
    assert!(!chrono_can_render(Timestamp { secs: -8334601228801, nanos: 0 }));
    assert!(!chrono_can_render(Timestamp { secs: 0, nanos: 1_000_000_000 }));

    r.now = Timestamp { secs: 253402300799, nanos: 999_999_999 };
    assert!(fastdate_can_render(r.now));
    let lines = CustomLog {}.do_logs(&[r.clone()]);
    assert!(lines[0].starts_with("9999-12-31"));
    r.now = Timestamp { secs: -62167219200, nanos: 0 };
    assert!(fastdate_can_render(r.now));
    let lines = CustomLog {}.do_logs(&[r.clone()]);
    assert!(lines[0].starts_with("0000-01-01"));
    assert!(!fastdate_can_render(Timestamp { secs: 253402300800, nanos: 0 }));
    assert!(!fastdate_can_render(Timestamp { secs: -62167219201, nanos: 0 }));
}

#[test]
fn timestamps_from_distances_to_the_epoch() {
    assert_eq!(timestamp_of(Ok((5, 7))), Timestamp { secs: 5, nanos: 7 });
    assert_eq!(timestamp_of(Err((5, 0))), Timestamp { secs: -5, nanos: 0 });
    assert_eq!(timestamp_of(Err((5, 250_000_000))), Timestamp { secs: -6, nanos: 750_000_000 });
    assert_eq!(timestamp_of(Ok((u64::MAX, 1))), Timestamp { secs: i64::MAX, nanos: 999_999_999 });
    assert_eq!(timestamp_of(Err((1u64 << 63, 0))), Timestamp { secs: i64::MIN, nanos: 0 });
    assert_eq!(timestamp_of(Err((1u64 << 63, 1))), Timestamp { secs: i64::MIN, nanos: 0 });
    let mut r = command_record(Command::CommandRecord, String::new());
    r.now = timestamp_of(Err((1, 500_000_000)));
    LogFormat { short: true }.do_format(&mut r);
    assert!(r.formated.starts_with("[1969-12-31 23:59:58.500000]"));
    assert!(timestamp_now().nanos < 1_000_000_000);
    assert!(timestamp_now().secs > 1_600_000_000);
}
