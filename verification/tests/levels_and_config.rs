use fast_log::record::command_record;
use fast_log::Command;
use fast_log::channel::chan;
use fast_log::level::level_enabled;
use fast_log::{Appender, Config, Level, LevelFilter};

#[test]
fn level_enabled_follows_severity() {
    assert!(level_enabled(Level::Error, LevelFilter::Error));
    assert!(!level_enabled(Level::Warn, LevelFilter::Error));
    assert!(level_enabled(Level::Info, LevelFilter::Info));
    assert!(!level_enabled(Level::Debug, LevelFilter::Info));
    assert!(level_enabled(Level::Trace, LevelFilter::Trace));
    assert!(!level_enabled(Level::Error, LevelFilter::Off));
}

#[test]
fn level_order() {
    assert!(Level::Error.le(&Level::Info));
    assert!(Level::Info.le(&Level::Info));
    assert!(!Level::Debug.le(&Level::Info));
    assert_eq!(Level::Trace.rank(), 5);
    assert_eq!(LevelFilter::Off.rank(), 0);
}

#[test]
fn config_builders() {
    let c = Config::new();
    assert!(c.appends.is_empty());
    assert!(c.filters.is_empty());
    assert_eq!(c.level, LevelFilter::Trace);
    assert_eq!(c.chan_len, None);
    let c = c.file("a.log").console().custom(9).add_filter(4).level(LevelFilter::Warn).chan_len(Some(3));
    assert_eq!(c.appends.len(), 3);
    assert!(matches!(&c.appends[0], Appender::File(p) if p == "a.log"));
    assert!(matches!(c.appends[1], Appender::Console));
    assert!(matches!(c.appends[2], Appender::Custom(9)));
    assert_eq!(c.filters, vec![4]);
    assert_eq!(c.level, LevelFilter::Warn);
    assert_eq!(c.chan_len, Some(3));
}

#[test]
fn channels_carry_records() {
    let (s, r) = chan(Some(2));
    assert_eq!(s.capacity(), Some(2));
    s.send(command_record(Command::CommandRecord, "a".to_string())).unwrap();
    s.send(command_record(Command::CommandRecord, "b".to_string())).unwrap();
    assert!(s.try_send(command_record(Command::CommandRecord, "c".to_string())).is_err());
    assert_eq!(r.recv().unwrap().formated, "a");
    let (s, r) = chan(None);
    assert_eq!(s.capacity(), None);
    for _ in 0..1000 {
        s.send(command_record(Command::CommandExit, String::new())).unwrap();
    }
    assert_eq!(r.len(), 1000);
}
