use fast_log::fast_log::{batch_has_exit, needs_format};
use fast_log::record::command_record;
use fast_log::{
    exit, flush, init, logger, print, Appender, Command, Config, FastLogRecord, Level, LevelFilter,
    Logger, Loggers, Registry,
};

fn console_config() -> Config {
    Config::new().console().chan_len(Some(100))
}

fn send_all(registry: &mut Registry) -> usize {
    let out = registry.take_outbox();
    let n = out.len();
    for (name, record) in out {
        registry.get(&name).unwrap().send.as_ref().unwrap().send(record).unwrap();
    }
    n
}

fn drain(logger: &Logger) -> Vec<FastLogRecord> {
    let recv = logger.recv.as_ref().unwrap();
    let mut out = Vec::new();
    while let Ok(r) = recv.try_recv() {
        out.push(r);
    }
    out
}

#[test]
fn new_registry_is_empty() {
    let registry = Registry::new();
    assert!(registry.keys().is_empty());
    assert!(!registry.contains("a"));
    assert!(registry.get("a").is_none());
}

#[test]
fn init_refuses_config_without_appenders() {
    let mut registry = Registry::new();
    let r = init(&mut registry, Config::new(), "a");
    match r {
        Err(e) => assert_eq!(e.msg, "[fast_log] appends can not be empty!"),
        Ok(_) => panic!("a config without appenders was accepted"),
    }
    assert!(!registry.contains("a"));
    assert!(registry.take_pending().is_empty());
}

#[test]
fn init_registers_a_started_logger() {
    let mut registry = Registry::new();
    {
        let l = init(&mut registry, console_config(), "a").unwrap();
        assert!(l.send.is_some());
        assert!(l.recv.is_some());
        let cfg = l.cfg.as_ref().unwrap();
        assert_eq!(cfg.chan_len, Some(100));
        assert_eq!(cfg.appends.len(), 1);
        assert!(matches!(cfg.appends[0], Appender::Console));
    }
    assert!(registry.contains("a"));
    assert_eq!(registry.keys(), vec!["a".to_string()]);
    assert_eq!(registry.take_pending(), vec!["a".to_string()]);
    assert!(registry.take_pending().is_empty());
}

#[test]
fn init_twice_replaces_the_logger() {
    let mut registry = Registry::new();
    init(&mut registry, console_config(), "a").unwrap();
    init(&mut registry, Config::new().file("x.log"), "a").unwrap();
    let l = registry.get("a").unwrap();
    assert!(matches!(&l.cfg.as_ref().unwrap().appends[0], Appender::File(p) if p == "x.log"));
    assert_eq!(registry.keys().len(), 1);
    assert_eq!(registry.take_pending().len(), 2);
}

#[test]
fn logger_finds_a_registered_name() {
    let mut registry = Registry::new();
    init(&mut registry, console_config(), "a").unwrap();
    registry.take_pending();
    let l = logger(&mut registry, "a");
    assert_eq!(l.cfg.as_ref().unwrap().chan_len, Some(100));
    assert!(!registry.contains("unknown"));
    assert!(registry.take_pending().is_empty());
}

#[test]
fn logger_falls_back_to_unknown() {
    let mut registry = Registry::new();
    {
        let l = logger(&mut registry, "missing");
        let cfg = l.cfg.as_ref().unwrap();
        assert_eq!(cfg.chan_len, Some(5000));
        assert_eq!(cfg.level, LevelFilter::Trace);
        assert!(cfg.filters.is_empty());
        assert_eq!(cfg.appends.len(), 1);
        assert!(matches!(&cfg.appends[0], Appender::File(p) if p == "unknown.log"));
    }
    assert!(registry.contains("unknown"));
    assert!(!registry.contains("missing"));
    assert_eq!(registry.take_pending(), vec!["unknown".to_string()]);
}

#[test]
fn exit_sends_one_exit_record_to_each_logger() {
    let mut registry = Registry::new();
    init(&mut registry, console_config(), "a").unwrap();
    init(&mut registry, console_config(), "b").unwrap();
    exit(&mut registry).unwrap();
    assert_eq!(send_all(&mut registry), 2);
    for key in ["a", "b"] {
        let got = drain(registry.get(key).unwrap());
        assert_eq!(got.len(), 1);
        assert!(matches!(got[0].command, Command::CommandExit));
        assert_eq!(got[0].level, Level::Info);
        assert!(got[0].formated.is_empty());
        assert!(got[0].line.is_none());
    }
}

#[test]
fn flush_sends_records_of_the_given_group() {
    let mut registry = Registry::new();
    init(&mut registry, console_config(), "a").unwrap();
    let group = flush(&mut registry, 7).unwrap();
    assert_eq!(group, 7);
    assert_eq!(send_all(&mut registry), 1);
    let got = drain(registry.get("a").unwrap());
    assert_eq!(got.len(), 1);
    assert_eq!(got[0].command, Command::CommandFlush(7));
    assert!(got[0].formated.is_empty());
}

#[test]
fn exit_on_an_empty_registry_sends_nothing() {
    let mut registry = Registry::new();
    assert!(exit(&mut registry).is_ok());
    assert!(registry.take_outbox().is_empty());
}

#[test]
fn print_reaches_every_logger() {
    let mut registry = Registry::new();
    init(&mut registry, console_config(), "a").unwrap();
    init(&mut registry, console_config(), "b").unwrap();
    assert!(print(&mut registry, "hello".to_string(), "a").is_ok());
    assert_eq!(send_all(&mut registry), 2);
    for key in ["a", "b"] {
        let got = drain(registry.get(key).unwrap());
        assert_eq!(got.len(), 1);
        assert_eq!(got[0].formated, "hello");
        assert!(matches!(got[0].command, Command::CommandRecord));
    }
    assert!(!registry.contains("unknown"));
}

#[test]
fn print_with_an_unknown_key_starts_the_fallback_first() {
    let mut registry = Registry::new();
    init(&mut registry, console_config(), "a").unwrap();
    print(&mut registry, "x".to_string(), "nope").unwrap();
    assert_eq!(send_all(&mut registry), 2);
    assert!(registry.contains("unknown"));
    assert_eq!(drain(registry.get("unknown").unwrap()).len(), 1);
    assert_eq!(drain(registry.get("a").unwrap()).len(), 1);
}

#[test]
fn logger_print_ignores_which_logger_it_is_called_on() {
    let mut registry = Registry::new();
    init(&mut registry, console_config(), "a").unwrap();
    let other = Logger::default();
    assert!(other.print(&mut registry, "line".to_string()).is_ok());
    send_all(&mut registry);
    assert_eq!(drain(registry.get("a").unwrap())[0].formated, "line");
}

#[test]
fn loggers_new_starts_its_logger() {
    let mut registry = Registry::new();
    let l = Loggers::new(&mut registry, "svc", console_config());
    assert_eq!(l.key, "svc");
    assert!(registry.contains("svc"));
    let d = Loggers::default();
    assert_eq!(d.key, "unknown");
}

#[test]
fn loggers_new_with_a_refused_config_registers_nothing() {
    let mut registry = Registry::new();
    let l = Loggers::new(&mut registry, "svc", Config::new());
    assert_eq!(l.key, "svc");
    assert!(!registry.contains("svc"));
}

#[test]
fn log_files_a_record_with_the_front_ends_logger() {
    let mut registry = Registry::new();
    let l = Loggers::new(&mut registry, "test", console_config().add_filter(7));
    l.log(
        &mut registry,
        Level::Warn,
        "t".to_string(),
        "msg".to_string(),
        Some("some::module".to_string()),
        Some("main.rs".to_string()),
        Some(3),
        &|_id: u64| true,
    );
    let out = registry.take_outbox();
    assert_eq!(out.len(), 1);
    assert_eq!(out[0].0, "test");
    let got = &out[0].1;
    assert_eq!(got.level, Level::Warn);
    assert_eq!(got.args, "msg");
    assert_eq!(got.target, "t");
    assert_eq!(got.module, "some::module");
    assert_eq!(got.file, "main.rs");
    assert_eq!(got.line, Some(3));
    assert!(got.formated.is_empty());
    assert!(!registry.contains("unknown"));
    assert!(!registry.contains("some::module"));
}

#[test]
fn log_drops_a_record_a_filter_refuses() {
    let mut registry = Registry::new();
    let l = Loggers::new(&mut registry, "m", console_config().add_filter(1).add_filter(2).add_filter(3));
    let seen = std::cell::RefCell::new(Vec::new());
    l.log(
        &mut registry,
        Level::Info,
        String::new(),
        "x".to_string(),
        None,
        None,
        None,
        &|id: u64| {
            seen.borrow_mut().push(id);
            id != 2
        },
    );
    assert!(registry.take_outbox().is_empty());
    assert_eq!(*seen.borrow(), vec![1, 2]);
}

#[test]
fn log_with_an_unregistered_front_end_goes_to_unknown() {
    let mut registry = Registry::new();
    let l = Loggers::default();
    l.log(&mut registry, Level::Error, String::new(), "x".to_string(), None, None, None, &|_id: u64| true);
    let out = registry.take_outbox();
    assert_eq!(out.len(), 1);
    assert_eq!(out[0].0, "unknown");
    assert!(out[0].1.module.is_empty());
    assert!(out[0].1.file.is_empty());
    assert_eq!(registry.take_pending(), vec!["unknown".to_string()]);
}

#[test]
fn log_then_send_reaches_the_channel() {
    let mut registry = Registry::new();
    let l = Loggers::new(&mut registry, "svc", console_config());
    l.log(&mut registry, Level::Info, String::new(), "hi".to_string(), None, None, None, &|_id: u64| true);
    assert_eq!(send_all(&mut registry), 1);
    assert_eq!(drain(registry.get("svc").unwrap())[0].args, "hi");
}

#[test]
fn init_sets_the_channel_capacity() {
    let mut registry = Registry::new();
    let cap = init(&mut registry, console_config(), "a").unwrap().send.as_ref().unwrap().capacity();
    assert_eq!(cap, Some(100));
    let cap = init(&mut registry, Config::new().console(), "b").unwrap().send.as_ref().unwrap().capacity();
    assert_eq!(cap, None);
    let cap = logger(&mut registry, "zz").send.as_ref().unwrap().capacity();
    assert_eq!(cap, Some(5000));
}

#[test]
fn level_round_trip_through_the_facade() {
    let mut registry = Registry::new();
    let l = init(&mut registry, console_config(), "a").unwrap();
    l.set_level(LevelFilter::Warn);
    assert_eq!(l.get_level(), LevelFilter::Warn);
    let ls = Loggers::default();
    ls.set_level(LevelFilter::Debug);
    assert_eq!(ls.get_level(), LevelFilter::Debug);
}

#[test]
fn batch_exit_and_format_checks() {
    let a = command_record(Command::CommandRecord, "a".to_string());
    let b = command_record(Command::CommandExit, String::new());
    assert!(!batch_has_exit(&[a.clone()]));
    assert!(batch_has_exit(&[a.clone(), b.clone()]));
    assert!(!batch_has_exit(&[]));
    assert!(!needs_format(&a));
    assert!(needs_format(&b));
}
