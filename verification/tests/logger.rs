use uplink::logger::{
    debug, error, get_log_entries, info, set_max_logs, set_save_to_file, set_write_to_stdout,
    warn, Log, LogLevel, Logger,
};

fn stamp(second: u32) -> String {
    format!("2024-03-05 10:20:{:02}.123456 +01:00", second)
}

#[test]
fn new_logger_is_empty_and_quiet() {
    let mut logger = Logger::new(String::from("/tmp/uplink.log"));
    assert_eq!(logger.log_file(), "/tmp/uplink.log");
    assert!(get_log_entries(&logger).is_empty());
    let d = logger.log_at(LogLevel::Info, "hello", &stamp(1));
    assert!(!d.write_to_file);
    assert!(!d.write_to_stdout);
}

#[test]
fn log_keeps_first_nineteen_characters_of_stamp() {
    let mut logger = Logger::new(String::from("log"));
    let d = logger.log_at(LogLevel::Warn, "disk almost full", &stamp(7));
    assert_eq!(d.entry.datetime, stamp(7));
    assert_eq!(d.entry.message, "disk almost full");
    assert_eq!(d.entry.level, LogLevel::Warn);
    let entries = get_log_entries(&logger);
    assert_eq!(entries.len(), 1);
    assert_eq!(entries[0].datetime, "2024-03-05 10:20:07");
    assert_eq!(entries[0].message, "disk almost full");
    assert_eq!(entries[0].level, LogLevel::Warn);
}

#[test]
fn log_holds_one_entry_less_than_its_bound() {
    let mut logger = Logger::new(String::from("log"));
    set_max_logs(&mut logger, 3);
    for i in 0..5u32 {
        let message = format!("message {}", i);
        logger.log_at(LogLevel::Debug, &message, &stamp(i));
    }
    let entries = get_log_entries(&logger);
    assert_eq!(entries.len(), 2);
    assert_eq!(entries[0].message, "message 3");
    assert_eq!(entries[1].message, "message 4");
}

#[test]
fn log_with_bound_one_stays_empty() {
    let mut logger = Logger::new(String::from("log"));
    set_max_logs(&mut logger, 1);
    logger.log_at(LogLevel::Error, "lost", &stamp(2));
    assert!(get_log_entries(&logger).is_empty());
}

#[test]
fn lowering_the_bound_keeps_the_size() {
    let mut logger = Logger::new(String::from("log"));
    for i in 0..4u32 {
        logger.log_at(LogLevel::Info, &format!("m{}", i), &stamp(i));
    }
    set_max_logs(&mut logger, 2);
    logger.log_at(LogLevel::Info, "m4", &stamp(4));
    let entries = get_log_entries(&logger);
    assert_eq!(entries.len(), 4);
    assert_eq!(entries[0].message, "m1");
    assert_eq!(entries[3].message, "m4");
}

#[test]
fn default_bound_is_a_hundred() {
    let mut logger = Logger::new(String::from("log"));
    for i in 0..150u32 {
        logger.log_at(LogLevel::Info, &format!("m{}", i), &stamp(i % 60));
    }
    let entries = get_log_entries(&logger);
    assert_eq!(entries.len(), 99);
    assert_eq!(entries[98].message, "m149");
    assert_eq!(entries[0].message, "m51");
}

#[test]
fn dispatch_follows_the_switches() {
    let mut logger = Logger::new(String::from("log"));
    set_save_to_file(&mut logger, true);
    let d = logger.log_at(LogLevel::Info, "a", &stamp(0));
    assert!(d.write_to_file);
    assert!(!d.write_to_stdout);
    set_write_to_stdout(&mut logger, true);
    set_save_to_file(&mut logger, false);
    let d = logger.log_at(LogLevel::Info, "b", &stamp(0));
    assert!(!d.write_to_file);
    assert!(d.write_to_stdout);
}

#[test]
fn level_functions_use_the_clock() {
    let mut logger = Logger::new(String::from("log"));
    let d = debug(&mut logger, "one");
    assert_eq!(d.entry.level, LogLevel::Debug);
    assert!(d.entry.datetime.len() >= 19);
    warn(&mut logger, "two");
    info(&mut logger, "three");
    error(&mut logger, "four");
    let entries = get_log_entries(&logger);
    let levels: Vec<LogLevel> = entries.iter().map(|e| e.level).collect();
    assert_eq!(levels, vec![LogLevel::Debug, LogLevel::Warn, LogLevel::Info, LogLevel::Error]);
    for e in &entries {
        assert_eq!(e.datetime.len(), 19);
        assert_eq!(&e.datetime[4..5], "-");
        assert_eq!(&e.datetime[10..11], " ");
    }
    assert_eq!(entries[0].datetime, d.entry.datetime[0..19]);
}

#[test]
fn labels_and_colors() {
    assert_eq!(LogLevel::Debug.label(), "DEBUG");
    assert_eq!(LogLevel::Info.label(), "WARN");
    assert_eq!(LogLevel::Warn.label(), "INFO");
    assert_eq!(LogLevel::Error.label(), "ERROR");
    assert_eq!(LogLevel::Debug.color(), "rgb(0, 255, 0)");
    assert_eq!(LogLevel::Info.color(), "rgb(0, 195, 255)");
    assert_eq!(LogLevel::Warn.color(), "yellow");
    assert_eq!(LogLevel::Error.color(), "red");
}

#[test]
fn log_line_format() {
    let log = Log {
        level: LogLevel::Error,
        message: String::from("boom"),
        datetime: String::from("2024-03-05 10:20:07"),
    };
    assert_eq!(log.to_line(), "ERROR | 2024-03-05 10:20:07 | boom");
    let copy = log.duplicate();
    assert_eq!(copy.message, "boom");
}

#[test]
fn non_ascii_message_is_kept_whole() {
    let mut logger = Logger::new(String::from("log"));
    logger.log_at(LogLevel::Info, "héllo wörld ✓", &stamp(9));
    assert_eq!(get_log_entries(&logger)[0].message, "héllo wörld ✓");
}
