use tui_logger::clock::Timestamp;
use tui_logger::logger::ExtLogRecord;
use tui_logger::logger::HotLog;
use tui_logger::logger::Record;
use tui_logger::logger::TuiLogger;
use tui_logger::logger::TuiLoggerInner;
use tui_logger::set_buffer_depth;
use tui_logger::set_default_level;
use tui_logger::set_level_for_target;
use tui_logger::Level;
use tui_logger::LevelFilter;

fn record(level: Level, target: &str, msg: &str) -> Record {
    Record {
        level,
        target: target.to_string(),
        file: None,
        line: None,
        module: None,
        msg: msg.to_string(),
    }
}

fn stamp(millis: i64) -> Timestamp {
    Timestamp {
        secs: millis.div_euclid(1000),
        nanos: millis.rem_euclid(1000) as u32 * 1_000_000,
        offset: 0,
    }
}

fn entry(millis: i64) -> ExtLogRecord {
    ExtLogRecord::new(&record(Level::Info, "t", "m"), stamp(millis))
}

#[test]
fn gaps_of_a_record_are_filled() {
    let entry = ExtLogRecord::new(&record(Level::Warn, "net", "hello"), stamp(5));
    assert_eq!(entry.timestamp, stamp(5));
    assert_eq!(entry.level, Level::Warn);
    assert_eq!(entry.target, "net");
    assert_eq!(entry.file, "?");
    assert_eq!(entry.line, 0);
    assert_eq!(entry.msg, "hello");
    let full = Record {
        file: Some("src/main.rs".to_string()),
        line: Some(17),
        ..record(Level::Warn, "net", "hello")
    };
    let entry = ExtLogRecord::new(&full, stamp(5));
    assert_eq!(entry.file, "src/main.rs");
    assert_eq!(entry.line, 17);
}

#[test]
fn raw_log_takes_the_time() {
    let mut log = HotLog::new(10);
    let before = chrono::Local::now();
    log.raw_log(&record(Level::Info, "t", "now"));
    let after = chrono::Local::now();
    let events = log.events.iter();
    let taken = events[0].timestamp;
    assert_eq!(events[0].msg, "now");
    assert!(before.timestamp_millis() as i128 <= taken.timestamp_millis());
    assert!(taken.timestamp_millis() <= after.timestamp_millis() as i128);
    assert_eq!(taken.offset, before.offset().local_minus_utc());
    assert!(taken.nanos < 2_000_000_000);
}

#[test]
fn signal_comes_with_each_half() {
    let mut log = HotLog::new(6);
    let signals: Vec<bool> = (0..9).map(|i| log.push_entry(entry(i))).collect();
    assert_eq!(signals, vec![false, false, true, false, false, true, false, false, true]);
    assert_eq!(log.events.len(), 6);
    let mut log = HotLog::new(3);
    assert!(log.push_entry(entry(0)));
}

#[test]
fn new_logger_records_from_info_on() {
    let inner = TuiLoggerInner::new();
    assert_eq!(inner.events.capacity(), 10000);
    assert_eq!(inner.default, LevelFilter::Info);
    assert_eq!(inner.total_events, 0);
    assert!(inner.enabled("any", Level::Info));
    assert!(!inner.enabled("any", Level::Debug));
}

#[test]
fn filters_decide_what_is_enabled() {
    let mut inner = TuiLoggerInner::new();
    set_default_level(&mut inner, LevelFilter::Warn);
    set_level_for_target(&mut inner, "net", LevelFilter::Trace);
    set_level_for_target(&mut inner, "quiet", LevelFilter::Off);
    assert!(inner.enabled("net", Level::Trace));
    assert!(!inner.enabled("quiet", Level::Error));
    assert!(inner.enabled("other", Level::Warn));
    assert!(!inner.enabled("other", Level::Info));
}

#[test]
fn only_enabled_records_are_logged() {
    let mut logger = TuiLogger::new(4);
    assert!(!logger.log(&record(Level::Debug, "t", "dropped")));
    assert!(!logger.log(&record(Level::Info, "t", "first")));
    assert!(logger.log(&record(Level::Error, "t", "second")));
    let msgs: Vec<&str> = logger.hot_log.events.iter().iter().map(|e| e.msg.as_str()).collect();
    assert_eq!(msgs, vec!["first", "second"]);
    assert_eq!(logger.hot_log.events.total_elements(), 2);
}

#[test]
fn setting_the_depth_deletes_messages() {
    let mut inner = TuiLoggerInner::new();
    inner.events.push(entry(1));
    set_default_level(&mut inner, LevelFilter::Debug);
    set_buffer_depth(&mut inner, 3);
    assert!(inner.events.is_empty());
    assert_eq!(inner.events.capacity(), 3);
    assert_eq!(inner.default, LevelFilter::Debug);
}

#[test]
fn rate_spans_the_whole_buffer() {
    let mut inner = TuiLoggerInner::new();
    assert_eq!(inner.rate(), None);
    inner.events.push(entry(1000));
    assert_eq!(inner.rate(), None);
    inner.events.push(entry(1100));
    inner.events.push(entry(1500));
    assert_eq!(inner.rate(), Some((3, 500)));
    inner.events.push(entry(900));
    assert_eq!(inner.rate(), None);
}

#[test]
fn points_in_time_are_ordered_and_counted() {
    let early = Timestamp { secs: -2, nanos: 999_999_999, offset: 3600 };
    let late = Timestamp { secs: -1, nanos: 0, offset: -3600 };
    assert!(early.is_before(&late));
    assert!(!late.is_before(&early));
    assert!(!late.is_before(&late));
    assert_eq!(early.timestamp_millis(), -1001);
    assert_eq!(late.timestamp_millis(), -1000);
    let chrono_early = chrono::DateTime::from_timestamp(-2, 999_999_999).unwrap();
    assert_eq!(chrono_early.timestamp_millis() as i128, early.timestamp_millis());
}
