use happy_remote::logs::{
    add_log, clear_logs, console_level, get_logs, get_logs_as_string, get_logs_filtered, level_badge_style, log_entry_class,
    log_line, ClockTime, LogEntry, LogLevel, LogStore, LogViewer, LogViewerEffect, LogViewerMsg,
};

fn entry(level: LogLevel, msg: &str) -> LogEntry {
    LogEntry { timestamp: 0, level, message: msg.to_string(), source: None }
}

#[test]
fn level_names_and_colours() {
    assert_eq!(LogLevel::Debug.as_str(), "DEBUG");
    assert_eq!(LogLevel::Error.as_str(), "ERROR");
    assert_eq!(LogLevel::Info.color(), "#58a6ff");
    assert_eq!(LogLevel::Warn.color(), "#d29922");
    assert!(LogLevel::Warn.at_least(LogLevel::Info));
    assert!(!LogLevel::Log.at_least(LogLevel::Info));
    assert_eq!(console_level("WARN"), LogLevel::Warn);
    assert_eq!(console_level("LOG"), LogLevel::Log);
    assert_eq!(console_level("trace"), LogLevel::Log);
}

#[test]
fn store_keeps_the_newest_entries() {
    let mut store = LogStore::new(2);
    store.push(entry(LogLevel::Info, "a"));
    store.push(entry(LogLevel::Info, "b"));
    store.push(entry(LogLevel::Info, "c"));
    let msgs: Vec<String> = store.entries().iter().map(|e| e.message.clone()).collect();
    assert_eq!(msgs, vec!["b", "c"]);
    assert_eq!(store.len(), 2);
}

#[test]
fn store_of_capacity_zero_stays_empty() {
    let mut store = LogStore::new(0);
    store.push(entry(LogLevel::Error, "x"));
    assert_eq!(store.len(), 0);
}

#[test]
fn filtering_by_level() {
    let mut store = LogStore::new(10);
    add_log(&mut store, LogLevel::Debug, "d".to_string(), 1);
    add_log(&mut store, LogLevel::Warn, "w".to_string(), 2);
    add_log(&mut store, LogLevel::Error, "e".to_string(), 3);
    let warn: Vec<String> = get_logs_filtered(&store, LogLevel::Warn).iter().map(|e| e.message.clone()).collect();
    assert_eq!(warn, vec!["w", "e"]);
    assert_eq!(get_logs(&store).len(), 3);
    assert_eq!(store.filter_by_level(LogLevel::Debug).len(), 3);
    clear_logs(&mut store);
    assert!(get_logs(&store).is_empty());
}

#[test]
fn log_text_lines() {
    let t = ClockTime { hours: 9, minutes: 5, seconds: 3, millis: 7 };
    assert_eq!(log_line(t, LogLevel::Info, "hello"), "[09:05:03.007] [INFO] hello");
    let mut store = LogStore::new(5);
    store.push(entry(LogLevel::Warn, "one"));
    store.push(entry(LogLevel::Error, "two"));
    let times = vec![t, ClockTime { hours: 23, minutes: 59, seconds: 59, millis: 999 }];
    assert_eq!(get_logs_as_string(&store, &times), "[09:05:03.007] [WARN] one\n[23:59:59.999] [ERROR] two");
    assert_eq!(LogStore::new(3).to_string(&vec![]), "");
}

#[test]
fn viewer_filters_and_toggles() {
    let mut store = LogStore::new(10);
    store.push(entry(LogLevel::Info, "i"));
    store.push(entry(LogLevel::Error, "e"));
    let mut v = LogViewer::create(&store, false);
    assert_eq!(v.logs.len(), 2);
    assert_eq!(v.update(&mut store, LogViewerMsg::ToggleLevel(LogLevel::Error)), (true, LogViewerEffect::Nothing));
    assert_eq!(v.filter, LogLevel::Error);
    assert_eq!(v.logs.len(), 1);
    v.update(&mut store, LogViewerMsg::ToggleLevel(LogLevel::Error));
    assert_eq!(v.filter, LogLevel::Debug);
    assert_eq!(v.logs.len(), 2);
    assert_eq!(v.level_filter_class(LogLevel::Debug), "log-level-btn active debug");
    assert_eq!(v.level_filter_class(LogLevel::Warn), "log-level-btn warn");
    assert_eq!(v.update(&mut store, LogViewerMsg::Copy), (false, LogViewerEffect::CopyToClipboard));
    assert_eq!(v.update(&mut store, LogViewerMsg::Close), (true, LogViewerEffect::NotifyClosed));
    assert!(!v.visible);
    v.update(&mut store, LogViewerMsg::Clear);
    assert!(v.logs.is_empty());
    assert_eq!(store.len(), 0);
}

#[test]
fn viewer_scrolls_once_after_refresh() {
    let mut store = LogStore::new(4);
    let mut v = LogViewer::create(&store, true);
    assert!(v.rendered());
    assert!(!v.rendered());
    v.update(&mut store, LogViewerMsg::Refresh);
    assert!(v.rendered());
    assert!(v.changed(false, true));
    assert!(!v.visible);
    assert!(!v.changed(false, false));
}

#[test]
fn entry_styles() {
    assert_eq!(log_entry_class(LogLevel::Warn), "log-level-warn");
    assert_eq!(level_badge_style(LogLevel::Error), "background-color: #ff7b72");
}
