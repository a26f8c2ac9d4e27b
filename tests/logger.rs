use bryggio::logger::{debug, error, info, LogLevel, LogMsg, Log, _warning};

#[test]
fn test_ord() {
    assert!(LogLevel::Debug < LogLevel::Info);
    assert!(!(LogLevel::Debug > LogLevel::Info));
    assert!((LogLevel::Error > LogLevel::Info));
}

#[test]
fn levels_are_totally_ordered() {
    let all = [LogLevel::Debug, LogLevel::Info, LogLevel::Warning, LogLevel::Error];
    for i in 0..4 {
        for j in 0..4 {
            assert_eq!(all[i] < all[j], i < j);
            assert_eq!(all[i] == all[j], i == j);
        }
    }
}

#[test]
fn info_filter_drops_debug_only() {
    let log = Log::new(LogLevel::Info);
    assert!(log.debug("d").is_none());
    assert_eq!(log.info("i"), Some(String::from("Info: i")));
    assert_eq!(log.warning("w"), Some(String::from("Warning: w")));
    assert_eq!(log.error("e"), String::from("Error: e"));
    assert_eq!(log.log("x", LogLevel::Debug), None);
}

#[test]
fn error_filter_passes_only_errors() {
    let log = Log::new(LogLevel::Error);
    assert!(log.info("i").is_none());
    assert!(log.warning("w").is_none());
    assert_eq!(log.error("boom"), String::from("Error: boom"));
}

#[test]
fn level_from_subject() {
    assert_eq!(LogLevel::from_msg_subject("log.info.actor").ok(), Some(LogLevel::Info));
    assert_eq!(LogLevel::from_msg_subject("log.error").ok(), Some(LogLevel::Error));
    assert_eq!(LogLevel::from_msg_subject("log.warning.a.b").ok(), Some(LogLevel::Warning));
    assert!(LogLevel::from_msg_subject("log").is_err());
    assert!(LogLevel::from_msg_subject("log.").is_err());
    assert!(LogLevel::from_msg_subject("log.verbose.x").is_err());
    assert_eq!(LogLevel::from_name("debug").ok(), Some(LogLevel::Debug));
    assert!(LogLevel::from_name("Debug").is_err());
}

#[test]
fn main_subjects() {
    assert_eq!(LogLevel::Debug.main_subject().0, "log.debug");
    assert_eq!(LogLevel::Warning.main_subject().0, "log.warning");
}

#[test]
fn records_are_published_as_json_strings() {
    let msg = LogMsg::new(String::from("tank \"A\" ready"));
    let (subj, payload) = info(&msg, "actor").unwrap();
    assert_eq!(subj.0, "log.info.actor");
    assert_eq!(payload.0, "\"tank \\\"A\\\" ready\"");
    let (subj, _) = debug(&msg, "x").unwrap();
    assert_eq!(subj.0, "log.debug.x");
    let (subj, _) = _warning(&msg, "y").unwrap();
    assert_eq!(subj.0, "log.warning.y");
    let (subj, _) = error(&msg, "z").unwrap();
    assert_eq!(subj.0, "log.error.z");
}

#[test]
fn received_records_are_decoded_and_filtered() {
    let log = Log::new(LogLevel::Info);
    assert_eq!(log.handle_record("log.info.a", b"\"hello\""), Some(String::from("Info: hello")));
    assert_eq!(log.handle_record("log.debug.a", b"\"hello\""), None);
    let bad = log.handle_record("log.info.a", b"not json").unwrap();
    assert!(bad.starts_with("Error: "));
    let unknown = log.handle_record("log.loud.a", b"\"x\"").unwrap();
    assert!(unknown.starts_with("Error: "));
}

#[test]
fn record_line_reports_decoding_errors() {
    let log = Log::new(LogLevel::Warning);
    assert_eq!(log.record_line("log.error.x", Ok(String::from("t"))), Some(String::from("Error: t")));
    assert_eq!(log.record_line("log.info.x", Ok(String::from("t"))), None);
    assert_eq!(log.record_line("log.info.x", Err(String::from("bad"))), Some(String::from("Error: bad")));
}

#[test]
fn record_payload_escapes_control_characters() {
    let msg = LogMsg::new(String::from("a\nb\u{1}\\"));
    let (_, payload) = info(&msg, "x").unwrap();
    assert_eq!(payload.0, "\"a\\nb\\u0001\\\\\"");
}
