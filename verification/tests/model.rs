use happy_remote::model::{
    capabilities_to_text, parse_capabilities, parse_capability, parse_platform, parse_session_status, Capability,
    Machine, Platform, Session, SessionStatus,
};

#[test]
fn status_texts_round_trip() {
    for s in [SessionStatus::Initializing, SessionStatus::Running, SessionStatus::Paused, SessionStatus::Terminated] {
        assert_eq!(parse_session_status(s.as_str()), s);
    }
    assert_eq!(parse_session_status("bogus"), SessionStatus::Initializing);
    assert_eq!(SessionStatus::Terminated.as_str(), "terminated");
}

#[test]
fn platform_texts() {
    assert_eq!(parse_platform("macos"), Platform::MacOS);
    assert_eq!(parse_platform("windows"), Platform::Windows);
    assert_eq!(parse_platform("linux"), Platform::Linux);
    assert_eq!(parse_platform("plan9"), Platform::Linux);
    assert_eq!(Platform::MacOS.as_str(), "macos");
}

#[test]
fn capability_list_round_trip() {
    let caps = vec![Capability::Terminal, Capability::Voice, Capability::FileSystem];
    let text = capabilities_to_text(&caps);
    assert_eq!(text, "terminal,voice,file_system");
    assert_eq!(parse_capabilities(&text), caps);
    assert_eq!(parse_capability("notifications"), Some(Capability::Notifications));
    assert_eq!(parse_capability("teleport"), None);
    assert_eq!(parse_capabilities("terminal,,bogus,voice"), vec![Capability::Terminal, Capability::Voice]);
}

#[test]
fn new_session_defaults() {
    let s = Session::new("id1".into(), "tag".into(), "u".into(), "m".into(), "host".into(), 42);
    assert_eq!(s.status, SessionStatus::Initializing);
    assert_eq!(s.metadata.cwd, "/");
    assert_eq!(s.metadata.shell, "/bin/bash");
    assert!(s.metadata.env.is_empty());
    assert_eq!(s.created_at, 42);
    assert_eq!(s.last_activity, 42);
}

#[test]
fn new_machine_has_default_capabilities() {
    let m = Machine::new("m".into(), "u".into(), "box".into(), vec![1, 2], Platform::Linux, 7);
    assert_eq!(m.capabilities, vec![Capability::Terminal, Capability::FileSystem]);
    assert_eq!(m.last_seen, 7);
}

#[test]
fn uuids_are_36_characters_and_fresh() {
    let a = happy_remote::services::new_session("u", "m", "n", "t", "/").id;
    let b = happy_remote::services::new_session("u", "m", "n", "t", "/").id;
    assert_eq!(a.chars().count(), 36);
    assert_eq!(a.matches('-').count(), 4);
    assert_ne!(a, b);
}
