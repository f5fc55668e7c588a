use happy_remote::model::{Capability, Machine, Platform, SessionStatus};
use happy_remote::storage::{machine_from_row, machine_to_row, session_from_row, MachineRow, SessionRow};

fn row(status: &str, env: &str) -> SessionRow {
    SessionRow {
        id: "s1".into(),
        tag: "work".into(),
        user_id: "u1".into(),
        machine_id: "m1".into(),
        machine_name: "box".into(),
        status: status.into(),
        encrypted_data_key: None,
        created_at: 10,
        last_activity: 20,
        cwd: "/home/me".into(),
        env: env.into(),
        claude_version: Some("1.0".into()),
        shell: "/bin/zsh".into(),
    }
}

#[test]
fn session_rows_read_status_and_environment() {
    let s = session_from_row(row("running", r#"{"B":"2","A":"1"}"#));
    assert_eq!(s.status, SessionStatus::Running);
    assert_eq!(s.metadata.env, vec![("A".to_string(), "1".to_string()), ("B".to_string(), "2".to_string())]);
    assert_eq!(s.metadata.cwd, "/home/me");
    assert_eq!(s.metadata.shell, "/bin/zsh");
    assert_eq!(s.created_at, 10);
}

#[test]
fn unreadable_environment_is_empty() {
    let s = session_from_row(row("weird", "not json"));
    assert_eq!(s.status, SessionStatus::Initializing);
    assert!(s.metadata.env.is_empty());
    let t = session_from_row(row("paused", r#"{"A":1}"#));
    assert_eq!(t.status, SessionStatus::Paused);
    assert!(t.metadata.env.is_empty());
}

#[test]
fn machine_rows_round_trip() {
    let mut m = Machine::new("m1".into(), "u1".into(), "box".into(), vec![3, 4], Platform::MacOS, 99);
    m.capabilities = vec![Capability::Voice, Capability::Terminal];
    m.hostname = Some("box.local".into());
    let r = machine_to_row(&m);
    assert_eq!(r.platform, "macos");
    assert_eq!(r.capabilities, "voice,terminal");
    let back = machine_from_row(r);
    assert_eq!(back.id, "m1");
    assert_eq!(back.platform, Platform::MacOS);
    assert_eq!(back.capabilities, vec![Capability::Voice, Capability::Terminal]);
    assert_eq!(back.hostname, Some("box.local".to_string()));
    assert_eq!(back.last_seen, 99);
}

#[test]
fn machine_row_with_unknown_platform() {
    let r = MachineRow {
        id: "m".into(),
        user_id: "u".into(),
        name: "n".into(),
        public_key: vec![],
        platform: "beos".into(),
        capabilities: "".into(),
        last_seen: 0,
        hostname: None,
    };
    let m = machine_from_row(r);
    assert_eq!(m.platform, Platform::Linux);
    assert!(m.capabilities.is_empty());
}
