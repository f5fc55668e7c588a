use happy_remote::terminal_page::{
    append_output, folder_of_cwd, key_sequence, machine_display_name, parse_diff, session_status_class, tag_from_hash,
    DiffLine, FileFields, MachineFields, MobileView, PageAction, PageNotice, PageRequest, SessionFields, SessionSummary,
    TerminalPage, VirtualKey, read_page_notice,
};

fn sfields(id: &str, tag: &str, status: &str, machine: Option<&str>, cwd: Option<&str>) -> SessionFields {
    SessionFields {
        id: Some(id.into()),
        tag: Some(tag.into()),
        status: Some(status.into()),
        machine_id: Some("machine-0123456789".into()),
        machine_name: machine.map(|m| m.to_string()),
        cwd: cwd.map(|c| c.to_string()),
    }
}

fn summary(id: &str, tag: &str, status: &str, machine: &str, cwd: &str) -> SessionSummary {
    SessionSummary {
        id: id.into(),
        tag: tag.into(),
        status: status.into(),
        cwd: cwd.into(),
        machine_id: "m".into(),
        machine_name: machine.into(),
        is_online: false,
    }
}

fn joins(actions: &[PageAction]) -> Vec<String> {
    actions
        .iter()
        .filter_map(|a| match a {
            PageAction::Send(PageRequest::JoinSession(t)) => Some(t.clone()),
            _ => None,
        })
        .collect()
}

#[test]
fn folder_names() {
    assert_eq!(folder_of_cwd(""), "root");
    assert_eq!(folder_of_cwd("/"), "root");
    assert_eq!(folder_of_cwd("/home/me/project"), "project");
    assert_eq!(folder_of_cwd("/home/me/project///"), "project");
    assert_eq!(folder_of_cwd("relative"), "relative");
    assert_eq!(folder_of_cwd("//"), "");
    assert_eq!(summary("a", "t", "running", "box", "/x/y/").folder_name(), "y");
}

#[test]
fn machine_names_for_display() {
    assert_eq!(machine_display_name(&Some("mac.local".into()), "id"), "mac");
    assert_eq!(machine_display_name(&Some("mac.local.local".into()), "id"), "mac");
    assert_eq!(machine_display_name(&Some("server".into()), "id"), "server");
    assert_eq!(machine_display_name(&None, "0123456789abcdef"), "01234567");
    assert_eq!(machine_display_name(&None, "abc"), "abc");
}

#[test]
fn diff_lines_are_classified() {
    let text = "diff --git a/x b/x\nindex 1..2\n--- a/x\n+++ b/x\n@@ -1,2 +1,2 @@\n keep\n-old\n+new\n\nplain\r\n";
    let lines = parse_diff(text);
    assert_eq!(lines.len(), 10);
    assert!(matches!(&lines[0], DiffLine::Header(t) if t == "diff --git a/x b/x"));
    assert!(matches!(&lines[2], DiffLine::Header(t) if t == "--- a/x"));
    assert!(matches!(&lines[4], DiffLine::ChunkHeader(t) if t == "@@ -1,2 +1,2 @@"));
    assert!(matches!(&lines[5], DiffLine::Context(t) if t == "keep"));
    assert!(matches!(&lines[6], DiffLine::Deletion(t) if t == "old"));
    assert!(matches!(&lines[7], DiffLine::Addition(t) if t == "new"));
    assert!(matches!(&lines[8], DiffLine::Empty));
    assert!(matches!(&lines[9], DiffLine::Context(t) if t == "plain"));
    assert!(parse_diff("").is_empty());
}

#[test]
fn hash_names_a_tag() {
    assert_eq!(tag_from_hash("#work"), Some("work".to_string()));
    assert_eq!(tag_from_hash("#"), None);
    assert_eq!(tag_from_hash(""), None);
    assert_eq!(TerminalPage::new("#work").mobile_view, MobileView::Terminal);
    assert_eq!(TerminalPage::new("").mobile_view, MobileView::SessionList);
}

#[test]
fn session_list_joins_and_selects() {
    let mut p = TerminalPage::new("");
    let opened = p.on_open("tok");
    assert!(matches!(&opened[0], PageAction::Send(PageRequest::Authenticate(t)) if t == "tok"));
    assert_eq!(p.ws_status, "Authenticating...");
    let actions = p.on_message(PageNotice::SessionsList(Some(vec![
        sfields("s1", "alpha", "running", Some("mac.local"), Some("/w/app")),
        sfields("s2", "beta", "idle", None, None),
        sfields("s3", "alpha", "idle", None, None),
    ])));
    assert_eq!(joins(&actions), vec!["alpha", "beta"]);
    assert_eq!(p.selected_session_id, Some("s1".to_string()));
    assert!(p.sessions_loaded);
    assert_eq!(p.sessions[0].machine_name, "mac");
    assert_eq!(p.sessions[1].machine_name, "machine-");
    assert_eq!(p.sessions[1].cwd, "/");
    let again = p.on_message(PageNotice::SessionsList(Some(vec![sfields("s2", "beta", "idle", None, None)])));
    assert!(joins(&again).is_empty());
    assert_eq!(p.selected_session_id, Some("s1".to_string()));
}

#[test]
fn target_tag_is_selected_first() {
    let mut p = TerminalPage::new("#beta");
    p.on_message(PageNotice::SessionsList(Some(vec![
        sfields("s1", "alpha", "running", None, None),
        sfields("s2", "beta", "idle", None, None),
    ])));
    assert_eq!(p.selected_session_id, Some("s2".to_string()));
    assert!(!p.target_session_missing());
}

#[test]
fn updates_and_removals() {
    let mut p = TerminalPage::new("");
    p.on_message(PageNotice::SessionUpdated(Some(sfields("s1", "a", "running", None, None))));
    assert!(p.sessions.is_empty());
    p.on_message(PageNotice::SessionsList(Some(vec![sfields("s1", "a", "running", None, None)])));
    p.on_message(PageNotice::SessionUpdated(Some(sfields("s1", "a2", "terminated", Some("box"), Some("/z")))));
    assert_eq!(p.sessions[0].tag, "a2");
    assert_eq!(p.sessions[0].status, "terminated");
    assert_eq!(p.sessions[0].machine_name, "box");
    p.on_message(PageNotice::SessionUpdated(Some(sfields("s2", "b", "idle", None, None))));
    assert_eq!(p.sessions.len(), 2);
    p.on_message(PageNotice::SessionRemoved(Some("s1".into())));
    assert_eq!(p.sessions.len(), 1);
    assert_eq!(p.sessions[0].id, "s2");
}

#[test]
fn terminal_output_buffers_and_writes_through() {
    let mut p = TerminalPage::new("");
    p.on_message(PageNotice::SessionsList(Some(vec![sfields("s1", "a", "running", None, None)])));
    p.on_message(PageNotice::TerminalHistory { session_id: Some("s1".into()), data: Some(vec![104, 105]) });
    let actions = p.on_message(PageNotice::TerminalOutput { session_id: Some("s1".into()), data: Some(vec![33, 256 + 10]) });
    assert!(matches!(&actions[0], PageAction::WriteToTerminal(b) if b == &vec![33, 10]));
    assert_eq!(p.terminal_content(), b"hi!\n".to_vec());
    let other = p.on_message(PageNotice::TerminalOutput { session_id: Some("s9".into()), data: Some(vec![1]) });
    assert!(other.is_empty());
}

#[test]
fn terminal_output_is_kept_as_decoded_text() {
    let mut p = TerminalPage::new("");
    p.on_message(PageNotice::SessionsList(Some(vec![sfields("s1", "a", "running", None, None)])));
    let actions = p.on_message(PageNotice::TerminalOutput { session_id: Some("s1".into()), data: Some(vec![0xFF]) });
    assert!(matches!(&actions[0], PageAction::WriteToTerminal(b) if b == &vec![0xFF]));
    assert_eq!(p.terminal_content(), vec![0xEF, 0xBF, 0xBD]);
    p.on_message(PageNotice::TerminalHistory { session_id: Some("s1".into()), data: Some(vec![0xC3, 0xA9, 0x80]) });
    assert_eq!(p.terminal_content(), "\u{e9}\u{fffd}".as_bytes().to_vec());
}

#[test]
fn buffers_are_cut_to_their_tail() {
    let old = vec![1u8; 99_990];
    let data = vec![2u8; 20];
    let b = append_output(&old, &data);
    assert_eq!(b.len(), 80_000);
    assert_eq!(&b[b.len() - 20..], &data[..]);
    assert_eq!(append_output(&vec![1, 2], &vec![3]), vec![1, 2, 3]);
    let huge = vec![5u8; 120_000];
    assert_eq!(append_output(&vec![], &huge).len(), 80_000);
}

#[test]
fn buffers_are_cut_on_a_character_boundary() {
    let old: Vec<u8> = "\u{e9}".repeat(50_000).into_bytes();
    let data = vec![b'a'];
    let b = append_output(&old, &data);
    assert_eq!(b.len(), 79_999);
    assert_eq!(b[0], 0xC3);
    assert!(std::str::from_utf8(&b).is_ok());
    assert_eq!(*b.last().unwrap(), b'a');
}

#[test]
fn machine_list_sets_online_state() {
    let mut p = TerminalPage::new("");
    p.on_message(PageNotice::SessionsList(Some(vec![sfields("s1", "a", "running", None, None)])));
    p.on_message(PageNotice::MachineList(Some(vec![
        MachineFields { id: Some("machine-0123456789".into()), name: Some("box".into()), is_online: Some(true) },
        MachineFields { id: Some("x".into()), name: None, is_online: Some(true) },
    ])));
    assert_eq!(p.machines.len(), 1);
    assert!(p.sessions[0].is_online);
}

#[test]
fn git_messages() {
    let mut p = TerminalPage::new("");
    p.on_message(PageNotice::GitStatus {
        session_id: Some("s".into()),
        branch: Some("main".into()),
        ahead: Some(2),
        behind: None,
        modified: vec![
            FileFields { path: Some("a.rs".into()), change_type: Some("modified".into()), additions: Some(3), deletions: Some(1) },
            FileFields { path: Some("b.rs".into()), change_type: None, additions: Some(1), deletions: Some(1) },
        ],
        staged: vec![],
        untracked: vec!["new.txt".into()],
        conflicts: vec![],
    });
    let g = p.git_status.as_ref().unwrap();
    assert_eq!(g.branch, "main");
    assert_eq!((g.ahead, g.behind), (2, 0));
    assert_eq!(g.modified.len(), 1);
    assert_eq!(p.git_badge(), Some(1));
    p.on_message(PageNotice::GitDiff { session_id: Some("s".into()), path: Some("a.rs".into()), diff: Some("+x".into()) });
    assert_eq!(p.file_diff, Some("+x".to_string()));
    p.commit_message = "msg".into();
    p.show_commit_modal = true;
    let a = p.on_message(PageNotice::GitCommitResult { session_id: Some("s".into()), success: Some(true) });
    assert!(matches!(&a[0], PageAction::Send(PageRequest::GetGitStatus(id)) if id == "s"));
    assert!(p.commit_message.is_empty());
    assert!(!p.show_commit_modal);
}

#[test]
fn errors_and_remote_sessions() {
    let mut p = TerminalPage::new("");
    let a = p.on_message(PageNotice::Error { code: Some("not_authenticated".into()) });
    assert!(matches!(a[0], PageAction::Logout));
    assert!(p.on_message(PageNotice::Error { code: Some("other".into()) }).is_empty());
    let r = p.on_message(PageNotice::RemoteSessionResponse {
        success: Some(true),
        session_id: Some("new".into()),
        session_tag: Some("t".into()),
    });
    assert_eq!(p.selected_session_id, Some("new".to_string()));
    assert!(matches!(r[0], PageAction::Send(PageRequest::ListSessions)));
    assert!(p.on_message(PageNotice::RemoteSessionResponse { success: None, session_id: None, session_tag: None }).is_empty());
    p.on_message(PageNotice::Authenticated);
    assert_eq!(p.ws_status, "Connected");
}

#[test]
fn user_events() {
    let mut p = TerminalPage::new("");
    p.on_message(PageNotice::SessionsList(Some(vec![sfields("s1", "a", "running", None, None)])));
    p.on_input("  ls -la  ".into());
    let sent = p.on_send();
    assert!(matches!(&sent[0], PageAction::Send(PageRequest::TerminalInput { session_id, data }) if session_id == "s1" && data == b"ls -la\n"));
    assert!(p.input_value.is_empty());
    p.on_input("   ".into());
    assert!(p.on_send().is_empty());
    assert_eq!(p.input_value, "   ");
    let sel = p.on_select_session("s2".into(), "b".into(), "running");
    assert!(matches!(&sel[0], PageAction::SetHash(t) if t == "b"));
    assert_eq!(joins(&sel), vec!["b"]);
    let term = p.on_select_session("s3".into(), "c".into(), "terminated");
    assert_eq!(term.len(), 1);
    assert!(matches!(p.on_virtual_key(VirtualKey::Up), PageAction::SendKey(k) if k == "\x1b[A"));
    assert_eq!(key_sequence(VirtualKey::Enter), "\r");
    let del = p.on_delete_session("s3".into());
    assert!(matches!(&del[0], PageAction::Send(PageRequest::DeleteSession(id)) if id == "s3"));
    assert_eq!(p.selected_session_id, None);
}

#[test]
fn creating_a_session() {
    let mut p = TerminalPage::new("");
    p.set_create_modal(true);
    let a = p.on_create_session();
    assert!(matches!(&a[0], PageAction::Send(PageRequest::RequestRemoteSession { machine_id, cwd: None, args: None }) if machine_id == "local"));
    assert!(!p.show_create_modal);
    p.on_message(PageNotice::MachineList(Some(vec![MachineFields {
        id: Some("m1".into()),
        name: Some("box".into()),
        is_online: Some(false),
    }])));
    p.set_create_fields(String::new(), "/w".into(), "--fast".into());
    let b = p.on_create_session();
    assert!(matches!(&b[0], PageAction::Send(PageRequest::RequestRemoteSession { machine_id, cwd: Some(c), args: Some(x) })
        if machine_id == "m1" && c == "/w" && x == "--fast"));
    assert!(p.create_cwd.is_empty());
}

#[test]
fn context_menu_and_confirmation() {
    let mut p = TerminalPage::new("");
    p.on_context_menu(10, 20, "s1".into(), "t".into());
    p.on_context_delete();
    assert_eq!(p.delete_confirm, Some(("s1".to_string(), "t".to_string())));
    assert!(p.context_menu.is_none());
    p.on_cancel_delete();
    assert!(p.delete_confirm.is_none());
}

#[test]
fn grouping_by_machine_and_folder() {
    let mut p = TerminalPage::new("");
    p.sessions = vec![
        summary("1", "zeta", "idle", "b-box", "/w/one"),
        summary("2", "alpha", "idle", "", "/w/one"),
        summary("3", "beta", "running", "b-box", "/w/one"),
        summary("4", "alpha", "idle", "b-box", "/w/one"),
        summary("5", "gamma", "idle", "a-box", "/"),
    ];
    let groups = p.grouped_sessions();
    let names: Vec<String> = groups.iter().map(|g| g.machine.clone()).collect();
    assert_eq!(names, vec!["a-box", "b-box", "unknown"]);
    assert_eq!(groups[0].folders[0].folder, "root");
    let order: Vec<String> = groups[1].folders[0].sessions.iter().map(|s| s.id.clone()).collect();
    assert_eq!(order, vec!["3", "4", "1"]);
    assert_eq!(groups[2].folders[0].sessions[0].id, "2");
}

#[test]
fn header_and_classes() {
    let mut p = TerminalPage::new("");
    p.on_message(PageNotice::SessionsList(Some(vec![sfields("0123456789ab", "tag", "running", None, None)])));
    assert_eq!(p.terminal_header(), ("tag".to_string(), "(01234567)".to_string()));
    assert_eq!(session_status_class("terminated"), "exited");
    assert_eq!(session_status_class("paused"), "");
    assert_eq!(p.layout_classes(), ("chat-sidebar", "chat-panel mobile-hidden"));
    p.on_toggle_git_panel();
    assert_eq!(p.git_refresh_target(), Some("0123456789ab".to_string()));
    p.on_commit(false);
    assert!(p.commit_disabled());
    p.on_commit_message("fix".into());
    assert!(!p.commit_disabled());
}

#[test]
fn page_frames_are_read_by_type() {
    match read_page_notice(r#"{"type":"terminal_output","session_id":"s1","data":[104,"x",105,-1,300]}"#) {
        PageNotice::TerminalOutput { session_id, data } => {
            assert_eq!(session_id.as_deref(), Some("s1"));
            assert_eq!(data, Some(vec![104, 105, 300]));
        }
        _ => panic!("expected terminal output"),
    }
    match read_page_notice(r#"{"type":"session_started","session":{"id":"a","tag":"t","status":"running","metadata":{"cwd":"/w"}}}"#) {
        PageNotice::SessionUpdated(Some(f)) => {
            assert_eq!(f.cwd.as_deref(), Some("/w"));
            assert_eq!(f.machine_id, None);
        }
        _ => panic!("expected an updated session"),
    }
    match read_page_notice(r#"{"type":"git_status","session_id":"s","branch":"main","ahead":1,"modified":[{"path":"a","change_type":"modified","additions":1,"deletions":2}],"untracked":["u",3]}"#) {
        PageNotice::GitStatus { branch, ahead, behind, modified, staged, untracked, .. } => {
            assert_eq!(branch.as_deref(), Some("main"));
            assert_eq!((ahead, behind), (Some(1), None));
            assert_eq!(modified.len(), 1);
            assert_eq!(modified[0].deletions, Some(2));
            assert!(staged.is_empty());
            assert_eq!(untracked, vec!["u".to_string()]);
        }
        _ => panic!("expected a git status"),
    }
    match read_page_notice(r#"{"type":"remote_session_response","success":true,"session":{"id":"n","tag":"g"}}"#) {
        PageNotice::RemoteSessionResponse { success, session_id, session_tag } => {
            assert_eq!((success, session_id.as_deref(), session_tag.as_deref()), (Some(true), Some("n"), Some("g")));
        }
        _ => panic!("expected a remote session response"),
    }
    assert!(matches!(read_page_notice("{broken"), PageNotice::Other));
    assert!(matches!(read_page_notice(r#"{"type":"ping"}"#), PageNotice::Other));
}
