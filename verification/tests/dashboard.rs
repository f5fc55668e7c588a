use happy_remote::dashboard::{
    attention_message, format_status, read_server_notice, EmptyState, parse_session_card, parse_status, sort_cards, status_class, ConnectionStatus,
    Dashboard, DashboardAction, DashboardMsg, ServerNotice, SessionCard, SessionCardFields, SessionState, SortBy,
};

fn fields(id: &str, tag: &str, status: &str, progress: Option<u64>) -> SessionCardFields {
    SessionCardFields {
        id: Some(id.into()),
        tag: Some(tag.into()),
        status: Some(status.into()),
        progress,
        operation: None,
        needs_confirmation: None,
        confirmation_prompt: None,
        client_count: None,
        last_activity: None,
        error_count: None,
        bytes_in: None,
        bytes_out: None,
    }
}

fn card(id: &str, tag: &str, status: &str, progress: Option<u64>) -> SessionCard {
    parse_session_card(&fields(id, tag, status, progress)).unwrap()
}

fn ids(cards: &[SessionCard]) -> Vec<String> {
    cards.iter().map(|c| c.id.clone()).collect()
}

fn sent(actions: &[DashboardAction]) -> Vec<String> {
    actions
        .iter()
        .filter_map(|a| match a {
            DashboardAction::Send(s) => Some(s.clone()),
            _ => None,
        })
        .collect()
}

#[test]
fn status_texts() {
    assert_eq!(parse_status("running"), SessionState::Running);
    assert_eq!(parse_status("terminated"), SessionState::Exited);
    assert_eq!(parse_status("exited"), SessionState::Exited);
    assert_eq!(parse_status("waiting_for_confirm"), SessionState::WaitingForConfirm);
    assert_eq!(parse_status("whatever"), SessionState::Initializing);
    assert_eq!(format_status(SessionState::WaitingForConfirm), "Needs Confirm");
    assert_eq!(status_class(SessionState::WaitingForConfirm), "waiting");
}

#[test]
fn cards_need_id_tag_and_status() {
    let mut f = fields("a", "t", "idle", Some(300));
    let c = parse_session_card(&f).unwrap();
    assert_eq!(c.progress, Some(44));
    assert_eq!(c.last_activity, "Unknown");
    assert_eq!(c.client_count, 0);
    assert!(!c.needs_confirmation);
    f.tag = None;
    assert!(parse_session_card(&f).is_none());
}

#[test]
fn sorting_by_status_is_stable() {
    let cards = vec![card("1", "b", "running", None), card("2", "a", "error", None), card("3", "c", "running", None)];
    assert_eq!(ids(&sort_cards(cards, SortBy::Status)), vec!["2", "1", "3"]);
}

#[test]
fn sorting_by_tag_and_progress() {
    let cards = vec![card("1", "beta", "idle", Some(10)), card("2", "alpha", "idle", Some(50)), card("3", "alpha", "idle", Some(10))];
    let by_tag = sort_cards(cards.clone(), SortBy::Tag);
    assert_eq!(ids(&by_tag), vec!["2", "3", "1"]);
    let by_progress = sort_cards(cards.clone(), SortBy::Progress);
    assert_eq!(ids(&by_progress), vec!["2", "3", "1"]);
    assert_eq!(ids(&sort_cards(cards, SortBy::LastActivity)), vec!["1", "2", "3"]);
}

#[test]
fn filter_hides_exited_and_ignores_case() {
    let (mut d, connect) = Dashboard::create(Some("tok".into()), Some("me@x".into()));
    assert!(connect);
    assert_eq!(d.ws_status, ConnectionStatus::Connecting);
    d.update(DashboardMsg::SessionsUpdate(vec![
        card("id-1", "Alpha", "running", None),
        card("id-2", "beta", "exited", None),
        card("id-3", "gamma", "idle", None),
    ]));
    assert_eq!(ids(&d.filtered_sessions()), vec!["id-1", "id-3"]);
    d.update(DashboardMsg::FilterChanged("ALP".into()));
    assert_eq!(ids(&d.filtered_sessions()), vec!["id-1"]);
    d.update(DashboardMsg::FilterChanged("ID-3".into()));
    assert_eq!(ids(&d.filtered_sessions()), vec!["id-3"]);
}

#[test]
fn connection_lifecycle() {
    let (mut d, _) = Dashboard::create(Some("tok".into()), None);
    let (redraw, actions) = d.update(DashboardMsg::WsConnected);
    assert!(redraw);
    assert_eq!(d.ws_status, ConnectionStatus::Connected);
    assert!(matches!(&actions[0], DashboardAction::Authenticate(t) if t == "tok"));
    assert_eq!(sent(&actions), vec![r#"{"type": "list_sessions"}"#]);
    assert!(matches!(actions[2], DashboardAction::StartHeartbeat));
    let (_, actions) = d.update(DashboardMsg::WsDisconnected);
    assert!(matches!(actions[0], DashboardAction::StopHeartbeat));
    assert!(matches!(actions[1], DashboardAction::ScheduleReconnect));
    let (redraw, actions) = d.update(DashboardMsg::SendPing);
    assert!(!redraw);
    assert_eq!(sent(&actions), vec![r#"{"type": "ping"}"#]);
    let (no_token, connect) = Dashboard::create(None, None);
    assert!(!connect);
    assert_eq!(no_token.ws_status, ConnectionStatus::Disconnected);
}

#[test]
fn selection_and_bulk_actions() {
    let (mut d, _) = Dashboard::create(Some("t".into()), None);
    d.update(DashboardMsg::SessionsUpdate(vec![card("a", "x", "running", None), card("b", "y", "idle", None)]));
    d.update(DashboardMsg::ToggleSelection("a".into()));
    assert!(d.show_bulk_actions);
    d.update(DashboardMsg::ToggleSelection("a".into()));
    assert!(!d.show_bulk_actions);
    assert!(d.selected_sessions.is_empty());
    d.update(DashboardMsg::SelectAll);
    assert_eq!(d.selected_sessions, vec!["a".to_string(), "b".to_string()]);
    assert_eq!(d.selection_text(), "2 selected");
    let (_, actions) = d.update(DashboardMsg::BulkConfirm(true));
    assert_eq!(
        sent(&actions),
        vec![
            r#"{"type": "session_action", "session_id": "a", "action": "confirm"}"#,
            r#"{"type": "session_action", "session_id": "b", "action": "confirm"}"#,
        ]
    );
    assert!(d.selected_sessions.is_empty());
    d.update(DashboardMsg::ToggleSelection("b".into()));
    let (_, actions) = d.update(DashboardMsg::BulkKill);
    assert_eq!(sent(&actions), vec![r#"{"type": "stop_session", "session_id": "b"}"#]);
}

#[test]
fn server_messages_update_the_cards() {
    let (mut d, _) = Dashboard::create(Some("t".into()), None);
    let actions = d.handle_ws_message(ServerNotice::Authenticated);
    assert_eq!(sent(&actions), vec![r#"{"type": "list_sessions"}"#]);
    d.handle_ws_message(ServerNotice::SessionsList(Some(vec![fields("a", "x", "idle", None), SessionCardFields {
        id: None,
        ..fields("zz", "zz", "idle", None)
    }])));
    assert_eq!(ids(&d.sessions), vec!["a"]);
    d.handle_ws_message(ServerNotice::SessionCreated(fields("b", "y", "running", None)));
    d.handle_ws_message(ServerNotice::SessionCreated(fields("b", "other", "idle", None)));
    assert_eq!(d.sessions.len(), 2);
    assert_eq!(d.sessions[1].tag, "y");
    d.handle_ws_message(ServerNotice::SessionUpdate(fields("a", "x2", "error", None)));
    assert_eq!(d.sessions[0].tag, "x2");
    assert_eq!(d.sessions[0].status, SessionState::Error);
    d.handle_ws_message(ServerNotice::SessionRemoved(Some("a".into())));
    assert_eq!(ids(&d.sessions), vec!["b"]);
    let logout = d.handle_ws_message(ServerNotice::Error { code: Some("auth_failed".into()), message: None });
    assert!(matches!(logout[0], DashboardAction::Logout));
    assert!(d.handle_ws_message(ServerNotice::Error { code: Some("other".into()), message: None }).is_empty());
}

#[test]
fn summary_and_cards() {
    let (mut d, _) = Dashboard::create(Some("t".into()), Some("me@x".into()));
    let mut waiting = card("w", "w", "idle", Some(40));
    waiting.needs_confirmation = true;
    d.update(DashboardMsg::SessionsUpdate(vec![card("r", "r", "running", None), card("e", "e", "error", None), waiting.clone()]));
    let s = d.summary();
    assert_eq!((s.total, s.running, s.needs_confirm, s.errors, s.attention), (3, 1, 1, 1, 2));
    assert_eq!(attention_message(2), "2 session(s) need your attention");
    let shown = d.render_session_card(&waiting, None);
    assert_eq!(shown.status_class, "idle");
    assert_eq!(shown.progress, Some(("width: 40%".to_string(), "40%".to_string())));
    assert_eq!(shown.prompt, Some("Action required".to_string()));
    assert_eq!(shown.clients, "\u{1f465} 0");
    assert_eq!(shown.connect_href, "/#w");
    assert_eq!(shown.activity, waiting.last_activity);
    let dated = d.render_session_card(&waiting, Some("Mon Jan 01 2024".to_string()));
    assert_eq!(dated.activity, "Mon Jan 01 2024");
    assert!(!shown.selected);
    assert_eq!(d.empty_state(), EmptyState::NoSessions);
    assert_eq!(d.view_connection_status(), ("status connecting", "\u{25cb} Connecting..."));
}

#[test]
fn websocket_address_follows_the_page_protocol() {
    assert_eq!(Dashboard::websocket_url("https:", "example.com"), "wss://example.com/ws");
    assert_eq!(Dashboard::websocket_url("http:", "localhost:8080"), "ws://localhost:8080/ws");
}

#[test]
fn server_frames_are_read_by_type() {
    assert!(matches!(read_server_notice(r#"{"type":"authenticated","user_id":"u"}"#), ServerNotice::Authenticated));
    assert!(matches!(read_server_notice("not json"), ServerNotice::Unreadable));
    assert!(matches!(read_server_notice(r#"{"kind":"pong"}"#), ServerNotice::Unreadable));
    assert!(matches!(read_server_notice(r#"{"type":"pong"}"#), ServerNotice::Pong));
    match read_server_notice(r#"{"type":"session_started","id":"s1","tag":"t","status":"running","progress":40,"client_count":2}"#) {
        ServerNotice::SessionCreated(f) => {
            assert_eq!(f.id.as_deref(), Some("s1"));
            assert_eq!(f.progress, Some(40));
            assert_eq!(f.client_count, Some(2));
            assert_eq!(f.needs_confirmation, None);
            assert_eq!(f.last_activity, None);
        }
        _ => panic!("expected a created session"),
    }
    match read_server_notice(r#"{"type":"sessions_list","sessions":[{"id":"a","tag":"x","status":"idle"},{"id":7}]}"#) {
        ServerNotice::SessionsList(Some(l)) => {
            assert_eq!(l.len(), 2);
            assert_eq!(l[0].tag.as_deref(), Some("x"));
            assert_eq!(l[1].id, None);
        }
        _ => panic!("expected a list"),
    }
    assert!(matches!(read_server_notice(r#"{"type":"session_stopped","session_id":"s1"}"#), ServerNotice::SessionRemoved(Some(id)) if id == "s1"));
    assert!(matches!(read_server_notice(r#"{"type":"error","code":"auth_failed"}"#), ServerNotice::Error { code: Some(c), message: None } if c == "auth_failed"));
    assert!(matches!(read_server_notice(r#"{"type":"weird"}"#), ServerNotice::Unknown(t) if t == "weird"));
}
