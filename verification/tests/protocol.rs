use happy_remote::connections::ConnectionManager;
use happy_remote::messages::{ClientMessage, ServerMessage};
use happy_remote::protocol::{
    handle_message, handle_terminal_input, handle_terminal_output, on_token_accepted, on_token_rejected, Action,
    ClientState, Query, Step,
};

fn error_of(a: &Action) -> (String, String) {
    match a {
        Action::Send { msg: ServerMessage::Error { code, message }, .. } => (code.clone(), message.clone()),
        _ => panic!("not an error reply"),
    }
}

#[test]
fn ping_gets_pong() {
    let mut st = ClientState::new("c1".into(), 1);
    let mut router = ConnectionManager::new();
    match handle_message(&mut st, &mut router, ClientMessage::Ping) {
        Step::Done(actions) => {
            assert_eq!(actions.len(), 1);
            match &actions[0] {
                Action::Send { to, msg: ServerMessage::Pong } => assert_eq!(to, &vec![1]),
                _ => panic!("expected pong"),
            }
        },
        Step::Ask(_) => panic!("ping needs no query"),
    }
}

#[test]
fn authenticate_asks_for_a_token_check() {
    let mut st = ClientState::new("c1".into(), 1);
    let mut router = ConnectionManager::new();
    match handle_message(&mut st, &mut router, ClientMessage::Authenticate { token: "tok".into() }) {
        Step::Ask(Query::CheckToken { token }) => assert_eq!(token, "tok"),
        _ => panic!("expected a token check"),
    }
}

#[test]
fn unauthenticated_requests_are_refused() {
    let mut st = ClientState::new("c1".into(), 1);
    let mut router = ConnectionManager::new();
    match handle_message(&mut st, &mut router, ClientMessage::ListSessions) {
        Step::Done(actions) => {
            assert_eq!(actions.len(), 1);
            assert_eq!(error_of(&actions[0]).0, "not_authenticated");
        },
        Step::Ask(_) => panic!("must be refused"),
    }
}

#[test]
fn accepted_token_joins_user_broadcasts() {
    let mut st = ClientState::new("c1".into(), 3);
    let mut router = ConnectionManager::new();
    let actions = on_token_accepted(&mut st, &mut router, "alice".into());
    assert_eq!(st.user_id, Some("alice".to_string()));
    assert_eq!(router.send_to_user("alice"), vec![3]);
    assert_eq!(actions.len(), 2);
    assert!(matches!(&actions[1], Action::SendMachineList { user_id } if user_id == "alice"));
    let rejected = on_token_rejected(&st);
    assert_eq!(error_of(&rejected[0]).0, "auth_failed");
    assert!(matches!(rejected[1], Action::Disconnect));
}

#[test]
fn input_to_an_unjoined_session_is_a_mismatch() {
    let st = ClientState::new("c1".into(), 1);
    let router = ConnectionManager::new();
    let actions = handle_terminal_input(&st, &router, "s9".into(), vec![1]);
    let (code, message) = error_of(&actions[0]);
    assert_eq!(code, "session_mismatch");
    assert_eq!(message, "You are not connected to session s9");
}

#[test]
fn input_without_a_bridge_is_reported() {
    let mut st = ClientState::new("c1".into(), 1);
    st.session_ids.push("s1".into());
    let mut router = ConnectionManager::new();
    let actions = handle_terminal_input(&st, &router, "s1".into(), vec![1]);
    assert_eq!(error_of(&actions[0]).0, "bridge_not_connected");
    router.register_cli("s1", 42);
    let forwarded = handle_terminal_input(&st, &router, "s1".into(), vec![7]);
    assert!(matches!(&forwarded[0], Action::ForwardInput { to: 42, session_id, data } if session_id == "s1" && data == &vec![7]));
}

#[test]
fn bridge_output_for_another_session_names_both() {
    let mut st = ClientState::new("c1".into(), 1);
    st.is_cli_bridge = true;
    st.session_id = Some("mine".into());
    let mut router = ConnectionManager::new();
    let actions = handle_terminal_output(&st, &mut router, "other".into(), vec![1, 2]);
    let (code, message) = error_of(&actions[0]);
    assert_eq!(code, "session_mismatch");
    assert_eq!(message, "Session ID mismatch: expected Some(\"mine\"), got other");
    assert_eq!(router.get_output_buffer("other"), None);
}

#[test]
fn bridge_output_is_buffered_and_broadcast() {
    let mut st = ClientState::new("c1".into(), 1);
    st.is_cli_bridge = true;
    st.session_id = Some("s1".into());
    let mut router = ConnectionManager::new();
    router.register_web("s1", 5);
    let actions = handle_terminal_output(&st, &mut router, "s1".into(), b"hi".to_vec());
    assert_eq!(router.get_output_buffer("s1"), Some(b"hi".to_vec()));
    assert!(matches!(&actions[0], Action::Send { to, msg: ServerMessage::TerminalOutput { .. } } if to == &vec![5]));
}
