//! Decisions of the WebSocket protocol: what the server does with each client message.
//!
//! The caller owns the sockets and the store. For each message it calls
//! [`handle_message`], which changes the connection state and the router and
//! either returns the actions to perform or asks for one piece of outside work
//! (a token check, a store query); the caller performs it and hands the result
//! to the matching `on_...` function, which again returns actions.

use vstd::prelude::*;
use crate::connections::{ConnectionManager, ConnId, web_of, bounded_tail, buffer_of, user_conns};
use crate::messages::{ClientMessage, ServerMessage, ServerMessageView, error_message};
use crate::model::{Session, SessionStatus, SessionView, MachineInfo, MachineInfoView, opt_str_view};
use crate::text::{owned, concat, str_eq};

verus! {

/// What the server knows about one WebSocket connection.
pub struct ClientState {
    /// The authenticated user, once the connection authenticated.
    pub user_id: Option<String>,
    /// The session whose CLI bridge this connection is.
    pub session_id: Option<String>,
    /// The sessions this connection watches as a web client.
    pub session_ids: Vec<String>,
    /// Whether this connection is a CLI bridge.
    pub is_cli_bridge: bool,
    /// The name of the connection among its machine's daemon connections.
    pub connection_id: String,
    /// The machine of a CLI bridge.
    pub machine_id: Option<String>,
    /// The machine name of a CLI bridge.
    pub machine_name: Option<String>,
    /// The router's number for this connection.
    pub conn: ConnId,
}

/// The mathematical value of a connection state.
pub struct ClientStateView {
    pub user_id: Option<Seq<char>>,
    pub session_id: Option<Seq<char>>,
    pub joined: Set<Seq<char>>,
    pub is_cli_bridge: bool,
    pub connection_id: Seq<char>,
    pub machine_id: Option<Seq<char>>,
    pub machine_name: Option<Seq<char>>,
    pub conn: ConnId,
}

/// The set of texts in a list.
pub open spec fn text_set(v: Seq<String>) -> Set<Seq<char>> {
    Set::new(|k: Seq<char>| exists|i: int| 0 <= i < v.len() && #[trigger] v[i]@ == k)
}

impl View for ClientState {
    type V = ClientStateView;

    open spec fn view(&self) -> ClientStateView {
        ClientStateView {
            user_id: opt_str_view(self.user_id),
            session_id: opt_str_view(self.session_id),
            joined: text_set(self.session_ids@),
            is_cli_bridge: self.is_cli_bridge,
            connection_id: self.connection_id@,
            machine_id: opt_str_view(self.machine_id),
            machine_name: opt_str_view(self.machine_name),
            conn: self.conn,
        }
    }
}

impl ClientState {
    /// A fresh connection: not authenticated, watching nothing.
    pub fn new(connection_id: String, conn: ConnId) -> (r: ClientState)
        ensures
            r@ == (ClientStateView {
                user_id: None,
                session_id: None,
                joined: Set::empty(),
                is_cli_bridge: false,
                connection_id: connection_id@,
                machine_id: None,
                machine_name: None,
                conn,
            }),
    {
        let r = ClientState {
            user_id: None,
            session_id: None,
            session_ids: Vec::new(),
            is_cli_bridge: false,
            connection_id,
            machine_id: None,
            machine_name: None,
            conn,
        };
        assert(text_set(r.session_ids@) =~= Set::empty());
        r
    }
}

/// Something the caller does on behalf of the protocol.
pub enum Action {
    /// Send the message to each of the connections, in order.
    Send { to: Vec<ConnId>, msg: ServerMessage },
    /// Hand terminal input to a CLI bridge, wrapped as a terminal output frame
    /// whose data is the JSON of the input message.
    ForwardInput { to: ConnId, session_id: String, data: Vec<u8> },
    /// Send the user's machine list to this connection.
    SendMachineList { user_id: String },
    /// Send the user's machine list to the given connections of the user.
    BroadcastMachineList { user_id: String, to: Vec<ConnId> },
    /// Record a new status of a session in the store (a failure is only logged).
    SetSessionStatus { session_id: String, status: SessionStatus },
    /// Close this connection.
    Disconnect,
}

/// The mathematical value of an action.
pub enum ActionView {
    Send { to: Seq<ConnId>, msg: ServerMessageView },
    ForwardInput { to: ConnId, session_id: Seq<char>, data: Seq<u8> },
    SendMachineList { user_id: Seq<char> },
    BroadcastMachineList { user_id: Seq<char>, to: Seq<ConnId> },
    SetSessionStatus { session_id: Seq<char>, status: SessionStatus },
    Disconnect,
}

impl View for Action {
    type V = ActionView;

    open spec fn view(&self) -> ActionView {
        match self {
            Action::Send { to, msg } => ActionView::Send { to: to@, msg: msg@ },
            Action::ForwardInput { to, session_id, data } => ActionView::ForwardInput {
                to: *to,
                session_id: session_id@,
                data: data@,
            },
            Action::SendMachineList { user_id } => ActionView::SendMachineList { user_id: user_id@ },
            Action::BroadcastMachineList { user_id, to } => ActionView::BroadcastMachineList {
                user_id: user_id@,
                to: to@,
            },
            Action::SetSessionStatus { session_id, status } => ActionView::SetSessionStatus {
                session_id: session_id@,
                status: *status,
            },
            Action::Disconnect => ActionView::Disconnect,
        }
    }
}

/// The views of a list of actions.
pub open spec fn actions_view(v: Seq<Action>) -> Seq<ActionView> {
    v.map_values(|a: Action| a@)
}

/// A message to this connection alone.
pub open spec fn reply(state: ClientStateView, msg: ServerMessageView) -> ActionView {
    ActionView::Send { to: seq![state.conn], msg }
}

/// A list with one connection.
fn one(c: ConnId) -> (r: Vec<ConnId>)
    ensures
        r@ == seq![c],
{
    let mut r: Vec<ConnId> = Vec::new();
    r.push(c);
    r
}

/// Sends `msg` to this connection alone.
fn reply_with(state: &ClientState, msg: ServerMessage) -> (r: Action)
    ensures
        r@ == reply(state@, msg@),
{
    Action::Send { to: one(state.conn), msg }
}

/// The error sent to a connection that must authenticate first.
pub open spec fn not_authenticated_view() -> ServerMessageView {
    ServerMessageView::Error { code: "not_authenticated"@, message: "Please authenticate first"@ }
}

fn not_authenticated(state: &ClientState) -> (r: Vec<Action>)
    ensures
        actions_view(r@) == seq![reply(state@, not_authenticated_view())],
{
    let mut r: Vec<Action> = Vec::new();
    r.push(reply_with(state, error_message("not_authenticated", "Please authenticate first")));
    assert(actions_view(r@) =~= seq![reply(state@, not_authenticated_view())]);
    r
}

/// Whether this connection watches `session_id` as a web client.
fn has_joined(state: &ClientState, session_id: &str) -> (r: bool)
    ensures
        r == state@.joined.contains(session_id@),
{
    let mut i: usize = 0;
    while i < state.session_ids.len()
        invariant
            i <= state.session_ids@.len(),
            forall|j: int| 0 <= j < i ==> state.session_ids@[j]@ != session_id@,
        decreases state.session_ids@.len() - i,
    {
        if str_eq(state.session_ids[i].as_str(), session_id) {
            assert(state.session_ids@[i as int]@ == session_id@);
            return true;
        }
        i = i + 1;
    }
    false
}

/// Whether this connection is the CLI bridge of `session_id`.
fn is_bridge_of(state: &ClientState, session_id: &str) -> (r: bool)
    ensures
        r == (state@.is_cli_bridge && state@.session_id == Some(session_id@)),
{
    if !state.is_cli_bridge {
        return false;
    }
    match &state.session_id {
        Some(s) => str_eq(s.as_str(), session_id),
        None => false,
    }
}

/// What a connection sends in answer to a ping.
pub fn handle_ping(state: &ClientState) -> (r: Vec<Action>)
    ensures
        actions_view(r@) == seq![reply(state@, ServerMessageView::Pong)],
{
    let mut r: Vec<Action> = Vec::new();
    r.push(reply_with(state, ServerMessage::Pong));
    assert(actions_view(r@) =~= seq![reply(state@, ServerMessageView::Pong)]);
    r
}

/// The connection authenticated as `user_id`: it joins the global broadcasts,
/// is told so, and gets the user's machine list.
pub fn on_token_accepted(state: &mut ClientState, router: &mut ConnectionManager, user_id: String) -> (r: Vec<Action>)
    ensures
        final(state)@ == (ClientStateView { user_id: Some(user_id@), ..old(state)@ }),
        final(router).users() == old(router).users().push((user_id@, old(state).conn)),
        final(router).cli() == old(router).cli(),
        final(router).web() == old(router).web(),
        final(router).machines() == old(router).machines(),
        final(router).pending() == old(router).pending(),
        final(router).buffers() == old(router).buffers(),
        actions_view(r@) == seq![
            reply(old(state)@, ServerMessageView::Authenticated { user_id: user_id@ }),
            ActionView::SendMachineList { user_id: user_id@ },
        ],
{
    router.register_user(user_id.as_str(), state.conn);
    state.user_id = Some(user_id.clone());
    let mut r: Vec<Action> = Vec::new();
    r.push(reply_with(state, ServerMessage::Authenticated { user_id: user_id.clone() }));
    r.push(Action::SendMachineList { user_id });
    assert(actions_view(r@) =~= seq![
        reply(old(state)@, ServerMessageView::Authenticated { user_id: user_id@ }),
        ActionView::SendMachineList { user_id: user_id@ },
    ]);
    r
}

/// The token did not check out: the connection is told and closed.
pub fn on_token_rejected(state: &ClientState) -> (r: Vec<Action>)
    ensures
        actions_view(r@) == seq![
            reply(state@, ServerMessageView::Error { code: "auth_failed"@, message: "Invalid or expired token"@ }),
            ActionView::Disconnect,
        ],
{
    let mut r: Vec<Action> = Vec::new();
    r.push(reply_with(state, error_message("auth_failed", "Invalid or expired token")));
    r.push(Action::Disconnect);
    assert(actions_view(r@) =~= seq![
        reply(state@, ServerMessageView::Error { code: "auth_failed"@, message: "Invalid or expired token"@ }),
        ActionView::Disconnect,
    ]);
    r
}


/// The text that `format!("{:?}", ..)` gives for an optional string.
pub uninterp spec fn debug_text_of_opt_str(o: Option<Seq<char>>) -> Seq<char>;

/// Formats an optional string with `format!("{:?}", ..)` (the `Debug` form of `Option<String>`).
#[verifier::external_body]
fn debug_opt_string(o: &Option<String>) -> (r: String)
    ensures
        r@ == debug_text_of_opt_str(opt_str_view(*o)),
{
    format!("{:?}", o)
}

/// The error for a client that sends input to a session it did not join.
pub open spec fn not_joined_view(session_id: Seq<char>) -> ServerMessageView {
    ServerMessageView::Error {
        code: "session_mismatch"@,
        message: "You are not connected to session "@ + session_id,
    }
}

/// The error for input to a session without a CLI bridge.
pub open spec fn bridge_not_connected_view() -> ServerMessageView {
    ServerMessageView::Error {
        code: "bridge_not_connected"@,
        message: "No CLI bridge connected for this session"@,
    }
}

/// Terminal input from a web client goes to the session's CLI bridge, if the
/// client joined the session and the session has a bridge.
pub open spec fn terminal_input_actions(
    state: ClientStateView,
    cli: Map<Seq<char>, ConnId>,
    session_id: Seq<char>,
    data: Seq<u8>,
) -> Seq<ActionView> {
    if !state.joined.contains(session_id) {
        seq![reply(state, not_joined_view(session_id))]
    } else if !cli.contains_key(session_id) {
        seq![reply(state, bridge_not_connected_view())]
    } else {
        seq![ActionView::ForwardInput { to: cli[session_id], session_id, data }]
    }
}

/// Handles terminal input from a web client.
pub fn handle_terminal_input(state: &ClientState, router: &ConnectionManager, session_id: String, data: Vec<u8>) -> (r: Vec<Action>)
    ensures
        actions_view(r@) == terminal_input_actions(state@, router.cli(), session_id@, data@),
{
    let mut r: Vec<Action> = Vec::new();
    if has_joined(state, session_id.as_str()) {
        if !router.has_cli(session_id.as_str()) {
            r.push(reply_with(state, error_message("bridge_not_connected", "No CLI bridge connected for this session")));
        } else {
            match router.forward_to_cli(session_id.as_str()) {
                Some(cli) => {
                    r.push(Action::ForwardInput { to: cli, session_id, data });
                },
                None => {
                    r.push(reply_with(state, error_message("no_cli", "No CLI bridge connected")));
                },
            }
        }
    } else {
        let message = concat("You are not connected to session ", session_id.as_str());
        r.push(reply_with(state, ServerMessage::Error { code: owned("session_mismatch"), message }));
    }
    assert(actions_view(r@) =~= terminal_input_actions(state@, router.cli(), session_id@, data@));
    r
}

/// Whether this connection is the CLI bridge of `session_id`.
pub open spec fn bridge_of(state: ClientStateView, session_id: Seq<char>) -> bool {
    state.is_cli_bridge && state.session_id == Some(session_id)
}

/// The history a CLI bridge sends for its own session replaces the session's
/// buffer and goes to the session's web clients; from anyone else it is dropped.
pub open spec fn history_step(
    state: ClientStateView,
    before: ConnectionManager,
    after: ConnectionManager,
    session_id: Seq<char>,
    data: Seq<u8>,
    actions: Seq<ActionView>,
) -> bool {
    &&& bridge_of(state, session_id) ==> {
        &&& after.buffers() == before.buffers().insert(session_id, bounded_tail(data))
        &&& actions == seq![ActionView::Send {
            to: web_of(before.web(), session_id),
            msg: ServerMessageView::TerminalHistory { session_id, data },
        }]
    }
    &&& !bridge_of(state, session_id) ==> after.buffers() == before.buffers() && actions.len() == 0
    &&& after.cli() == before.cli()
    &&& after.web() == before.web()
    &&& after.machines() == before.machines()
    &&& after.pending() == before.pending()
    &&& after.users() == before.users()
}

/// Handles terminal history from a connection.
pub fn handle_terminal_history(state: &ClientState, router: &mut ConnectionManager, session_id: String, data: Vec<u8>) -> (r: Vec<Action>)
    ensures
        history_step(state@, *old(router), *final(router), session_id@, data@, actions_view(r@)),
{
    let mut r: Vec<Action> = Vec::new();
    if is_bridge_of(state, session_id.as_str()) {
        let kept = crate::text::copy_bytes(data.as_slice());
        router.set_output_buffer(session_id.as_str(), kept);
        let to = router.broadcast_to_web(session_id.as_str());
        r.push(Action::Send { to, msg: ServerMessage::TerminalHistory { session_id, data } });
        assert(actions_view(r@) =~= seq![ActionView::Send {
            to: web_of(old(router).web(), session_id@),
            msg: ServerMessageView::TerminalHistory { session_id: session_id@, data: data@ },
        }]);
    }
    r
}

/// Output a CLI bridge sends for its own session is buffered and goes to the
/// session's web clients; a bridge that names another session is told of the
/// mismatch; output from a web client is dropped.
pub open spec fn output_step(
    state: ClientStateView,
    before: ConnectionManager,
    after: ConnectionManager,
    session_id: Seq<char>,
    data: Seq<u8>,
    actions: Seq<ActionView>,
) -> bool {
    &&& bridge_of(state, session_id) ==> {
        &&& after.buffers() == before.buffers().insert(
            session_id,
            bounded_tail(buffer_of(before.buffers(), session_id) + data),
        )
        &&& actions == seq![ActionView::Send {
            to: web_of(before.web(), session_id),
            msg: ServerMessageView::TerminalOutput { session_id, data },
        }]
    }
    &&& state.is_cli_bridge && state.session_id != Some(session_id) ==> {
        &&& after.buffers() == before.buffers()
        &&& actions == seq![reply(state, ServerMessageView::Error {
            code: "session_mismatch"@,
            message: "Session ID mismatch: expected "@ + debug_text_of_opt_str(state.session_id) + ", got "@ + session_id,
        })]
    }
    &&& !state.is_cli_bridge ==> after.buffers() == before.buffers() && actions.len() == 0
    &&& after.cli() == before.cli()
    &&& after.web() == before.web()
    &&& after.machines() == before.machines()
    &&& after.pending() == before.pending()
    &&& after.users() == before.users()
}

/// Handles terminal output from a connection.
pub fn handle_terminal_output(state: &ClientState, router: &mut ConnectionManager, session_id: String, data: Vec<u8>) -> (r: Vec<Action>)
    ensures
        output_step(state@, *old(router), *final(router), session_id@, data@, actions_view(r@)),
{
    let mut r: Vec<Action> = Vec::new();
    if state.is_cli_bridge {
        if is_bridge_of(state, session_id.as_str()) {
            router.append_output(session_id.as_str(), data.as_slice());
            let to = router.broadcast_to_web(session_id.as_str());
            r.push(Action::Send { to, msg: ServerMessage::TerminalOutput { session_id, data } });
            assert(actions_view(r@) =~= seq![ActionView::Send {
                to: web_of(old(router).web(), session_id@),
                msg: ServerMessageView::TerminalOutput { session_id: session_id@, data: data@ },
            }]);
        } else {
            let expected = debug_opt_string(&state.session_id);
            let m1 = concat("Session ID mismatch: expected ", expected.as_str());
            let m2 = concat(m1.as_str(), ", got ");
            let message = concat(m2.as_str(), session_id.as_str());
            r.push(reply_with(state, ServerMessage::Error { code: owned("session_mismatch"), message }));
            assert(actions_view(r@) =~= seq![reply(state@, ServerMessageView::Error {
                code: "session_mismatch"@,
                message: "Session ID mismatch: expected "@ + debug_text_of_opt_str(state@.session_id) + ", got "@ + session_id@,
            })]);
        }
    }
    r
}

/// A CLI bridge detaching from its session stops being its bridge; a web client
/// detaching from a joined session stops watching it (with every other watcher
/// of that session); anything else changes nothing. No message is sent.
pub open spec fn detach_step(
    s0: ClientStateView,
    s1: ClientStateView,
    before: ConnectionManager,
    after: ConnectionManager,
    session_id: Seq<char>,
) -> bool {
    &&& bridge_of(s0, session_id) ==> {
        &&& s1 == ClientStateView { session_id: None, is_cli_bridge: false, ..s0 }
        &&& after.cli() == before.cli().remove(session_id)
        &&& after.web() == before.web()
    }
    &&& s0.is_cli_bridge && s0.session_id != Some(session_id) ==> {
        &&& s1 == s0
        &&& after.cli() == before.cli()
        &&& after.web() == before.web()
    }
    &&& !s0.is_cli_bridge && s0.joined.contains(session_id) ==> {
        &&& s1 == ClientStateView { joined: s0.joined.remove(session_id), ..s0 }
        &&& after.cli() == before.cli()
        &&& after.web() == before.web().remove(session_id)
    }
    &&& !s0.is_cli_bridge && !s0.joined.contains(session_id) ==> {
        &&& s1 == s0
        &&& after.cli() == before.cli()
        &&& after.web() == before.web()
    }
    &&& after.machines() == before.machines()
    &&& after.pending() == before.pending()
    &&& after.buffers() == before.buffers()
    &&& after.users() == before.users()
}

/// Handles a detach request.
pub fn handle_detach(state: &mut ClientState, router: &mut ConnectionManager, session_id: &str)
    ensures
        detach_step(old(state)@, final(state)@, *old(router), *final(router), session_id@),
{
    if state.is_cli_bridge {
        if is_bridge_of(state, session_id) {
            router.unregister_cli(session_id);
            state.session_id = None;
            state.is_cli_bridge = false;
        }
    } else if has_joined(state, session_id) {
        let ghost before = state.session_ids@;
        let mut kept: Vec<String> = Vec::new();
        let mut i: usize = 0;
        while i < state.session_ids.len()
            invariant
                i <= state.session_ids@.len(),
                before == state.session_ids@,
                forall|k: Seq<char>| #[trigger] text_set(kept@).contains(k) <==> (text_set(before.take(i as int)).contains(k) && k != session_id@),
            decreases state.session_ids@.len() - i,
        {
            let ghost kept_before = kept@;
            if !str_eq(state.session_ids[i].as_str(), session_id) {
                kept.push(state.session_ids[i].clone());
            }
            assert forall|k: Seq<char>| #[trigger] text_set(kept@).contains(k) <==> (text_set(before.take(i as int + 1)).contains(k) && k != session_id@) by {
                if text_set(kept@).contains(k) {
                    let j = choose|j: int| 0 <= j < kept@.len() && #[trigger] kept@[j]@ == k;
                    if j < kept_before.len() {
                        assert(kept_before[j]@ == k);
                        assert(text_set(kept_before).contains(k));
                        let a = choose|a: int| 0 <= a < before.take(i as int).len() && #[trigger] before.take(i as int)[a]@ == k;
                        assert(before.take(i as int + 1)[a]@ == k);
                    } else {
                        assert(before.take(i as int + 1)[i as int]@ == k);
                    }
                }
                if text_set(before.take(i as int + 1)).contains(k) && k != session_id@ {
                    let a = choose|a: int| 0 <= a < before.take(i as int + 1).len() && #[trigger] before.take(i as int + 1)[a]@ == k;
                    if a < i {
                        assert(before.take(i as int)[a]@ == k);
                        assert(text_set(before.take(i as int)).contains(k));
                        assert(text_set(kept_before).contains(k));
                        let j = choose|j: int| 0 <= j < kept_before.len() && #[trigger] kept_before[j]@ == k;
                        assert(kept@[j]@ == k);
                    } else {
                        assert(kept@[kept@.len() - 1]@ == k);
                    }
                }
            }
            i = i + 1;
        }
        assert(before.take(before.len() as int) =~= before);
        state.session_ids = kept;
        assert(text_set(state.session_ids@) =~= old(state)@.joined.remove(session_id@));
        router.unregister_web(session_id);
    }
}


/// Every view of the router is the same in `a` and `b`.
pub open spec fn same_router(a: ConnectionManager, b: ConnectionManager) -> bool {
    &&& a.cli() == b.cli()
    &&& a.web() == b.web()
    &&& a.machines() == b.machines()
    &&& a.pending() == b.pending()
    &&& a.buffers() == b.buffers()
    &&& a.users() == b.users()
}

/// The connections of the CLI bridge of a session: one, or none.
pub open spec fn cli_targets(cli: Map<Seq<char>, ConnId>, session_id: Seq<char>) -> Seq<ConnId> {
    if cli.contains_key(session_id) {
        seq![cli[session_id]]
    } else {
        Seq::empty()
    }
}

fn cli_targets_of(router: &ConnectionManager, session_id: &str) -> (r: Vec<ConnId>)
    ensures
        r@ == cli_targets(router.cli(), session_id@),
{
    match router.forward_to_cli(session_id) {
        Some(c) => one(c),
        None => Vec::new(),
    }
}

/// A git request from an authenticated web client goes to the session's CLI
/// bridge, naming this connection as the requester; without a bridge the client
/// is told so; from an unauthenticated connection it is dropped.
pub open spec fn git_request_actions(
    state: ClientStateView,
    cli: Map<Seq<char>, ConnId>,
    session_id: Seq<char>,
    request: ServerMessageView,
) -> Seq<ActionView> {
    if state.user_id is None {
        Seq::empty()
    } else if cli.contains_key(session_id) {
        seq![ActionView::Send { to: seq![cli[session_id]], msg: request }]
    } else {
        seq![reply(state, ServerMessageView::Error {
            code: "no_cli"@,
            message: "No CLI bridge connected for this session"@,
        })]
    }
}

fn git_request(state: &ClientState, router: &ConnectionManager, session_id: &str, request: ServerMessage) -> (r: Vec<Action>)
    ensures
        actions_view(r@) == git_request_actions(state@, router.cli(), session_id@, request@),
{
    let mut r: Vec<Action> = Vec::new();
    if state.user_id.is_some() {
        if router.has_cli(session_id) {
            r.push(Action::Send { to: cli_targets_of(router, session_id), msg: request });
        } else {
            r.push(reply_with(state, error_message("no_cli", "No CLI bridge connected for this session")));
        }
    }
    assert(actions_view(r@) =~= git_request_actions(state@, router.cli(), session_id@, request@));
    r
}

/// A git answer from a CLI bridge goes to the web clients of the session it names;
/// from a web client it is dropped.
pub open spec fn git_response_actions(
    state: ClientStateView,
    web: Map<Seq<char>, Seq<ConnId>>,
    session_id: Seq<char>,
    answer: ServerMessageView,
) -> Seq<ActionView> {
    if state.is_cli_bridge {
        seq![ActionView::Send { to: web_of(web, session_id), msg: answer }]
    } else {
        Seq::empty()
    }
}

fn git_response(state: &ClientState, router: &ConnectionManager, session_id: &str, answer: ServerMessage) -> (r: Vec<Action>)
    ensures
        actions_view(r@) == git_response_actions(state@, router.web(), session_id@, answer@),
{
    let mut r: Vec<Action> = Vec::new();
    if state.is_cli_bridge {
        r.push(Action::Send { to: router.broadcast_to_web(session_id), msg: answer });
    }
    assert(actions_view(r@) =~= git_response_actions(state@, router.web(), session_id@, answer@));
    r
}

/// The message `"Error: "` followed by a failure text.
pub open spec fn failure_view(e: Seq<char>) -> ServerMessageView {
    ServerMessageView::Error { code: "error"@, message: "Error: "@ + e }
}

fn failure(e: &str) -> (r: ServerMessage)
    ensures
        r@ == failure_view(e@),
{
    ServerMessage::Error { code: owned("error"), message: concat("Error: ", e) }
}

/// The session that a web client joins by tag: it watches the session from now
/// on (once), and is sent the session, a ready notice, and the buffered output.
pub fn on_session_found(
    state: &mut ClientState,
    router: &mut ConnectionManager,
    tag: &str,
    found: Result<Option<Session>, String>,
) -> (r: Vec<Action>)
    ensures
        match found {
            Ok(Some(session)) => {
                &&& final(state)@ == (ClientStateView { joined: old(state)@.joined.insert(session.id@), ..old(state)@ })
                &&& (old(state)@.joined.contains(session.id@) ==> final(router).web() == old(router).web())
                &&& (!old(state)@.joined.contains(session.id@) ==> final(router).web() == old(router).web().insert(
                    session.id@,
                    web_of(old(router).web(), session.id@).push(old(state)@.conn),
                ))
                &&& actions_view(r@) == seq![
                    reply(old(state)@, ServerMessageView::SessionUpdated { session: session@ }),
                    reply(old(state)@, ServerMessageView::TerminalReady { session_id: session.id@ }),
                ] + (if old(router).buffers().contains_key(session.id@) && old(router).buffers()[session.id@].len() > 0 {
                    seq![reply(old(state)@, ServerMessageView::TerminalOutput {
                        session_id: session.id@,
                        data: old(router).buffers()[session.id@],
                    })]
                } else {
                    Seq::empty()
                })
            },
            Ok(None) => {
                &&& final(state)@ == old(state)@
                &&& final(router).web() == old(router).web()
                &&& actions_view(r@) == seq![reply(old(state)@, ServerMessageView::Error {
                    code: "session_not_found"@,
                    message: "Session '"@ + tag@ + "' not found"@,
                })]
            },
            Err(_) => {
                &&& final(state)@ == old(state)@
                &&& final(router).web() == old(router).web()
                &&& actions_view(r@) == seq![reply(old(state)@, ServerMessageView::Error {
                    code: "find_failed"@,
                    message: "Failed to find session"@,
                })]
            },
        },
        final(router).cli() == old(router).cli(),
        final(router).machines() == old(router).machines(),
        final(router).pending() == old(router).pending(),
        final(router).buffers() == old(router).buffers(),
        final(router).users() == old(router).users(),
{
    let ghost g = found;
    let mut r: Vec<Action> = Vec::new();
    match found {
        Ok(Some(session)) => {
            let is_new = !has_joined(state, session.id.as_str());
            if is_new {
                let ghost before = state.session_ids@;
                state.session_ids.push(session.id.clone());
                assert(text_set(state.session_ids@) =~= text_set(before).insert(session.id@)) by {
                    assert forall|k: Seq<char>| #[trigger] text_set(state.session_ids@).contains(k) == text_set(before).insert(session.id@).contains(k) by {
                        if text_set(state.session_ids@).contains(k) {
                            let j = choose|j: int| 0 <= j < state.session_ids@.len() && #[trigger] state.session_ids@[j]@ == k;
                            if j < before.len() {
                                assert(before[j]@ == k);
                            }
                        }
                        if text_set(before).contains(k) {
                            let j = choose|j: int| 0 <= j < before.len() && #[trigger] before[j]@ == k;
                            assert(state.session_ids@[j]@ == k);
                        }
                        if k == session.id@ {
                            assert(state.session_ids@[before.len() as int]@ == k);
                        }
                    }
                }
                router.register_web(session.id.as_str(), state.conn);
            } else {
                assert(old(state)@.joined.insert(session.id@) =~= old(state)@.joined);
            }
            let id1 = session.id.clone();
            let id2 = session.id.clone();
            let buffer = router.get_output_buffer(session.id.as_str());
            r.push(reply_with(state, ServerMessage::SessionUpdated { session }));
            r.push(reply_with(state, ServerMessage::TerminalReady { session_id: id1 }));
            match buffer {
                Some(b) => {
                    if b.len() > 0 {
                        r.push(reply_with(state, ServerMessage::TerminalOutput { session_id: id2, data: b }));
                    }
                },
                None => {},
            }
        },
        Ok(None) => {
            let m1 = concat("Session '", tag);
            let message = concat(m1.as_str(), "' not found");
            r.push(reply_with(state, ServerMessage::Error { code: owned("session_not_found"), message }));
        },
        Err(_) => {
            r.push(reply_with(state, error_message("find_failed", "Failed to find session")));
        },
    }
    proof {
        match g {
            Ok(Some(session)) => {
                assert(actions_view(r@) =~= seq![
                    reply(old(state)@, ServerMessageView::SessionUpdated { session: session@ }),
                    reply(old(state)@, ServerMessageView::TerminalReady { session_id: session.id@ }),
                ] + (if old(router).buffers().contains_key(session.id@) && old(router).buffers()[session.id@].len() > 0 {
                    seq![reply(old(state)@, ServerMessageView::TerminalOutput {
                        session_id: session.id@,
                        data: old(router).buffers()[session.id@],
                    })]
                } else {
                    Seq::empty()
                }));
            },
            Ok(None) => {
                assert(actions_view(r@) =~= seq![reply(old(state)@, ServerMessageView::Error {
                    code: "session_not_found"@,
                    message: "Session '"@ + tag@ + "' not found"@,
                })]);
            },
            Err(_) => {
                assert(actions_view(r@) =~= seq![reply(old(state)@, ServerMessageView::Error {
                    code: "find_failed"@,
                    message: "Failed to find session"@,
                })]);
            },
        }
    }
    r
}


/// A CLI daemon's request to become the bridge of a session.
pub struct AttachRequest {
    pub session_id: String,
    pub tag: String,
    pub cwd: String,
    pub machine_id: Option<String>,
    pub machine_name: Option<String>,
}

/// What to do next with an attach request, once the session was looked up.
pub enum AttachPlan {
    /// Nothing more: perform these actions.
    Done(Vec<Action>),
    /// Register the machine the daemon named in the registry (under `name`); if
    /// `update_session_machine`, move the session to that machine and read it again.
    SyncMachine { machine_id: String, name: String, update_session_machine: bool, session: Session },
    /// Go on with the session as it is.
    Checked { session: Session },
}

/// The session belongs to `user_id`.
pub open spec fn owned_by(session: SessionView, user_id: Option<Seq<char>>) -> bool {
    user_id == Some(session.user_id)
}

/// Decides on an attach request after looking up its session: a missing session is
/// reported deleted (so the daemon cleans up), a session of another user is
/// refused, a failed lookup is reported; otherwise the machine that the daemon
/// names is synchronised first, if it names one.
pub fn on_attach_lookup(state: &ClientState, request: AttachRequest, lookup: Result<Option<Session>, String>) -> (r: AttachPlan)
    ensures
        match lookup {
            Ok(Some(session)) => if owned_by(session@, state@.user_id) {
                match request.machine_id {
                    Some(mid) => r matches AttachPlan::SyncMachine { machine_id, name, update_session_machine, session: s } && {
                        &&& machine_id@ == mid@
                        &&& name@ == (match request.machine_name {
                            Some(n) => n@,
                            None => "Unknown Machine"@,
                        })
                        &&& update_session_machine == (session.machine_id@ != mid@)
                        &&& s@ == session@
                    },
                    None => r matches AttachPlan::Checked { session: s } && s@ == session@,
                }
            } else {
                r matches AttachPlan::Done(a) && actions_view(a@) == seq![reply(state@, ServerMessageView::Error {
                    code: "access_denied"@,
                    message: "Session belongs to another user"@,
                })]
            },
            Ok(None) => r matches AttachPlan::Done(a) && actions_view(a@) == seq![reply(
                state@,
                ServerMessageView::SessionDeleted { session_id: request.session_id@ },
            )],
            Err(e) => r matches AttachPlan::Done(a) && actions_view(a@) == seq![reply(state@, failure_view(e@))],
        },
{
    let ghost g = lookup;
    let ghost req = request;
    match lookup {
        Ok(Some(session)) => {
            let is_owner = match &state.user_id {
                Some(u) => str_eq(session.user_id.as_str(), u.as_str()),
                None => false,
            };
            if is_owner {
                match request.machine_id {
                    Some(mid) => {
                        let name = match request.machine_name {
                            Some(n) => n,
                            None => owned("Unknown Machine"),
                        };
                        let update_session_machine = !str_eq(session.machine_id.as_str(), mid.as_str());
                        AttachPlan::SyncMachine { machine_id: mid, name, update_session_machine, session }
                    },
                    None => AttachPlan::Checked { session },
                }
            } else {
                let mut a: Vec<Action> = Vec::new();
                a.push(reply_with(state, error_message("access_denied", "Session belongs to another user")));
                assert(actions_view(a@) =~= seq![reply(state@, ServerMessageView::Error {
                    code: "access_denied"@,
                    message: "Session belongs to another user"@,
                })]);
                AttachPlan::Done(a)
            }
        },
        Ok(None) => {
            let mut a: Vec<Action> = Vec::new();
            a.push(reply_with(state, ServerMessage::SessionDeleted { session_id: request.session_id }));
            assert(actions_view(a@) =~= seq![reply(state@, ServerMessageView::SessionDeleted { session_id: req.session_id@ })]);
            AttachPlan::Done(a)
        },
        Err(e) => {
            let mut a: Vec<Action> = Vec::new();
            a.push(reply_with(state, failure(e.as_str())));
            assert(actions_view(a@) =~= seq![reply(state@, failure_view(e@))]);
            AttachPlan::Done(a)
        },
    }
}

/// After the machine of an attach request was registered (`registered`), the
/// user's connections get the new machine list.
pub fn on_machine_synced(state: &ClientState, router: &ConnectionManager, registered: bool) -> (r: Vec<Action>)
    requires
        state@.user_id is Some,
    ensures
        registered ==> actions_view(r@) == seq![ActionView::BroadcastMachineList {
            user_id: state@.user_id->0,
            to: user_conns(router.users(), state@.user_id->0),
        }],
        !registered ==> r@.len() == 0,
{
    let mut r: Vec<Action> = Vec::new();
    if registered {
        match &state.user_id {
            Some(u) => {
                let to = router.send_to_user(u.as_str());
                r.push(Action::BroadcastMachineList { user_id: u.clone(), to });
                assert(actions_view(r@) =~= seq![ActionView::BroadcastMachineList {
                    user_id: state@.user_id->0,
                    to: user_conns(router.users(), state@.user_id->0),
                }]);
            },
            None => {},
        }
    }
    r
}

/// The session read again after a change, or the one at hand when the read failed.
pub fn prefer_reread(current: Session, reread: Option<Session>) -> (r: Session)
    ensures
        r@ == match reread {
            Some(s) => s@,
            None => current@,
        },
{
    match reread {
        Some(s) => s,
        None => current,
    }
}

/// What to do with an attach request once its machine is synchronised.
pub enum AttachCheck {
    /// The session already ended: perform these actions (the daemon is told to stop, and closed).
    Rejected(Vec<Action>),
    /// Record the daemon's working directory for the session and read it again.
    UpdateCwd { session: Session },
    /// Attach to the session as it is.
    Ready { session: Session },
}

/// A terminated session refuses attachment; a session whose working directory
/// differs from the daemon's is updated first.
pub fn on_attach_synced(state: &ClientState, session_id: &str, cwd: &str, session: Session) -> (r: AttachCheck)
    ensures
        session.status == SessionStatus::Terminated ==> (r matches AttachCheck::Rejected(a) && actions_view(a@) == seq![
            reply(state@, ServerMessageView::SessionStopped { session_id: session_id@ }),
            ActionView::Disconnect,
        ]),
        session.status != SessionStatus::Terminated && session.metadata.cwd@ != cwd@ ==>
            (r matches AttachCheck::UpdateCwd { session: s } && s@ == session@),
        session.status != SessionStatus::Terminated && session.metadata.cwd@ == cwd@ ==>
            (r matches AttachCheck::Ready { session: s } && s@ == session@),
{
    if session.status == SessionStatus::Terminated {
        let mut a: Vec<Action> = Vec::new();
        a.push(reply_with(state, ServerMessage::SessionStopped { session_id: owned(session_id) }));
        a.push(Action::Disconnect);
        assert(actions_view(a@) =~= seq![
            reply(state@, ServerMessageView::SessionStopped { session_id: session_id@ }),
            ActionView::Disconnect,
        ]);
        AttachCheck::Rejected(a)
    } else if !str_eq(session.metadata.cwd.as_str(), cwd) {
        AttachCheck::UpdateCwd { session }
    } else {
        AttachCheck::Ready { session }
    }
}

/// The daemon becomes the CLI bridge of the session and a daemon connection of
/// its machine; the user's connections get the machine list, the session is
/// marked running, and the daemon is sent the session and a ready notice.
pub fn on_attach_ready(state: &mut ClientState, router: &mut ConnectionManager, session_id: String, session: Session) -> (r: Vec<Action>)
    requires
        old(state)@.user_id is Some,
    ensures
        final(state)@ == (ClientStateView {
            session_id: Some(session_id@),
            is_cli_bridge: true,
            machine_id: Some(session.machine_id@),
            machine_name: Some(session.machine_name@),
            ..old(state)@
        }),
        final(router).cli() == old(router).cli().insert(session_id@, old(state)@.conn),
        final(router).machines() == old(router).machines().insert(
            session.machine_id@,
            crate::connections::machine_conns_of(old(router).machines(), session.machine_id@).insert(
                old(state)@.connection_id,
                old(state)@.conn,
            ),
        ),
        final(router).web() == old(router).web(),
        final(router).pending() == old(router).pending(),
        final(router).buffers() == old(router).buffers(),
        final(router).users() == old(router).users(),
        actions_view(r@) == seq![
            ActionView::BroadcastMachineList {
                user_id: old(state)@.user_id->0,
                to: user_conns(old(router).users(), old(state)@.user_id->0),
            },
            ActionView::SetSessionStatus { session_id: session_id@, status: SessionStatus::Running },
            reply(old(state)@, ServerMessageView::SessionUpdated { session: session@ }),
            reply(old(state)@, ServerMessageView::TerminalReady { session_id: session_id@ }),
        ],
{
    let ghost s0 = session@;
    state.session_id = Some(session_id.clone());
    state.is_cli_bridge = true;
    state.machine_id = Some(session.machine_id.clone());
    state.machine_name = Some(session.machine_name.clone());
    router.register_cli(session_id.as_str(), state.conn);
    router.register_machine(session.machine_id.as_str(), state.connection_id.as_str(), state.conn);
    let mut r: Vec<Action> = Vec::new();
    match &state.user_id {
        Some(u) => {
            let to = router.send_to_user(u.as_str());
            r.push(Action::BroadcastMachineList { user_id: u.clone(), to });
        },
        None => {},
    }
    r.push(Action::SetSessionStatus { session_id: session_id.clone(), status: SessionStatus::Running });
    r.push(reply_with(state, ServerMessage::SessionUpdated { session }));
    r.push(reply_with(state, ServerMessage::TerminalReady { session_id }));
    assert(actions_view(r@) =~= seq![
        ActionView::BroadcastMachineList {
            user_id: old(state)@.user_id->0,
            to: user_conns(old(router).users(), old(state)@.user_id->0),
        },
        ActionView::SetSessionStatus { session_id: session_id@, status: SessionStatus::Running },
        reply(old(state)@, ServerMessageView::SessionUpdated { session: s0 }),
        reply(old(state)@, ServerMessageView::TerminalReady { session_id: session_id@ }),
    ]);
    r
}

/// The answer to a session list request: the list, or an error when the store failed.
pub fn on_sessions_listed(state: &ClientState, listed: Result<Vec<Session>, String>) -> (r: Vec<Action>)
    ensures
        match listed {
            Ok(sessions) => actions_view(r@) == seq![reply(state@, ServerMessageView::SessionsList {
                sessions: sessions@.map_values(|s: Session| s@),
            })],
            Err(_) => actions_view(r@) == seq![reply(state@, ServerMessageView::Error {
                code: "list_failed"@,
                message: "Failed to retrieve sessions"@,
            })],
        },
{
    let ghost g = listed;
    let mut r: Vec<Action> = Vec::new();
    match listed {
        Ok(sessions) => r.push(reply_with(state, ServerMessage::SessionsList { sessions })),
        Err(_) => r.push(reply_with(state, error_message("list_failed", "Failed to retrieve sessions"))),
    }
    proof {
        match g {
            Ok(sessions) => assert(actions_view(r@) =~= seq![reply(state@, ServerMessageView::SessionsList {
                sessions: sessions@.map_values(|s: Session| s@),
            })]),
            Err(_) => assert(actions_view(r@) =~= seq![reply(state@, ServerMessageView::Error {
                code: "list_failed"@,
                message: "Failed to retrieve sessions"@,
            })]),
        }
    }
    r
}

/// The answer to a session start from a web client: the new session, or an error.
pub fn on_session_created(state: &ClientState, created: Result<Session, String>) -> (r: Vec<Action>)
    ensures
        match created {
            Ok(session) => actions_view(r@) == seq![reply(state@, ServerMessageView::SessionStarted { session: session@ })],
            Err(_) => actions_view(r@) == seq![reply(state@, ServerMessageView::Error {
                code: "create_failed"@,
                message: "Failed to create session"@,
            })],
        },
{
    let ghost g = created;
    let mut r: Vec<Action> = Vec::new();
    match created {
        Ok(session) => r.push(reply_with(state, ServerMessage::SessionStarted { session })),
        Err(_) => r.push(reply_with(state, error_message("create_failed", "Failed to create session"))),
    }
    proof {
        match g {
            Ok(session) => assert(actions_view(r@) =~= seq![reply(state@, ServerMessageView::SessionStarted { session: session@ })]),
            Err(_) => assert(actions_view(r@) =~= seq![reply(state@, ServerMessageView::Error {
                code: "create_failed"@,
                message: "Failed to create session"@,
            })]),
        }
    }
    r
}

/// After a stop request: the requester and the session's CLI bridge are told the
/// session stopped, or the requester is told the stop failed.
pub fn on_session_terminated(state: &ClientState, router: &ConnectionManager, session_id: &str, done: bool) -> (r: Vec<Action>)
    ensures
        done ==> actions_view(r@) == seq![
            reply(state@, ServerMessageView::SessionStopped { session_id: session_id@ }),
            ActionView::Send {
                to: cli_targets(router.cli(), session_id@),
                msg: ServerMessageView::SessionStopped { session_id: session_id@ },
            },
        ],
        !done ==> actions_view(r@) == seq![reply(state@, ServerMessageView::Error {
            code: "stop_failed"@,
            message: "Failed to stop session"@,
        })],
{
    let mut r: Vec<Action> = Vec::new();
    if done {
        r.push(reply_with(state, ServerMessage::SessionStopped { session_id: owned(session_id) }));
        r.push(Action::Send {
            to: cli_targets_of(router, session_id),
            msg: ServerMessage::SessionStopped { session_id: owned(session_id) },
        });
    } else {
        r.push(reply_with(state, error_message("stop_failed", "Failed to stop session")));
    }
    assert(actions_view(r@) =~= if done {
        seq![
            reply(state@, ServerMessageView::SessionStopped { session_id: session_id@ }),
            ActionView::Send {
                to: cli_targets(router.cli(), session_id@),
                msg: ServerMessageView::SessionStopped { session_id: session_id@ },
            },
        ]
    } else {
        seq![reply(state@, ServerMessageView::Error { code: "stop_failed"@, message: "Failed to stop session"@ })]
    });
    r
}

/// What to do with a delete request once its session was looked up.
pub enum DeletePlan {
    /// Nothing more: perform these actions.
    Done(Vec<Action>),
    /// Remove the session from the store.
    Remove,
}

/// Only the owner may delete a session; a missing session or a failed lookup is reported.
pub fn on_delete_lookup(state: &ClientState, lookup: Result<Option<Session>, String>) -> (r: DeletePlan)
    ensures
        match lookup {
            Ok(Some(session)) => if owned_by(session@, state@.user_id) {
                r is Remove
            } else {
                r matches DeletePlan::Done(a) && actions_view(a@) == seq![reply(state@, ServerMessageView::Error {
                    code: "access_denied"@,
                    message: "Session belongs to another user"@,
                })]
            },
            Ok(None) => r matches DeletePlan::Done(a) && actions_view(a@) == seq![reply(state@, ServerMessageView::Error {
                code: "not_found"@,
                message: "Session not found"@,
            })],
            Err(e) => r matches DeletePlan::Done(a) && actions_view(a@) == seq![reply(state@, failure_view(e@))],
        },
{
    let mut a: Vec<Action> = Vec::new();
    match &lookup {
        Ok(Some(session)) => {
            let is_owner = match &state.user_id {
                Some(u) => str_eq(session.user_id.as_str(), u.as_str()),
                None => false,
            };
            if is_owner {
                return DeletePlan::Remove;
            }
            a.push(reply_with(state, error_message("access_denied", "Session belongs to another user")));
        },
        Ok(None) => {
            a.push(reply_with(state, error_message("not_found", "Session not found")));
        },
        Err(e) => {
            a.push(reply_with(state, failure(e.as_str())));
        },
    }
    proof {
        match lookup {
            Ok(Some(session)) => assert(actions_view(a@) =~= seq![reply(state@, ServerMessageView::Error {
                code: "access_denied"@,
                message: "Session belongs to another user"@,
            })]),
            Ok(None) => assert(actions_view(a@) =~= seq![reply(state@, ServerMessageView::Error {
                code: "not_found"@,
                message: "Session not found"@,
            })]),
            Err(e) => assert(actions_view(a@) =~= seq![reply(state@, failure_view(e@))]),
        }
    }
    DeletePlan::Done(a)
}

/// After a delete: every user connection and the session's CLI bridge are told
/// the session is gone, or the requester is told the delete failed.
pub fn on_session_removed(state: &ClientState, router: &ConnectionManager, session_id: &str, done: bool) -> (r: Vec<Action>)
    ensures
        done ==> actions_view(r@) == seq![
            ActionView::Send {
                to: router.users().map_values(|p: (Seq<char>, ConnId)| p.1),
                msg: ServerMessageView::SessionDeleted { session_id: session_id@ },
            },
            ActionView::Send {
                to: cli_targets(router.cli(), session_id@),
                msg: ServerMessageView::SessionDeleted { session_id: session_id@ },
            },
        ],
        !done ==> actions_view(r@) == seq![reply(state@, ServerMessageView::Error {
            code: "delete_failed"@,
            message: "Failed to delete session"@,
        })],
{
    let mut r: Vec<Action> = Vec::new();
    if done {
        r.push(Action::Send {
            to: router.broadcast_to_all_users(),
            msg: ServerMessage::SessionDeleted { session_id: owned(session_id) },
        });
        r.push(Action::Send {
            to: cli_targets_of(router, session_id),
            msg: ServerMessage::SessionDeleted { session_id: owned(session_id) },
        });
    } else {
        r.push(reply_with(state, error_message("delete_failed", "Failed to delete session")));
    }
    assert(actions_view(r@) =~= if done {
        seq![
            ActionView::Send {
                to: router.users().map_values(|p: (Seq<char>, ConnId)| p.1),
                msg: ServerMessageView::SessionDeleted { session_id: session_id@ },
            },
            ActionView::Send {
                to: cli_targets(router.cli(), session_id@),
                msg: ServerMessageView::SessionDeleted { session_id: session_id@ },
            },
        ]
    } else {
        seq![reply(state@, ServerMessageView::Error { code: "delete_failed"@, message: "Failed to delete session"@ })]
    });
    r
}


/// The machines with their online flag set from the router: a machine is online
/// when it has an open daemon connection.
pub open spec fn with_presence(router: ConnectionManager, machines: Seq<MachineInfoView>) -> Seq<MachineInfoView> {
    machines.map_values(|m: MachineInfoView| MachineInfoView {
        is_online: router.machines().contains_key(m.id) && router.machines()[m.id].dom().len() > 0,
        ..m
    })
}

/// The machine list keeps the machines, in order and with their fields, and reports
/// a machine online exactly while the router holds a daemon connection for its id:
/// with no connection registered for it, it is offline.
pub proof fn lemma_presence_follows_connections(router: ConnectionManager, machines: Seq<MachineInfoView>, i: int)
    requires
        0 <= i < machines.len(),
        forall|k: Seq<char>| #[trigger] router.machines().contains_key(k) ==> router.machines()[k].dom().finite(),
    ensures
        with_presence(router, machines).len() == machines.len(),
        ({
            let m = machines[i];
            let out = with_presence(router, machines)[i];
            &&& out.id == m.id && out.name == m.name && out.platform == m.platform
            &&& out.last_seen == m.last_seen && out.capabilities == m.capabilities
            &&& out.is_online <==> (router.machines().contains_key(m.id)
                && exists|c: Seq<char>| #[trigger] router.machines()[m.id].contains_key(c))
        }),
        router.machines() == Map::<Seq<char>, Map<Seq<char>, ConnId>>::empty() ==> !with_presence(router, machines)[i].is_online,
{
    let id = machines[i].id;
    if router.machines().contains_key(id) {
        let d = router.machines()[id].dom();
        if exists|c: Seq<char>| #[trigger] router.machines()[id].contains_key(c) {
            let c = choose|c: Seq<char>| #[trigger] router.machines()[id].contains_key(c);
            assert(d.contains(c));
            assert(d.remove(c).len() + 1 == d.len());
        } else {
            assert(d =~= Set::<Seq<char>>::empty());
        }
    }
}

/// Sets the online flag of each machine from the router's daemon connections.
pub fn machines_with_presence(router: &ConnectionManager, machines: Vec<MachineInfo>) -> (r: Vec<MachineInfo>)
    ensures
        r@.map_values(|m: MachineInfo| m@) == with_presence(*router, machines@.map_values(|m: MachineInfo| m@)),
{
    let ghost all = machines@.map_values(|m: MachineInfo| m@);
    let mut r: Vec<MachineInfo> = Vec::new();
    let mut rest = machines;
    let ghost n = rest@.len();
    let mut taken: Vec<MachineInfo> = Vec::new();
    // Visit the machines in order by moving them out from the back and then back again.
    while rest.len() > 0
        invariant
            rest@.len() + taken@.len() == n,
            all.len() == n,
            forall|i: int| 0 <= i < rest@.len() ==> #[trigger] rest@[i]@ == all[i],
            forall|i: int| 0 <= i < taken@.len() ==> #[trigger] taken@[i]@ == all[n - 1 - i],
        decreases rest@.len(),
    {
        let m = rest.pop().unwrap();
        taken.push(m);
    }
    while taken.len() > 0
        invariant
            r@.len() + taken@.len() == n,
            all.len() == n,
            forall|i: int| 0 <= i < taken@.len() ==> #[trigger] taken@[i]@ == all[n - 1 - i],
            forall|i: int| 0 <= i < r@.len() ==> #[trigger] r@[i]@ == with_presence(*router, all)[i],
        decreases taken@.len(),
    {
        let ghost k = r@.len();
        let m = taken.pop().unwrap();
        assert(m@ == all[k as int]);
        let online = router.has_machine(m.id.as_str());
        let info = MachineInfo {
            id: m.id,
            name: m.name,
            platform: m.platform,
            last_seen: m.last_seen,
            is_online: online,
            capabilities: m.capabilities,
        };
        assert(info@ == with_presence(*router, all)[k as int]);
        r.push(info);
    }
    assert(r@.map_values(|m: MachineInfo| m@) =~= with_presence(*router, all));
    r
}

/// The machine list message for these machines, with their online flags from the router.
pub fn machine_list_message(router: &ConnectionManager, machines: Vec<MachineInfo>) -> (r: ServerMessage)
    ensures
        r@ == (ServerMessageView::MachineList {
            machines: with_presence(*router, machines@.map_values(|m: MachineInfo| m@)),
        }),
{
    let list = machines_with_presence(router, machines);
    ServerMessage::MachineList { machines: list }
}

/// The answer to a machine list request: the user's machines with their online
/// flags, or an error when the store failed.
pub fn on_machines_listed(state: &ClientState, router: &ConnectionManager, listed: Result<Vec<MachineInfo>, String>) -> (r: Vec<Action>)
    ensures
        match listed {
            Ok(machines) => actions_view(r@) == seq![reply(state@, ServerMessageView::MachineList {
                machines: with_presence(*router, machines@.map_values(|m: MachineInfo| m@)),
            })],
            Err(_) => actions_view(r@) == seq![reply(state@, ServerMessageView::Error {
                code: "list_failed"@,
                message: "Failed to retrieve machines"@,
            })],
        },
{
    let ghost g = listed;
    let mut r: Vec<Action> = Vec::new();
    match listed {
        Ok(machines) => r.push(reply_with(state, machine_list_message(router, machines))),
        Err(_) => r.push(reply_with(state, error_message("list_failed", "Failed to retrieve machines"))),
    }
    proof {
        match g {
            Ok(machines) => assert(actions_view(r@) =~= seq![reply(state@, ServerMessageView::MachineList {
                machines: with_presence(*router, machines@.map_values(|m: MachineInfo| m@)),
            })]),
            Err(_) => assert(actions_view(r@) =~= seq![reply(state@, ServerMessageView::Error {
                code: "list_failed"@,
                message: "Failed to retrieve machines"@,
            })]),
        }
    }
    r
}

/// The reply to a pending remote session request: it goes to the web client that
/// asked, which stops waiting; an answer nobody waits for is dropped.
pub open spec fn remote_reply_actions(
    pending: Map<Seq<char>, ConnId>,
    request_id: Seq<char>,
    success: bool,
    session: Option<SessionView>,
    error: Option<Seq<char>>,
) -> Seq<ActionView> {
    if pending.contains_key(request_id) {
        seq![ActionView::Send {
            to: seq![pending[request_id]],
            msg: ServerMessageView::RemoteSessionResponse { request_id, success, session, error },
        }]
    } else {
        Seq::empty()
    }
}

/// The router's change and the actions when an answer to a remote session request arrives.
pub open spec fn remote_reply_step(
    before: ConnectionManager,
    after: ConnectionManager,
    request_id: Seq<char>,
    success: bool,
    session: Option<SessionView>,
    error: Option<Seq<char>>,
    actions: Seq<ActionView>,
) -> bool {
    &&& after.pending() == before.pending().remove(request_id)
    &&& after.cli() == before.cli()
    &&& after.web() == before.web()
    &&& after.machines() == before.machines()
    &&& after.buffers() == before.buffers()
    &&& after.users() == before.users()
    &&& actions == remote_reply_actions(before.pending(), request_id, success, session, error)
}

/// Replies to the web client that waits for a remote session request.
pub fn remote_reply(
    router: &mut ConnectionManager,
    request_id: String,
    success: bool,
    session: Option<Session>,
    error: Option<String>,
) -> (r: Vec<Action>)
    ensures
        remote_reply_step(
            *old(router),
            *final(router),
            request_id@,
            success,
            crate::messages::opt_session_view(session),
            opt_str_view(error),
            actions_view(r@),
        ),
{
    let ghost rid = request_id@;
    let ghost sv = crate::messages::opt_session_view(session);
    let ghost ev = opt_str_view(error);
    let mut r: Vec<Action> = Vec::new();
    match router.take_pending_request(request_id.as_str()) {
        Some(c) => {
            r.push(Action::Send {
                to: one(c),
                msg: ServerMessage::RemoteSessionResponse { request_id, success, session, error },
            });
        },
        None => {},
    }
    assert(actions_view(r@) =~= remote_reply_actions(old(router).pending(), rid, success, sv, ev));
    r
}

/// The same session, marked running.
pub open spec fn running_view(s: SessionView) -> SessionView {
    SessionView { status: SessionStatus::Running, ..s }
}

/// After a daemon's remote session was saved (`saved`, or `None` when saving
/// failed): a saved session is marked running and announced to every user
/// connection; then the waiting web client gets the daemon's answer.
pub fn on_remote_session_saved(
    router: &mut ConnectionManager,
    request_id: String,
    session: Session,
    error: Option<String>,
    saved: Option<Session>,
) -> (r: Vec<Action>)
    ensures
        final(router).pending() == old(router).pending().remove(request_id@),
        final(router).cli() == old(router).cli(),
        final(router).web() == old(router).web(),
        final(router).machines() == old(router).machines(),
        final(router).buffers() == old(router).buffers(),
        final(router).users() == old(router).users(),
        actions_view(r@) == (match saved {
            Some(s) => seq![
                ActionView::SetSessionStatus { session_id: s.id@, status: SessionStatus::Running },
                ActionView::Send {
                    to: old(router).users().map_values(|p: (Seq<char>, ConnId)| p.1),
                    msg: ServerMessageView::SessionStarted { session: running_view(s@) },
                },
            ],
            None => Seq::empty(),
        }) + remote_reply_actions(old(router).pending(), request_id@, true, Some(session@), opt_str_view(error)),
{
    let ghost sv = saved;
    let mut r: Vec<Action> = Vec::new();
    match saved {
        Some(s) => {
            let mut running = s;
            let id = running.id.clone();
            running.status = SessionStatus::Running;
            r.push(Action::SetSessionStatus { session_id: id, status: SessionStatus::Running });
            r.push(Action::Send { to: router.broadcast_to_all_users(), msg: ServerMessage::SessionStarted { session: running } });
        },
        None => {},
    }
    let ghost head = r@;
    let tail = remote_reply(router, request_id, true, Some(session), error);
    let mut tail = tail;
    r.append(&mut tail);
    proof {
        let expected_head = match sv {
            Some(s) => seq![
                ActionView::SetSessionStatus { session_id: s.id@, status: SessionStatus::Running },
                ActionView::Send {
                    to: old(router).users().map_values(|p: (Seq<char>, ConnId)| p.1),
                    msg: ServerMessageView::SessionStarted { session: running_view(s@) },
                },
            ],
            None => Seq::empty(),
        };
        assert(actions_view(head) =~= expected_head);
        assert(actions_view(r@) =~= actions_view(head) + actions_view(r@.subrange(head.len() as int, r@.len() as int)));
    }
    r
}

/// The router's change and the actions for a web client's remote session request.
pub open spec fn remote_request_step(
    state: ClientStateView,
    before: ConnectionManager,
    after: ConnectionManager,
    machine_id: Seq<char>,
    cwd: Option<Seq<char>>,
    args: Option<Seq<char>>,
    actions: Seq<ActionView>,
) -> bool {
    &&& (before.machines().contains_key(machine_id) && before.machines()[machine_id].dom().len() > 0) ==> exists|request_id: Seq<char>, daemon: ConnId|
        #![trigger request_id.len(), before.machines()[machine_id].contains_value(daemon)] {
        &&& request_id.len() == 36
        &&& before.machines()[machine_id].contains_value(daemon)
        &&& after.pending() == before.pending().insert(request_id, state.conn)
        &&& actions == seq![ActionView::Send {
            to: seq![daemon],
            msg: ServerMessageView::StartRemoteSession { request_id, machine_id, cwd, args },
        }]
    }
    &&& !(before.machines().contains_key(machine_id) && before.machines()[machine_id].dom().len() > 0) ==> {
        &&& after.pending() == before.pending()
        &&& actions == seq![reply(state, ServerMessageView::Error {
            code: "machine_offline"@,
            message: "Machine "@ + machine_id + " is offline or has no active daemon"@,
        })]
    }
    &&& after.cli() == before.cli()
    &&& after.web() == before.web()
    &&& after.machines() == before.machines()
    &&& after.buffers() == before.buffers()
    &&& after.users() == before.users()
}

/// A web client's request for a new session on a machine goes to one daemon of
/// the machine, and the client waits for the answer under the request's id; if
/// the machine has no daemon, the client is told so.
pub fn request_remote_session(
    state: &ClientState,
    router: &mut ConnectionManager,
    machine_id: String,
    cwd: Option<String>,
    args: Option<String>,
) -> (r: Vec<Action>)
    ensures
        remote_request_step(state@, *old(router), *final(router), machine_id@, opt_str_view(cwd), opt_str_view(args), actions_view(r@)),
{
    let ghost cv = opt_str_view(cwd);
    let ghost av = opt_str_view(args);
    let mut r: Vec<Action> = Vec::new();
    match router.get_machine_tx(machine_id.as_str()) {
        Some(daemon) => {
            let request_id = crate::model::new_uuid();
            router.register_pending_request(request_id.as_str(), state.conn);
            let ghost rid = request_id@;
            r.push(Action::Send {
                to: one(daemon),
                msg: ServerMessage::StartRemoteSession { request_id, machine_id, cwd, args },
            });
            assert(actions_view(r@) =~= seq![ActionView::Send {
                to: seq![daemon],
                msg: ServerMessageView::StartRemoteSession { request_id: rid, machine_id: machine_id@, cwd: cv, args: av },
            }]);
            proof {
                let k = choose|k: Seq<char>| #[trigger] old(router).machines()[machine_id@].contains_key(k)
                    && old(router).machines()[machine_id@][k] == daemon;
                assert(old(router).machines()[machine_id@].contains_value(daemon));
                assert(old(router).machines()[machine_id@].dom().contains(k));
            }
        },
        None => {
            let m1 = concat("Machine ", machine_id.as_str());
            let message = concat(m1.as_str(), " is offline or has no active daemon");
            r.push(reply_with(state, ServerMessage::Error { code: owned("machine_offline"), message }));
            assert(actions_view(r@) =~= seq![reply(state@, ServerMessageView::Error {
                code: "machine_offline"@,
                message: "Machine "@ + machine_id@ + " is offline or has no active daemon"@,
            })]);
        },
    }
    r
}

/// The request could not be handed to the daemon: the client stops waiting and is told.
pub fn on_remote_request_undeliverable(state: &ClientState, router: &mut ConnectionManager, request_id: &str, machine_id: &str) -> (r: Vec<Action>)
    ensures
        final(router).pending() == old(router).pending().remove(request_id@),
        final(router).cli() == old(router).cli(),
        final(router).web() == old(router).web(),
        final(router).machines() == old(router).machines(),
        final(router).buffers() == old(router).buffers(),
        final(router).users() == old(router).users(),
        actions_view(r@) == seq![reply(state@, ServerMessageView::Error {
            code: "machine_unreachable"@,
            message: "Machine "@ + machine_id@ + " is not reachable"@,
        })],
{
    let _ = router.take_pending_request(request_id);
    let m1 = concat("Machine ", machine_id);
    let message = concat(m1.as_str(), " is not reachable");
    let mut r: Vec<Action> = Vec::new();
    r.push(reply_with(state, ServerMessage::Error { code: owned("machine_unreachable"), message }));
    assert(actions_view(r@) =~= seq![reply(state@, ServerMessageView::Error {
        code: "machine_unreachable"@,
        message: "Machine "@ + machine_id@ + " is not reachable"@,
    })]);
    r
}

/// The cleanup when a connection closes. A CLI bridge stops being its session's
/// bridge, the session is marked terminated and its web clients are told it
/// stopped, and its machine loses this daemon connection (the user's connections
/// then get the machine list); a web client stops watching its sessions (with
/// every other watcher of them). The user's connections leave the global broadcasts.
pub fn on_disconnect(state: &ClientState, router: &mut ConnectionManager) -> (r: Vec<Action>)
    ensures
        state@.is_cli_bridge ==> {
            &&& final(router).cli() == (match state@.session_id {
                Some(sid) => old(router).cli().remove(sid),
                None => old(router).cli(),
            })
            &&& final(router).machines() == (match state@.machine_id {
                Some(mid) => crate::connections::machines_after_leave(old(router).machines(), mid, state@.connection_id),
                None => old(router).machines(),
            })
            &&& final(router).web() == old(router).web()
            &&& actions_view(r@) == (match state@.session_id {
                Some(sid) => seq![
                    ActionView::SetSessionStatus { session_id: sid, status: SessionStatus::Terminated },
                    ActionView::Send {
                        to: web_of(old(router).web(), sid),
                        msg: ServerMessageView::SessionStopped { session_id: sid },
                    },
                ],
                None => Seq::empty(),
            }) + (match (state@.machine_id, state@.user_id) {
                (Some(_), Some(u)) => seq![ActionView::BroadcastMachineList { user_id: u, to: user_conns(old(router).users(), u) }],
                _ => Seq::empty(),
            })
        },
        !state@.is_cli_bridge ==> {
            &&& final(router).cli() == old(router).cli()
            &&& final(router).machines() == old(router).machines()
            &&& final(router).web() == old(router).web().remove_keys(state@.joined)
            &&& r@.len() == 0
        },
        final(router).users() == (match state@.user_id {
            Some(u) => crate::connections::without_user(old(router).users(), u),
            None => old(router).users(),
        }),
        final(router).pending() == old(router).pending(),
        final(router).buffers() == old(router).buffers(),
{
    let mut r: Vec<Action> = Vec::new();
    if state.is_cli_bridge {
        match &state.session_id {
            Some(sid) => {
                router.unregister_cli(sid.as_str());
                r.push(Action::SetSessionStatus { session_id: sid.clone(), status: SessionStatus::Terminated });
                let to = router.broadcast_to_web(sid.as_str());
                r.push(Action::Send { to, msg: ServerMessage::SessionStopped { session_id: sid.clone() } });
            },
            None => {},
        }
        let ghost head = r@;
        match &state.machine_id {
            Some(mid) => {
                router.unregister_machine(mid.as_str(), state.connection_id.as_str());
                match &state.user_id {
                    Some(u) => {
                        let to = router.send_to_user(u.as_str());
                        r.push(Action::BroadcastMachineList { user_id: u.clone(), to });
                    },
                    None => {},
                }
            },
            None => {},
        }
        proof {
            let h = match state@.session_id {
                Some(sid) => seq![
                    ActionView::SetSessionStatus { session_id: sid, status: SessionStatus::Terminated },
                    ActionView::Send {
                        to: web_of(old(router).web(), sid),
                        msg: ServerMessageView::SessionStopped { session_id: sid },
                    },
                ],
                None => Seq::empty(),
            };
            assert(actions_view(head) =~= h);
            let t = match (state@.machine_id, state@.user_id) {
                (Some(_), Some(u)) => seq![ActionView::BroadcastMachineList { user_id: u, to: user_conns(old(router).users(), u) }],
                _ => Seq::empty(),
            };
            assert(actions_view(r@) =~= h + t);
        }
    } else {
        let ghost web0 = router.web();
        let mut i: usize = 0;
        while i < state.session_ids.len()
            invariant
                i <= state.session_ids@.len(),
                router.web() == web0.remove_keys(text_set(state.session_ids@.take(i as int))),
                router.cli() == old(router).cli(),
                router.machines() == old(router).machines(),
                router.pending() == old(router).pending(),
                router.buffers() == old(router).buffers(),
                router.users() == old(router).users(),
            decreases state.session_ids@.len() - i,
        {
            router.unregister_web(state.session_ids[i].as_str());
            assert(text_set(state.session_ids@.take(i as int + 1)) =~= text_set(state.session_ids@.take(i as int)).insert(
                state.session_ids@[i as int]@,
            )) by {
                let a = state.session_ids@.take(i as int);
                let b = state.session_ids@.take(i as int + 1);
                assert forall|k: Seq<char>| #[trigger] text_set(b).contains(k) == text_set(a).insert(state.session_ids@[i as int]@).contains(k) by {
                    if text_set(b).contains(k) {
                        let j = choose|j: int| 0 <= j < b.len() && #[trigger] b[j]@ == k;
                        if j < i {
                            assert(a[j]@ == k);
                        }
                    }
                    if text_set(a).contains(k) {
                        let j = choose|j: int| 0 <= j < a.len() && #[trigger] a[j]@ == k;
                        assert(b[j]@ == k);
                    }
                    if k == state.session_ids@[i as int]@ {
                        assert(b[i as int]@ == k);
                    }
                }
            }
            assert(web0.remove_keys(text_set(state.session_ids@.take(i as int + 1))) =~= web0.remove_keys(
                text_set(state.session_ids@.take(i as int)),
            ).remove(state.session_ids@[i as int]@));
            i = i + 1;
        }
        assert(state.session_ids@.take(state.session_ids@.len() as int) =~= state.session_ids@);
    }
    match &state.user_id {
        Some(u) => router.unregister_user(u.as_str()),
        None => {},
    }
    r
}


/// Outside work that a client message needs before the protocol can answer it.
pub enum Query {
    /// Check the token; on success call [`on_token_accepted`], else [`on_token_rejected`].
    CheckToken { token: String },
    /// Find the user's session with this tag; then call [`on_session_found`].
    FindSessionByTag { user_id: String, tag: String },
    /// Look up the session of an attach request; then call [`on_attach_lookup`].
    AttachLookup { user_id: String, request: AttachRequest },
    /// List the user's sessions; then call [`on_sessions_listed`].
    ListSessions { user_id: String },
    /// Create a session; then call [`on_session_created`].
    CreateSession { user_id: String, machine_id: String, machine_name: String, tag: String, cwd: String },
    /// Mark the session terminated; then call [`on_session_terminated`].
    TerminateSession { session_id: String },
    /// Look up the session to delete; then call [`on_delete_lookup`].
    DeleteLookup { session_id: String },
    /// Register the session's machine and save the session a daemon started;
    /// then call [`on_remote_session_saved`].
    SaveRemoteSession { user_id: String, request_id: String, session: Session, error: Option<String> },
    /// List the user's machines; then call [`on_machines_listed`].
    ListMachines { user_id: String },
}

/// What to do after a client message: act, or do outside work first.
pub enum Step {
    Done(Vec<Action>),
    Ask(Query),
}

/// The step for a message that needs the connection to be authenticated.
pub open spec fn needs_user(state: ClientStateView, r: Step, asked: spec_fn(Seq<char>, Query) -> bool) -> bool {
    match state.user_id {
        Some(u) => r matches Step::Ask(q) && asked(u, q),
        None => r matches Step::Done(a) && actions_view(a@) == seq![reply(state, not_authenticated_view())],
    }
}

/// The step for a message with nothing to do.
pub open spec fn nothing(r: Step) -> bool {
    r matches Step::Done(a) && a@.len() == 0
}

/// What the server does with one client message. Messages that need the store or a
/// token check become a [`Query`]; the others are decided here. A message that
/// needs an authenticated connection is refused on any other.
pub fn handle_message(state: &mut ClientState, router: &mut ConnectionManager, msg: ClientMessage) -> (r: Step)
    ensures
        match msg {
            ClientMessage::Ping => final(state)@ == old(state)@ && same_router(*final(router), *old(router))
                && (r matches Step::Done(a) && actions_view(a@) == seq![reply(old(state)@, ServerMessageView::Pong)]),
            ClientMessage::Authenticate { token } => final(state)@ == old(state)@ && same_router(*final(router), *old(router))
                && (r matches Step::Ask(q) && (q matches Query::CheckToken { token: t } && t@ == token@)),
            ClientMessage::JoinSession { tag } => final(state)@ == old(state)@ && same_router(*final(router), *old(router))
                && needs_user(old(state)@, r, |u: Seq<char>, q: Query|
                    q matches Query::FindSessionByTag { user_id, tag: t } && user_id@ == u && t@ == tag@),
            ClientMessage::AttachSession { session_id, tag, cwd, machine_id, machine_name } =>
                final(state)@ == old(state)@ && same_router(*final(router), *old(router))
                && needs_user(old(state)@, r, |u: Seq<char>, q: Query|
                    q matches Query::AttachLookup { user_id, request } && user_id@ == u
                    && request.session_id@ == session_id@ && request.tag@ == tag@ && request.cwd@ == cwd@
                    && opt_str_view(request.machine_id) == opt_str_view(machine_id)
                    && opt_str_view(request.machine_name) == opt_str_view(machine_name)),
            ClientMessage::TerminalInput { session_id, data } => final(state)@ == old(state)@
                && same_router(*final(router), *old(router))
                && (r matches Step::Done(a) && actions_view(a@) == terminal_input_actions(old(state)@, old(router).cli(), session_id@, data@)),
            ClientMessage::TerminalHistory { session_id, data } => final(state)@ == old(state)@
                && (r matches Step::Done(a) && history_step(old(state)@, *old(router), *final(router), session_id@, data@, actions_view(a@))),
            ClientMessage::TerminalOutput { session_id, data } => final(state)@ == old(state)@
                && (r matches Step::Done(a) && output_step(old(state)@, *old(router), *final(router), session_id@, data@, actions_view(a@))),
            ClientMessage::TerminalResize { .. } => final(state)@ == old(state)@ && same_router(*final(router), *old(router)) && nothing(r),
            ClientMessage::ListSessions => final(state)@ == old(state)@ && same_router(*final(router), *old(router))
                && needs_user(old(state)@, r, |u: Seq<char>, q: Query| q matches Query::ListSessions { user_id } && user_id@ == u),
            ClientMessage::StartSession { tag, .. } => final(state)@ == old(state)@ && same_router(*final(router), *old(router))
                && needs_user(old(state)@, r, |u: Seq<char>, q: Query|
                    q matches Query::CreateSession { user_id, machine_id, machine_name, tag: t, cwd }
                    && user_id@ == u && machine_id@ == "web_client"@ && machine_name@ == "Web Client"@
                    && t@ == tag@ && cwd@ == "/"@),
            ClientMessage::StopSession { session_id } => final(state)@ == old(state)@ && same_router(*final(router), *old(router))
                && needs_user(old(state)@, r, |u: Seq<char>, q: Query|
                    q matches Query::TerminateSession { session_id: s } && s@ == session_id@),
            ClientMessage::DeleteSession { session_id } => final(state)@ == old(state)@ && same_router(*final(router), *old(router))
                && needs_user(old(state)@, r, |u: Seq<char>, q: Query|
                    q matches Query::DeleteLookup { session_id: s } && s@ == session_id@),
            ClientMessage::DetachSession { session_id } => nothing(r)
                && detach_step(old(state)@, final(state)@, *old(router), *final(router), session_id@),
            ClientMessage::RequestRemoteSession { machine_id, cwd, args } => final(state)@ == old(state)@
                && (r matches Step::Done(a) && remote_request_step(
                    old(state)@, *old(router), *final(router), machine_id@, opt_str_view(cwd), opt_str_view(args), actions_view(a@))),
            ClientMessage::RemoteSessionResult { request_id, success, session, error } => final(state)@ == old(state)@
                && if success && session is Some {
                    same_router(*final(router), *old(router))
                    && (r matches Step::Ask(q) && (q matches Query::SaveRemoteSession { user_id, request_id: rid, session: s, error: e }
                    && user_id@ == (match old(state)@.user_id { Some(u) => u, None => Seq::empty() })
                    && rid@ == request_id@ && s@ == session->0@ && opt_str_view(e) == opt_str_view(error)))
                } else {
                    (r matches Step::Done(a) && remote_reply_step(*old(router), *final(router), request_id@, success,
                        crate::messages::opt_session_view(session), opt_str_view(error), actions_view(a@)))
                },
            ClientMessage::ListFiles { .. } => final(state)@ == old(state)@ && same_router(*final(router), *old(router)) && nothing(r),
            ClientMessage::ReadFile { .. } => final(state)@ == old(state)@ && same_router(*final(router), *old(router)) && nothing(r),
            ClientMessage::WriteFile { .. } => final(state)@ == old(state)@ && same_router(*final(router), *old(router)) && nothing(r),
            ClientMessage::RegisterMachine { .. } => final(state)@ == old(state)@ && same_router(*final(router), *old(router)) && nothing(r),
            ClientMessage::UpdateMachineStatus { .. } => final(state)@ == old(state)@ && same_router(*final(router), *old(router)) && nothing(r),
            ClientMessage::ListMachines => final(state)@ == old(state)@ && same_router(*final(router), *old(router))
                && needs_user(old(state)@, r, |u: Seq<char>, q: Query| q matches Query::ListMachines { user_id } && user_id@ == u),
            ClientMessage::GetGitStatus { session_id } => final(state)@ == old(state)@ && same_router(*final(router), *old(router))
                && (r matches Step::Done(a) && actions_view(a@) == git_request_actions(old(state)@, old(router).cli(), session_id@,
                    ServerMessageView::GitStatusRequest { session_id: session_id@, requester_id: old(state)@.connection_id })),
            ClientMessage::GetGitDiff { session_id, path } => final(state)@ == old(state)@ && same_router(*final(router), *old(router))
                && (r matches Step::Done(a) && actions_view(a@) == git_request_actions(old(state)@, old(router).cli(), session_id@,
                    ServerMessageView::GitDiffRequest { session_id: session_id@, path: path@, requester_id: old(state)@.connection_id })),
            ClientMessage::GitCommit { session_id, message, amend } => final(state)@ == old(state)@ && same_router(*final(router), *old(router))
                && (r matches Step::Done(a) && actions_view(a@) == git_request_actions(old(state)@, old(router).cli(), session_id@,
                    ServerMessageView::GitCommitRequest {
                        session_id: session_id@,
                        message: message@,
                        amend,
                        requester_id: old(state)@.connection_id,
                    })),
            ClientMessage::GitStatusResponse { session_id, branch, ahead, behind, modified, staged, untracked, conflicts } =>
                final(state)@ == old(state)@ && same_router(*final(router), *old(router))
                && (r matches Step::Done(a) && actions_view(a@) == git_response_actions(old(state)@, old(router).web(), session_id@,
                    ServerMessageView::GitStatus {
                        session_id: session_id@,
                        branch: branch@,
                        ahead,
                        behind,
                        modified: modified@,
                        staged: staged@,
                        untracked: untracked@,
                        conflicts: conflicts@,
                    })),
            ClientMessage::GitDiffResponse { session_id, path, diff } =>
                final(state)@ == old(state)@ && same_router(*final(router), *old(router))
                && (r matches Step::Done(a) && actions_view(a@) == git_response_actions(old(state)@, old(router).web(), session_id@,
                    ServerMessageView::GitDiff { session_id: session_id@, path: path@, diff: diff@ })),
            ClientMessage::GitCommitResponse { session_id, success, message } =>
                final(state)@ == old(state)@ && same_router(*final(router), *old(router))
                && (r matches Step::Done(a) && actions_view(a@) == git_response_actions(old(state)@, old(router).web(), session_id@,
                    ServerMessageView::GitCommitResult { session_id: session_id@, success, message: message@ })),
        },
{
    let ghost m = msg;
    match msg {
        ClientMessage::Ping => Step::Done(handle_ping(state)),
        ClientMessage::Authenticate { token } => Step::Ask(Query::CheckToken { token }),
        ClientMessage::JoinSession { tag } => match &state.user_id {
            Some(u) => Step::Ask(Query::FindSessionByTag { user_id: u.clone(), tag }),
            None => Step::Done(not_authenticated(state)),
        },
        ClientMessage::AttachSession { session_id, tag, cwd, machine_id, machine_name } => match &state.user_id {
            Some(u) => Step::Ask(Query::AttachLookup {
                user_id: u.clone(),
                request: AttachRequest { session_id, tag, cwd, machine_id, machine_name },
            }),
            None => Step::Done(not_authenticated(state)),
        },
        ClientMessage::TerminalInput { session_id, data } => Step::Done(handle_terminal_input(state, router, session_id, data)),
        ClientMessage::TerminalHistory { session_id, data } => Step::Done(handle_terminal_history(state, router, session_id, data)),
        ClientMessage::TerminalOutput { session_id, data } => Step::Done(handle_terminal_output(state, router, session_id, data)),
        ClientMessage::TerminalResize { .. } => Step::Done(Vec::new()),
        ClientMessage::ListSessions => match &state.user_id {
            Some(u) => Step::Ask(Query::ListSessions { user_id: u.clone() }),
            None => Step::Done(not_authenticated(state)),
        },
        ClientMessage::StartSession { tag, .. } => match &state.user_id {
            Some(u) => Step::Ask(Query::CreateSession {
                user_id: u.clone(),
                machine_id: owned("web_client"),
                machine_name: owned("Web Client"),
                tag,
                cwd: owned("/"),
            }),
            None => Step::Done(not_authenticated(state)),
        },
        ClientMessage::StopSession { session_id } => match &state.user_id {
            Some(_) => Step::Ask(Query::TerminateSession { session_id }),
            None => Step::Done(not_authenticated(state)),
        },
        ClientMessage::DeleteSession { session_id } => match &state.user_id {
            Some(_) => Step::Ask(Query::DeleteLookup { session_id }),
            None => Step::Done(not_authenticated(state)),
        },
        ClientMessage::DetachSession { session_id } => {
            handle_detach(state, router, session_id.as_str());
            Step::Done(Vec::new())
        },
        ClientMessage::RequestRemoteSession { machine_id, cwd, args } =>
            Step::Done(request_remote_session(state, router, machine_id, cwd, args)),
        ClientMessage::RemoteSessionResult { request_id, success, session, error } => {
            if success && session.is_some() {
                let user_id = match &state.user_id {
                    Some(u) => u.clone(),
                    None => String::new(),
                };
                match session {
                    Some(s) => Step::Ask(Query::SaveRemoteSession { user_id, request_id, session: s, error }),
                    None => Step::Done(Vec::new()),
                }
            } else {
                Step::Done(remote_reply(router, request_id, success, session, error))
            }
        },
        ClientMessage::ListFiles { .. } => Step::Done(Vec::new()),
        ClientMessage::ReadFile { .. } => Step::Done(Vec::new()),
        ClientMessage::WriteFile { .. } => Step::Done(Vec::new()),
        ClientMessage::RegisterMachine { .. } => Step::Done(Vec::new()),
        ClientMessage::UpdateMachineStatus { .. } => Step::Done(Vec::new()),
        ClientMessage::ListMachines => match &state.user_id {
            Some(u) => Step::Ask(Query::ListMachines { user_id: u.clone() }),
            None => Step::Done(not_authenticated(state)),
        },
        ClientMessage::GetGitStatus { session_id } => {
            let request = ServerMessage::GitStatusRequest {
                session_id: session_id.clone(),
                requester_id: state.connection_id.clone(),
            };
            Step::Done(git_request(state, router, session_id.as_str(), request))
        },
        ClientMessage::GetGitDiff { session_id, path } => {
            let request = ServerMessage::GitDiffRequest {
                session_id: session_id.clone(),
                path,
                requester_id: state.connection_id.clone(),
            };
            Step::Done(git_request(state, router, session_id.as_str(), request))
        },
        ClientMessage::GitCommit { session_id, message, amend } => {
            let request = ServerMessage::GitCommitRequest {
                session_id: session_id.clone(),
                message,
                amend,
                requester_id: state.connection_id.clone(),
            };
            Step::Done(git_request(state, router, session_id.as_str(), request))
        },
        ClientMessage::GitStatusResponse { session_id, branch, ahead, behind, modified, staged, untracked, conflicts } => {
            let target = session_id.clone();
            let answer = ServerMessage::GitStatus { session_id, branch, ahead, behind, modified, staged, untracked, conflicts };
            Step::Done(git_response(state, router, target.as_str(), answer))
        },
        ClientMessage::GitDiffResponse { session_id, path, diff } => {
            let target = session_id.clone();
            let answer = ServerMessage::GitDiff { session_id, path, diff };
            Step::Done(git_response(state, router, target.as_str(), answer))
        },
        ClientMessage::GitCommitResponse { session_id, success, message } => {
            let target = session_id.clone();
            let answer = ServerMessage::GitCommitResult { session_id, success, message };
            Step::Done(git_response(state, router, target.as_str(), answer))
        },
    }
}

} // verus!
