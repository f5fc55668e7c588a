//! The WebSocket message protocol between the server, CLI daemons and web clients.

use vstd::prelude::*;
use crate::model::{MachineInfo, MachineInfoView, Session, SessionStatus, SessionView};

verus! {

/// Git change type of a file.
#[derive(Debug, Clone, Copy, PartialEq, Eq, Structural)]
pub enum ChangeType {
    Added,
    Modified,
    Deleted,
    Renamed,
}

/// A file that git reports as changed.
#[derive(Debug, Clone)]
pub struct ModifiedFile {
    pub path: String,
    pub change_type: ChangeType,
    pub additions: u32,
    pub deletions: u32,
}

/// One entry of a directory listing.
#[derive(Debug, Clone)]
pub struct FileEntry {
    pub name: String,
    pub path: String,
    pub is_dir: bool,
    pub size: u64,
}

/// A document that a session produced.
#[derive(Debug, Clone)]
pub struct Artifact {
    pub id: String,
    pub session_id: String,
    pub title: String,
    pub content: String,
}

/// Client to server messages.
#[derive(Debug, Clone)]
pub enum ClientMessage {
    Authenticate { token: String },
    TerminalInput { session_id: String, data: Vec<u8> },
    TerminalResize { session_id: String, cols: u16, rows: u16 },
    TerminalOutput { session_id: String, data: Vec<u8> },
    TerminalHistory { session_id: String, data: Vec<u8> },
    ListSessions,
    StartSession { tag: String, profile: Option<String> },
    StopSession { session_id: String },
    DeleteSession { session_id: String },
    AttachSession {
        session_id: String,
        tag: String,
        cwd: String,
        machine_id: Option<String>,
        machine_name: Option<String>,
    },
    DetachSession { session_id: String },
    JoinSession { tag: String },
    RequestRemoteSession { machine_id: String, cwd: Option<String>, args: Option<String> },
    RemoteSessionResult {
        request_id: String,
        success: bool,
        session: Option<Session>,
        error: Option<String>,
    },
    ListFiles { session_id: String, path: String },
    ReadFile { session_id: String, path: String },
    WriteFile { session_id: String, path: String, content: Vec<u8> },
    RegisterMachine { name: String, public_key: Vec<u8> },
    UpdateMachineStatus { machine_id: String, is_online: bool },
    ListMachines,
    Ping,
    GetGitStatus { session_id: String },
    GetGitDiff { session_id: String, path: String },
    GitCommit { session_id: String, message: String, amend: bool },
    GitStatusResponse {
        session_id: String,
        branch: String,
        ahead: u32,
        behind: u32,
        modified: Vec<ModifiedFile>,
        staged: Vec<ModifiedFile>,
        untracked: Vec<String>,
        conflicts: Vec<String>,
    },
    GitDiffResponse { session_id: String, path: String, diff: String },
    GitCommitResponse { session_id: String, success: bool, message: String },
}

/// Server to client messages.
#[derive(Debug, Clone)]
pub enum ServerMessage {
    Authenticated { user_id: String },
    Error { code: String, message: String },
    TerminalOutput { session_id: String, data: Vec<u8> },
    TerminalHistory { session_id: String, data: Vec<u8> },
    TerminalReady { session_id: String },
    TerminalError { session_id: String, message: String },
    SessionsList { sessions: Vec<Session> },
    SessionStarted { session: Session },
    SessionStopped { session_id: String },
    SessionDeleted { session_id: String },
    SessionUpdated { session: Session },
    SessionStatusChanged { session_id: String, status: SessionStatus },
    StartRemoteSession {
        request_id: String,
        machine_id: String,
        cwd: Option<String>,
        args: Option<String>,
    },
    RemoteSessionResponse {
        request_id: String,
        success: bool,
        session: Option<Session>,
        error: Option<String>,
    },
    FileList { path: String, entries: Vec<FileEntry> },
    FileContent { path: String, content: Vec<u8>, content_type: Option<String> },
    FileError { path: String, message: String },
    MachineRegistered { machine: MachineInfo },
    MachineUpdated { machine: MachineInfo },
    MachineList { machines: Vec<MachineInfo> },
    ArtifactCreated { artifact: Artifact },
    ArtifactUpdated { artifact: Artifact },
    Pong,
    GitStatus {
        session_id: String,
        branch: String,
        ahead: u32,
        behind: u32,
        modified: Vec<ModifiedFile>,
        staged: Vec<ModifiedFile>,
        untracked: Vec<String>,
        conflicts: Vec<String>,
    },
    GitDiff { session_id: String, path: String, diff: String },
    GitCommitResult { session_id: String, success: bool, message: String },
    GitStatusRequest { session_id: String, requester_id: String },
    GitDiffRequest { session_id: String, path: String, requester_id: String },
    GitCommitRequest { session_id: String, message: String, amend: bool, requester_id: String },
}

/// The view of an optional session.
pub open spec fn opt_session_view(o: Option<Session>) -> Option<SessionView> {
    match o {
        Some(s) => Some(s@),
        None => None,
    }
}

/// The mathematical value of a server message: texts and byte strings as sequences,
/// sessions and machines by their views; lists of files and names as they are.
pub enum ServerMessageView {
    Authenticated { user_id: Seq<char> },
    Error { code: Seq<char>, message: Seq<char> },
    TerminalOutput { session_id: Seq<char>, data: Seq<u8> },
    TerminalHistory { session_id: Seq<char>, data: Seq<u8> },
    TerminalReady { session_id: Seq<char> },
    TerminalError { session_id: Seq<char>, message: Seq<char> },
    SessionsList { sessions: Seq<SessionView> },
    SessionStarted { session: SessionView },
    SessionStopped { session_id: Seq<char> },
    SessionDeleted { session_id: Seq<char> },
    SessionUpdated { session: SessionView },
    SessionStatusChanged { session_id: Seq<char>, status: SessionStatus },
    StartRemoteSession {
        request_id: Seq<char>,
        machine_id: Seq<char>,
        cwd: Option<Seq<char>>,
        args: Option<Seq<char>>,
    },
    RemoteSessionResponse {
        request_id: Seq<char>,
        success: bool,
        session: Option<SessionView>,
        error: Option<Seq<char>>,
    },
    FileList { path: Seq<char>, entries: Seq<FileEntry> },
    FileContent { path: Seq<char>, content: Seq<u8>, content_type: Option<Seq<char>> },
    FileError { path: Seq<char>, message: Seq<char> },
    MachineRegistered { machine: MachineInfoView },
    MachineUpdated { machine: MachineInfoView },
    MachineList { machines: Seq<MachineInfoView> },
    ArtifactCreated { artifact: Artifact },
    ArtifactUpdated { artifact: Artifact },
    Pong,
    GitStatus {
        session_id: Seq<char>,
        branch: Seq<char>,
        ahead: u32,
        behind: u32,
        modified: Seq<ModifiedFile>,
        staged: Seq<ModifiedFile>,
        untracked: Seq<String>,
        conflicts: Seq<String>,
    },
    GitDiff { session_id: Seq<char>, path: Seq<char>, diff: Seq<char> },
    GitCommitResult { session_id: Seq<char>, success: bool, message: Seq<char> },
    GitStatusRequest { session_id: Seq<char>, requester_id: Seq<char> },
    GitDiffRequest { session_id: Seq<char>, path: Seq<char>, requester_id: Seq<char> },
    GitCommitRequest { session_id: Seq<char>, message: Seq<char>, amend: bool, requester_id: Seq<char> },
}

impl View for ServerMessage {
    type V = ServerMessageView;

    open spec fn view(&self) -> ServerMessageView {
        match self {
            ServerMessage::Authenticated { user_id } => ServerMessageView::Authenticated { user_id: user_id@ },
            ServerMessage::Error { code, message } => ServerMessageView::Error { code: code@, message: message@ },
            ServerMessage::TerminalOutput { session_id, data } => ServerMessageView::TerminalOutput {
                session_id: session_id@,
                data: data@,
            },
            ServerMessage::TerminalHistory { session_id, data } => ServerMessageView::TerminalHistory {
                session_id: session_id@,
                data: data@,
            },
            ServerMessage::TerminalReady { session_id } => ServerMessageView::TerminalReady { session_id: session_id@ },
            ServerMessage::TerminalError { session_id, message } => ServerMessageView::TerminalError {
                session_id: session_id@,
                message: message@,
            },
            ServerMessage::SessionsList { sessions } => ServerMessageView::SessionsList {
                sessions: sessions@.map_values(|s: Session| s@),
            },
            ServerMessage::SessionStarted { session } => ServerMessageView::SessionStarted { session: session@ },
            ServerMessage::SessionStopped { session_id } => ServerMessageView::SessionStopped { session_id: session_id@ },
            ServerMessage::SessionDeleted { session_id } => ServerMessageView::SessionDeleted { session_id: session_id@ },
            ServerMessage::SessionUpdated { session } => ServerMessageView::SessionUpdated { session: session@ },
            ServerMessage::SessionStatusChanged { session_id, status } => ServerMessageView::SessionStatusChanged {
                session_id: session_id@,
                status: *status,
            },
            ServerMessage::StartRemoteSession { request_id, machine_id, cwd, args } =>
                ServerMessageView::StartRemoteSession {
                    request_id: request_id@,
                    machine_id: machine_id@,
                    cwd: crate::model::opt_str_view(*cwd),
                    args: crate::model::opt_str_view(*args),
                },
            ServerMessage::RemoteSessionResponse { request_id, success, session, error } =>
                ServerMessageView::RemoteSessionResponse {
                    request_id: request_id@,
                    success: *success,
                    session: opt_session_view(*session),
                    error: crate::model::opt_str_view(*error),
                },
            ServerMessage::FileList { path, entries } => ServerMessageView::FileList { path: path@, entries: entries@ },
            ServerMessage::FileContent { path, content, content_type } => ServerMessageView::FileContent {
                path: path@,
                content: content@,
                content_type: crate::model::opt_str_view(*content_type),
            },
            ServerMessage::FileError { path, message } => ServerMessageView::FileError { path: path@, message: message@ },
            ServerMessage::MachineRegistered { machine } => ServerMessageView::MachineRegistered { machine: machine@ },
            ServerMessage::MachineUpdated { machine } => ServerMessageView::MachineUpdated { machine: machine@ },
            ServerMessage::MachineList { machines } => ServerMessageView::MachineList {
                machines: machines@.map_values(|m: MachineInfo| m@),
            },
            ServerMessage::ArtifactCreated { artifact } => ServerMessageView::ArtifactCreated { artifact: *artifact },
            ServerMessage::ArtifactUpdated { artifact } => ServerMessageView::ArtifactUpdated { artifact: *artifact },
            ServerMessage::Pong => ServerMessageView::Pong,
            ServerMessage::GitStatus { session_id, branch, ahead, behind, modified, staged, untracked, conflicts } =>
                ServerMessageView::GitStatus {
                    session_id: session_id@,
                    branch: branch@,
                    ahead: *ahead,
                    behind: *behind,
                    modified: modified@,
                    staged: staged@,
                    untracked: untracked@,
                    conflicts: conflicts@,
                },
            ServerMessage::GitDiff { session_id, path, diff } => ServerMessageView::GitDiff {
                session_id: session_id@,
                path: path@,
                diff: diff@,
            },
            ServerMessage::GitCommitResult { session_id, success, message } => ServerMessageView::GitCommitResult {
                session_id: session_id@,
                success: *success,
                message: message@,
            },
            ServerMessage::GitStatusRequest { session_id, requester_id } => ServerMessageView::GitStatusRequest {
                session_id: session_id@,
                requester_id: requester_id@,
            },
            ServerMessage::GitDiffRequest { session_id, path, requester_id } => ServerMessageView::GitDiffRequest {
                session_id: session_id@,
                path: path@,
                requester_id: requester_id@,
            },
            ServerMessage::GitCommitRequest { session_id, message, amend, requester_id } =>
                ServerMessageView::GitCommitRequest {
                    session_id: session_id@,
                    message: message@,
                    amend: *amend,
                    requester_id: requester_id@,
                },
        }
    }
}

/// An error message with the given code and text.
pub fn error_message(code: &str, message: &str) -> (r: ServerMessage)
    ensures
        r@ == (ServerMessageView::Error { code: code@, message: message@ }),
{
    ServerMessage::Error { code: crate::text::owned(code), message: crate::text::owned(message) }
}

} // verus!
