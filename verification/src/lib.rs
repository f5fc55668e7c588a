//! Happy Remote: the verified core of a remote terminal session server.
//!
//! The library holds the data model of sessions and machines, the storage
//! row conversions, the in-memory cache, the connection router, the
//! WebSocket protocol decisions and the authentication rules.

pub mod text;
pub mod json;
pub mod keyed;
pub mod model;
pub mod storage;
pub mod cache;
pub mod connections;
pub mod messages;
pub mod protocol;
pub mod auth;
pub mod services;
pub mod logs;
pub mod order;
pub mod dashboard;
pub mod terminal_page;
pub mod xterm;
pub mod web_auth;
