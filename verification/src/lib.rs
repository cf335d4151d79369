//! Session layer of a single-board-computer administration dashboard.
//!
//! One long-lived, authenticated connection multiplexes several interactive
//! pages. The crate holds the verified core of that layer: the request
//! router that keeps at most one page handler active, the bearer-token
//! guard, the pseudoterminal bridge's state machine, and the chunked file
//! transfer protocol. The unverified shell around it (sockets, processes,
//! the filesystem) lives outside this crate and drives these state machines.

pub mod archive;
pub mod auth;
pub mod config;
pub mod files;
pub mod router;
pub mod term;
pub mod text;
pub mod transfer;

pub use auth::LoginOutcome;
pub use auth::login_attempt;
pub use auth::validate_token;
pub use config::Config;
pub use text::parse_usize;
pub use text::str_is;
