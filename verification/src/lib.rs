//! Decision logic for a command-line bridge between local standard streams
//! and a chat-platform bot account: configuration resolution, recipient-id
//! validation, per-line send decisions, incoming-record rendering, and mode
//! dispatch. All network and stream I/O lives outside this crate; every
//! function here is a total, verified computation on plain values.

pub mod config;
pub mod dispatch;
pub mod numeral;
pub mod receiver;
pub mod sender;
