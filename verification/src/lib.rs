//! `localshare`: share a local HTTP server through a WebSocket relay.
//!
//! The library holds the tunnel's logic: command-line value parsing, the
//! relay wire protocol, the HTTP/1.1 forwarding rules, the reconnect and
//! dispatch decisions of the tunnel client, and the terminal rendering of
//! banners, request logs and QR codes.

pub mod text;
pub mod time;
pub mod cli;
pub mod error;
pub mod protocol;
pub mod forward;
pub mod client;
pub mod stream;
pub mod ui;
