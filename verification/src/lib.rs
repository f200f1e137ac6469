//! Verified core of a screen-casting service for the picom compositor: the wire
//! protocol between the portal backend and the compositor plugin, the format
//! negotiation with PipeWire, the bookkeeping of captured buffers and cursors,
//! and the decisions taken while the plugin and its server come up.
pub mod capture;
pub mod connect;
pub mod cursor;
pub mod error;
pub mod ffi;
pub mod format;
pub mod frame;
pub mod gl;
pub mod import;
pub mod init;
pub mod message;
pub mod param;
pub mod portal;
pub mod protocol;
pub mod server;
pub mod stream;
pub mod text;
