//! A small HTTP/1.1 and HTTP/2 library: message types, the HTTP/1.1 request
//! codec, the HTTP/2 frame codec and the per-connection stream state machine,
//! and the planning of ranged downloads.

pub mod download;
pub mod error;
pub mod header_block;
pub mod http;
pub mod protocol;
pub mod server;
pub mod text;
pub mod wire;
