//! Server-side WebSocket opening-handshake validation and the policy that
//! governs a live WebSocket connection.

pub mod config;
pub mod handshake;
pub mod text;

pub use config::Config;
pub use handshake::{
    get_handshake, Accept, HandshakeError, Head, HeaderField, TokenHeader, WebsocketHandshake,
};
pub use text::{bytes_trim, token_list};
