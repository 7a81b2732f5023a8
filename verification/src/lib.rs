//! The decision and wire-format core of a small Bancho (osu! chat) server:
//! little-endian packet framing, length-prefixed strings, the packets the
//! server sends, the request types a client sends, the per-client session
//! rules (ping, pong, relaying chat) and the web API's request and reply text.
#![allow(unused_imports)]

pub mod misc;
pub mod packet_laws;
pub mod packets;
pub mod session;
pub mod web;
pub mod wire;
