//! A small connection-oriented chat protocol over datagrams: the frame
//! codec, the integrity check, the registry of connected peers and the
//! dispatcher that turns an inbound datagram into registry changes and
//! replies.

pub mod chat_server;
pub mod client_handler;
pub mod control;
pub mod guarantees;
pub mod msg_types;
pub mod registry;
pub mod server_utils;
