//! A small key-value server that speaks a wire protocol of typed frames:
//! the codec, the commands, the store and its engine, connections, and the
//! handshake of a replica, each with a contract that Verus proves.

pub mod decimal;
pub mod redis;
pub mod resp;
pub mod text;
pub mod util;
