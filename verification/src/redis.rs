//! The server: values, commands, the store, the engine that carries
//! commands out, connections, and the handshake of a replica.

pub mod client;
pub mod clock;
pub mod cmd;
pub mod framing;
pub mod handler;
pub mod replica;
pub mod resp;
pub mod roundtrip;
pub mod session;
pub mod store;
pub mod wire;

use crate::redis::handler::CommandHandlerConfig;
use vstd::prelude::*;

verus! {

/// How the server is set up.
#[derive(Debug)]
pub struct RedisConfig {
    /// The address of the master, where the server is to be a replica.
    pub replica_addr: Option<String>,
}

impl RedisConfig {
    /// What the engine is told: a server with a master's address is a
    /// replica, and every other server is a master with a replication id of
    /// its own.
    pub fn handler_config(&self) -> (r: CommandHandlerConfig)
        ensures
            r.is_replica == (self.replica_addr is Some),
            r.is_replica ==> r.master_repl_id_and_offset is None,
            !r.is_replica ==> (r.master_repl_id_and_offset matches Some((id, offset)) && id@.len()
                == 40 && offset == 0),
    {
        if self.replica_addr.is_some() {
            CommandHandlerConfig::replica()
        } else {
            CommandHandlerConfig::master()
        }
    }
}

} // verus!
