//! What a client makes of the replies it gets.

use crate::redis::session::SessionError;
use vstd::prelude::*;

verus! {

/// Why a client's call did not succeed.
#[derive(Debug, Clone, Copy, PartialEq, Eq, Structural)]
pub enum ClientError {
    /// The arguments cannot be sent.
    InvalidArg,
    /// The server's reply is not what the command is answered with.
    InvalidResponse,
    /// The session yielded no response.
    Session(SessionError),
}

} // verus!
