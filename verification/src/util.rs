//! Helpers that stand beside the protocol.

use crate::redis::resp::Value;
use crate::redis::wire::encode_spec;
use rand::distributions::{Alphanumeric, DistString};
use vstd::prelude::*;

verus! {

/// The frame of `val`, as a vector of its own.
pub fn encode_value(val: &Value) -> (r: Vec<u8>)
    ensures
        r@ == encode_spec(val@),
{
    let mut buf: Vec<u8> = Vec::new();
    val.encode(&mut buf);
    assert(buf@ =~= encode_spec(val@));
    buf
}

/// Draws `len` characters at random with `Alphanumeric.sample_string` of the
/// crate rand, on the generator of the calling thread. The contract claims
/// what the crate's source shows of every outcome: the string has `len`
/// characters, each one of `A` to `Z`, `a` to `z` or `0` to `9`. Which ones
/// is left open. The generator of a thread is set up from the operating
/// system's source of randomness on first use, and panics where there is
/// none.
#[verifier::external_body]
pub fn generate_random_alphanumeric_string(len: usize) -> (r: String)
    ensures
        r@.len() == len,
        forall|i: int|
            0 <= i < len ==> {
                let c = #[trigger] r@[i];
                ('0' <= c <= '9') || ('a' <= c <= 'z') || ('A' <= c <= 'Z')
            },
{
    Alphanumeric.sample_string(&mut rand::thread_rng(), len)
}

} // verus!
