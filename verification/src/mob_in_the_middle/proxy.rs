//! What the relay does with what it has read from one side.

use crate::mob_in_the_middle::rewrite::{boguscoin_rewritten, rewrite_boguscoin};
use vstd::prelude::*;

verus! {

/// Where the relay connects to on behalf of each client.
pub const UPSTREAM_ADDR: &'static str = "chat.protohackers.com:16963";

/// What to pass to the other side for what was read from one side up to and
/// with a newline: the line with its addresses rewritten, or `None` where
/// nothing was read because the side is closed.
pub open spec fn relayed(line: Seq<u8>) -> Option<Seq<u8>> {
    if line.len() == 0 {
        None
    } else {
        Some(boguscoin_rewritten(line))
    }
}

/// The bytes that were handed out, as a sequence.
pub open spec fn passed_on(out: Option<Vec<u8>>) -> Option<Seq<u8>> {
    match out {
        Some(bytes) => Some(bytes@),
        None => None,
    }
}

/// Decides what goes to the other side for one read: `None` ends the relay
/// in this direction.
pub fn relay(line: &[u8]) -> (out: Option<Vec<u8>>)
    ensures
        passed_on(out) == relayed(line@),
{
    if line.len() == 0 {
        None
    } else {
        Some(rewrite_boguscoin(line))
    }
}

} // verus!
