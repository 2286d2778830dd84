//! The proposer's starting point in the chain of proposed blocks.

use vstd::prelude::*;

verus! {

/// The last proposed block number to record when the proposer starts: the
/// block before the configured initial offset, when there is an offset and
/// no block at or after that one was proposed yet; `None` when the record
/// stays as it is.
pub open spec fn initial_last_proposed_spec(init_offset: Option<u128>, last_proposed: Option<u128>) -> Option<u128> {
    match init_offset {
        None => None,
        Some(o) => match last_proposed {
            Some(l) => if o - 1 > l { Some((o - 1) as u128) } else { None },
            None => Some((o - 1) as u128),
        },
    }
}

/// The last proposed block number to record when the proposer starts with
/// the initial offset `init_offset` and the stored `last_proposed`.
pub fn initial_last_proposed(init_offset: Option<u128>, last_proposed: Option<u128>) -> (r: Option<u128>)
    requires
        init_offset != Some(0u128),
    ensures
        r == initial_last_proposed_spec(init_offset, last_proposed),
{
    match init_offset {
        None => None,
        Some(init_offset) => match last_proposed {
            Some(last_proposed) => {
                if init_offset - 1 > last_proposed {
                    Some(init_offset - 1)
                } else {
                    None
                }
            },
            None => Some(init_offset - 1),
        },
    }
}

/// After the proposer starts, the recorded last proposed block is at least
/// the one before the initial offset, and never lower than it was.
pub proof fn lemma_initial_last_proposed_raises(init_offset: Option<u128>, last_proposed: Option<u128>)
    requires
        init_offset != Some(0u128),
    ensures
        initial_last_proposed_spec(init_offset, last_proposed) matches Some(v) ==> (last_proposed matches Some(l)
            ==> v > l),
        init_offset matches Some(o) ==> {
            let after = match initial_last_proposed_spec(init_offset, last_proposed) {
                Some(v) => Some(v),
                None => last_proposed,
            };
            after matches Some(a) && a >= o - 1
        },
{
}

} // verus!
