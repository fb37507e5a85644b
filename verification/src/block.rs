//! Plain data handed over by the node client.

use vstd::prelude::*;

verus! {

/// What the window keeps of a block.
#[derive(Debug, Clone, Copy, PartialEq, Eq)]
pub struct BlockSummary {
    pub hash: Option<[u8; 32]>,
    pub parent_hash: [u8; 32],
    pub number: u64,
}

/// `next` names `prev` as its parent, and `prev` has a hash to be named by.
pub open spec fn links_to(prev: BlockSummary, next: BlockSummary) -> bool {
    prev.hash matches Some(h) && h@ == next.parent_hash@
}

/// Compares two 32-byte identifiers.
pub fn same_hash(a: &[u8; 32], b: &[u8; 32]) -> (same: bool)
    ensures
        same == (a@ == b@),
{
    let mut i: usize = 0;
    while i < 32
        invariant
            i <= 32,
            forall|j: int| 0 <= j < i ==> a@[j] == b@[j],
        decreases 32 - i,
    {
        if a[i] != b[i] {
            return false;
        }
        i += 1;
    }
    assert(a@ =~= b@);
    true
}

/// Decides `links_to` on two blocks.
pub fn is_linked(prev: &BlockSummary, next: &BlockSummary) -> (linked: bool)
    ensures
        linked == links_to(*prev, *next),
{
    match &prev.hash {
        Some(h) => same_hash(h, &next.parent_hash),
        None => false,
    }
}

} // verus!
