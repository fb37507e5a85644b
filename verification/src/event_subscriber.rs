//! The decisions of the ingestion loop. The driver awaits the node; these
//! functions say what each answer means for the window and what to do next.

use crate::block::{links_to, BlockSummary};
use crate::errors::UniswapError;
use crate::reorg_watcher::{
    cut_tail, fully_linked, lemma_reorg_depth_is_nearest_break, reorg_depth, slide, ReorgWatcher,
};
use vstd::pervasive::unreached;
use vstd::prelude::*;

verus! {

/// A notification of a new head. The feed may leave either field out.
#[derive(Debug, Clone, Copy, PartialEq, Eq)]
pub struct HeaderNotice {
    pub hash: Option<[u8; 32]>,
    pub number: Option<u64>,
}

/// What to do about a notification.
#[derive(Debug, Clone, Copy, PartialEq, Eq)]
pub enum HeaderStep {
    /// The notification is incomplete: wait for the next one.
    Skip,
    /// Fetch the block of this height.
    FetchBlock(u64),
}

/// What to do after the answer to a block fetch.
#[derive(Debug, Clone, Copy, PartialEq, Eq)]
pub enum BlockStep {
    /// There is no block to work on: wait for the next notification.
    Skipped,
    /// The window is not full yet.
    Waiting,
    /// A reorganisation of this depth was repaired by dropping as many
    /// blocks from the tail; nothing is processed in this cycle.
    Repaired(usize),
    /// A reorganisation of this depth reaches beyond the window: stop.
    Fatal(usize),
    /// The window is full and linked: process this block, its head.
    Process(BlockSummary),
}

/// A notification is followed up only where it has both a hash and a number.
pub open spec fn header_step(notice: HeaderNotice) -> HeaderStep {
    match (notice.hash, notice.number) {
        (Some(_), Some(number)) => HeaderStep::FetchBlock(number),
        _ => HeaderStep::Skip,
    }
}

/// The window after the answer to a block fetch: unchanged where the block
/// is absent; else the block is taken in, and where that shows a
/// reorganisation that the window can absorb, the tail is cut by its depth.
pub open spec fn window_after_fetch(
    window: Seq<BlockSummary>,
    capacity: nat,
    fetched: Option<BlockSummary>,
) -> Seq<BlockSummary> {
    match fetched {
        None => window,
        Some(block) => {
            let grown = slide(window, block, capacity);
            match reorg_depth(grown) {
                Some(depth) if depth < capacity => cut_tail(grown, depth),
                _ => grown,
            }
        },
    }
}

/// The step that follows the answer to a block fetch.
pub open spec fn block_step(
    window: Seq<BlockSummary>,
    capacity: nat,
    fetched: Option<BlockSummary>,
) -> BlockStep {
    match fetched {
        None => BlockStep::Skipped,
        Some(block) => {
            let grown = slide(window, block, capacity);
            match reorg_depth(grown) {
                Some(depth) => if depth >= capacity {
                    BlockStep::Fatal(depth as usize)
                } else {
                    BlockStep::Repaired(depth as usize)
                },
                None => if grown.len() != capacity {
                    BlockStep::Waiting
                } else if grown.len() == 0 {
                    BlockStep::Skipped
                } else {
                    BlockStep::Process(grown[0])
                },
            }
        },
    }
}

/// A block is handed on for processing only as the head of a full window in
/// which every block names its predecessor as parent.
pub proof fn lemma_processed_head_is_confirmed(
    window: Seq<BlockSummary>,
    capacity: nat,
    fetched: Option<BlockSummary>,
)
    ensures
        block_step(window, capacity, fetched) matches BlockStep::Process(head) ==> {
            let after = window_after_fetch(window, capacity, fetched);
            &&& after.len() == capacity
            &&& capacity > 0
            &&& fully_linked(after)
            &&& head == after[0]
        },
{
    if let Some(block) = fetched {
        lemma_reorg_depth_is_nearest_break(slide(window, block, capacity));
    }
}

/// A window within its capacity stays within it, and never meets a
/// reorganisation that reaches beyond it: the reported depth is smaller than
/// the number of blocks in the window.
pub proof fn lemma_window_within_capacity_is_repairable(
    window: Seq<BlockSummary>,
    capacity: nat,
    fetched: Option<BlockSummary>,
)
    requires
        window.len() <= capacity,
    ensures
        window_after_fetch(window, capacity, fetched).len() <= capacity,
        !(block_step(window, capacity, fetched) is Fatal),
{
    if let Some(block) = fetched {
        lemma_reorg_depth_is_nearest_break(slide(window, block, capacity));
    }
}

/// A fully linked window stays fully linked whatever is fetched: a block that
/// does not link to the tail is the only break it can bring, at depth one,
/// and the repair drops it again.
pub proof fn lemma_linked_window_stays_linked(
    window: Seq<BlockSummary>,
    capacity: nat,
    fetched: Option<BlockSummary>,
)
    requires
        fully_linked(window),
        window.len() <= capacity,
    ensures
        fully_linked(window_after_fetch(window, capacity, fetched)),
        block_step(window, capacity, fetched) matches BlockStep::Repaired(depth) ==> depth == 1,
{
    if let Some(block) = fetched {
        let grown = slide(window, block, capacity);
        lemma_reorg_depth_is_nearest_break(grown);
        assert forall|i: int| 1 <= i < grown.len() - 1 implies links_to(
            #[trigger] grown[i - 1],
            grown[i],
        ) by {
            if window.len() + 1 > capacity {
                assert(links_to(window[(i + 1) - 1], window[i + 1]));
            } else {
                assert(links_to(window[i - 1], window[i]));
            }
        }
        if let Some(depth) = reorg_depth(grown) {
            if depth != 1 {
                let k: int = grown.len() - depth;
                assert(links_to(grown[k - 1], grown[k]));
            }
            let cut = cut_tail(grown, 1);
            assert forall|i: int| 1 <= i < cut.len() implies links_to(
                #[trigger] cut[i - 1],
                cut[i],
            ) by {
                assert(links_to(grown[i - 1], grown[i]));
            }
        }
    }
}

/// Decides what to do about a notification of a new head.
pub fn on_header(notice: &HeaderNotice) -> (step: HeaderStep)
    ensures
        step == header_step(*notice),
{
    match (notice.hash, notice.number) {
        (Some(_), Some(number)) => HeaderStep::FetchBlock(number),
        _ => HeaderStep::Skip,
    }
}

/// Takes the answer to a block fetch into the window and decides what to do
/// next.
pub fn on_block(watcher: &mut ReorgWatcher, fetched: Option<BlockSummary>) -> (step: BlockStep)
    ensures
        final(watcher).capacity() == old(watcher).capacity(),
        final(watcher).blocks() == window_after_fetch(
            old(watcher).blocks(),
            old(watcher).capacity(),
            fetched,
        ),
        step == block_step(old(watcher).blocks(), old(watcher).capacity(), fetched),
        old(watcher).within_capacity() ==> final(watcher).within_capacity(),
{
    match fetched {
        None => BlockStep::Skipped,
        Some(block) => match watcher.add_block(block) {
            Err(UniswapError::ReorgError(depth)) => {
                if depth >= watcher.buffer_size() {
                    BlockStep::Fatal(depth)
                } else {
                    watcher.truncate_tail(depth);
                    BlockStep::Repaired(depth)
                }
            },
            Err(_) => unreached(),
            Ok(()) => {
                if watcher.is_ready_to_process() {
                    match watcher.get_block_to_process() {
                        Ok(head) => BlockStep::Process(head),
                        Err(_) => BlockStep::Skipped,
                    }
                } else {
                    BlockStep::Waiting
                }
            },
        },
    }
}

} // verus!
