//! The confirmation window: the newest blocks in arrival order, checked for
//! an unbroken chain of parent hashes.

use crate::block::{is_linked, links_to, BlockSummary};
use crate::errors::UniswapError;
use std::collections::VecDeque;
use vstd::prelude::*;

verus! {

/// Every block but the first names its predecessor as parent.
pub open spec fn fully_linked(window: Seq<BlockSummary>) -> bool {
    forall|i: int| 1 <= i < window.len() ==> links_to(#[trigger] window[i - 1], window[i])
}

/// The depth that a scan from the newest block towards the oldest reports:
/// the number of blocks from the tail up to and including the first one that
/// does not link to its predecessor. `None` when every link holds.
///
/// This is the break nearest the tail, which need not be the only one.
pub open spec fn reorg_depth(window: Seq<BlockSummary>) -> Option<nat>
    decreases window.len(),
{
    if window.len() < 2 {
        None
    } else if !links_to(window[window.len() - 2], window.last()) {
        Some(1)
    } else {
        match reorg_depth(window.drop_last()) {
            Some(d) => Some(d + 1),
            None => None,
        }
    }
}

/// Whether `outcome` is what validating `window` answers: success where
/// every link holds, and else the depth of the break nearest the tail.
pub open spec fn is_linkage_verdict(
    window: Seq<BlockSummary>,
    outcome: Result<(), UniswapError>,
) -> bool {
    match outcome {
        Ok(()) => reorg_depth(window) is None,
        Err(e) => e matches UniswapError::ReorgError(depth) && reorg_depth(window) == Some(
            depth as nat,
        ),
    }
}

/// The window after `block` arrived: appended at the tail, and the head
/// evicted where that exceeds the capacity.
pub open spec fn slide(window: Seq<BlockSummary>, block: BlockSummary, capacity: nat) -> Seq<
    BlockSummary,
> {
    let grown = window.push(block);
    if grown.len() > capacity {
        grown.drop_first()
    } else {
        grown
    }
}

/// The window with its `depth` newest blocks removed (all of them, where
/// there are no more).
pub open spec fn cut_tail(window: Seq<BlockSummary>, depth: nat) -> Seq<BlockSummary> {
    if depth >= window.len() {
        Seq::empty()
    } else {
        window.take(window.len() - depth)
    }
}

/// The window of a watcher of the given capacity that started empty and was
/// given `blocks` one by one.
pub open spec fn window_after(capacity: nat, blocks: Seq<BlockSummary>) -> Seq<BlockSummary>
    decreases blocks.len(),
{
    if blocks.len() == 0 {
        Seq::empty()
    } else {
        slide(window_after(capacity, blocks.drop_last()), blocks.last(), capacity)
    }
}

/// `reorg_depth` is the distance from the tail of the last broken link:
/// `None` exactly when the window is fully linked, and otherwise a depth `d`
/// with `1 <= d < len`, such that the block `d` from the end does not link to
/// the one before it while all newer blocks do link.
pub proof fn lemma_reorg_depth_is_nearest_break(window: Seq<BlockSummary>)
    ensures
        reorg_depth(window) is None <==> fully_linked(window),
        reorg_depth(window) matches Some(d) ==> {
            &&& 1 <= d < window.len()
            &&& !links_to(window[window.len() - d - 1], window[window.len() - d])
            &&& forall|j: int|
                window.len() - d < j < window.len() ==> links_to(#[trigger] window[j - 1], window[j])
        },
    decreases window.len(),
{
    if window.len() >= 2 {
        let n: int = window.len() as int;
        let shorter = window.drop_last();
        lemma_reorg_depth_is_nearest_break(shorter);
        if links_to(window[n - 2], window.last()) {
            if fully_linked(shorter) {
                assert forall|i: int| 1 <= i < window.len() implies links_to(
                    #[trigger] window[i - 1],
                    window[i],
                ) by {
                    if i < n - 1 {
                        assert(links_to(shorter[i - 1], shorter[i]));
                    }
                }
            } else {
                let d: nat = reorg_depth(shorter).unwrap();
                assert forall|j: int| n - (d + 1) < j < n implies links_to(
                    #[trigger] window[j - 1],
                    window[j],
                ) by {
                    if j < n - 1 {
                        assert(links_to(shorter[j - 1], shorter[j]));
                    }
                }
                assert(!fully_linked(window)) by {
                    if fully_linked(window) {
                        let k: int = n - (d + 1);
                        assert(links_to(window[k - 1], window[k]));
                    }
                }
            }
        } else {
            assert(!fully_linked(window)) by {
                if fully_linked(window) {
                    assert(links_to(window[(n - 1) - 1], window[n - 1]));
                }
            }
        }
    }
}

/// A window that was validated without an error is fully linked, and a
/// window that is fully linked is validated without an error: every adjacent
/// pair satisfies the parent link, or an error is raised.
pub proof fn lemma_verdict_is_ok_exactly_when_linked(
    window: Seq<BlockSummary>,
    outcome: Result<(), UniswapError>,
)
    requires
        is_linkage_verdict(window, outcome),
    ensures
        outcome is Ok <==> fully_linked(window),
        outcome matches Err(UniswapError::ReorgError(depth)) ==> 1 <= depth < window.len(),
{
    lemma_reorg_depth_is_nearest_break(window);
}

/// A block that names the newest block of a fully linked window as its
/// parent is taken in without an error, and so is the first block of an empty
/// window; the window stays fully linked.
pub proof fn lemma_linked_block_is_accepted(
    window: Seq<BlockSummary>,
    block: BlockSummary,
    capacity: nat,
)
    requires
        fully_linked(window),
        window.len() > 0 ==> links_to(window.last(), block),
    ensures
        fully_linked(slide(window, block, capacity)),
        is_linkage_verdict(slide(window, block, capacity), Ok(())),
{
    let grown = window.push(block);
    assert forall|i: int| 1 <= i < grown.len() implies links_to(
        #[trigger] grown[i - 1],
        grown[i],
    ) by {
        if i < window.len() {
            assert(links_to(window[i - 1], window[i]));
        }
    }
    let slid = slide(window, block, capacity);
    if grown.len() > capacity {
        assert forall|i: int| 1 <= i < slid.len() implies links_to(
            #[trigger] slid[i - 1],
            slid[i],
        ) by {
            assert(links_to(grown[(i + 1) - 1], grown[i + 1]));
        }
    }
    lemma_reorg_depth_is_nearest_break(slid);
}

/// A watcher that started empty holds the newest `capacity` of the blocks it
/// was given, in their order: it is full from the `capacity`-th block on and
/// not before, and its head is then the block `capacity` places from the end.
pub proof fn lemma_window_holds_the_newest(capacity: nat, blocks: Seq<BlockSummary>)
    ensures
        window_after(capacity, blocks) == if blocks.len() <= capacity {
            blocks
        } else {
            blocks.skip(blocks.len() - capacity)
        },
        window_after(capacity, blocks).len() <= capacity,
        window_after(capacity, blocks).len() == capacity <==> blocks.len() >= capacity,
        blocks.len() >= capacity > 0 ==> window_after(capacity, blocks)[0] == blocks[blocks.len()
            - capacity],
    decreases blocks.len(),
{
    if blocks.len() > 0 {
        let earlier = blocks.drop_last();
        lemma_window_holds_the_newest(capacity, earlier);
        let grown = window_after(capacity, earlier).push(blocks.last());
        if blocks.len() <= capacity {
            assert(grown =~= blocks);
        } else {
            assert(grown.drop_first() =~= blocks.skip(blocks.len() - capacity));
        }
    }
}

/// Feeding a chain without a reorganisation never raises an error: where
/// every block names its predecessor as parent, the window is validated
/// without an error after each of them.
pub proof fn lemma_linked_chain_is_never_reported(capacity: nat, blocks: Seq<BlockSummary>)
    requires
        fully_linked(blocks),
    ensures
        forall|k: int|
            0 <= k <= blocks.len() ==> is_linkage_verdict(
                #[trigger] window_after(capacity, blocks.take(k)),
                Ok(()),
            ),
{
    assert forall|k: int| 0 <= k <= blocks.len() implies is_linkage_verdict(
        #[trigger] window_after(capacity, blocks.take(k)),
        Ok(()),
    ) by {
        let fed = blocks.take(k);
        let window = window_after(capacity, fed);
        lemma_window_holds_the_newest(capacity, fed);
        let start: int = fed.len() - window.len();
        assert forall|i: int| 1 <= i < window.len() implies links_to(
            #[trigger] window[i - 1],
            window[i],
        ) by {
            assert(links_to(blocks[(start + i) - 1], blocks[start + i]));
        }
        lemma_reorg_depth_is_nearest_break(window);
    }
}

/// A sliding window over the newest blocks. Once the window is full and every
/// block in it names its predecessor as parent, the block at its head is
/// treated as final.
pub struct ReorgWatcher {
    block_buffer: VecDeque<BlockSummary>,
    buffer_size: usize,
}

impl ReorgWatcher {
    /// The buffered blocks, oldest first.
    pub closed spec fn blocks(&self) -> Seq<BlockSummary> {
        self.block_buffer@
    }

    /// The confirmation depth.
    pub closed spec fn capacity(&self) -> nat {
        self.buffer_size as nat
    }

    /// The window holds no more blocks than its capacity. This holds of a
    /// new watcher, and every method keeps it.
    pub open spec fn within_capacity(&self) -> bool {
        self.blocks().len() <= self.capacity()
    }

    /// An empty window of the given confirmation depth.
    pub fn new(buffer_size: usize) -> (watcher: Self)
        ensures
            watcher.blocks() == Seq::<BlockSummary>::empty(),
            watcher.capacity() == buffer_size,
            watcher.within_capacity(),
    {
        Self { block_buffer: VecDeque::new(), buffer_size }
    }

    /// The confirmation depth that the window was made with.
    pub fn buffer_size(&self) -> (size: usize)
        ensures
            size == self.capacity(),
    {
        self.buffer_size
    }

    /// Takes a block in at the tail, evicting the head of a full window, and
    /// validates the linkage of the result. The block stays in the window
    /// also where the validation fails.
    pub fn add_block(&mut self, block: BlockSummary) -> (outcome: Result<(), UniswapError>)
        ensures
            final(self).capacity() == old(self).capacity(),
            final(self).blocks() == slide(old(self).blocks(), block, old(self).capacity()),
            old(self).within_capacity() ==> final(self).within_capacity(),
            is_linkage_verdict(final(self).blocks(), outcome),
    {
        self.block_buffer.push_back(block);
        if self.block_buffer.len() > self.buffer_size {
            self.block_buffer.pop_front();
        }
        assert(self.block_buffer@ =~= slide(old(self).blocks(), block, old(self).capacity()));
        self.check_for_reorg()
    }

    /// Scans the links from the newest towards the oldest and reports the
    /// first one that is broken.
    pub fn check_for_reorg(&self) -> (outcome: Result<(), UniswapError>)
        ensures
            is_linkage_verdict(self.blocks(), outcome),
    {
        let len: usize = self.block_buffer.len();
        let mut i: usize = len;
        assert(self.block_buffer@.take(len as int) =~= self.block_buffer@);
        while i > 1
            invariant
                len == self.block_buffer@.len(),
                i <= len,
                len >= 2 ==> i >= 1,
                i >= 1 ==> reorg_depth(self.block_buffer@) == match reorg_depth(
                    self.block_buffer@.take(i as int),
                ) {
                    Some(d) => Some((d + (len - i)) as nat),
                    None => None,
                },
            decreases i,
        {
            let ghost upto = self.block_buffer@.take(i as int);
            i -= 1;
            if !is_linked(&self.block_buffer[i - 1], &self.block_buffer[i]) {
                return Err(UniswapError::ReorgError(len - i));
            }
            assert(upto.drop_last() =~= self.block_buffer@.take(i as int));
        }
        proof {
            if len >= 1 {
                assert(self.block_buffer@.take(i as int).len() < 2);
            }
        }
        Ok(())
    }

    /// Whether the window is full, so that its head may be processed.
    pub fn is_ready_to_process(&self) -> (ready: bool)
        ensures
            ready == (self.blocks().len() == self.capacity()),
    {
        self.block_buffer.len() == self.buffer_size
    }

    /// The head of the window, which stays where it is.
    pub fn get_block_to_process(&self) -> (head: Result<BlockSummary, UniswapError>)
        ensures
            match head {
                Ok(block) => self.blocks().len() > 0 && block == self.blocks()[0],
                Err(e) => {
                    &&& self.blocks().len() == 0
                    &&& e matches UniswapError::BlockError(text)
                    &&& text@.len() == 0
                },
            },
    {
        if self.block_buffer.len() > 0 {
            Ok(self.block_buffer[0])
        } else {
            Err(UniswapError::BlockError(String::new()))
        }
    }

    /// Drops the `depth` newest blocks, to repair the window after a
    /// reorganisation of that depth.
    pub fn truncate_tail(&mut self, depth: usize)
        ensures
            final(self).capacity() == old(self).capacity(),
            final(self).blocks() == cut_tail(old(self).blocks(), depth as nat),
            old(self).within_capacity() ==> final(self).within_capacity(),
    {
        let len: usize = self.block_buffer.len();
        let keep: usize = if depth >= len { 0 } else { len - depth };
        self.block_buffer.truncate(keep);
        assert(self.block_buffer@ =~= cut_tail(old(self).blocks(), depth as nat));
    }
}

} // verus!
