//! The walk over the pages of an index: the snapshot of its tree and the
//! totals over its pages.
//!
//! The walk trusts the index to be a tree. It follows every downlink it is
//! allowed to follow, so that on blocks whose downlinks form a cycle a walk
//! without a depth bound goes down until its depth counter is exhausted.

use vstd::prelude::*;
use crate::layout::BLOCK_SIZE;
use crate::page::{
    consistent, downlink_of, free_space_of, has_opaque, is_leaf_of, max_offset_of, opaque_of,
    right_link_of, BlockNumber, GistPage, IndexTuple, OffsetNumber, Page, PageError,
    FIRST_OFFSET_NUMBER,
};
use crate::stats::Stats;
use crate::tree::{
    deepest_level, deepest_of, lemma_deepest_of_push, render_node, IndexTree, IndexTreeNode,
    TreeNode,
};

verus! {

/// Number of the root page of an index.
pub const GIST_ROOT_BLKNO: BlockNumber = 0;

/// Why a walk over an index was given up.
#[derive(Debug, Clone, Copy, PartialEq, Eq, Structural)]
pub enum InspectError {
    /// A page on the way could not be decoded.
    Page(PageError),
    /// A downlink names a page beyond the last block of the index.
    PageOutOfRange,
    /// The walk would go below the greatest depth that it can count.
    TooDeep,
    /// A total does not fit its counter.
    CounterOverflow,
}

/// Whether a walk with the bound `max_level` goes below a page at depth
/// `level`.
pub open spec fn descends(level: usize, max_level: Option<usize>) -> bool {
    match max_level {
        Some(max) => max as nat > level,
        None => true,
    }
}

/// The block of page `blk` as the walk takes it: a block of the index that
/// is a page with the metadata of an index page.
pub open spec fn index_page_at(blocks: Seq<Seq<u8>>, blk: BlockNumber) -> Result<
    Seq<u8>,
    InspectError,
> {
    if blk as int >= blocks.len() {
        Err(InspectError::PageOutOfRange)
    } else if blocks[blk as int].len() != BLOCK_SIZE as nat {
        Err(InspectError::Page(PageError::WrongSize))
    } else if !consistent(blocks[blk as int]) || !has_opaque(blocks[blk as int]) {
        Err(InspectError::Page(PageError::LayoutViolation))
    } else {
        Ok(blocks[blk as int])
    }
}

/// The node for the page `blk` with the bytes `block`, reached through the
/// slot `offset` of its parent.
pub open spec fn node_of(
    block: Seq<u8>,
    blk: BlockNumber,
    offset: OffsetNumber,
    children: Option<Seq<TreeNode>>,
) -> TreeNode {
    TreeNode {
        offset,
        max_offset: max_offset_of(block) as OffsetNumber,
        block_num: blk,
        free_space: free_space_of(block) as usize,
        right_link: right_link_of(opaque_of(block)),
        children,
    }
}

/// The snapshot of the subtree of page `blk` at depth `level`, or why the
/// walk over it is given up.
///
/// A leaf has no children. An internal page at a depth that the bound does
/// not let the walk go below has an empty sequence of them. Any other
/// internal page has one child for each of its slots, in slot order; the
/// walk is given up as too deep where it would have to go below the greatest
/// depth that a `usize` counts.
pub open spec fn tree_at(
    blocks: Seq<Seq<u8>>,
    level: usize,
    max_level: Option<usize>,
    blk: BlockNumber,
    offset: OffsetNumber,
) -> Result<TreeNode, InspectError>
    decreases usize::MAX - level, 2nat, 0nat,
{
    match index_page_at(blocks, blk) {
        Err(e) => Err(e),
        Ok(block) => {
            if is_leaf_of(opaque_of(block)) {
                Ok(node_of(block, blk, offset, None))
            } else if !descends(level, max_level) {
                Ok(node_of(block, blk, offset, Some(Seq::<TreeNode>::empty())))
            } else if level >= usize::MAX {
                Err(InspectError::TooDeep)
            } else {
                match children_at(blocks, level, max_level, block, max_offset_of(block) as nat) {
                    Err(e) => Err(e),
                    Ok(cs) => Ok(node_of(block, blk, offset, Some(cs))),
                }
            }
        },
    }
}

/// The snapshots of the subtrees behind the first `k` slots of the internal
/// page `block` at depth `level`, or the first reason to give up.
pub open spec fn children_at(
    blocks: Seq<Seq<u8>>,
    level: usize,
    max_level: Option<usize>,
    block: Seq<u8>,
    k: nat,
) -> Result<Seq<TreeNode>, InspectError>
    decreases usize::MAX - level, 1nat, k,
{
    if k == 0 {
        Ok(Seq::<TreeNode>::empty())
    } else {
        match children_at(blocks, level, max_level, block, (k - 1) as nat) {
            Err(e) => Err(e),
            Ok(cs) => match child_at(blocks, level, max_level, block, k) {
                Err(e) => Err(e),
                Ok(c) => Ok(cs.push(c)),
            },
        }
    }
}

/// The snapshot of the subtree behind slot `k` of the internal page `block`
/// at depth `level`: the entry behind the slot is decoded, and the walk goes
/// on at the page that it points to.
pub open spec fn child_at(
    blocks: Seq<Seq<u8>>,
    level: usize,
    max_level: Option<usize>,
    block: Seq<u8>,
    k: nat,
) -> Result<TreeNode, InspectError>
    decreases usize::MAX - level, 0nat, 0nat,
{
    match downlink_of(block, k as int) {
        Err(e) => Err(InspectError::Page(e)),
        Ok(tuple) => {
            if level >= usize::MAX {
                Err(InspectError::TooDeep)
            } else {
                tree_at(
                    blocks,
                    (level + 1) as usize,
                    max_level,
                    tuple.spec_block_num() as BlockNumber,
                    k as OffsetNumber,
                )
            }
        },
    }
}

/// The totals `acc` after the walk over the subtree of page `blk` at depth
/// `level`, or why the walk is given up.
///
/// Every page visited is counted. Of an internal page every entry is decoded
/// and counted where it is a placeholder, whatever the bound; the bound
/// decides whether the walk goes on to the children.
pub open spec fn stats_at(
    blocks: Seq<Seq<u8>>,
    level: usize,
    max_level: Option<usize>,
    blk: BlockNumber,
    acc: Stats,
) -> Result<Stats, InspectError>
    decreases usize::MAX - level, 2nat, 0nat,
{
    match index_page_at(blocks, blk) {
        Err(e) => Err(e),
        Ok(block) => {
            match acc.spec_count_page(
                level,
                max_offset_of(block) as OffsetNumber,
                free_space_of(block) as usize,
                is_leaf_of(opaque_of(block)),
            ) {
                None => Err(InspectError::CounterOverflow),
                Some(counted) => {
                    if is_leaf_of(opaque_of(block)) {
                        Ok(counted)
                    } else if descends(level, max_level) && level >= usize::MAX {
                        Err(InspectError::TooDeep)
                    } else {
                        entries_at(
                            blocks,
                            level,
                            max_level,
                            block,
                            max_offset_of(block) as nat,
                            counted,
                        )
                    }
                },
            }
        },
    }
}

/// The totals `acc` after the first `k` entries of the internal page `block`
/// at depth `level` and the walks over the subtrees behind them, or the
/// first reason to give up.
pub open spec fn entries_at(
    blocks: Seq<Seq<u8>>,
    level: usize,
    max_level: Option<usize>,
    block: Seq<u8>,
    k: nat,
    acc: Stats,
) -> Result<Stats, InspectError>
    decreases usize::MAX - level, 1nat, k,
{
    if k == 0 {
        Ok(acc)
    } else {
        match entries_at(blocks, level, max_level, block, (k - 1) as nat, acc) {
            Err(e) => Err(e),
            Ok(before) => entry_at(blocks, level, max_level, block, k, before),
        }
    }
}

/// The totals `acc` after entry `k` of the internal page `block` at depth
/// `level`: the entry is decoded and counted where it is a placeholder, and
/// where the walk goes below this page, it goes on at the page that the
/// entry points to.
pub open spec fn entry_at(
    blocks: Seq<Seq<u8>>,
    level: usize,
    max_level: Option<usize>,
    block: Seq<u8>,
    k: nat,
    acc: Stats,
) -> Result<Stats, InspectError>
    decreases usize::MAX - level, 0nat, 0nat,
{
    match downlink_of(block, k as int) {
        Err(e) => Err(InspectError::Page(e)),
        Ok(tuple) => match (if tuple.spec_is_invalid() {
            acc.spec_count_invalid()
        } else {
            Some(acc)
        }) {
            None => Err(InspectError::CounterOverflow),
            Some(counted) => {
                if !descends(level, max_level) {
                    Ok(counted)
                } else if level >= usize::MAX {
                    Err(InspectError::TooDeep)
                } else {
                    stats_at(
                        blocks,
                        (level + 1) as usize,
                        max_level,
                        tuple.spec_block_num() as BlockNumber,
                        counted,
                    )
                }
            },
        },
    }
}

/// The snapshot of the tree of an index, from its root page down.
pub open spec fn tree_of(blocks: Seq<Seq<u8>>, max_level: Option<usize>) -> Result<
    TreeNode,
    InspectError,
> {
    tree_at(blocks, 0, max_level, GIST_ROOT_BLKNO, 0)
}

/// The totals of the walk over an index, from its root page down.
pub open spec fn stats_of(blocks: Seq<Seq<u8>>, max_level: Option<usize>) -> Result<
    Stats,
    InspectError,
> {
    stats_at(blocks, 0, max_level, GIST_ROOT_BLKNO, Stats::empty())
}

/// The text of the dump of the tree of an index.
pub open spec fn tree_dump(blocks: Seq<Seq<u8>>, max_level: Option<usize>) -> Result<
    Seq<char>,
    InspectError,
> {
    match tree_of(blocks, max_level) {
        Ok(t) => Ok(render_node(t, 0)),
        Err(e) => Err(e),
    }
}

/// The text of the report on the totals of an index.
pub open spec fn stats_report(blocks: Seq<Seq<u8>>, max_level: Option<usize>) -> Result<
    Seq<char>,
    InspectError,
> {
    match stats_of(blocks, max_level) {
        Ok(s) => Ok(s.report()),
        Err(e) => Err(e),
    }
}

/// The bytes of each of `blocks`, in their order.
pub open spec fn bytes_of(blocks: Seq<Vec<u8>>) -> Seq<Seq<u8>> {
    Seq::new(blocks.len(), |i: int| blocks[i]@)
}

/// Once the walk over the first `j` slots has been given up, the walk over
/// more of them is given up for the same reason.
pub proof fn lemma_children_stay_given_up(
    blocks: Seq<Seq<u8>>,
    level: usize,
    max_level: Option<usize>,
    block: Seq<u8>,
    j: nat,
    k: nat,
)
    requires
        j <= k,
        children_at(blocks, level, max_level, block, j) is Err,
    ensures
        children_at(blocks, level, max_level, block, k) == children_at(
            blocks,
            level,
            max_level,
            block,
            j,
        ),
    decreases k,
{
    if j < k {
        lemma_children_stay_given_up(blocks, level, max_level, block, j, (k - 1) as nat);
    }
}

/// Once the count over the first `j` entries has been given up, the count
/// over more of them is given up for the same reason.
pub proof fn lemma_entries_stay_given_up(
    blocks: Seq<Seq<u8>>,
    level: usize,
    max_level: Option<usize>,
    block: Seq<u8>,
    j: nat,
    k: nat,
    acc: Stats,
)
    requires
        j <= k,
        entries_at(blocks, level, max_level, block, j, acc) is Err,
    ensures
        entries_at(blocks, level, max_level, block, k, acc) == entries_at(
            blocks,
            level,
            max_level,
            block,
            j,
            acc,
        ),
    decreases k,
{
    if j < k {
        lemma_entries_stay_given_up(blocks, level, max_level, block, j, (k - 1) as nat, acc);
    }
}

/// The blocks of one index, block `i` being page number `i`, open for
/// inspection.
pub struct IndexInspector {
    blocks: Vec<Vec<u8>>,
}

impl View for IndexInspector {
    type V = Seq<Seq<u8>>;

    closed spec fn view(&self) -> Seq<Seq<u8>> {
        bytes_of(self.blocks@)
    }
}

impl IndexInspector {
    /// Opens the blocks of an index for inspection.
    pub fn open(blocks: Vec<Vec<u8>>) -> (index: Self)
        ensures
            index@ == bytes_of(blocks@),
    {
        IndexInspector { blocks }
    }

    /// The page `blk` with its metadata, as the walk takes it.
    fn read_page(&self, blk: BlockNumber) -> (r: Result<(Page<'_>, GistPage), InspectError>)
        ensures
            match index_page_at(self@, blk) {
                Ok(block) => r is Ok && r->Ok_0.0@ == block && r->Ok_0.1.opaque() == opaque_of(
                    block,
                ),
                Err(e) => r is Err && r->Err_0 == e,
            },
    {
        if blk as usize >= self.blocks.len() {
            return Err(InspectError::PageOutOfRange);
        }
        let page = match Page::new(self.blocks[blk as usize].as_slice()) {
            Ok(page) => page,
            Err(e) => {
                return Err(InspectError::Page(e));
            },
        };
        let gist_page = match GistPage::new(&page) {
            Ok(gist_page) => gist_page,
            Err(e) => {
                return Err(InspectError::Page(e));
            },
        };
        Ok((page, gist_page))
    }

    /// The head of the entry behind slot `i` of `page`.
    fn downlink(page: &Page<'_>, i: OffsetNumber) -> (r: Result<IndexTuple, InspectError>)
        ensures
            r == match downlink_of(page@, i as int) {
                Ok(tuple) => Ok::<IndexTuple, InspectError>(tuple),
                Err(e) => Err::<IndexTuple, InspectError>(InspectError::Page(e)),
            },
    {
        let iid = match page.item_id(i as usize) {
            Ok(iid) => iid,
            Err(e) => {
                return Err(InspectError::Page(e));
            },
        };
        match page.get_index_tuple(iid) {
            Ok(which) => Ok(which),
            Err(e) => Err(InspectError::Page(e)),
        }
    }

    /// The snapshot of the tree, from the root page down to depth
    /// `max_level`, or all of it where no bound is given.
    pub fn get_tree(&self, max_level: Option<usize>) -> (r: Result<IndexTree, InspectError>)
        ensures
            match tree_of(self@, max_level) {
                Ok(t) => r is Ok && r->Ok_0@ == t,
                Err(e) => r is Err && r->Err_0 == e,
            },
    {
        match self.get_tree_node(0, max_level, GIST_ROOT_BLKNO, 0) {
            Ok(node) => Ok(IndexTree::new(node)),
            Err(e) => Err(e),
        }
    }

    /// The snapshot of the subtree of page `blk`, taken to lie at depth
    /// `level` and to be reached through slot `offset` of its parent.
    pub fn get_tree_node(
        &self,
        level: usize,
        max_level: Option<usize>,
        blk: BlockNumber,
        offset: OffsetNumber,
    ) -> (r: Result<IndexTreeNode, InspectError>)
        ensures
            match tree_at(self@, level, max_level, blk, offset) {
                Ok(t) => r is Ok && r->Ok_0@ == t && deepest_level(t, level as nat) <= usize::MAX,
                Err(e) => r is Err && r->Err_0 == e,
            },
        decreases usize::MAX - level, 1nat,
    {
        let (page, gist_page) = match self.read_page(blk) {
            Ok(read) => read,
            Err(e) => {
                return Err(e);
            },
        };
        let ghost block = page@;
        let max_offset = page.max_offset();
        let free_space = page.free_space();
        let is_leaf = gist_page.is_leaf();

        let mut node = IndexTreeNode::new(
            max_offset,
            free_space,
            offset,
            blk,
            gist_page.right_link(),
            is_leaf,
        );

        if !is_leaf {
            let recurse = match max_level {
                Some(max) => max > level,
                None => true,
            };

            if recurse {
                if level == usize::MAX {
                    return Err(InspectError::TooDeep);
                }
                let ghost n = max_offset as nat;
                let ghost mut cs = Seq::<TreeNode>::empty();
                let mut i: OffsetNumber = FIRST_OFFSET_NUMBER;
                while i <= max_offset
                    invariant
                        1 <= i <= max_offset + 1,
                        n == max_offset,
                        max_offset < 4096,
                        level < usize::MAX,
                        page@ == block,
                        children_at(self@, level, max_level, block, (i - 1) as nat) == Ok::<
                            Seq<TreeNode>,
                            InspectError,
                        >(cs),
                        node@ == node_of(block, blk, offset, Some(cs)),
                        deepest_of(cs, cs.len(), level as nat) <= usize::MAX,
                        cs.len() == i - 1,
                        tree_at(self@, level, max_level, blk, offset) == match children_at(
                            self@,
                            level,
                            max_level,
                            block,
                            n,
                        ) {
                            Err(e) => Err::<TreeNode, InspectError>(e),
                            Ok(all) => Ok::<TreeNode, InspectError>(
                                node_of(block, blk, offset, Some(all)),
                            ),
                        },
                    decreases max_offset + 1 - i,
                {
                    let child = match self.get_tree_child(level, max_level, &page, i) {
                        Ok(child) => child,
                        Err(e) => {
                            proof {
                                lemma_children_stay_given_up(
                                    self@,
                                    level,
                                    max_level,
                                    block,
                                    i as nat,
                                    n,
                                );
                            }
                            return Err(e);
                        },
                    };
                    proof {
                        lemma_deepest_of_push(cs, child@, cs.len(), level as nat);
                        cs = cs.push(child@);
                    }
                    node = node.push_child(child);
                    i += 1;
                }
            }
        }
        Ok(node)
    }

    /// The subtree behind slot `i` of the internal page `page` at depth
    /// `level`.
    fn get_tree_child(
        &self,
        level: usize,
        max_level: Option<usize>,
        page: &Page<'_>,
        i: OffsetNumber,
    ) -> (r: Result<IndexTreeNode, InspectError>)
        ensures
            match child_at(self@, level, max_level, page@, i as nat) {
                Ok(t) => r is Ok && r->Ok_0@ == t && deepest_level(t, (level + 1) as nat)
                    <= usize::MAX,
                Err(e) => r is Err && r->Err_0 == e,
            },
        decreases usize::MAX - level, 0nat,
    {
        let which = Self::downlink(page, i)?;
        if level == usize::MAX {
            return Err(InspectError::TooDeep);
        }
        let cblk = which.block_num();
        self.get_tree_node(level + 1, max_level, cblk, i)
    }

    /// The totals over the pages of the tree, from the root page down to
    /// depth `max_level`, or over all of them where no bound is given.
    pub fn stats(&self, max_level: Option<usize>) -> (r: Result<Stats, InspectError>)
        ensures
            r == stats_of(self@, max_level),
    {
        let stats = Stats::default();
        self.stats_inner(0, max_level, GIST_ROOT_BLKNO, stats)
    }

    /// The totals `stats` after the walk over the subtree of page `blk`,
    /// taken to lie at depth `level`.
    pub fn stats_inner(
        &self,
        level: usize,
        max_level: Option<usize>,
        blk: BlockNumber,
        stats: Stats,
    ) -> (r: Result<Stats, InspectError>)
        ensures
            r == stats_at(self@, level, max_level, blk, stats),
        decreases usize::MAX - level, 1nat,
    {
        let (page, gist_page) = match self.read_page(blk) {
            Ok(read) => read,
            Err(e) => {
                return Err(e);
            },
        };
        let ghost block = page@;
        let max_offset = page.max_offset();
        let is_leaf = gist_page.is_leaf();

        let mut total = match stats.count_page(level, max_offset, page.free_space(), is_leaf) {
            Some(counted) => counted,
            None => {
                return Err(InspectError::CounterOverflow);
            },
        };
        let ghost counted = total;

        if !is_leaf {
            let recurse = match max_level {
                Some(max) => max > level,
                None => true,
            };
            if recurse && level == usize::MAX {
                return Err(InspectError::TooDeep);
            }
            let ghost n = max_offset as nat;
            let mut i: OffsetNumber = FIRST_OFFSET_NUMBER;
            while i <= max_offset
                invariant
                    1 <= i <= max_offset + 1,
                    n == max_offset,
                    max_offset < 4096,
                    page@ == block,
                    entries_at(self@, level, max_level, block, (i - 1) as nat, counted)
                        == Ok::<Stats, InspectError>(total),
                    stats_at(self@, level, max_level, blk, stats) == entries_at(
                        self@,
                        level,
                        max_level,
                        block,
                        n,
                        counted,
                    ),
                decreases max_offset + 1 - i,
            {
                total = match self.stats_entry(level, max_level, &page, i, total) {
                    Ok(more) => more,
                    Err(e) => {
                        proof {
                            lemma_entries_stay_given_up(
                                self@,
                                level,
                                max_level,
                                block,
                                i as nat,
                                n,
                                counted,
                            );
                        }
                        return Err(e);
                    },
                };
                i += 1;
            }
        }
        Ok(total)
    }

    /// Counts entry `i` of the internal page `page` at depth `level`, and
    /// the subtree behind it where the walk goes there.
    fn stats_entry(
        &self,
        level: usize,
        max_level: Option<usize>,
        page: &Page<'_>,
        i: OffsetNumber,
        stats: Stats,
    ) -> (r: Result<Stats, InspectError>)
        ensures
            r == entry_at(self@, level, max_level, page@, i as nat, stats),
        decreases usize::MAX - level, 0nat,
    {
        let which = Self::downlink(page, i)?;
        let mut stats = stats;
        if which.is_invalid() {
            stats = match stats.count_invalid() {
                Some(more) => more,
                None => {
                    return Err(InspectError::CounterOverflow);
                },
            };
        }
        let recurse = match max_level {
            Some(max) => max > level,
            None => true,
        };
        if !recurse {
            return Ok(stats);
        }
        if level == usize::MAX {
            return Err(InspectError::TooDeep);
        }
        let cblk = which.block_num();
        self.stats_inner(level + 1, max_level, cblk, stats)
    }
}

} // verus!
