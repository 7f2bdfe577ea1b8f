//! What holds of every index: how the totals of a walk relate to the
//! snapshot of the same walk, what a depth bound does, and that the reports
//! depend on the blocks alone.

use vstd::prelude::*;
use crate::gist::{
    child_at, children_at, descends, entries_at, entry_at, index_page_at, node_of, stats_at,
    stats_of, stats_report, tree_at, tree_dump, tree_of, InspectError, GIST_ROOT_BLKNO,
};
use crate::layout::BLOCK_SIZE;
use crate::page::{
    downlink_of, free_space_of, is_leaf_of, max_offset_of, opaque_of, valid_block, BlockNumber,
    OffsetNumber,
};
use crate::stats::Stats;
use crate::tree::{
    deepest_level, deepest_of, lemma_deepest_of_bounds, lemma_deepest_of_push,
    lemma_nodes_count_push, lemma_occupied_bounds, node_count, node_line, nodes_count,
    occupied_of, render_node, TreeNode,
};

verus! {

/// Of every page at most the capacity is free, and the share of it that is
/// not free lies between nothing and all of it.
pub proof fn lemma_page_shares(block: Seq<u8>)
    requires
        valid_block(block),
    ensures
        0 <= free_space_of(block) <= BLOCK_SIZE as int,
        0 <= BLOCK_SIZE as int - free_space_of(block) <= BLOCK_SIZE as int,
        0 <= occupied_of(free_space_of(block)) <= 10000,
{
    lemma_occupied_bounds(free_space_of(block));
}

/// The greater of two numbers.
pub open spec fn greater(a: int, b: int) -> int {
    if a > b {
        a
    } else {
        b
    }
}

/// What the totals add up over the pages of a walk.
pub ghost enum Measure {
    /// One for each leaf page.
    LeafPages,
    /// The slots of each page.
    Tuples,
    /// The slots of each leaf page.
    LeafTuples,
    /// The bytes of each page that are not free.
    Bytes,
    /// The bytes of each leaf page that are not free.
    LeafBytes,
}

/// What one node adds to a measure.
pub open spec fn weight(m: Measure, t: TreeNode) -> int {
    let leaf = t.children is None;
    match m {
        Measure::LeafPages => if leaf {
            1
        } else {
            0
        },
        Measure::Tuples => t.max_offset as int,
        Measure::LeafTuples => if leaf {
            t.max_offset as int
        } else {
            0
        },
        Measure::Bytes => BLOCK_SIZE as int - t.free_space as int,
        Measure::LeafBytes => if leaf {
            BLOCK_SIZE as int - t.free_space as int
        } else {
            0
        },
    }
}

/// A measure added up over the nodes of the subtree of `t`.
pub open spec fn sum_over(m: Measure, t: TreeNode) -> int
    decreases t,
{
    weight(m, t) + match t.children {
        None => 0,
        Some(cs) => sum_among(m, cs, cs.len()),
    }
}

/// A measure added up over the nodes of the first `k` of the subtrees `cs`.
pub open spec fn sum_among(m: Measure, cs: Seq<TreeNode>, k: nat) -> int
    decreases cs, k,
{
    if k == 0 || k > cs.len() {
        0
    } else {
        sum_among(m, cs, (k - 1) as nat) + sum_over(m, cs[k - 1])
    }
}

/// Adding a subtree behind the first `k` leaves their sums as they were.
pub proof fn lemma_sum_among_push(m: Measure, cs: Seq<TreeNode>, c: TreeNode, k: nat)
    requires
        k <= cs.len(),
    ensures
        sum_among(m, cs.push(c), k) == sum_among(m, cs, k),
    decreases k,
{
    if k > 0 {
        lemma_sum_among_push(m, cs, c, (k - 1) as nat);
        assert(cs.push(c)[k - 1] == cs[k - 1]);
    }
}

/// Number of placeholder entries behind the first `k` slots of a page.
pub open spec fn invalid_slots(block: Seq<u8>, k: nat) -> nat
    decreases k,
{
    if k == 0 {
        0
    } else {
        invalid_slots(block, (k - 1) as nat) + if downlink_of(block, k as int) is Ok && downlink_of(
            block,
            k as int,
        )->Ok_0.spec_is_invalid() {
            1nat
        } else {
            0nat
        }
    }
}

/// Number of placeholder entries on the internal pages of the subtree of
/// `t`, each page looked up in `blocks` by its number.
pub open spec fn invalid_in(blocks: Seq<Seq<u8>>, t: TreeNode) -> nat
    decreases t,
{
    match t.children {
        None => 0,
        Some(cs) => invalid_slots(blocks[t.block_num as int], t.max_offset as nat) + invalid_among(
            blocks,
            cs,
            cs.len(),
        ),
    }
}

/// Number of placeholder entries on the internal pages of the first `k` of
/// the subtrees `cs`.
pub open spec fn invalid_among(blocks: Seq<Seq<u8>>, cs: Seq<TreeNode>, k: nat) -> nat
    decreases cs, k,
{
    if k == 0 || k > cs.len() {
        0
    } else {
        invalid_among(blocks, cs, (k - 1) as nat) + invalid_in(blocks, cs[k - 1])
    }
}

/// Adding a subtree behind the first `k` leaves their number of placeholder
/// entries as it was.
pub proof fn lemma_invalid_among_push(blocks: Seq<Seq<u8>>, cs: Seq<TreeNode>, c: TreeNode, k: nat)
    requires
        k <= cs.len(),
    ensures
        invalid_among(blocks, cs.push(c), k) == invalid_among(blocks, cs, k),
    decreases k,
{
    if k > 0 {
        lemma_invalid_among_push(blocks, cs, c, (k - 1) as nat);
        assert(cs.push(c)[k - 1] == cs[k - 1]);
    }
}

/// Where the walk does not go below a page, the count over its entries
/// changes the number of placeholder entries and nothing else.
pub proof fn lemma_entries_without_descent(
    blocks: Seq<Seq<u8>>,
    level: usize,
    max_level: Option<usize>,
    block: Seq<u8>,
    k: nat,
    acc: Stats,
)
    requires
        !descends(level, max_level),
        entries_at(blocks, level, max_level, block, k, acc) is Ok,
    ensures
        ({
            let s = entries_at(blocks, level, max_level, block, k, acc)->Ok_0;
            &&& s.num_invalid_tuple == acc.num_invalid_tuple + invalid_slots(block, k)
            &&& s == (Stats { num_invalid_tuple: s.num_invalid_tuple, ..acc })
        }),
    decreases k,
{
    if k > 0 {
        let j = (k - 1) as nat;
        assert(entries_at(blocks, level, max_level, block, j, acc) is Ok);
        lemma_entries_without_descent(blocks, level, max_level, block, j, acc);
        let before = entries_at(blocks, level, max_level, block, j, acc)->Ok_0;
        assert(entries_at(blocks, level, max_level, block, k, acc) == entry_at(
            blocks,
            level,
            max_level,
            block,
            k,
            before,
        ));
        assert(downlink_of(block, k as int) is Ok);
    }
}

/// Where the count over the subtree of a page succeeds, so does the snapshot
/// of it, and the count has added to the totals what the snapshot holds: its
/// number of nodes to the pages, the placeholder entries of its internal
/// pages to theirs, its deepest level, where that is deeper, and to each
/// other total the sum of its measure over the nodes.
pub proof fn lemma_stats_follow_tree(
    blocks: Seq<Seq<u8>>,
    level: usize,
    max_level: Option<usize>,
    blk: BlockNumber,
    offset: OffsetNumber,
    acc: Stats,
)
    requires
        stats_at(blocks, level, max_level, blk, acc) is Ok,
    ensures
        tree_at(blocks, level, max_level, blk, offset) is Ok,
        ({
            let s = stats_at(blocks, level, max_level, blk, acc)->Ok_0;
            let t = tree_at(blocks, level, max_level, blk, offset)->Ok_0;
            &&& s.num_pages == acc.num_pages + node_count(t)
            &&& s.level == greater(acc.level as int, deepest_level(t, level as nat) as int)
            &&& s.num_invalid_tuple == acc.num_invalid_tuple + invalid_in(blocks, t)
            &&& s.total_size == acc.total_size + BLOCK_SIZE as int * node_count(t)
            &&& s.num_leaf_pages == acc.num_leaf_pages + sum_over(Measure::LeafPages, t)
            &&& s.num_tuple == acc.num_tuple + sum_over(Measure::Tuples, t)
            &&& s.num_leaf_tuple == acc.num_leaf_tuple + sum_over(Measure::LeafTuples, t)
            &&& s.tuple_size == acc.tuple_size + sum_over(Measure::Bytes, t)
            &&& s.leaf_tuple_size == acc.leaf_tuple_size + sum_over(Measure::LeafBytes, t)
        }),
    decreases usize::MAX - level, 2nat, 0nat,
{
    let block = index_page_at(blocks, blk)->Ok_0;
    let n = max_offset_of(block) as nat;
    let counted = acc.spec_count_page(
        level,
        max_offset_of(block) as OffsetNumber,
        free_space_of(block) as usize,
        is_leaf_of(opaque_of(block)),
    )->Some_0;
    let t = tree_at(blocks, level, max_level, blk, offset)->Ok_0;
    assert(0 <= max_offset_of(block) < 65536);
    assert(0 <= free_space_of(block) <= BLOCK_SIZE as int);
    if is_leaf_of(opaque_of(block)) {
    } else if !descends(level, max_level) {
        lemma_entries_without_descent(blocks, level, max_level, block, n, counted);
        assert(t == node_of(block, blk, offset, Some(Seq::<TreeNode>::empty())));
    } else {
        lemma_entries_follow_children(blocks, level, max_level, block, n, counted);
        let cs = children_at(blocks, level, max_level, block, n)->Ok_0;
        assert(t == node_of(block, blk, offset, Some(cs)));
        lemma_deepest_of_bounds(cs, 0, n, level as nat);
    }
}

/// Where the count over the first `k` entries of a page that the walk goes
/// below succeeds, so do the snapshots of the subtrees behind them, and the
/// count has added to the totals what they hold.
pub proof fn lemma_entries_follow_children(
    blocks: Seq<Seq<u8>>,
    level: usize,
    max_level: Option<usize>,
    block: Seq<u8>,
    k: nat,
    acc: Stats,
)
    requires
        descends(level, max_level),
        entries_at(blocks, level, max_level, block, k, acc) is Ok,
    ensures
        children_at(blocks, level, max_level, block, k) is Ok,
        ({
            let s = entries_at(blocks, level, max_level, block, k, acc)->Ok_0;
            let cs = children_at(blocks, level, max_level, block, k)->Ok_0;
            &&& cs.len() == k
            &&& s.num_pages == acc.num_pages + nodes_count(cs, k)
            &&& s.level >= acc.level
            &&& greater(s.level as int, level as int) == greater(
                acc.level as int,
                deepest_of(cs, k, level as nat) as int,
            )
            &&& s.num_invalid_tuple == acc.num_invalid_tuple + invalid_slots(block, k)
                + invalid_among(blocks, cs, k)
            &&& s.total_size == acc.total_size + BLOCK_SIZE as int * nodes_count(cs, k)
            &&& s.num_leaf_pages == acc.num_leaf_pages + sum_among(Measure::LeafPages, cs, k)
            &&& s.num_tuple == acc.num_tuple + sum_among(Measure::Tuples, cs, k)
            &&& s.num_leaf_tuple == acc.num_leaf_tuple + sum_among(Measure::LeafTuples, cs, k)
            &&& s.tuple_size == acc.tuple_size + sum_among(Measure::Bytes, cs, k)
            &&& s.leaf_tuple_size == acc.leaf_tuple_size + sum_among(Measure::LeafBytes, cs, k)
        }),
    decreases usize::MAX - level, 1nat, k,
{
    if k > 0 {
        let j = (k - 1) as nat;
        lemma_entries_follow_children(blocks, level, max_level, block, j, acc);
        let before = entries_at(blocks, level, max_level, block, j, acc)->Ok_0;
        let cs0 = children_at(blocks, level, max_level, block, j)->Ok_0;
        let tuple = downlink_of(block, k as int)->Ok_0;
        let counted = if tuple.spec_is_invalid() {
            before.spec_count_invalid()->Some_0
        } else {
            before
        };
        assert(entry_at(blocks, level, max_level, block, k, before) is Ok);
        let cblk = tuple.spec_block_num() as BlockNumber;
        lemma_stats_follow_tree(
            blocks,
            (level + 1) as usize,
            max_level,
            cblk,
            k as OffsetNumber,
            counted,
        );
        let c = tree_at(blocks, (level + 1) as usize, max_level, cblk, k as OffsetNumber)->Ok_0;
        assert(child_at(blocks, level, max_level, block, k) == Ok::<TreeNode, InspectError>(c));
        let cs = cs0.push(c);
        assert(children_at(blocks, level, max_level, block, k) == Ok::<
            Seq<TreeNode>,
            InspectError,
        >(cs));
        lemma_nodes_count_push(cs0, c, j);
        lemma_deepest_of_push(cs0, c, j, level as nat);
        lemma_invalid_among_push(blocks, cs0, c, j);
        lemma_sum_among_push(Measure::LeafPages, cs0, c, j);
        lemma_sum_among_push(Measure::Tuples, cs0, c, j);
        lemma_sum_among_push(Measure::LeafTuples, cs0, c, j);
        lemma_sum_among_push(Measure::Bytes, cs0, c, j);
        lemma_sum_among_push(Measure::LeafBytes, cs0, c, j);
        assert(cs[k - 1] == c);
    }
}

/// The totals of a walk and the snapshot of the same walk agree: where the
/// totals are had, so is the snapshot, the number of pages is the number of
/// its nodes, the level is the depth of its deepest node, the root being at
/// depth 0, and the size of the index is the capacity of a page for each
/// page.
pub proof fn lemma_stats_count_the_tree(blocks: Seq<Seq<u8>>, max_level: Option<usize>)
    requires
        stats_of(blocks, max_level) is Ok,
    ensures
        tree_of(blocks, max_level) is Ok,
        stats_of(blocks, max_level)->Ok_0.num_pages == node_count(
            tree_of(blocks, max_level)->Ok_0,
        ),
        stats_of(blocks, max_level)->Ok_0.level == deepest_level(
            tree_of(blocks, max_level)->Ok_0,
            0,
        ),
        stats_of(blocks, max_level)->Ok_0.total_size == BLOCK_SIZE as int * stats_of(
            blocks,
            max_level,
        )->Ok_0.num_pages,
{
    lemma_stats_follow_tree(blocks, 0, max_level, GIST_ROOT_BLKNO, 0, Stats::empty());
}

/// Each total is the sum of its measure over the nodes of the snapshot of
/// the same walk.
pub proof fn lemma_stats_sum_over_the_tree(blocks: Seq<Seq<u8>>, max_level: Option<usize>)
    requires
        stats_of(blocks, max_level) is Ok,
    ensures
        tree_of(blocks, max_level) is Ok,
        ({
            let s = stats_of(blocks, max_level)->Ok_0;
            let t = tree_of(blocks, max_level)->Ok_0;
            &&& s.num_leaf_pages == sum_over(Measure::LeafPages, t)
            &&& s.num_tuple == sum_over(Measure::Tuples, t)
            &&& s.num_leaf_tuple == sum_over(Measure::LeafTuples, t)
            &&& s.tuple_size == sum_over(Measure::Bytes, t)
            &&& s.leaf_tuple_size == sum_over(Measure::LeafBytes, t)
        }),
{
    lemma_stats_follow_tree(blocks, 0, max_level, GIST_ROOT_BLKNO, 0, Stats::empty());
}

/// The totals count every placeholder entry of the internal pages of the
/// snapshot once, on whatever pages they lie.
pub proof fn lemma_stats_count_invalid_entries(blocks: Seq<Seq<u8>>, max_level: Option<usize>)
    requires
        stats_of(blocks, max_level) is Ok,
    ensures
        tree_of(blocks, max_level) is Ok,
        stats_of(blocks, max_level)->Ok_0.num_invalid_tuple == invalid_in(
            blocks,
            tree_of(blocks, max_level)->Ok_0,
        ),
{
    lemma_stats_follow_tree(blocks, 0, max_level, GIST_ROOT_BLKNO, 0, Stats::empty());
}

/// No node of the snapshot of a walk with a depth bound lies below the bound,
/// and the level of the totals of such a walk is at most the bound.
pub proof fn lemma_depth_bound(blocks: Seq<Seq<u8>>, max: usize)
    ensures
        tree_of(blocks, Some(max)) is Ok ==> deepest_level(tree_of(blocks, Some(max))->Ok_0, 0)
            <= max,
        stats_of(blocks, Some(max)) is Ok ==> stats_of(blocks, Some(max))->Ok_0.level <= max,
{
    if stats_of(blocks, Some(max)) is Ok {
        lemma_stats_follow_tree(blocks, 0, Some(max), GIST_ROOT_BLKNO, 0, Stats::empty());
    }
    if tree_of(blocks, Some(max)) is Ok {
        lemma_tree_within_bound(blocks, 0, max, GIST_ROOT_BLKNO, 0);
    }
}

/// No node of the snapshot of a subtree whose root lies within the depth
/// bound lies below the bound.
pub proof fn lemma_tree_within_bound(
    blocks: Seq<Seq<u8>>,
    level: usize,
    max: usize,
    blk: BlockNumber,
    offset: OffsetNumber,
)
    requires
        level <= max,
        tree_at(blocks, level, Some(max), blk, offset) is Ok,
    ensures
        deepest_level(tree_at(blocks, level, Some(max), blk, offset)->Ok_0, level as nat) <= max,
    decreases usize::MAX - level, 2nat, 0nat,
{
    let block = index_page_at(blocks, blk)->Ok_0;
    let n = max_offset_of(block) as nat;
    let t = tree_at(blocks, level, Some(max), blk, offset)->Ok_0;
    if is_leaf_of(opaque_of(block)) {
    } else if !descends(level, Some(max)) {
        assert(t == node_of(block, blk, offset, Some(Seq::<TreeNode>::empty())));
    } else {
        lemma_children_within_bound(blocks, level, max, block, n);
        let cs = children_at(blocks, level, Some(max), block, n)->Ok_0;
        assert(t == node_of(block, blk, offset, Some(cs)));
    }
}

/// No node of the snapshots of the subtrees behind the first `k` slots of a
/// page above the depth bound lies below the bound.
pub proof fn lemma_children_within_bound(
    blocks: Seq<Seq<u8>>,
    level: usize,
    max: usize,
    block: Seq<u8>,
    k: nat,
)
    requires
        level < max,
        children_at(blocks, level, Some(max), block, k) is Ok,
    ensures
        children_at(blocks, level, Some(max), block, k)->Ok_0.len() == k,
        deepest_of(children_at(blocks, level, Some(max), block, k)->Ok_0, k, level as nat) <= max,
    decreases usize::MAX - level, 1nat, k,
{
    if k > 0 {
        let j = (k - 1) as nat;
        lemma_children_within_bound(blocks, level, max, block, j);
        let cs0 = children_at(blocks, level, Some(max), block, j)->Ok_0;
        let tuple = downlink_of(block, k as int)->Ok_0;
        let cblk = tuple.spec_block_num() as BlockNumber;
        assert(child_at(blocks, level, Some(max), block, k) is Ok);
        lemma_tree_within_bound(blocks, (level + 1) as usize, max, cblk, k as OffsetNumber);
        let c = child_at(blocks, level, Some(max), block, k)->Ok_0;
        lemma_deepest_of_push(cs0, c, j, level as nat);
        assert(cs0.push(c)[k - 1] == c);
    }
}

/// With the depth bound 0 the snapshot is the root alone, without children,
/// whatever lies below it, and the totals are those of one page at level 0.
pub proof fn lemma_depth_bound_zero(blocks: Seq<Seq<u8>>)
    ensures
        tree_of(blocks, Some(0)) == match index_page_at(blocks, GIST_ROOT_BLKNO) {
            Err(e) => Err::<TreeNode, InspectError>(e),
            Ok(block) => Ok::<TreeNode, InspectError>(
                node_of(
                    block,
                    GIST_ROOT_BLKNO,
                    0,
                    if is_leaf_of(opaque_of(block)) {
                        None
                    } else {
                        Some(Seq::<TreeNode>::empty())
                    },
                ),
            ),
        },
        tree_of(blocks, Some(0)) is Ok ==> node_count(tree_of(blocks, Some(0))->Ok_0) == 1,
        stats_of(blocks, Some(0)) is Ok ==> stats_of(blocks, Some(0))->Ok_0.level == 0 && stats_of(
            blocks,
            Some(0),
        )->Ok_0.num_pages == 1,
{
    if stats_of(blocks, Some(0)) is Ok {
        lemma_stats_follow_tree(blocks, 0, Some(0), GIST_ROOT_BLKNO, 0, Stats::empty());
    }
}

/// An index whose root is a leaf with `n` slots and `f` free bytes: the
/// snapshot is that one node, its dump is the one line of it, and the totals
/// are one page, one leaf page, `n` entries, all of them leaf entries, at
/// level 0, whatever the depth bound.
pub proof fn lemma_leaf_only(blocks: Seq<Seq<u8>>, max_level: Option<usize>)
    requires
        index_page_at(blocks, GIST_ROOT_BLKNO) is Ok,
        is_leaf_of(opaque_of(blocks[0])),
    ensures
        tree_of(blocks, max_level) == Ok::<TreeNode, InspectError>(
            node_of(blocks[0], GIST_ROOT_BLKNO, 0, None),
        ),
        tree_dump(blocks, max_level) == Ok::<Seq<char>, InspectError>(
            node_line(node_of(blocks[0], GIST_ROOT_BLKNO, 0, None), 0),
        ),
        stats_of(blocks, max_level) == Ok::<Stats, InspectError>(
            Stats {
                level: 0,
                num_pages: 1,
                num_leaf_pages: 1,
                num_leaf_tuple: max_offset_of(blocks[0]) as usize,
                num_tuple: max_offset_of(blocks[0]) as usize,
                num_invalid_tuple: 0,
                tuple_size: (BLOCK_SIZE as int - free_space_of(blocks[0])) as u64,
                leaf_tuple_size: (BLOCK_SIZE as int - free_space_of(blocks[0])) as u64,
                total_size: BLOCK_SIZE as u64,
            },
        ),
{
    let t = node_of(blocks[0], GIST_ROOT_BLKNO, 0, None);
    assert(render_node(t, 0) =~= node_line(t, 0));
}

/// The reports depend on the bytes of the blocks and on the depth bound
/// alone: over blocks that hold the same bytes, the dump and the report on
/// the totals come out the same, character for character.
pub proof fn lemma_reports_repeat(a: Seq<Seq<u8>>, b: Seq<Seq<u8>>, max_level: Option<usize>)
    requires
        a.len() == b.len(),
        forall|i: int| 0 <= i < a.len() ==> a[i].len() == b[i].len(),
        forall|i: int, j: int| 0 <= i < a.len() && 0 <= j < a[i].len() ==> a[i][j] == b[i][j],
    ensures
        tree_dump(a, max_level) == tree_dump(b, max_level),
        stats_report(a, max_level) == stats_report(b, max_level),
{
    assert forall|i: int| 0 <= i < a.len() implies a[i] == b[i] by {
        assert(a[i] =~= b[i]);
    }
    assert(a =~= b);
}

} // verus!
