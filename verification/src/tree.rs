//! The snapshot of an index tree and the text of its dump.

use vstd::pervasive::unreached;
use vstd::prelude::*;
use vstd::string::StringExecFns;
use crate::layout::BLOCK_SIZE;
use crate::page::{BlockNumber, OffsetNumber};
use crate::text::{
    decimal, digit_char, lemma_concat_assoc, push_decimal, push_digit, push_indent, spaces,
};

verus! {

/// What a node of the snapshot records of its page.
pub ghost struct TreeNode {
    /// Position of the downlink within the parent, 0 for the root.
    pub offset: OffsetNumber,
    /// Number of slots of the page.
    pub max_offset: OffsetNumber,
    /// Number of the page.
    pub block_num: BlockNumber,
    /// Free bytes of the page.
    pub free_space: usize,
    /// Right sibling of the page, if it has one.
    pub right_link: Option<BlockNumber>,
    /// The children in downlink order; `None` for a leaf.
    pub children: Option<Seq<TreeNode>>,
}

/// Hundredths of a percent of the capacity that are not free, rounded to the
/// nearest, a tie to the even neighbour.
pub open spec fn occupied_of(free_space: int) -> int {
    let n = 10000 * (BLOCK_SIZE as int - free_space);
    let q = n / (BLOCK_SIZE as int);
    let r = n % (BLOCK_SIZE as int);
    if 2 * r > BLOCK_SIZE as int || (2 * r == BLOCK_SIZE as int && q % 2 == 1) {
        q + 1
    } else {
        q
    }
}

/// The share of a page that is not free lies between nothing and all of it.
pub proof fn lemma_occupied_bounds(free_space: int)
    requires
        0 <= free_space <= BLOCK_SIZE as int,
    ensures
        0 <= occupied_of(free_space) <= 10000,
        occupied_of(BLOCK_SIZE as int) == 0,
        occupied_of(0) == 10000,
{
    let used = BLOCK_SIZE as int - free_space;
    let n = 10000 * used;
    assert(0 <= n / 8192 <= 10000 && (n / 8192 == 10000 ==> n % 8192 == 0)) by (nonlinear_arith)
        requires
            n == 10000 * used,
            0 <= used <= 8192,
    ;
}

/// A share given in hundredths of a percent, as text with two decimals.
pub open spec fn percent_text(hundredths: nat) -> Seq<char> {
    decimal(hundredths / 100) + seq![
        '.',
        digit_char(((hundredths % 100) / 10) as int),
        digit_char((hundredths % 10) as int),
    ]
}

/// The text that names a right sibling.
pub open spec fn right_link_text(right_link: Option<BlockNumber>) -> Seq<char> {
    match right_link {
        None => "Invalid Block"@,
        Some(blk) => decimal(blk as nat),
    }
}

/// The line of the dump for one node at depth `level`.
pub open spec fn node_line(t: TreeNode, level: nat) -> Seq<char> {
    spaces(4 * level) + decimal(t.offset as nat) + "(l:"@ + decimal(level) + ") blk: "@ + decimal(
        t.block_num as nat,
    ) + " numTuple: "@ + decimal(t.max_offset as nat) + " free: "@ + decimal(t.free_space as nat)
        + "B ("@ + percent_text(occupied_of(t.free_space as int) as nat) + "%) rightlink: "@
        + right_link_text(t.right_link) + "\n"@
}

/// The dump of the subtree of `t`, whose root is at depth `level`: one line
/// for each node, a node before its children, the children in their order.
pub open spec fn render_node(t: TreeNode, level: nat) -> Seq<char>
    decreases t,
{
    node_line(t, level) + match t.children {
        None => Seq::<char>::empty(),
        Some(cs) => render_nodes(cs, cs.len(), level + 1),
    }
}

/// The dumps of the first `k` of the subtrees `cs`, one after the other.
pub open spec fn render_nodes(cs: Seq<TreeNode>, k: nat, level: nat) -> Seq<char>
    decreases cs, k,
{
    if k == 0 || k > cs.len() {
        Seq::<char>::empty()
    } else {
        render_nodes(cs, (k - 1) as nat, level) + render_node(cs[k - 1], level)
    }
}

/// Number of nodes of the subtree of `t`.
pub open spec fn node_count(t: TreeNode) -> nat
    decreases t,
{
    1 + match t.children {
        None => 0nat,
        Some(cs) => nodes_count(cs, cs.len()),
    }
}

/// Number of nodes of the first `k` of the subtrees `cs`.
pub open spec fn nodes_count(cs: Seq<TreeNode>, k: nat) -> nat
    decreases cs, k,
{
    if k == 0 || k > cs.len() {
        0
    } else {
        nodes_count(cs, (k - 1) as nat) + node_count(cs[k - 1])
    }
}

/// The depth of the deepest node of the subtree of `t`, whose root is at
/// depth `level`.
pub open spec fn deepest_level(t: TreeNode, level: nat) -> nat
    decreases t,
{
    match t.children {
        None => level,
        Some(cs) => deepest_of(cs, cs.len(), level),
    }
}

/// The greatest of `level` and of the depths of the deepest nodes of the
/// first `k` of the subtrees `cs`, whose roots are at depth `level + 1`.
pub open spec fn deepest_of(cs: Seq<TreeNode>, k: nat, level: nat) -> nat
    decreases cs, k,
{
    if k == 0 || k > cs.len() {
        level
    } else {
        let before = deepest_of(cs, (k - 1) as nat, level);
        let here = deepest_level(cs[k - 1], level + 1);
        if here > before {
            here
        } else {
            before
        }
    }
}

/// Adding a subtree behind the first `k` leaves their number of nodes as it
/// was.
pub proof fn lemma_nodes_count_push(cs: Seq<TreeNode>, c: TreeNode, k: nat)
    requires
        k <= cs.len(),
    ensures
        nodes_count(cs.push(c), k) == nodes_count(cs, k),
    decreases k,
{
    if k > 0 {
        lemma_nodes_count_push(cs, c, (k - 1) as nat);
        assert(cs.push(c)[k - 1] == cs[k - 1]);
    }
}

/// Adding a subtree behind the first `k` leaves their deepest level as it
/// was.
pub proof fn lemma_deepest_of_push(cs: Seq<TreeNode>, c: TreeNode, k: nat, level: nat)
    requires
        k <= cs.len(),
    ensures
        deepest_of(cs.push(c), k, level) == deepest_of(cs, k, level),
    decreases k,
{
    if k > 0 {
        lemma_deepest_of_push(cs, c, (k - 1) as nat, level);
        assert(cs.push(c)[k - 1] == cs[k - 1]);
    }
}

/// No node lies above the root of its subtree, and the deepest level of the
/// first `k` subtrees does not fall as `k` grows.
pub proof fn lemma_deepest_bounds(t: TreeNode, level: nat)
    ensures
        level <= deepest_level(t, level),
    decreases t,
{
    match t.children {
        None => {},
        Some(cs) => {
            lemma_deepest_of_bounds(cs, cs.len(), cs.len(), level);
        },
    }
}

/// The deepest level of the first `j` subtrees is at least `level` and at
/// most that of the first `k`, for `j <= k`.
pub proof fn lemma_deepest_of_bounds(cs: Seq<TreeNode>, j: nat, k: nat, level: nat)
    requires
        j <= k <= cs.len(),
    ensures
        level <= deepest_of(cs, j, level) <= deepest_of(cs, k, level),
    decreases k,
{
    if j < k {
        lemma_deepest_of_bounds(cs, j, (k - 1) as nat, level);
    } else if k > 0 {
        lemma_deepest_of_bounds(cs, (k - 1) as nat, (k - 1) as nat, level);
    }
}

/// One node of the snapshot of an index tree.
pub struct IndexTreeNode {
    offset: OffsetNumber,
    max_offset: OffsetNumber,
    block_num: BlockNumber,
    free_space: usize,
    right_link: Option<BlockNumber>,
    children: Option<Vec<IndexTreeNode>>,
}

impl View for IndexTreeNode {
    type V = TreeNode;

    closed spec fn view(&self) -> TreeNode {
        self.model()
    }
}

/// The views of the nodes of `v`, in their order.
pub open spec fn views_of(v: Seq<IndexTreeNode>) -> Seq<TreeNode> {
    Seq::new(v.len(), |i: int| v[i]@)
}

impl IndexTreeNode {
    #[verifier::type_invariant]
    spec fn well_formed(self) -> bool {
        self.free_space <= BLOCK_SIZE
    }

    /// What the node records, with the same of its children.
    closed spec fn model(&self) -> TreeNode
        decreases self,
    {
        TreeNode {
            offset: self.offset,
            max_offset: self.max_offset,
            block_num: self.block_num,
            free_space: self.free_space,
            right_link: self.right_link,
            children: match self.children {
                None => None,
                Some(v) => Some(
                    Seq::new(
                        v@.len(),
                        |i: int|
                            if 0 <= i < v@.len() {
                                v@[i].model()
                            } else {
                                arbitrary()
                            },
                    ),
                ),
            },
        }
    }

    /// A node without children yet: a leaf has none to come, an internal node
    /// starts with an empty sequence of them.
    pub fn new(
        max_offset: OffsetNumber,
        free_space: usize,
        offset: OffsetNumber,
        block_num: BlockNumber,
        right_link: Option<BlockNumber>,
        is_leaf: bool,
    ) -> (node: Self)
        requires
            free_space <= BLOCK_SIZE,
        ensures
            node@ == (TreeNode {
                offset,
                max_offset,
                block_num,
                free_space,
                right_link,
                children: if is_leaf {
                    None
                } else {
                    Some(Seq::<TreeNode>::empty())
                },
            }),
    {
        let node = IndexTreeNode {
            max_offset,
            free_space,
            offset,
            block_num,
            right_link,
            children: if is_leaf {
                None
            } else {
                Some(Vec::new())
            },
        };
        assert(node@.children == if is_leaf {
            None
        } else {
            Some(Seq::<TreeNode>::empty())
        }) by {
            if !is_leaf {
                assert(node@.children->Some_0 =~= Seq::<TreeNode>::empty());
            }
        }
        node
    }

    /// The internal node with `child` added behind its children.
    pub fn push_child(self, child: IndexTreeNode) -> (node: Self)
        requires
            self@.children is Some,
        ensures
            node@ == (TreeNode { children: Some(self@.children->Some_0.push(child@)), ..self@ }),
    {
        proof {
            use_type_invariant(&self);
        }
        let ghost before = self@;
        let IndexTreeNode { offset, max_offset, block_num, free_space, right_link, children } =
            self;
        let mut children: Vec<IndexTreeNode> = match children {
            Some(children) => children,
            None => unreached(),
        };
        assert(views_of(children@) =~= before.children->Some_0);
        children.push(child);
        let node = IndexTreeNode {
            offset,
            max_offset,
            block_num,
            free_space,
            right_link,
            children: Some(children),
        };
        assert(node@.children->Some_0 =~= before.children->Some_0.push(child@));
        node
    }

    /// Position of the downlink to this node within its parent.
    pub fn offset(&self) -> (r: OffsetNumber)
        ensures
            r == self@.offset,
    {
        self.offset
    }

    /// Number of slots of the page.
    pub fn max_offset(&self) -> (r: OffsetNumber)
        ensures
            r == self@.max_offset,
    {
        self.max_offset
    }

    /// Number of the page.
    pub fn block_num(&self) -> (r: BlockNumber)
        ensures
            r == self@.block_num,
    {
        self.block_num
    }

    /// Free bytes of the page: never more than its capacity.
    pub fn free_space(&self) -> (r: usize)
        ensures
            r == self@.free_space,
            r <= BLOCK_SIZE,
    {
        proof {
            use_type_invariant(self);
        }
        self.free_space
    }

    /// Right sibling of the page, if it has one.
    pub fn right_link(&self) -> (r: Option<BlockNumber>)
        ensures
            r == self@.right_link,
    {
        self.right_link
    }

    /// The children of an internal node, `None` for a leaf.
    pub fn children(&self) -> (r: Option<&Vec<IndexTreeNode>>)
        ensures
            match r {
                None => self@.children is None,
                Some(v) => self@.children == Some(views_of(v@)),
            },
    {
        match &self.children {
            None => None,
            Some(v) => {
                assert(self@.children->Some_0 =~= views_of(v@));
                Some(v)
            },
        }
    }

    /// Whether the node is a leaf: it has no sequence of children, not even
    /// an empty one.
    pub fn is_leaf(&self) -> (b: bool)
        ensures
            b == (self@.children is None),
    {
        self.children.is_none()
    }

    /// The share of the page's capacity that is not free, in hundredths of a
    /// percent: between 0 and 10000.
    pub fn occupied(&self) -> (r: u32)
        ensures
            r as int == occupied_of(self@.free_space as int),
            r <= 10000,
    {
        proof {
            use_type_invariant(self);
        }
        let used: u64 = (BLOCK_SIZE - self.free_space) as u64;
        let n: u64 = 10000 * used;
        let q: u64 = n / (BLOCK_SIZE as u64);
        let r: u64 = n % (BLOCK_SIZE as u64);
        assert(q <= 10000 && (q == 10000 ==> r == 0)) by (nonlinear_arith)
            requires
                n == 10000 * used,
                used <= 8192,
                q == n / 8192,
                r == n % 8192,
        ;
        if 2 * r > BLOCK_SIZE as u64 || (2 * r == BLOCK_SIZE as u64 && q % 2 == 1) {
            (q + 1) as u32
        } else {
            q as u32
        }
    }

    /// Appends the line of this node at depth `level` to `out`.
    fn push_line(&self, out: &mut String, level: usize)
        ensures
            final(out)@ == old(out)@ + node_line(self@, level as nat),
    {
        let ghost before = out@;
        let ghost t = self@;
        let ghost l = level as nat;
        push_indent(out, level);
        let ghost acc = spaces(4 * l);
        push_decimal(out, self.offset as u128);
        proof {
            lemma_concat_assoc(before, acc, decimal(t.offset as nat));
            acc = acc + decimal(t.offset as nat);
        }
        out.append("(l:");
        proof {
            lemma_concat_assoc(before, acc, "(l:"@);
            acc = acc + "(l:"@;
        }
        push_decimal(out, level as u128);
        proof {
            lemma_concat_assoc(before, acc, decimal(l));
            acc = acc + decimal(l);
        }
        out.append(") blk: ");
        proof {
            lemma_concat_assoc(before, acc, ") blk: "@);
            acc = acc + ") blk: "@;
        }
        push_decimal(out, self.block_num as u128);
        proof {
            lemma_concat_assoc(before, acc, decimal(t.block_num as nat));
            acc = acc + decimal(t.block_num as nat);
        }
        out.append(" numTuple: ");
        proof {
            lemma_concat_assoc(before, acc, " numTuple: "@);
            acc = acc + " numTuple: "@;
        }
        push_decimal(out, self.max_offset as u128);
        proof {
            lemma_concat_assoc(before, acc, decimal(t.max_offset as nat));
            acc = acc + decimal(t.max_offset as nat);
        }
        out.append(" free: ");
        proof {
            lemma_concat_assoc(before, acc, " free: "@);
            acc = acc + " free: "@;
        }
        push_decimal(out, self.free_space as u128);
        proof {
            lemma_concat_assoc(before, acc, decimal(t.free_space as nat));
            acc = acc + decimal(t.free_space as nat);
        }
        out.append("B (");
        proof {
            lemma_concat_assoc(before, acc, "B ("@);
            acc = acc + "B ("@;
        }
        push_percent(out, self.occupied());
        proof {
            lemma_concat_assoc(before, acc, percent_text(occupied_of(t.free_space as int) as nat));
            acc = acc + percent_text(occupied_of(t.free_space as int) as nat);
        }
        out.append("%) rightlink: ");
        proof {
            lemma_concat_assoc(before, acc, "%) rightlink: "@);
            acc = acc + "%) rightlink: "@;
        }
        push_right_link(out, self.right_link);
        proof {
            lemma_concat_assoc(before, acc, right_link_text(t.right_link));
            acc = acc + right_link_text(t.right_link);
        }
        out.append("\n");
        proof {
            lemma_concat_assoc(before, acc, "\n"@);
            acc = acc + "\n"@;
        }
    }

    /// Appends the dump of the subtree of this node, whose root is at depth
    /// `level`, to `out`.
    pub(crate) fn fmt(&self, out: &mut String, level: usize)
        requires
            deepest_level(self@, level as nat) <= usize::MAX,
        ensures
            final(out)@ == old(out)@ + render_node(self@, level as nat),
        decreases self,
    {
        let ghost before = out@;
        let ghost line = node_line(self@, level as nat);
        self.push_line(out, level);
        if let Some(children) = &self.children {
            let ghost cs = self@.children->Some_0;
            assert(cs =~= views_of(children@));
            let mut i: usize = 0;
            assert(out@ =~= before + (line + render_nodes(cs, 0, level as nat + 1)));
            while i < children.len()
                invariant
                    i <= children.len(),
                    self.children == Some(*children),
                    cs == views_of(children@),
                    self@.children == Some(cs),
                    deepest_of(cs, cs.len(), level as nat) <= usize::MAX,
                    out@ == before + (line + render_nodes(cs, i as nat, level as nat + 1)),
                decreases children.len() - i,
            {
                proof {
                    assert(decreases_to!(*children => children[i as int]));
                    assert(decreases_to!(self.children => self.children->Some_0));
                    lemma_deepest_of_bounds(cs, (i + 1) as nat, cs.len(), level as nat);
                    lemma_deepest_bounds(cs[i as int], level as nat + 1);
                    lemma_concat_assoc(
                        line,
                        render_nodes(cs, i as nat, level as nat + 1),
                        render_node(cs[i as int], level as nat + 1),
                    );
                    lemma_concat_assoc(
                        before,
                        line + render_nodes(cs, i as nat, level as nat + 1),
                        render_node(cs[i as int], level as nat + 1),
                    );
                }
                children[i].fmt(out, level + 1);
                i += 1;
            }
        } else {
            assert(out@ =~= before + (line + Seq::<char>::empty()));
        }
    }
}

/// Appends a share, given in hundredths of a percent, with two decimals.
pub fn push_percent(out: &mut String, hundredths: u32)
    ensures
        final(out)@ == old(out)@ + percent_text(hundredths as nat),
{
    proof {
        reveal_strlit(".");
    }
    let ghost before = out@;
    let h: u128 = hundredths as u128;
    push_decimal(out, h / 100);
    out.append(".");
    push_digit(out, (h % 100) / 10);
    push_digit(out, h % 10);
    assert(out@ =~= before + percent_text(hundredths as nat));
}

/// Appends the text that names a right sibling.
pub fn push_right_link(out: &mut String, right_link: Option<BlockNumber>)
    ensures
        final(out)@ == old(out)@ + right_link_text(right_link),
{
    match right_link {
        None => {
            out.append("Invalid Block");
        },
        Some(blk) => {
            push_decimal(out, blk as u128);
        },
    }
}

/// The snapshot of an index tree: its root with everything below it.
pub struct IndexTree(IndexTreeNode);

impl View for IndexTree {
    type V = TreeNode;

    closed spec fn view(&self) -> TreeNode {
        self.0@
    }
}

impl IndexTree {
    #[verifier::type_invariant]
    spec fn well_formed(self) -> bool {
        deepest_level(self.0@, 0) <= usize::MAX
    }

    /// The tree below `root`.
    pub(crate) fn new(root: IndexTreeNode) -> (tree: Self)
        requires
            deepest_level(root@, 0) <= usize::MAX,
        ensures
            tree@ == root@,
    {
        IndexTree(root)
    }

    /// The root of the tree.
    pub fn root(&self) -> (root: &IndexTreeNode)
        ensures
            root@ == self@,
    {
        &self.0
    }

    /// The dump of the tree: one line for each node, a node before its
    /// children, each line indented by four spaces for each level of depth.
    pub fn to_string(&self) -> (s: String)
        ensures
            s@ == render_node(self@, 0),
    {
        proof {
            use_type_invariant(self);
        }
        let mut out = String::new();
        self.0.fmt(&mut out, 0);
        assert(out@ =~= render_node(self@, 0));
        out
    }
}

} // verus!
