use vstd::prelude::*;

verus! {

/// Axis-aligned rectangle in the window manager's coordinate space.
#[derive(Clone, Copy, PartialEq, Eq, Structural, Debug)]
pub struct Rect {
    pub x: i32,
    pub y: i32,
    pub width: i32,
    pub height: i32,
}

/// Orientation tag of a container. Only the two split orientations are
/// subject to balancing; every other layout (tabbed, stacked, none) is inert
/// with respect to this library.
#[derive(Clone, Copy, PartialEq, Eq, Structural, Debug)]
pub enum Layout {
    SplitH,
    SplitV,
    Other,
}

/// A snapshot of one node of the layout tree, as reported by the window
/// manager at the moment of a query. The tree itself is owned and mutated by
/// the external window-manager process; values of this type are immutable
/// observations, discarded as soon as a command may have invalidated them.
///
/// `children` is ordered: it is the visual order along the container's split
/// axis.
pub struct Node {
    pub id: i64,
    pub layout: Layout,
    pub rect: Rect,
    pub focused: bool,
    pub children: Vec<Node>,
}

/// All children of the nodes of `s`, in order: the next breadth-first level
/// below the forest level `s`.
pub open spec fn kids_of(s: Seq<Node>) -> Seq<Node> {
    s.map_values(|n: Node| n.children@).flatten()
}

/// The nodes at depth `d` below `root`, left to right: depth 0 is the root
/// alone, depth `d + 1` holds the children of the nodes at depth `d`.
pub open spec fn level_nodes(root: Node, d: nat) -> Seq<Node>
    decreases d,
{
    if d == 0 {
        seq![root]
    } else {
        kids_of(level_nodes(root, (d - 1) as nat))
    }
}

/// `n` occurs at depth `d` of the tree rooted at `root`.
pub open spec fn at_depth(root: Node, d: nat, n: Node) -> bool {
    level_nodes(root, d).contains(n)
}

/// `n` occurs somewhere in the tree rooted at `root`.
pub open spec fn in_tree(root: Node, n: Node) -> bool {
    exists|d: nat| at_depth(root, d, n)
}

/// Some node of the tree rooted at `root` carries the identifier `id`.
pub open spec fn has_id(root: Node, id: i64) -> bool {
    exists|d: nat, j: int|
        0 <= j < level_nodes(root, d).len() && (#[trigger] level_nodes(root, d)[j]).id == id
}

/// Some node of the tree rooted at `root` is flagged focused.
pub open spec fn has_focused(root: Node) -> bool {
    exists|d: nat, j: int|
        0 <= j < level_nodes(root, d).len() && (#[trigger] level_nodes(root, d)[j]).focused
}

/// No node at any depth strictly above `d` (that is, shallower than `d`)
/// satisfies `p`.
pub open spec fn none_matching_above(root: Node, d: nat, p: spec_fn(Node) -> bool) -> bool {
    forall|e: nat, j: int|
        e < d && 0 <= j < level_nodes(root, e).len() ==> !p(
            #[trigger] level_nodes(root, e)[j],
        )
}

/// No node anywhere in the tree satisfies `p`.
pub open spec fn none_matching(root: Node, p: spec_fn(Node) -> bool) -> bool {
    forall|d: nat, j: int|
        0 <= j < level_nodes(root, d).len() ==> !p(#[trigger] level_nodes(root, d)[j])
}

/// The number of nodes of the forest `s`, counting every descendant.
pub open spec fn size_seq(s: Seq<Node>) -> nat
    decreases s,
{
    if s.len() == 0 {
        0
    } else {
        size_of(s[0]) + size_seq(s.drop_first())
    }
}

/// The number of nodes of the tree rooted at `n`, the root included.
pub open spec fn size_of(n: Node) -> nat
    decreases n,
{
    1 + size_seq(n.children@)
}

/// Node counts add up over concatenation of forests.
pub proof fn lemma_size_seq_concat(a: Seq<Node>, b: Seq<Node>)
    ensures
        size_seq(a + b) == size_seq(a) + size_seq(b),
    decreases a,
{
    if a.len() == 0 {
        assert(a + b =~= b);
    } else {
        assert((a + b)[0] == a[0]);
        assert((a + b).drop_first() =~= a.drop_first() + b);
        lemma_size_seq_concat(a.drop_first(), b);
    }
}

/// Stepping from a forest level to the level of all its children drops
/// exactly the nodes of the level itself from the count.
pub proof fn lemma_size_kids(s: Seq<Node>)
    ensures
        size_seq(kids_of(s)) + s.len() == size_seq(s),
    decreases s,
{
    let f = |m: Node| m.children@;
    if s.len() == 0 {
        assert(s.map_values(f) =~= Seq::<Seq<Node>>::empty());
        assert(kids_of(s) =~= Seq::<Node>::empty());
    } else {
        assert(s.map_values(f).first() == s[0].children@);
        assert(s.map_values(f).drop_first() =~= s.drop_first().map_values(f));
        assert(kids_of(s) == s[0].children@ + kids_of(s.drop_first()));
        lemma_size_seq_concat(s[0].children@, kids_of(s.drop_first()));
        lemma_size_kids(s.drop_first());
        assert(size_seq(kids_of(s)) == size_seq(s[0].children@) + size_seq(kids_of(s.drop_first())));
        assert(size_of(s[0]) == 1 + size_seq(s[0].children@));
        assert(size_seq(s) == size_of(s[0]) + size_seq(s.drop_first()));
    }
}

/// Appending one node to a forest level appends that node's children to the
/// next level.
pub proof fn lemma_kids_push(s: Seq<Node>, n: Node)
    ensures
        kids_of(s.push(n)) == kids_of(s) + n.children@,
{
    let f = |m: Node| m.children@;
    assert(s.push(n).map_values(f) =~= s.map_values(f).push(n.children@));
    s.map_values(f).lemma_flatten_push(n.children@);
    assert(kids_of(s.push(n)) =~= kids_of(s) + n.children@);
}

/// Once a breadth-first level is empty, every deeper level is empty too.
pub proof fn lemma_level_empty_stays(root: Node, d: nat, e: nat)
    requires
        level_nodes(root, d).len() == 0,
        d <= e,
    ensures
        level_nodes(root, e).len() == 0,
    decreases e - d,
{
    if e > d {
        let f = |m: Node| m.children@;
        assert(level_nodes(root, d) =~= Seq::<Node>::empty());
        assert(level_nodes(root, d).map_values(f) =~= Seq::<Seq<Node>>::empty());
        assert(Seq::<Seq<Node>>::empty().flatten() =~= Seq::<Node>::empty());
        assert(level_nodes(root, (d + 1) as nat).len() == 0);
        lemma_level_empty_stays(root, (d + 1) as nat, e);
    }
}

} // verus!
