use vstd::prelude::*;

use crate::tree::{
    at_depth, has_focused, has_id, in_tree, kids_of, lemma_kids_push, lemma_level_empty_stays,
    lemma_size_kids, level_nodes, none_matching, none_matching_above, size_seq, Node,
};

verus! {

/// Breadth-first search for the first level that holds a node satisfying
/// `pred`, returning such a node. The ghost predicate `p` is the meaning of
/// `pred`: the caller must show that `pred` decides `p`.
///
/// The returned node satisfies `p` and sits at a depth above which no node
/// satisfies `p`; `None` means no node of the tree satisfies `p`.
fn bfsearch<F: Fn(&Node) -> bool>(root: Node, pred: F, Ghost(p): Ghost<spec_fn(Node) -> bool>) -> (r:
    Option<Node>)
    requires
        forall|n: &Node| #[trigger] call_requires(pred, (n,)),
        forall|n: &Node, b: bool| #[trigger] call_ensures(pred, (n,), b) ==> b == p(*n),
    ensures
        match r {
            Some(n) => p(n) && exists|d: nat|
                #[trigger] at_depth(root, d, n) && none_matching_above(root, d, p),
            None => none_matching(root, p),
        },
{
    let ghost rt = root;
    let mut cur: Vec<Node> = Vec::new();
    cur.push(root);
    let ghost mut d: nat = 0;

    while cur.len() > 0
        invariant
            rt == root,
            cur@ == level_nodes(rt, d),
            none_matching_above(rt, d, p),
            forall|n: &Node| #[trigger] call_requires(pred, (n,)),
            forall|n: &Node, b: bool| #[trigger] call_ensures(pred, (n,), b) ==> b == p(*n),
        decreases size_seq(cur@),
    {
        // Scan the whole current level before descending: this is what makes
        // the search breadth-first, and what `top_focus` relies on.
        let mut i: usize = 0;
        while i < cur.len()
            invariant
                rt == root,
                cur@ == level_nodes(rt, d),
                none_matching_above(rt, d, p),
                0 <= i <= cur@.len(),
                forall|j: int| 0 <= j < i ==> !p(cur@[j]),
                forall|n: &Node| #[trigger] call_requires(pred, (n,)),
                forall|n: &Node, b: bool| #[trigger] call_ensures(pred, (n,), b) ==> b == p(*n),
            decreases cur@.len() - i,
        {
            if pred(&cur[i]) {
                let found = cur.remove(i);
                proof {
                    assert(level_nodes(rt, d).contains(found));
                    assert(at_depth(rt, d, found));
                    assert(exists|e: nat|
                        #[trigger] at_depth(rt, e, found) && none_matching_above(rt, e, p));
                }
                return Some(found);
            }
            i = i + 1;
        }
        proof {
            assert(forall|j: int| 0 <= j < level_nodes(rt, d).len() ==> !p(level_nodes(rt, d)[j]));
        }

        // Replace the current level by the next one: the children of all its
        // nodes, in order.
        let ghost cur0 = cur@;
        let mut next: Vec<Node> = Vec::new();
        let ghost mut k: nat = 0;
        while cur.len() > 0
            invariant
                k + cur@.len() == cur0.len(),
                cur@ == cur0.skip(k as int),
                next@ == kids_of(cur0.take(k as int)),
            decreases cur@.len(),
        {
            let mut n = cur.remove(0);
            next.append(&mut n.children);
            proof {
                assert(cur0.skip(k as int)[0] == cur0[k as int]);
                assert(cur0.take(k as int).push(cur0[k as int]) =~= cur0.take(k as int + 1));
                lemma_kids_push(cur0.take(k as int), cur0[k as int]);
                assert(cur@ =~= cur0.skip(k as int + 1));
                k = k + 1;
            }
        }
        proof {
            assert(cur0.take(cur0.len() as int) =~= cur0);
            assert(next@ == kids_of(level_nodes(rt, d)));
            lemma_size_kids(cur0);
            d = d + 1;
            assert(next@ == level_nodes(rt, d));
            assert forall|e: nat, j: int|
                e < d && 0 <= j < level_nodes(rt, e).len() implies !p(
                #[trigger] level_nodes(rt, e)[j],
            ) by {
                if e < d - 1 {
                    assert(!p(level_nodes(rt, e)[j]));
                }
            }
        }
        cur = next;
    }
    proof {
        assert(level_nodes(rt, d).len() == 0);
        assert forall|e: nat, j: int|
            0 <= j < level_nodes(rt, e).len() implies !p(#[trigger] level_nodes(rt, e)[j]) by {
            if e >= d {
                lemma_level_empty_stays(rt, d, e);
            }
        }
    }
    None
}

/// Find the node carrying `id` in the tree rooted at `root`.
///
/// Node identifiers are unique across the tree for the lifetime of a node, so
/// when a node with `id` exists the result is exactly that node; `None` means
/// no node of the snapshot carries `id`.
pub fn find_by_id(root: Node, id: i64) -> (r: Option<Node>)
    ensures
        match r {
            Some(n) => n.id == id && in_tree(root, n),
            None => !has_id(root, id),
        },
        r is Some <==> has_id(root, id),
{
    let pred = |n: &Node| -> (b: bool)
        ensures
            b == (n.id == id),
        { n.id == id };
    let ghost p = |n: Node| n.id == id;
    let r = bfsearch(root, pred, Ghost(p));
    proof {
        match &r {
            Some(n) => {
                let d = choose|d: nat| #[trigger] at_depth(root, d, *n) && none_matching_above(root, d, p);
                let j = choose|j: int| 0 <= j < level_nodes(root, d).len() && level_nodes(root, d)[j] == *n;
                assert(0 <= j < level_nodes(root, d).len() && (level_nodes(root, d)[j]).id == id);
                assert(has_id(root, id));
            },
            None => {},
        }
    }
    r
}

/// Find the shallowest focused node of the tree rooted at `root`: the
/// "largest" container on the focus path. When several nodes are flagged
/// focused, no node shallower than the returned one is flagged; `None` means
/// no node of the snapshot is flagged focused.
pub fn top_focus(root: Node) -> (r: Option<Node>)
    ensures
        match r {
            Some(n) => n.focused && exists|d: nat|
                #[trigger] at_depth(root, d, n) && none_matching_above(
                    root,
                    d,
                    |m: Node| m.focused,
                ),
            None => !has_focused(root),
        },
        r is Some <==> has_focused(root),
{
    let pred = |n: &Node| -> (b: bool)
        ensures
            b == n.focused,
        { n.focused };
    let ghost p = |n: Node| n.focused;
    let r = bfsearch(root, pred, Ghost(p));
    proof {
        match &r {
            Some(n) => {
                let d = choose|d: nat| #[trigger] at_depth(root, d, *n) && none_matching_above(root, d, p);
                let j = choose|j: int| 0 <= j < level_nodes(root, d).len() && level_nodes(root, d)[j] == *n;
                assert(0 <= j < level_nodes(root, d).len() && (level_nodes(root, d)[j]).focused);
                assert(has_focused(root));
            },
            None => {},
        }
    }
    r
}

/// A workspace summary as the window manager reports it: its node
/// identifier and whether it is the focused workspace.
#[derive(Clone, Copy, PartialEq, Eq, Structural, Debug)]
pub struct WorkspaceInfo {
    pub id: i64,
    pub focused: bool,
}

/// The identifier of the first focused workspace of the list, or `None`
/// when no workspace is focused.
pub fn focused_workspace_id(ws: &Vec<WorkspaceInfo>) -> (r: Option<i64>)
    ensures
        match r {
            Some(id) => exists|i: int|
                0 <= i < ws@.len() && (#[trigger] ws@[i]).focused && ws@[i].id == id,
            None => forall|i: int| 0 <= i < ws@.len() ==> !(#[trigger] ws@[i]).focused,
        },
        (r is Some) <==> exists|i: int| 0 <= i < ws@.len() && (#[trigger] ws@[i]).focused,
{
    let mut i: usize = 0;
    while i < ws.len()
        invariant
            0 <= i <= ws@.len(),
            forall|j: int| 0 <= j < i ==> !(#[trigger] ws@[j]).focused,
        decreases ws@.len() - i,
    {
        if ws[i].focused {
            return Some(ws[i].id);
        }
        i = i + 1;
    }
    None
}

} // verus!
