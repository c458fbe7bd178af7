use vstd::prelude::*;

use crate::axis::{pos_along, size_along, spec_pos_along, spec_size_along, Axis};
use crate::math::lemma_mul_bound;
use crate::tree::Node;

verus! {

/// The uniform spacing between adjacent children of `parent` along `a`,
/// inferred from the first pair's observed gap; a container with fewer than
/// two children has no observable gap and gets zero.
pub open spec fn spec_gap(parent: Node, a: Axis) -> int {
    if parent.children@.len() >= 2 {
        spec_pos_along(a, parent.children@[1].rect) - (spec_pos_along(a, parent.children@[0].rect)
            + spec_size_along(a, parent.children@[0].rect))
    } else {
        0
    }
}

/// The child at index `i` is geometrically faulty: its trailing edge falls
/// short of where it would have to reach for every child before and
/// including it to occupy `desired` pixels — uniform resizing cannot be
/// realized with commands that only move trailing edges.
pub open spec fn faulty_at(parent: Node, a: Axis, desired: int, gap: int, i: int) -> bool {
    spec_pos_along(a, parent.children@[i].rect) + spec_size_along(a, parent.children@[i].rect)
        < spec_pos_along(a, parent.rect) + (i + 1) * desired + i * gap
}

/// The first geometrically faulty child at or after index `i`, if any.
pub open spec fn first_faulty_from(parent: Node, a: Axis, desired: int, gap: int, i: int) -> Option<
    int,
>
    decreases parent.children@.len() - i,
{
    if i < 0 || i >= parent.children@.len() {
        None
    } else if faulty_at(parent, a, desired, gap, i) {
        Some(i)
    } else {
        first_faulty_from(parent, a, desired, gap, i + 1)
    }
}

/// The first geometrically faulty child of `parent`, if any.
pub open spec fn spec_first_faulty(parent: Node, a: Axis, desired: int, gap: int) -> Option<int> {
    first_faulty_from(parent, a, desired, gap, 0)
}

/// The index of the first child with the largest extent among the children
/// at indices `i..`, for `0 <= i < len`.
pub open spec fn spec_largest_from(parent: Node, a: Axis, i: int) -> int
    decreases parent.children@.len() - i,
{
    if i >= parent.children@.len() - 1 {
        parent.children@.len() - 1
    } else {
        let rest = spec_largest_from(parent, a, i + 1);
        if spec_size_along(a, parent.children@[i].rect) >= spec_size_along(
            a,
            parent.children@[rest].rect,
        ) {
            i
        } else {
            rest
        }
    }
}

/// The inferred uniform gap of `parent` along `a`.
pub fn infer_gap(parent: &Node, a: Axis) -> (g: i64)
    ensures
        g as int == spec_gap(*parent, a),
{
    if parent.children.len() >= 2 {
        let first = &parent.children[0];
        let second = &parent.children[1];
        pos_along(a, &second.rect) as i64 - (pos_along(a, &first.rect) as i64 + size_along(
            a,
            &first.rect,
        ) as i64)
    } else {
        0
    }
}

/// Scan the children of `parent` in their current order for the first
/// geometrically faulty position, given the desired uniform extent and the
/// inferred gap.
pub fn first_faulty(parent: &Node, a: Axis, desired: i32, gap: i64) -> (r: Option<usize>)
    requires
        -0x2_0000_0000 <= gap <= 0x2_0000_0000,
    ensures
        match r {
            Some(i) => i < parent.children@.len() && Some(i as int) == spec_first_faulty(
                *parent,
                a,
                desired as int,
                gap as int,
            ),
            None => spec_first_faulty(*parent, a, desired as int, gap as int) is None,
        },
{
    let k = parent.children.len();
    let parent_pos: i128 = pos_along(a, &parent.rect) as i128;
    let mut i: usize = 0;
    while i < k
        invariant
            k == parent.children@.len(),
            0 <= i <= k,
            -0x2_0000_0000 <= gap <= 0x2_0000_0000,
            parent_pos == spec_pos_along(a, parent.rect),
            first_faulty_from(*parent, a, desired as int, gap as int, 0) == first_faulty_from(
                *parent,
                a,
                desired as int,
                gap as int,
                i as int,
            ),
        decreases k - i,
    {
        let child = &parent.children[i];
        let edge: i128 = pos_along(a, &child.rect) as i128 + size_along(a, &child.rect) as i128;
        proof {
            lemma_mul_bound(i as int + 1, desired as int, 0x1_0000_0000_0000_0000, 0x8000_0000);
            lemma_mul_bound(i as int, gap as int, 0x1_0000_0000_0000_0000, 0x2_0000_0000);
        }
        let needed: i128 = parent_pos + (i as i128 + 1) * (desired as i128) + (i as i128) * (
        gap as i128);
        if edge < needed {
            return Some(i);
        }
        i = i + 1;
    }
    None
}

/// Among the children of `parent` at indices `from..`, find the first one
/// with the largest extent along `a`.
pub fn largest_from(parent: &Node, a: Axis, from: usize) -> (j: usize)
    requires
        from < parent.children@.len(),
    ensures
        j as int == spec_largest_from(*parent, a, from as int),
        from <= j < parent.children@.len(),
{
    let k = parent.children.len();
    let mut best: usize = k - 1;
    let mut i: usize = k - 1;
    while i > from
        invariant
            k == parent.children@.len(),
            from < k,
            from <= i <= k - 1,
            i <= best < k,
            best as int == spec_largest_from(*parent, a, i as int),
        decreases i - from,
    {
        i = i - 1;
        if size_along(a, &parent.children[i].rect) >= size_along(a, &parent.children[best].rect) {
            best = i;
        }
    }
    best
}

/// The sequence `s` with the entries at `i` and `j` exchanged; out-of-range
/// indices leave it unchanged.
pub open spec fn swap_pair(s: Seq<i64>, i: int, j: int) -> Seq<i64> {
    if 0 <= i < s.len() && 0 <= j < s.len() {
        s.update(i, s[j]).update(j, s[i])
    } else {
        s
    }
}

/// The result of applying `swaps` to `s`, first entry first.
pub open spec fn apply_swaps(s: Seq<i64>, swaps: Seq<(usize, usize)>) -> Seq<i64>
    decreases swaps.len(),
{
    if swaps.len() == 0 {
        s
    } else {
        apply_swaps(swap_pair(s, swaps[0].0 as int, swaps[0].1 as int), swaps.drop_first())
    }
}

/// One more swap applies after all the earlier ones.
pub proof fn lemma_apply_swaps_push(s: Seq<i64>, swaps: Seq<(usize, usize)>, p: (usize, usize))
    ensures
        apply_swaps(s, swaps.push(p)) == swap_pair(apply_swaps(s, swaps), p.0 as int, p.1 as int),
    decreases swaps.len(),
{
    if swaps.len() == 0 {
        assert(swaps.push(p)[0] == p);
        assert(swaps.push(p).drop_first() =~= Seq::<(usize, usize)>::empty());
        assert(apply_swaps(swap_pair(s, p.0 as int, p.1 as int), Seq::<(usize, usize)>::empty())
            == swap_pair(s, p.0 as int, p.1 as int));
    } else {
        assert(swaps.push(p)[0] == swaps[0]);
        assert(swaps.push(p).drop_first() =~= swaps.drop_first().push(p));
        lemma_apply_swaps_push(
            swap_pair(s, swaps[0].0 as int, swaps[0].1 as int),
            swaps.drop_first(),
            p,
        );
    }
}

/// Exchanging two entries leaves the multiset of entries unchanged.
pub proof fn lemma_swap_pair_multiset(s: Seq<i64>, i: int, j: int)
    ensures
        swap_pair(s, i, j).to_multiset() == s.to_multiset(),
{
    broadcast use vstd::seq_lib::group_to_multiset_ensures;
    broadcast use vstd::multiset::group_multiset_axioms;

    if 0 <= i < s.len() && 0 <= j < s.len() {
        if i == j {
            assert(s.update(i, s[j]).update(j, s[i]) =~= s);
        } else {
            let s1 = s.update(i, s[j]);
            assert(s1[j] == s[j]);
            assert(s1.update(j, s[i]).to_multiset() =~= s.to_multiset());
        }
    }
}

/// Compute a minimum sequence of pairwise swaps that transforms the child
/// order `current` into the order `target`: the alternative reordering
/// strategy, which fixes one position at a time by pulling the wanted entry
/// forward, and so spends `cycle length - 1` swaps on every cycle of the
/// permutation. `None` exactly when the two orders do not hold the same
/// entries.
///
/// Applying the returned swaps, first entry first, to `current` yields
/// exactly `target`.
pub fn min_swaps(current: &Vec<i64>, target: &Vec<i64>) -> (r: Option<Vec<(usize, usize)>>)
    ensures
        match r {
            Some(sw) => {
                &&& apply_swaps(current@, sw@) == target@
                &&& forall|t: int|
                    0 <= t < sw@.len() ==> (#[trigger] sw@[t]).0 < sw@[t].1 < current@.len()
                &&& forall|t1: int, t2: int|
                    0 <= t1 < t2 < sw@.len() ==> (#[trigger] sw@[t1]).0 < (#[trigger] sw@[t2]).0
            },
            None => current@.to_multiset() != target@.to_multiset(),
        },
        (r is Some) <==> current@.to_multiset() == target@.to_multiset(),
{
    broadcast use vstd::seq_lib::group_to_multiset_ensures;
    broadcast use vstd::multiset::group_multiset_axioms;

    let n = current.len();
    if n != target.len() {
        proof {
            vstd::seq_lib::to_multiset_len(current@);
            vstd::seq_lib::to_multiset_len(target@);
        }
        return None;
    }
    let mut work: Vec<i64> = Vec::new();
    let mut c: usize = 0;
    while c < n
        invariant
            n == current@.len(),
            0 <= c <= n,
            work@ == current@.take(c as int),
        decreases n - c,
    {
        work.push(current[c]);
        proof {
            assert(current@.take(c as int + 1) =~= current@.take(c as int).push(
                current@[c as int],
            ));
        }
        c = c + 1;
    }
    proof {
        assert(current@.take(n as int) =~= current@);
    }

    let mut swaps: Vec<(usize, usize)> = Vec::new();
    let mut idx: usize = 0;
    while idx < n
        invariant
            n == current@.len() && n == target@.len() && n == work@.len(),
            0 <= idx <= n,
            work@.take(idx as int) == target@.take(idx as int),
            apply_swaps(current@, swaps@) == work@,
            work@.to_multiset() == current@.to_multiset(),
            forall|t: int| 0 <= t < swaps@.len() ==> (#[trigger] swaps@[t]).0 < swaps@[t].1 < n,
            forall|t: int| 0 <= t < swaps@.len() ==> (#[trigger] swaps@[t]).0 < idx,
            forall|t1: int, t2: int|
                0 <= t1 < t2 < swaps@.len() ==> (#[trigger] swaps@[t1]).0 < (
                #[trigger] swaps@[t2]).0,
        decreases n - idx,
    {
        let want = target[idx];
        if work[idx] == want {
            proof {
                assert(work@.take(idx as int + 1) =~= work@.take(idx as int).push(
                    work@[idx as int],
                ));
                assert(target@.take(idx as int + 1) =~= target@.take(idx as int).push(
                    target@[idx as int],
                ));
            }
            idx = idx + 1;
        } else {
            let mut j: usize = idx + 1;
            let mut found: Option<usize> = None;
            while j < n && found.is_none()
                invariant
                    n == work@.len(),
                    idx + 1 <= j <= n,
                    forall|m: int| idx + 1 <= m < j ==> work@[m] != want,
                    match found {
                        Some(f) => idx < f < n && work@[f as int] == want,
                        None => true,
                    },
                decreases n - j + (if found is None { 1int } else { 0int }),
            {
                if work[j] == want {
                    found = Some(j);
                } else {
                    j = j + 1;
                }
            }
            match found {
                Some(jj) => {
                    let ghost w0 = work@;
                    let wi = work[idx];
                    let wj = work[jj];
                    work.set(idx, wj);
                    work.set(jj, wi);
                    proof {
                        lemma_apply_swaps_push(current@, swaps@, (idx, jj));
                        assert(work@ == swap_pair(w0, idx as int, jj as int));
                        lemma_swap_pair_multiset(w0, idx as int, jj as int);
                    }
                    swaps.push((idx, jj));
                    proof {
                        assert(work@.take(idx as int + 1) =~= work@.take(idx as int).push(
                            work@[idx as int],
                        ));
                        assert(work@.take(idx as int) =~= w0.take(idx as int));
                        assert(target@.take(idx as int + 1) =~= target@.take(idx as int).push(
                            target@[idx as int],
                        ));
                    }
                    idx = idx + 1;
                },
                None => {
                    proof {
                        broadcast use vstd::seq_lib::group_to_multiset_ensures;
                        broadcast use vstd::multiset::group_multiset_axioms;

                        if current@.to_multiset() == target@.to_multiset() {
                            assert(work@ =~= work@.take(idx as int) + work@.skip(idx as int));
                            assert(target@ =~= target@.take(idx as int) + target@.skip(
                                idx as int,
                            ));
                            vstd::seq_lib::lemma_multiset_commutative(
                                work@.take(idx as int),
                                work@.skip(idx as int),
                            );
                            vstd::seq_lib::lemma_multiset_commutative(
                                target@.take(idx as int),
                                target@.skip(idx as int),
                            );
                            assert forall|e: i64|
                                work@.skip(idx as int).to_multiset().count(e) == target@.skip(
                                    idx as int,
                                ).to_multiset().count(e) by {
                                assert(work@.take(idx as int).to_multiset().add(
                                    work@.skip(idx as int).to_multiset(),
                                ).count(e) == work@.take(idx as int).to_multiset().count(e)
                                    + work@.skip(idx as int).to_multiset().count(e));
                                assert(target@.take(idx as int).to_multiset().add(
                                    target@.skip(idx as int).to_multiset(),
                                ).count(e) == target@.take(idx as int).to_multiset().count(e)
                                    + target@.skip(idx as int).to_multiset().count(e));
                            }
                            assert(work@.skip(idx as int).to_multiset() =~= target@.skip(
                                idx as int,
                            ).to_multiset());
                            assert(target@.skip(idx as int)[0] == want);
                            assert(target@.skip(idx as int).contains(want));
                            assert(target@.skip(idx as int).to_multiset().count(want) > 0);
                            assert(work@.skip(idx as int).to_multiset().count(want) > 0);
                            assert(work@.skip(idx as int).contains(want));
                            let m = choose|m: int|
                                0 <= m < work@.skip(idx as int).len() && work@.skip(idx as int)[m]
                                    == want;
                            assert(work@[idx + m] == want);
                            assert(false);
                        }
                    }
                    return None;
                },
            }
        }
    }
    proof {
        assert(work@.take(n as int) =~= work@);
        assert(target@.take(n as int) =~= target@);
    }
    Some(swaps)
}

} // verus!
