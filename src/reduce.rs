use vstd::prelude::*;

use crate::geometry::{geom, inside, WindowBounds};

verus! {

/// The window at index `i` of `s` survives reduction: every other window of `s`
/// that holds it is an identical one further on, so of identical windows the
/// first is kept and a window held by a larger one is dropped.
pub open spec fn kept(s: Seq<WindowBounds>, i: int) -> bool {
    forall|j: int|
        0 <= j < s.len() && j != i && #[trigger] inside(s[i], s[j]) ==> i < j && geom(s[i])
            == geom(s[j])
}

/// Indices below `n` of the windows of `s` that survive, in increasing order.
pub open spec fn kept_indices(s: Seq<WindowBounds>, n: int) -> Seq<int>
    decreases n,
{
    if n <= 0 {
        Seq::empty()
    } else if kept(s, n - 1) {
        kept_indices(s, n - 1).push(n - 1)
    } else {
        kept_indices(s, n - 1)
    }
}

/// The windows of `s` that survive, in their order in `s`.
pub open spec fn reduced(s: Seq<WindowBounds>) -> Seq<WindowBounds> {
    kept_indices(s, s.len() as int).map_values(|i: int| s[i])
}

/// No window of `s` holds `w` but ones identical to it: `w` is outermost in `s`.
pub open spec fn outermost(s: Seq<WindowBounds>, w: WindowBounds) -> bool {
    forall|v: WindowBounds| s.contains(v) && #[trigger] inside(w, v) ==> geom(v) == geom(w)
}

/// The geometries of the outermost windows of `s`.
pub open spec fn surface(s: Seq<WindowBounds>) -> Set<(int, int, int, int)> {
    Set::new(|g: (int, int, int, int)| exists|w: WindowBounds| s.contains(w) && geom(w) == g && outermost(s, w))
}

/// The kept indices are increasing, below `n`, each of a surviving window, and
/// every surviving window below `n` is among them.
pub proof fn lemma_kept_indices(s: Seq<WindowBounds>, n: int)
    requires
        0 <= n <= s.len(),
    ensures
        forall|a: int, b: int|
            0 <= a < b < kept_indices(s, n).len() ==> kept_indices(s, n)[a] < kept_indices(
                s,
                n,
            )[b],
        forall|a: int|
            0 <= a < kept_indices(s, n).len() ==> 0 <= #[trigger] kept_indices(s, n)[a] < n
                && kept(s, kept_indices(s, n)[a]),
        forall|i: int|
            0 <= i < n && kept(s, i) ==> exists|a: int|
                0 <= a < kept_indices(s, n).len() && #[trigger] kept_indices(s, n)[a] == i,
    decreases n,
{
    if n > 0 {
        lemma_kept_indices(s, n - 1);
        let p = kept_indices(s, n - 1);
        if kept(s, n - 1) {
            assert(kept_indices(s, n)[p.len() as int] == n - 1);
            assert forall|i: int| 0 <= i < n && kept(s, i) implies exists|a: int|
                0 <= a < kept_indices(s, n).len() && #[trigger] kept_indices(s, n)[a] == i by {
                if i < n - 1 {
                    let a = choose|a: int| 0 <= a < p.len() && #[trigger] p[a] == i;
                    assert(kept_indices(s, n)[a] == i);
                } else {
                    assert(kept_indices(s, n)[p.len() as int] == i);
                }
            }
        } else {
            assert(kept_indices(s, n) == p);
        }
    }
}

/// No window of a reduced list lies within another one of it.
pub proof fn lemma_reduced_no_containment(s: Seq<WindowBounds>)
    ensures
        forall|a: int, b: int|
            0 <= a < reduced(s).len() && 0 <= b < reduced(s).len() && a != b ==> !inside(
                #[trigger] reduced(s)[a],
                #[trigger] reduced(s)[b],
            ),
{
    let t = reduced(s);
    let idx = kept_indices(s, s.len() as int);
    lemma_kept_indices(s, s.len() as int);
    assert forall|a: int, b: int|
        0 <= a < t.len() && 0 <= b < t.len() && a != b implies !inside(
        #[trigger] t[a],
        #[trigger] t[b],
    ) by {
        let ia = idx[a];
        let ib = idx[b];
        assert(ia != ib) by {
            if a < b {
                assert(idx[a] < idx[b]);
            } else {
                assert(idx[b] < idx[a]);
            }
        }
        if inside(s[ia], s[ib]) {
            assert(kept(s, ia));
            assert(kept(s, ib));
            assert(inside(s[ib], s[ia]));
        }
    }
}

/// A list in which every window survives is its own reduction.
proof fn lemma_all_kept(s: Seq<WindowBounds>, n: int)
    requires
        0 <= n <= s.len(),
        forall|i: int| 0 <= i < s.len() ==> kept(s, i),
    ensures
        kept_indices(s, n) =~= Seq::new(n as nat, |i: int| i),
    decreases n,
{
    if n > 0 {
        lemma_all_kept(s, n - 1);
    }
}

/// Reducing a reduced list changes nothing.
pub proof fn lemma_reduce_idempotent(s: Seq<WindowBounds>)
    ensures
        reduced(reduced(s)) == reduced(s),
{
    let t = reduced(s);
    lemma_reduced_no_containment(s);
    assert forall|i: int| 0 <= i < t.len() implies kept(t, i) by {
        assert forall|j: int| 0 <= j < t.len() && j != i && #[trigger] inside(t[i], t[j]) implies i
            < j && geom(t[i]) == geom(t[j]) by {
            assert(!inside(t[i], t[j]));
        }
    }
    lemma_all_kept(t, t.len() as int);
    assert(reduced(t) =~= t);
}

/// The first index of `s` whose window has geometry `g`.
proof fn lemma_first_with(s: Seq<WindowBounds>, g: (int, int, int, int), i: int) -> (k: int)
    requires
        0 <= i < s.len(),
        geom(s[i]) == g,
    ensures
        0 <= k <= i,
        geom(s[k]) == g,
        forall|m: int| 0 <= m < k ==> geom(#[trigger] s[m]) != g,
    decreases i,
{
    if exists|m: int| 0 <= m < i && geom(#[trigger] s[m]) == g {
        let m = choose|m: int| 0 <= m < i && geom(#[trigger] s[m]) == g;
        lemma_first_with(s, g, m)
    } else {
        i
    }
}

/// The geometries that survive reduction are exactly those of the outermost
/// windows of the list.
pub proof fn lemma_reduced_surface(s: Seq<WindowBounds>)
    ensures
        reduced(s).map_values(|w: WindowBounds| geom(w)).to_set() == surface(s),
{
    let t = reduced(s);
    let gs = t.map_values(|w: WindowBounds| geom(w));
    let idx = kept_indices(s, s.len() as int);
    lemma_kept_indices(s, s.len() as int);
    assert forall|g: (int, int, int, int)| gs.to_set().contains(g) implies #[trigger] surface(
        s,
    ).contains(g) by {
        let a = choose|a: int| 0 <= a < gs.len() && gs[a] == g;
        let i = idx[a];
        let w = s[i];
        assert(s.contains(w));
        assert forall|v: WindowBounds| s.contains(v) && #[trigger] inside(w, v) implies geom(v)
            == geom(w) by {
            let j = choose|j: int| 0 <= j < s.len() && s[j] == v;
            if j != i {
                assert(kept(s, i));
                assert(inside(s[i], s[j]));
            }
        }
    }
    assert forall|g: (int, int, int, int)| #[trigger] surface(s).contains(g) implies gs.to_set().contains(g) by {
        let w = choose|w: WindowBounds| s.contains(w) && geom(w) == g && outermost(s, w);
        let i = choose|i: int| 0 <= i < s.len() && s[i] == w;
        let k = lemma_first_with(s, g, i);
        assert forall|j: int|
            0 <= j < s.len() && j != k && #[trigger] inside(s[k], s[j]) implies k < j && geom(s[k])
            == geom(s[j]) by {
            assert(s.contains(s[j]));
            assert(inside(w, s[j]));
        }
        assert(kept(s, k));
        let a = choose|a: int| 0 <= a < idx.len() && #[trigger] idx[a] == k;
        assert(gs[a] == g);
    }
    assert(gs.to_set() =~= surface(s));
}

/// Reduction does not depend on the order of its input: two lists holding the
/// same windows reduce to the same set of geometries.
pub proof fn lemma_reduce_order_independent(s1: Seq<WindowBounds>, s2: Seq<WindowBounds>)
    requires
        s1.to_multiset() == s2.to_multiset(),
    ensures
        reduced(s1).map_values(|w: WindowBounds| geom(w)).to_set() == reduced(s2).map_values(
            |w: WindowBounds| geom(w),
        ).to_set(),
{
    s1.to_multiset_ensures();
    s2.to_multiset_ensures();
    assert forall|w: WindowBounds| s1.contains(w) <==> s2.contains(w) by {
        assert(s1.contains(w) <==> s1.to_multiset().count(w) > 0);
        assert(s2.contains(w) <==> s2.to_multiset().count(w) > 0);
    }
    lemma_reduced_surface(s1);
    lemma_reduced_surface(s2);
    assert(surface(s1) =~= surface(s2));
}

/// Removes every window that lies within another window of the list, keeping
/// the first of identical ones; the order of the rest is kept.
pub fn filter_impurities(list: &mut Vec<WindowBounds>)
    ensures
        final(list)@ == reduced(old(list)@),
{
    let ghost s = list@;
    let n = list.len();
    let mut out: Vec<WindowBounds> = Vec::new();
    let mut i: usize = 0;
    while i < n
        invariant
            list@ == s,
            n == s.len(),
            i <= n,
            out@ == kept_indices(s, i as int).map_values(|k: int| s[k]),
        decreases n - i,
    {
        let mut keep = true;
        let mut j: usize = 0;
        while j < n
            invariant
                list@ == s,
                n == s.len(),
                i < n,
                j <= n,
                keep == (forall|m: int|
                    0 <= m < j && m != i && #[trigger] inside(s[i as int], s[m]) ==> i < m
                        && geom(s[i as int]) == geom(s[m])),
            decreases n - j,
        {
            if j != i && list[i].is_inside(&list[j]) {
                let same = list[i].x == list[j].x && list[i].y == list[j].y && list[i].width
                    == list[j].width && list[i].height == list[j].height;
                if !(i < j && same) {
                    keep = false;
                }
            }
            j += 1;
        }
        if keep {
            out.push(list[i].copied());
        }
        assert(out@ =~= kept_indices(s, i + 1).map_values(|k: int| s[k]));
        i += 1;
    }
    *list = out;
}

} // verus!
