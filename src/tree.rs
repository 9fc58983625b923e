//! The selects that the SQL text of a query holds, and their aliases.
use vstd::prelude::*;
use vstd::set_lib::lemma_set_disjoint_lens;
use crate::engine::{is_child, tree_wf, EntryView, SelectView};

verus! {

/// The select that entry `k` of select `i` nests, for a foreign entry.
pub open spec fn nested(m: Seq<SelectView>, i: int, k: int) -> Option<int> {
    if 0 <= i < m.len() && 0 <= k < m[i].projection.len() {
        match m[i].projection[k].1 {
            EntryView::Foreign(j, _) => if i < j < m.len() {
                Some(j as int)
            } else {
                None
            },
            EntryView::Primitive(_) => None,
        }
    } else {
        None
    }
}

/// The selects whose text the text of select `i` holds: itself and, in the
/// same way as the rendering, the selects nested in its entries.
pub open spec fn reached(m: Seq<SelectView>, i: int) -> Set<int>
    decreases m.len() - i, 1nat, 0nat,
{
    if 0 <= i < m.len() {
        reached_entries(m, i, m[i].projection.len()).insert(i)
    } else {
        Set::empty()
    }
}

/// The selects reached through entries `0..n` of select `i`.
pub open spec fn reached_entries(m: Seq<SelectView>, i: int, n: nat) -> Set<int>
    decreases m.len() - i, 0nat, n,
{
    if n == 0 {
        Set::empty()
    } else {
        reached_entries(m, i, (n - 1) as nat) + match nested(m, i, n - 1) {
            Some(j) => reached(m, j),
            None => Set::empty(),
        }
    }
}

/// The number of foreign entries in the text of select `i`.
pub open spec fn foreign_entries(m: Seq<SelectView>, i: int) -> nat
    decreases m.len() - i, 1nat, 0nat,
{
    if 0 <= i < m.len() {
        foreign_entries_upto(m, i, m[i].projection.len())
    } else {
        0
    }
}

/// The number of foreign entries in the text of entries `0..n` of select `i`.
pub open spec fn foreign_entries_upto(m: Seq<SelectView>, i: int, n: nat) -> nat
    decreases m.len() - i, 0nat, n,
{
    if n == 0 {
        0
    } else {
        foreign_entries_upto(m, i, (n - 1) as nat) + match nested(m, i, n - 1) {
            Some(j) => 1 + foreign_entries(m, j),
            None => 0,
        }
    }
}

proof fn lemma_reached_bounds(m: Seq<SelectView>, i: int)
    requires
        0 <= i < m.len(),
    ensures
        reached(m, i).finite(),
        forall|x: int| #[trigger] reached(m, i).contains(x) ==> i <= x < m.len(),
    decreases m.len() - i, 1nat, 0nat,
{
    lemma_reached_entries_bounds(m, i, m[i].projection.len());
}

proof fn lemma_reached_entries_bounds(m: Seq<SelectView>, i: int, n: nat)
    requires
        0 <= i < m.len(),
    ensures
        reached_entries(m, i, n).finite(),
        forall|x: int| #[trigger] reached_entries(m, i, n).contains(x) ==> i < x < m.len(),
    decreases m.len() - i, 0nat, n,
{
    if n > 0 {
        lemma_reached_entries_bounds(m, i, (n - 1) as nat);
        match nested(m, i, n - 1) {
            Some(j) => {
                lemma_reached_bounds(m, j);
            },
            None => {},
        }
    }
}

proof fn lemma_reached_entries_grow(m: Seq<SelectView>, i: int, n1: nat, n2: nat)
    requires
        n1 <= n2,
    ensures
        reached_entries(m, i, n1).subset_of(reached_entries(m, i, n2)),
    decreases n2,
{
    if n1 < n2 {
        lemma_reached_entries_grow(m, i, n1, (n2 - 1) as nat);
    }
}

/// A select nested in entry `k` of select `i` is reached from `i` with all it reaches.
proof fn lemma_nested_reached(m: Seq<SelectView>, i: int, k: int, j: int)
    requires
        0 <= i < m.len(),
        0 <= k < m[i].projection.len(),
        nested(m, i, k) == Some(j),
    ensures
        reached(m, j).subset_of(reached(m, i)),
{
    lemma_reached_entries_grow(m, i, (k + 1) as nat, m[i].projection.len());
}

/// A select reached from `j`, other than `j`, is nested in an entry of a
/// select that is reached from `j`.
proof fn lemma_parent(m: Seq<SelectView>, j: int, x: int)
    requires
        0 <= j < m.len(),
        reached(m, j).contains(x),
        x != j,
    ensures
        exists|p: int, k: int| #[trigger] is_child(m, p, k, x) && reached(m, j).contains(p),
    decreases m.len() - j, 1nat, 0nat,
{
    lemma_parent_entries(m, j, m[j].projection.len(), x);
}

proof fn lemma_parent_entries(m: Seq<SelectView>, j: int, n: nat, x: int)
    requires
        0 <= j < m.len(),
        n <= m[j].projection.len(),
        reached_entries(m, j, n).contains(x),
    ensures
        exists|p: int, k: int| #[trigger] is_child(m, p, k, x) && reached(m, j).contains(p),
    decreases m.len() - j, 0nat, n,
{
    if n > 0 {
        if reached_entries(m, j, (n - 1) as nat).contains(x) {
            lemma_parent_entries(m, j, (n - 1) as nat, x);
        } else {
            let c = nested(m, j, n - 1)->0;
            lemma_nested_reached(m, j, n - 1, c);
            if x == c {
                assert(is_child(m, j, n - 1, x) && reached(m, j).contains(j));
            } else {
                lemma_parent(m, c, x);
                let (p, k) = choose|p: int, k: int| #[trigger] is_child(m, p, k, x) && reached(m, c).contains(p);
                assert(is_child(m, p, k, x) && reached(m, j).contains(p));
            }
        }
    }
}

/// The selects reached through two different entries of one select are disjoint.
proof fn lemma_disjoint(m: Seq<SelectView>, i: int, k1: int, k2: int, x: int)
    requires
        tree_wf(m),
        k1 != k2,
        nested(m, i, k1) is Some,
        nested(m, i, k2) is Some,
    ensures
        !(reached(m, nested(m, i, k1)->0).contains(x) && reached(m, nested(m, i, k2)->0).contains(x)),
    decreases x,
{
    reveal(tree_wf);
    let j1 = nested(m, i, k1)->0;
    let j2 = nested(m, i, k2)->0;
    assert(is_child(m, i, k1, j1));
    assert(is_child(m, i, k2, j2));
    if reached(m, j1).contains(x) && reached(m, j2).contains(x) {
        lemma_reached_bounds(m, j1);
        lemma_reached_bounds(m, j2);
        if x == j1 {
            if x == j2 {
                assert(false);
            } else {
                lemma_parent(m, j2, x);
                let (p, k) = choose|p: int, k: int| #[trigger] is_child(m, p, k, x) && reached(m, j2).contains(p);
                assert(p == i);
                assert(false);
            }
        } else if x == j2 {
            lemma_parent(m, j1, x);
            let (p, k) = choose|p: int, k: int| #[trigger] is_child(m, p, k, x) && reached(m, j1).contains(p);
            assert(p == i);
            assert(false);
        } else {
            lemma_parent(m, j1, x);
            let (pa, q1) = choose|p: int, k: int| #[trigger] is_child(m, p, k, x) && reached(m, j1).contains(p);
            lemma_parent(m, j2, x);
            let (pb, q2) = choose|p: int, k: int| #[trigger] is_child(m, p, k, x) && reached(m, j2).contains(p);
            assert(pa == pb);
            assert(pa < x);
            lemma_disjoint(m, i, k1, k2, pa);
            assert(false);
        }
    }
}

proof fn lemma_count(m: Seq<SelectView>, i: int)
    requires
        tree_wf(m),
        0 <= i < m.len(),
    ensures
        reached(m, i).finite(),
        reached(m, i).len() == foreign_entries(m, i) + 1,
    decreases m.len() - i, 1nat, 0nat,
{
    let n = m[i].projection.len();
    lemma_count_entries(m, i, n);
    lemma_reached_entries_bounds(m, i, n);
}

proof fn lemma_count_entries(m: Seq<SelectView>, i: int, n: nat)
    requires
        tree_wf(m),
        0 <= i < m.len(),
        n <= m[i].projection.len(),
    ensures
        reached_entries(m, i, n).finite(),
        reached_entries(m, i, n).len() == foreign_entries_upto(m, i, n),
        forall|x: int|
            #[trigger] reached_entries(m, i, n).contains(x) ==> exists|k: int|
                0 <= k < n && nested(m, i, k) is Some && #[trigger] reached(m, nested(m, i, k)->0).contains(x),
    decreases m.len() - i, 0nat, n,
{
    if n > 0 {
        let r = reached_entries(m, i, (n - 1) as nat);
        lemma_count_entries(m, i, (n - 1) as nat);
        match nested(m, i, n - 1) {
            Some(j) => {
                let s = reached(m, j);
                lemma_count(m, j);
                assert forall|x: int| !(r.contains(x) && s.contains(x)) by {
                    if r.contains(x) && s.contains(x) {
                        let k = choose|k: int|
                            0 <= k < n - 1 && nested(m, i, k) is Some && #[trigger] reached(m, nested(m, i, k)->0).contains(x);
                        lemma_disjoint(m, i, k, n - 1, x);
                    }
                }
                assert(r.disjoint(s));
                lemma_set_disjoint_lens(r, s);
                assert forall|x: int| #[trigger] reached_entries(m, i, n).contains(x) implies exists|k: int|
                    0 <= k < n && nested(m, i, k) is Some && #[trigger] reached(m, nested(m, i, k)->0).contains(x) by {
                    if s.contains(x) {
                        assert(reached(m, nested(m, i, n - 1)->0).contains(x));
                    } else {
                        let k = choose|k: int|
                            0 <= k < n - 1 && nested(m, i, k) is Some && #[trigger] reached(m, nested(m, i, k)->0).contains(x);
                        assert(0 <= k < n);
                    }
                }
            },
            None => {
                assert(reached_entries(m, i, n) =~= r);
            },
        }
    }
}

/// Aliases are unique: the SQL text of a query holds one select more than it
/// has foreign entries, and each of those selects has an alias of its own.
pub proof fn lemma_alias_uniqueness(m: Seq<SelectView>)
    requires
        tree_wf(m),
    ensures
        reached(m, 0).finite(),
        reached(m, 0).len() == foreign_entries(m, 0) + 1,
        reached(m, 0).map(|x: int| m[x].alias as int) == reached(m, 0),
{
    crate::engine::lemma_tree_wf_len(m);
    lemma_count(m, 0);
    lemma_reached_bounds(m, 0);
    reveal(tree_wf);
    let aliases = reached(m, 0).map(|x: int| m[x].alias as int);
    assert forall|a: int| #[trigger] aliases.contains(a) <==> reached(m, 0).contains(a) by {
        if reached(m, 0).contains(a) {
            assert(m[a].alias == a);
            assert(aliases.contains(m[a].alias as int));
        }
        if aliases.contains(a) {
            let x = choose|x: int| reached(m, 0).contains(x) && m[x].alias as int == a;
            assert(m[x].alias == x);
        }
    }
    assert(aliases =~= reached(m, 0));
}

} // verus!
