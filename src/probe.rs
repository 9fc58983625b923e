//! Probing a whole selection: a depth-first walk that projects each picked
//! field and, for a relation, walks what is picked of the related entity.
use vstd::prelude::*;
use crate::engine::{project_spec, Engine, SelectView, MAX_SELECTS};
use crate::field::Field;
use crate::node::{project, Node, Phase, UrmError, UrmResult};

verus! {

/// One field picked by a selection and, for a relation, what is picked of
/// each related entity.
pub struct Pick {
    pub field: Field,
    pub nested: Vec<Pick>,
}

/// Every picked field is well-formed.
pub open spec fn picks_wf(picks: Seq<Pick>) -> bool
    decreases picks,
{
    forall|k: int| 0 <= k < picks.len() ==> (#[trigger] picks[k]).field.wf() && picks_wf(picks[k].nested@)
}

/// The number of selects that walking `picks` creates.
pub open spec fn needed(picks: Seq<Pick>) -> nat
    decreases picks,
{
    if picks.len() == 0 {
        0
    } else {
        needed(picks.subrange(1, picks.len() as int)) + if picks[0].field.kind is Foreign {
            1 + needed(picks[0].nested@)
        } else {
            0
        }
    }
}

/// The query tree after walking `picks` at select `i`: each field is projected
/// in order, and the picks nested in a relation are walked at its new select
/// before the next field is projected.
pub open spec fn walk(m: Seq<SelectView>, i: int, picks: Seq<Pick>) -> Seq<SelectView>
    decreases picks,
{
    if picks.len() == 0 {
        m
    } else {
        let p = picks[0];
        let m1 = project_spec(m, i, p.field);
        let m2 = if p.field.kind is Foreign {
            walk(m1, m.len() as int, p.nested@)
        } else {
            m1
        };
        walk(m2, i, picks.subrange(1, picks.len() as int))
    }
}

/// Walking `picks` adds `needed(picks)` selects.
pub proof fn lemma_walk_len(m: Seq<SelectView>, i: int, picks: Seq<Pick>)
    requires
        0 <= i < m.len(),
    ensures
        walk(m, i, picks).len() == m.len() + needed(picks),
    decreases picks,
{
    if picks.len() > 0 {
        let p = picks[0];
        let rest = picks.subrange(1, picks.len() as int);
        let m1 = project_spec(m, i, p.field);
        if p.field.kind is Foreign {
            assert(m1.len() == m.len() + 1);
            let m2 = walk(m1, m.len() as int, p.nested@);
            lemma_walk_len(m1, m.len() as int, p.nested@);
            assert(m2.len() >= m.len());
            lemma_walk_len(m2, i, rest);
            assert(walk(m, i, picks) == walk(m2, i, rest));
            assert(needed(picks) == needed(rest) + 1 + needed(p.nested@));
        } else {
            assert(m1.len() == m.len());
            lemma_walk_len(m1, i, rest);
            assert(walk(m, i, picks) == walk(m1, i, rest));
            assert(needed(picks) == needed(rest));
        }
    }
}

/// Walks `picks` depth-first from `node`. In the deserialize phase nothing can
/// be read yet. When the walk would need more selects than a query can hold it
/// stops with `UrmError::Probe`, and the partial tree must not be used.
pub fn probe_selection(engine: &mut Engine, node: &Node, picks: Vec<Pick>) -> (r: UrmResult<()>)
    requires
        old(engine).wf(),
        picks_wf(picks@),
    ensures
        final(engine).wf(),
        match node@ {
            Phase::Deserialize => r == Err::<(), UrmError>(UrmError::Deserialization),
            Phase::Probe(p) => if p@ >= old(engine)@.len() {
                r == Err::<(), UrmError>(UrmError::Probe)
            } else if old(engine)@.len() + needed(picks@) <= MAX_SELECTS {
                r is Ok && final(engine)@ == walk(old(engine)@, p@ as int, picks@)
            } else {
                r == Err::<(), UrmError>(UrmError::Probe)
            },
        },
    decreases picks@,
{
    let i = match node.probing() {
        Ok(p) => p.select(),
        Err(_) => return Err(UrmError::Deserialization),
    };
    if i >= engine.len() {
        return Err(UrmError::Probe);
    }
    let ghost m0 = engine@;
    let ghost all = picks@;
    let mut rest = picks;
    while rest.len() > 0
        invariant
            engine.wf(),
            i < engine@.len(),
            node@ matches Phase::Probe(p) && p@ == i,
            picks_wf(rest@),
            all == picks@,
            m0 == old(engine)@,
            i < m0.len(),
            rest@.len() <= all.len(),
            rest@ == all.subrange(all.len() - rest@.len(), all.len() as int),
            engine@.len() + needed(rest@) == m0.len() + needed(all),
            m0.len() + needed(all) <= MAX_SELECTS ==> walk(engine@, i as int, rest@) == walk(m0, i as int, all),
        decreases rest@.len(),
    {
        let ghost before = engine@;
        let ghost rs = rest@;
        assert(rs.subrange(1, rs.len() as int) =~= all.subrange(all.len() - (rs.len() - 1), all.len() as int));
        assert(rs[0] == all[all.len() - rs.len()]);
        let pick = rest.remove(0);
        assert(rest@ =~= rs.subrange(1, rs.len() as int));
        assert(pick == rs[0]);
        assert(picks_wf(rest@)) by {
            assert forall|k: int| 0 <= k < rest@.len() implies (#[trigger] rest@[k]).field.wf() && picks_wf(rest@[k].nested@) by {
                assert(rest@[k] == rs[k + 1]);
            }
        }
        let Pick { field, nested } = pick;
        let ghost f = field;
        assert(needed(rs) == needed(rest@) + if f.kind is Foreign { 1 + needed(nested@) } else { 0 });
        let mut fields: Vec<Field> = Vec::new();
        fields.push(field);
        assert(fields@ =~= seq![f]);
        assert(seq![f].drop_first() =~= Seq::<Field>::empty());
        assert(seq![f][0] == f);
        assert(crate::node::foreign_count(Seq::<Field>::empty()) == 0);
        assert(crate::node::foreign_count(seq![f]) == if f.kind is Foreign { 1nat } else { 0nat });
        assert(crate::node::project_all(project_spec(before, i as int, f), i as int, Seq::<Field>::empty())
            == project_spec(before, i as int, f));
        assert(crate::node::project_all(before, i as int, seq![f]) == project_spec(before, i as int, f));
        let mut children = match project(engine, node, fields) {
            Ok(c) => c,
            Err(e) => {
                assert(before.len() + crate::node::foreign_count(seq![f]) > MAX_SELECTS);
                assert(m0.len() + needed(all) > MAX_SELECTS);
                assert(e == UrmError::Probe);
                return Err(e);
            },
        };
        assert(seq![f].take(0) =~= Seq::<Field>::empty());
        assert(seq![f].drop_first() =~= Seq::<Field>::empty());
        let child = children.remove(0);
        match child {
            Some(c) => {
                let ghost idx = all.len() - rs.len();
                assert(decreases_to!(all => all[idx]));
                assert(decreases_to!(all[idx] => all[idx].nested));
                assert(decreases_to!(all[idx].nested => all[idx].nested@));
                assert(nested@ == all[idx].nested@);
                assert(decreases_to!(all => nested@));
                let ghost m1 = engine@;
                assert(m1.len() == before.len() + 1);
                match probe_selection(engine, &c, nested) {
                    Ok(()) => {},
                    Err(e) => {
                        assert(m0.len() + needed(all) > MAX_SELECTS);
                        return Err(e);
                    },
                }
                proof {
                    lemma_walk_len(m1, before.len() as int, rs[0].nested@);
                }
            },
            None => {},
        }
    }
    proof {
        crate::engine::lemma_tree_wf_len(engine@);
    }
    assert(walk(engine@, i as int, Seq::<Pick>::empty()) == engine@);
    Ok(())
}

} // verus!
