//! Nodes: the handles that a selection works with. A node probes (builds the
//! query tree) or deserializes; its phase is fixed when it is made.
use vstd::prelude::*;
use crate::engine::{project_spec, Engine, Probing, SelectView, MAX_SELECTS};
use crate::field::{Field, FieldKind};

verus! {

/// The errors of probing and deserializing.
#[derive(Clone, Copy, Debug, PartialEq, Eq, Structural)]
pub enum UrmError {
    /// A node could not give the capability to probe.
    Probe,
    /// Values were asked of a node in the deserialize phase, which reads no rows.
    Deserialization,
    /// A hand-off between the probe pass and its driver failed.
    Synchronization,
}

/// The result of probing or deserializing.
pub type UrmResult<T> = Result<T, UrmError>;

/// The phase of a node.
pub enum Phase {
    /// Structural discovery: projections mutate the select of the capability.
    Probe(Probing),
    /// Value extraction, after the query has run.
    Deserialize,
}

/// A projectable point of the query: one entity of a table.
pub struct Node {
    phase: Phase,
}

impl View for Node {
    type V = Phase;

    closed spec fn view(&self) -> Phase {
        self.phase
    }
}

impl Node {
    /// A node in the probe phase, projecting onto the select of `probing`.
    pub fn new_probe(probing: Probing) -> (r: Node)
        ensures
            r@ == Phase::Probe(probing),
    {
        Node { phase: Phase::Probe(probing) }
    }

    /// A node in the deserialize phase.
    pub fn new_deserialize() -> (r: Node)
        ensures
            r@ == Phase::Deserialize,
    {
        Node { phase: Phase::Deserialize }
    }

    /// The phase, fixed when the node was made.
    pub fn phase(&self) -> (r: &Phase)
        ensures
            *r == self@,
    {
        &self.phase
    }

    /// The capability to probe, which only a node in the probe phase has.
    pub fn probing(&self) -> (r: UrmResult<&Probing>)
        ensures
            match self@ {
                Phase::Probe(p) => r == Ok::<&Probing, UrmError>(&p),
                Phase::Deserialize => r == Err::<&Probing, UrmError>(UrmError::Probe),
            },
    {
        match &self.phase {
            Phase::Probe(p) => Ok(p),
            Phase::Deserialize => Err(UrmError::Probe),
        }
    }
}

/// The query tree after projecting `fs` in order on select `i`.
pub open spec fn project_all(m: Seq<SelectView>, i: int, fs: Seq<Field>) -> Seq<SelectView>
    decreases fs.len(),
{
    if fs.len() == 0 {
        m
    } else {
        project_all(project_spec(m, i, fs[0]), i, fs.drop_first())
    }
}

/// How many of `fs` are relations.
pub open spec fn foreign_count(fs: Seq<Field>) -> nat
    decreases fs.len(),
{
    if fs.len() == 0 {
        0
    } else {
        (if fs[0].kind is Foreign { 1nat } else { 0nat }) + foreign_count(fs.drop_first())
    }
}

/// The node that projecting `f` hands back, when the next select is `n`.
pub open spec fn child_node(c: Option<Node>, f: Field, n: nat) -> bool {
    match f.kind {
        FieldKind::Primitive => c is None,
        FieldKind::Foreign(_) => c matches Some(node) && node@ matches Phase::Probe(p) && p@ == n,
    }
}

proof fn lemma_foreign_count_take(fs: Seq<Field>, k: int)
    requires
        0 <= k < fs.len(),
    ensures
        foreign_count(fs.take(k + 1)) == foreign_count(fs.take(k)) + if fs[k].kind is Foreign { 1nat } else { 0nat },
    decreases k,
{
    assert(fs.take(k + 1)[0] == fs[0]);
    if k > 0 {
        lemma_foreign_count_take(fs.drop_first(), k - 1);
        assert(fs.take(k)[0] == fs[0]);
        assert(fs.take(k + 1).drop_first() =~= fs.drop_first().take(k));
        assert(fs.take(k).drop_first() =~= fs.drop_first().take(k - 1));
        assert(fs.drop_first()[k - 1] == fs[k]);
    } else {
        assert(fs.take(1).drop_first() =~= Seq::<Field>::empty());
        assert(fs.take(0) =~= Seq::<Field>::empty());
    }
}

/// Projects `fields`, in order, at `node`. In the probe phase each field is
/// projected onto the node's select, and each relation hands back a node for
/// its nested select; no value comes back. In the deserialize phase nothing
/// can be read yet.
pub fn project(engine: &mut Engine, node: &Node, fields: Vec<Field>) -> (r: UrmResult<Vec<Option<Node>>>)
    requires
        old(engine).wf(),
        forall|k: int| 0 <= k < fields@.len() ==> (#[trigger] fields@[k]).wf(),
    ensures
        final(engine).wf(),
        match node@ {
            Phase::Deserialize => r == Err::<Vec<Option<Node>>, UrmError>(UrmError::Deserialization)
                && final(engine)@ == old(engine)@,
            Phase::Probe(p) => if p@ >= old(engine)@.len() || old(engine)@.len() + foreign_count(fields@)
                > MAX_SELECTS {
                r == Err::<Vec<Option<Node>>, UrmError>(UrmError::Probe) && final(engine)@ == old(engine)@
            } else {
                r matches Ok(children) && final(engine)@ == project_all(old(engine)@, p@ as int, fields@)
                    && children@.len() == fields@.len() && forall|k: int|
                    0 <= k < fields@.len() ==> child_node(
                        #[trigger] children@[k],
                        fields@[k],
                        old(engine)@.len() + foreign_count(fields@.take(k)),
                    )
            },
        },
{
    let probing = match node.probing() {
        Ok(p) => p,
        Err(_) => return Err(UrmError::Deserialization),
    };
    let i = probing.select();
    if i >= engine.len() {
        return Err(UrmError::Probe);
    }
    let mut count: usize = 0;
    let mut k: usize = 0;
    while k < fields.len()
        invariant
            k <= fields@.len(),
            count == foreign_count(fields@.take(k as int)),
            count <= k,
        decreases fields@.len() - k,
    {
        proof {
            lemma_foreign_count_take(fields@, k as int);
        }
        if let FieldKind::Foreign(_) = &fields[k].kind {
            count = count + 1;
        }
        k = k + 1;
    }
    assert(fields@.take(fields@.len() as int) =~= fields@);
    proof {
        crate::engine::lemma_tree_wf_len(engine@);
    }
    if count > MAX_SELECTS - engine.len() {
        return Err(UrmError::Probe);
    }
    let ghost m0 = engine@;
    let ghost fs0 = fields@;
    let mut rest = fields;
    let mut children: Vec<Option<Node>> = Vec::new();
    let mut done: usize = 0;
    while rest.len() > 0
        invariant
            engine.wf(),
            i < engine@.len(),
            probing@ == i,
            fs0.len() <= usize::MAX,
            done + rest@.len() == fs0.len(),
            rest@ == fs0.skip(done as int),
            engine@.len() == m0.len() + foreign_count(fs0.take(done as int)),
            m0.len() + foreign_count(fs0) <= MAX_SELECTS,
            project_all(engine@, i as int, rest@) == project_all(m0, i as int, fs0),
            children@.len() == done,
            forall|x: int| 0 <= x < done ==> child_node(
                #[trigger] children@[x],
                fs0[x],
                m0.len() + foreign_count(fs0.take(x)),
            ),
            forall|x: int| 0 <= x < fs0.len() ==> (#[trigger] fs0[x]).wf(),
        decreases rest@.len(),
    {
        proof {
            lemma_foreign_count_take(fs0, done as int);
            lemma_foreign_count_split(fs0, done as int);
            assert(rest@[0] == fs0[done as int]);
            assert(rest@.drop_first() =~= fs0.skip(done as int + 1));
        }
        let field = rest.remove(0);
        let child = engine.project_and_probe(probing, field);
        let next = match child {
            Some(p) => Some(Node::new_probe(p)),
            None => None,
        };
        children.push(next);
        done = done + 1;
    }
    assert(fs0.take(done as int) =~= fs0);
    Ok(children)
}

proof fn lemma_foreign_count_split(fs: Seq<Field>, k: int)
    requires
        0 <= k <= fs.len(),
    ensures
        foreign_count(fs) == foreign_count(fs.take(k)) + foreign_count(fs.skip(k)),
    decreases k,
{
    if k > 0 {
        lemma_foreign_count_split(fs.drop_first(), k - 1);
        assert(fs.take(k).drop_first() =~= fs.drop_first().take(k - 1));
        assert(fs.skip(k) =~= fs.drop_first().skip(k - 1));
    } else {
        assert(fs.skip(0) =~= fs);
        assert(fs.take(0) =~= Seq::<Field>::empty());
    }
}

} // verus!
