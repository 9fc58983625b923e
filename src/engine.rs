//! The query tree: an arena of selects under construction. Select `i` has
//! alias `i`; a foreign projection creates a child select after its parent.
use vstd::prelude::*;
use crate::expr::TableAlias;
use crate::field::{join_clause, lemma_join_clause_wf, Field, FieldKind, ForeignView, RowRange};
use crate::lower::{combine, lemma_combine_wf, lower_logic, opt_model, wf, wf_opt, Clause, LogicOp, Lowered};
use crate::LocalId;

verus! {

/// The number of selects that one query can hold: aliases are 16-bit ordinals.
pub const MAX_SELECTS: usize = 65536;

/// What a projection entry selects.
pub enum QueryField {
    /// A plain column of the select's table.
    Primitive { column: String },
    /// A nested select (by index), correlated with this one by `join_predicate`.
    Foreign { select: usize, join_predicate: Lowered },
}

/// Model of a projection entry.
pub enum EntryView {
    Primitive(Seq<char>),
    Foreign(nat, Clause),
}

impl View for QueryField {
    type V = EntryView;

    open spec fn view(&self) -> EntryView {
        match self {
            QueryField::Primitive { column } => EntryView::Primitive(column@),
            QueryField::Foreign { select, join_predicate } => EntryView::Foreign(
                *select as nat,
                join_predicate.model(),
            ),
        }
    }
}

/// One SQL select under construction.
pub struct Select {
    pub from: TableAlias,
    /// Projection entries, keyed by `LocalId`; keys are unique.
    pub projection: Vec<(LocalId, QueryField)>,
    /// The whole `WHERE` condition. For a nested select it holds the join
    /// predicate conjoined with the relation's own filter.
    pub filter: Option<Lowered>,
    pub range: Option<RowRange>,
}

/// Model of a select.
pub struct SelectView {
    pub table: Seq<char>,
    pub alias: nat,
    pub projection: Seq<(LocalId, EntryView)>,
    pub filter: Option<Clause>,
    pub range: Option<RowRange>,
}

impl View for Select {
    type V = SelectView;

    open spec fn view(&self) -> SelectView {
        SelectView {
            table: self.from.table@,
            alias: self.from.alias as nat,
            projection: Seq::new(
                self.projection@.len(),
                |i: int| (self.projection@[i].0, self.projection@[i].1@),
            ),
            filter: opt_model(self.filter),
            range: self.range,
        }
    }
}

/// Position of key `k` in a projection, or -1.
pub open spec fn key_index(p: Seq<(LocalId, EntryView)>, k: LocalId) -> int
    decreases p.len(),
{
    if p.len() == 0 {
        -1
    } else if p.last().0 == k {
        p.len() - 1
    } else {
        key_index(p.drop_last(), k)
    }
}

/// No key occurs twice.
pub open spec fn unique_keys(p: Seq<(LocalId, EntryView)>) -> bool {
    forall|a: int, b: int| 0 <= a < b < p.len() ==> p[a].0 != p[b].0
}

/// The projection as a map from keys to entries.
pub open spec fn projection_map(p: Seq<(LocalId, EntryView)>) -> Map<LocalId, EntryView> {
    Map::new(|k: LocalId| key_index(p, k) >= 0, |k: LocalId| p[key_index(p, k)].1)
}

/// Projecting `k`: an existing entry is replaced in place, a new one is appended.
pub open spec fn put(p: Seq<(LocalId, EntryView)>, k: LocalId, v: EntryView) -> Seq<(LocalId, EntryView)> {
    if key_index(p, k) >= 0 {
        p.update(key_index(p, k), (k, v))
    } else {
        p.push((k, v))
    }
}

/// What `key_index` finds: the position of the key, or -1 when it is absent.
pub proof fn lemma_key_index(p: Seq<(LocalId, EntryView)>, k: LocalId)
    ensures
        -1 <= key_index(p, k) < p.len(),
        key_index(p, k) >= 0 ==> p[key_index(p, k)].0 == k,
        key_index(p, k) == -1 ==> forall|i: int| 0 <= i < p.len() ==> p[i].0 != k,
        unique_keys(p) ==> forall|i: int| 0 <= i < p.len() && p[i].0 == k ==> key_index(p, k) == i,
    decreases p.len(),
{
    if p.len() > 0 {
        lemma_key_index(p.drop_last(), k);
        if p.last().0 != k {
            assert forall|i: int| 0 <= i < p.len() - 1 implies p.drop_last()[i] == p[i] by {}
        }
    }
}

/// Putting an entry keeps keys unique and updates the map at `k` alone.
pub proof fn lemma_put(p: Seq<(LocalId, EntryView)>, k: LocalId, v: EntryView)
    requires
        unique_keys(p),
    ensures
        unique_keys(put(p, k, v)),
        projection_map(put(p, k, v)) == projection_map(p).insert(k, v),
        put(p, k, v).len() == if projection_map(p).contains_key(k) { p.len() } else { p.len() + 1 },
        forall|x: int|
            0 <= x < put(p, k, v).len() ==> #[trigger] put(p, k, v)[x] == if x < p.len() && p[x].0
                != k {
                p[x]
            } else {
                (k, v)
            },
{
    let q = put(p, k, v);
    lemma_key_index(p, k);
    assert forall|a: int, b: int| 0 <= a < b < q.len() implies q[a].0 != q[b].0 by {}
    assert forall|x: int| 0 <= x < q.len() implies #[trigger] q[x] == if x < p.len() && p[x].0 != k {
        p[x]
    } else {
        (k, v)
    } by {}
    assert forall|k2: LocalId| #[trigger] projection_map(q).contains_key(k2) <==> projection_map(p).insert(k, v).contains_key(k2) by {
        lemma_key_index(p, k2);
        lemma_key_index(q, k2);
        if key_index(p, k2) >= 0 {
            assert(q[key_index(p, k2)].0 == k2);
        }
        if key_index(q, k2) >= 0 && k2 != k {
            assert(p[key_index(q, k2)].0 == k2);
        }
        if k2 == k {
            if key_index(p, k) >= 0 {
                assert(q[key_index(p, k)].0 == k);
            } else {
                assert(q[p.len() as int].0 == k);
            }
        }
    }
    assert forall|k2: LocalId| #[trigger] projection_map(q).contains_key(k2) implies projection_map(q)[k2] == projection_map(p).insert(k, v)[k2] by {
        lemma_key_index(p, k2);
        lemma_key_index(q, k2);
        if k2 == k {
            if key_index(p, k) >= 0 {
                assert(q[key_index(p, k)].0 == k);
            } else {
                assert(q[p.len() as int].0 == k);
            }
        } else {
            assert(p[key_index(q, k2)].0 == k2);
        }
    }
    assert(projection_map(q) =~= projection_map(p).insert(k, v));
}

/// Entry `k` of select `i` is a foreign entry whose select is `j`.
pub open spec fn is_child(m: Seq<SelectView>, i: int, k: int, j: int) -> bool {
    &&& 0 <= i < m.len()
    &&& 0 <= k < m[i].projection.len()
    &&& m[i].projection[k].1 matches EntryView::Foreign(t, _) && t == j
}

/// A foreign entry's join predicate is a well-formed lowering.
pub open spec fn entry_wf(e: EntryView) -> bool {
    match e {
        EntryView::Foreign(_, c) => wf(c),
        EntryView::Primitive(_) => true,
    }
}

/// Well-formedness of the query tree: select `i` has alias `i`, keys are
/// unique, a nested select comes after its parent and has one parent, and
/// every filter and join predicate is a well-formed (flat) lowering.
#[verifier::opaque]
pub open spec fn tree_wf(m: Seq<SelectView>) -> bool {
    &&& 1 <= m.len() <= MAX_SELECTS
    &&& forall|i: int|
        0 <= i < m.len() ==> (#[trigger] m[i]).alias == i && unique_keys(m[i].projection) && wf_opt(
            m[i].filter,
        )
    &&& forall|i: int, k: int|
        0 <= i < m.len() && 0 <= k < m[i].projection.len() ==> entry_wf(#[trigger] m[i].projection[k].1)
    &&& forall|i: int, k: int, j: int| #[trigger] is_child(m, i, k, j) ==> i < j < m.len()
    &&& forall|i1: int, k1: int, i2: int, k2: int, j: int|
        #[trigger] is_child(m, i1, k1, j) && #[trigger] is_child(m, i2, k2, j) ==> i1 == i2 && k1 == k2
}

/// A well-formed tree has between one and `MAX_SELECTS` selects.
pub proof fn lemma_tree_wf_len(m: Seq<SelectView>)
    requires
        tree_wf(m),
    ensures
        1 <= m.len() <= MAX_SELECTS,
{
    reveal(tree_wf);
}

/// The nested select that a foreign projection of `r` creates as select `n`.
pub open spec fn child_view(r: ForeignView, n: nat) -> SelectView {
    SelectView {
        table: r.table,
        alias: n,
        projection: Seq::empty(),
        filter: combine(LogicOp::And, Some(join_clause(r.join)), r.filter),
        range: r.range,
    }
}

/// Select `s` after putting entry `(k, v)` into its projection.
pub open spec fn with_entry(s: SelectView, k: LocalId, v: EntryView) -> SelectView {
    SelectView { projection: put(s.projection, k, v), ..s }
}

/// The query tree after projecting field `f` on select `i`.
pub open spec fn project_spec(m: Seq<SelectView>, i: int, f: Field) -> Seq<SelectView> {
    match f.kind {
        FieldKind::Primitive => m.update(i, with_entry(m[i], f.local_id, EntryView::Primitive(f.name@))),
        FieldKind::Foreign(rel) => m.push(child_view(rel@, m.len())).update(
            i,
            with_entry(m[i], f.local_id, EntryView::Foreign(m.len(), join_clause(rel@.join))),
        ),
    }
}

/// The capability to project fields onto one select of an engine.
pub struct Probing {
    select: usize,
}

impl View for Probing {
    type V = nat;

    closed spec fn view(&self) -> nat {
        self.select as nat
    }
}

impl Probing {
    pub(crate) fn new(select: usize) -> (r: Probing)
        ensures
            r@ == select,
    {
        Probing { select }
    }

    /// The index (and alias) of the select that this capability mutates.
    pub fn select(&self) -> (r: usize)
        ensures
            r == self@,
    {
        self.select
    }
}

/// Owner of the query tree.
pub struct Engine {
    selects: Vec<Select>,
}

impl View for Engine {
    type V = Seq<SelectView>;

    closed spec fn view(&self) -> Seq<SelectView> {
        Seq::new(self.selects@.len(), |i: int| self.selects@[i]@)
    }
}

impl Engine {
    /// The query tree is well-formed.
    pub open spec fn wf(&self) -> bool {
        tree_wf(self@)
    }

    /// A query over `from`, with its root select at alias 0.
    pub fn new_select(from: &str, filter: Option<Lowered>, range: Option<RowRange>) -> (r: (Engine, Probing))
        requires
            wf_opt(opt_model(filter)),
        ensures
            r.0.wf(),
            r.0@ == seq![
                SelectView {
                    table: from@,
                    alias: 0,
                    projection: Seq::empty(),
                    filter: opt_model(filter),
                    range,
                },
            ],
            r.1@ == 0,
    {
        let root = Select {
            from: TableAlias { table: from.to_string(), alias: 0 },
            projection: Vec::new(),
            filter,
            range,
        };
        let mut selects: Vec<Select> = Vec::new();
        selects.push(root);
        let engine = Engine { selects };
        assert(engine@[0].projection =~= Seq::empty());
        assert(engine@ =~= seq![engine@[0]]);
        proof {
            reveal(tree_wf);
        }
        (engine, Probing { select: 0 })
    }

    /// The number of selects.
    pub fn len(&self) -> (r: usize)
        ensures
            r == self@.len(),
    {
        self.selects.len()
    }

    /// Select `i`.
    pub fn select(&self, i: usize) -> (r: &Select)
        requires
            i < self@.len(),
        ensures
            r@ == self@[i as int],
    {
        &self.selects[i]
    }

    /// Puts entry `(k, v)` into the projection of select `i`.
    fn put_entry(&mut self, i: usize, k: LocalId, v: QueryField)
        requires
            i < old(self)@.len(),
            unique_keys(old(self)@[i as int].projection),
        ensures
            final(self)@ == old(self)@.update(i as int, with_entry(old(self)@[i as int], k, v@)),
    {
        let ghost p = self@[i as int].projection;
        let ghost vv = v@;
        let mut idx: usize = 0;
        let len = self.selects[i].projection.len();
        while idx < len
            invariant
                i < self@.len(),
                self@[i as int].projection == p,
                len == p.len(),
                idx <= len,
                forall|x: int| 0 <= x < idx ==> p[x].0 != k,
            ensures
                i < self@.len(),
                self@[i as int].projection == p,
                idx <= len,
                forall|x: int| 0 <= x < idx ==> p[x].0 != k,
                idx < len ==> p[idx as int].0 == k,
            decreases len - idx,
        {
            if self.selects[i].projection[idx].0 == k {
                break;
            }
            idx = idx + 1;
        }
        proof {
            lemma_key_index(p, k);
        }
        let ghost old_view = self@;
        if idx < len {
            assert(p[idx as int].0 == k);
            self.selects[i].projection.set(idx, (k, v));
        } else {
            self.selects[i].projection.push((k, v));
        }
        assert(self@[i as int].projection =~= put(p, k, vv));
        assert(self@ =~= old_view.update(i as int, with_entry(old_view[i as int], k, vv)));
    }

    /// Projects `field` onto the select of `probing`. A column becomes a
    /// primitive entry; a relation creates a nested select, with the next
    /// alias, and a foreign entry that refers to it. An entry with the same
    /// `LocalId` is replaced. Returns the capability for the nested select.
    pub fn project_and_probe(&mut self, probing: &Probing, field: Field) -> (r: Option<Probing>)
        requires
            old(self).wf(),
            probing@ < old(self)@.len(),
            field.wf(),
            field.kind is Foreign ==> old(self)@.len() < MAX_SELECTS,
        ensures
            final(self).wf(),
            final(self)@ == project_spec(old(self)@, probing@ as int, field),
            match field.kind {
                FieldKind::Primitive => r is None,
                FieldKind::Foreign(_) => r matches Some(p) && p@ == old(self)@.len(),
            },
    {
        let i = probing.select;
        let ghost m = self@;
        proof {
            reveal(tree_wf);
        }
        let Field { name, local_id, kind } = field;
        match kind {
            FieldKind::Primitive => {
                proof {
                    lemma_put(m[i as int].projection, local_id, EntryView::Primitive(name@));
                }
                self.put_entry(i, local_id, QueryField::Primitive { column: name });
                proof {
                    lemma_primitive_wf(m, i as int, local_id, name@);
                }
                None
            },
            FieldKind::Foreign(rel) => {
                let ghost rv = rel@;
                let join_child = rel.join_predicate();
                let (table, join_entry, filter, range) = rel.into_parts();
                let child_filter = lower_logic(LogicOp::And, Some(join_child), filter);
                let j = self.selects.len();
                let child = Select {
                    from: TableAlias { table, alias: j as u16 },
                    projection: Vec::new(),
                    filter: child_filter,
                    range,
                };
                self.selects.push(child);
                assert(self@[j as int].projection =~= Seq::empty());
                assert(self@ =~= m.push(child_view(rv, m.len())));
                proof {
                    lemma_put(m[i as int].projection, local_id, EntryView::Foreign(m.len(), join_clause(rv.join)));
                }
                self.put_entry(i, local_id, QueryField::Foreign { select: j, join_predicate: join_entry });
                proof {
                    lemma_foreign_wf(m, i as int, local_id, rv);
                }
                Some(Probing { select: j })
            },
        }
    }
}

proof fn lemma_primitive_wf(m: Seq<SelectView>, i: int, k: LocalId, column: Seq<char>)
    requires
        tree_wf(m),
        0 <= i < m.len(),
    ensures
        tree_wf(m.update(i, with_entry(m[i], k, EntryView::Primitive(column)))),
{
    reveal(tree_wf);
    let v = EntryView::Primitive(column);
    let m2 = m.update(i, with_entry(m[i], k, v));
    lemma_put(m[i].projection, k, v);
    assert forall|i2: int, k2: int, j: int| #[trigger] is_child(m2, i2, k2, j) implies is_child(m, i2, k2, j) by {
        if i2 == i {
            assert(put(m[i].projection, k, v)[k2] == m[i].projection[k2]);
        }
    }
    assert forall|x: int| 0 <= x < m2.len() implies (#[trigger] m2[x]).alias == x && unique_keys(m2[x].projection)
        && wf_opt(m2[x].filter) by {
        assert(m[x].alias == x);
    }
    assert forall|x: int, y: int| 0 <= x < m2.len() && 0 <= y < m2[x].projection.len() implies entry_wf(
        #[trigger] m2[x].projection[y].1,
    ) by {
        if x == i {
            assert(put(m[i].projection, k, v)[y] == if y < m[i].projection.len() && m[i].projection[y].0 != k {
                m[i].projection[y]
            } else {
                (k, v)
            });
        }
    }
}

proof fn lemma_foreign_wf(m: Seq<SelectView>, i: int, k: LocalId, r: ForeignView)
    requires
        tree_wf(m),
        0 <= i < m.len(),
        m.len() < MAX_SELECTS,
        r.join.len() >= 1,
        wf_opt(r.filter),
    ensures
        tree_wf(
            m.push(child_view(r, m.len())).update(
                i,
                with_entry(m[i], k, EntryView::Foreign(m.len(), join_clause(r.join))),
            ),
        ),
{
    reveal(tree_wf);
    let n = m.len();
    let v = EntryView::Foreign(n, join_clause(r.join));
    let m1 = m.push(child_view(r, n));
    let m2 = m1.update(i, with_entry(m[i], k, v));
    lemma_put(m[i].projection, k, v);
    lemma_key_index(put(m[i].projection, k, v), k);
    assert forall|i2: int, k2: int, j: int| #[trigger] is_child(m2, i2, k2, j) implies is_child(m, i2, k2, j)
        || (i2 == i && put(m[i].projection, k, v)[k2].0 == k && j == n) by {
        if i2 == i {
            assert(put(m[i].projection, k, v)[k2] == if k2 < m[i].projection.len() && m[i].projection[k2].0 != k {
                m[i].projection[k2]
            } else {
                (k, v)
            });
        } else if i2 < n {
            assert(m2[i2] == m[i2]);
        }
    }
    lemma_join_clause_wf(r.join);
    lemma_combine_wf(LogicOp::And, Some(join_clause(r.join)), r.filter);
    assert forall|x: int| 0 <= x < m2.len() implies (#[trigger] m2[x]).alias == x && unique_keys(m2[x].projection)
        && wf_opt(m2[x].filter) by {
        if x < n {
            assert(m[x].alias == x);
        }
    }
    assert forall|x: int, y: int| 0 <= x < m2.len() && 0 <= y < m2[x].projection.len() implies entry_wf(
        #[trigger] m2[x].projection[y].1,
    ) by {
        if x == i {
            assert(put(m[i].projection, k, v)[y] == if y < m[i].projection.len() && m[i].projection[y].0 != k {
                m[i].projection[y]
            } else {
                (k, v)
            });
        } else if x < n {
            assert(m2[x] == m[x]);
        }
    }
    assert forall|i2: int, k2: int, j: int| #[trigger] is_child(m2, i2, k2, j) implies i2 < j < m2.len() by {
        if !is_child(m, i2, k2, j) {
            assert(j == n);
        }
    }
    assert forall|i1: int, k1: int, i2: int, k2: int, j: int|
        #[trigger] is_child(m2, i1, k1, j) && #[trigger] is_child(m2, i2, k2, j) implies i1 == i2 && k1 == k2 by {
        let updated = put(m[i].projection, k, v);
        if is_child(m, i1, k1, j) && is_child(m, i2, k2, j) {
        } else if is_child(m, i1, k1, j) {
            assert(j < n);
        } else if is_child(m, i2, k2, j) {
            assert(j < n);
        } else {
            assert(updated[k1].0 == k && updated[k2].0 == k);
            assert(unique_keys(updated));
        }
    }
}

/// The entry that projecting `f` puts into a select, when the next select is `n`.
pub open spec fn entry_of(f: Field, n: nat) -> EntryView {
    match f.kind {
        FieldKind::Primitive => EntryView::Primitive(f.name@),
        FieldKind::Foreign(rel) => EntryView::Foreign(n, join_clause(rel@.join)),
    }
}

/// Projection only grows the projection maps: projecting `f` onto select `i`
/// keeps every key of every select, adds the key of `f` to select `i` with its
/// entry, and a key that was already there is replaced, not repeated.
pub proof fn lemma_projection_monotonic(m: Seq<SelectView>, i: int, f: Field)
    requires
        tree_wf(m),
        0 <= i < m.len(),
        f.wf(),
        f.kind is Foreign ==> m.len() < MAX_SELECTS,
    ensures
        tree_wf(project_spec(m, i, f)),
        project_spec(m, i, f).len() >= m.len(),
        forall|x: int|
            0 <= x < m.len() ==> projection_map(m[x].projection).dom().subset_of(
                projection_map(#[trigger] project_spec(m, i, f)[x].projection).dom(),
            ),
        projection_map(project_spec(m, i, f)[i].projection) == projection_map(m[i].projection).insert(
            f.local_id,
            entry_of(f, m.len()),
        ),
        unique_keys(project_spec(m, i, f)[i].projection),
        project_spec(m, i, f)[i].projection.len() == m[i].projection.len() + if projection_map(
            m[i].projection,
        ).contains_key(f.local_id) {
            0int
        } else {
            1int
        },
{
    let m2 = project_spec(m, i, f);
    reveal(tree_wf);
    lemma_put(m[i].projection, f.local_id, entry_of(f, m.len()));
    match f.kind {
        FieldKind::Primitive => lemma_primitive_wf(m, i, f.local_id, f.name@),
        FieldKind::Foreign(rel) => lemma_foreign_wf(m, i, f.local_id, rel@),
    }
    assert forall|x: int|
        0 <= x < m.len() implies projection_map(m[x].projection).dom().subset_of(
            projection_map(#[trigger] m2[x].projection).dom(),
        ) by {
        if x != i {
            assert(m2[x] == m[x]);
        }
    }
}

/// A whole probe pass only grows the projection maps: after projecting `fs`
/// in order onto select `i`, every select keeps every key it had.
pub proof fn lemma_probe_pass_monotonic(m: Seq<SelectView>, i: int, fs: Seq<Field>)
    requires
        tree_wf(m),
        0 <= i < m.len(),
        forall|k: int| 0 <= k < fs.len() ==> (#[trigger] fs[k]).wf(),
        m.len() + crate::node::foreign_count(fs) <= MAX_SELECTS,
    ensures
        tree_wf(crate::node::project_all(m, i, fs)),
        crate::node::project_all(m, i, fs).len() >= m.len(),
        forall|x: int|
            0 <= x < m.len() ==> projection_map(m[x].projection).dom().subset_of(
                projection_map(#[trigger] crate::node::project_all(m, i, fs)[x].projection).dom(),
            ),
    decreases fs.len(),
{
    if fs.len() > 0 {
        let m1 = project_spec(m, i, fs[0]);
        lemma_projection_monotonic(m, i, fs[0]);
        assert(m1.len() == m.len() + if fs[0].kind is Foreign { 1int } else { 0int });
        assert forall|k: int| 0 <= k < fs.drop_first().len() implies (#[trigger] fs.drop_first()[k]).wf() by {
            assert(fs.drop_first()[k] == fs[k + 1]);
        }
        lemma_probe_pass_monotonic(m1, i, fs.drop_first());
        let m2 = crate::node::project_all(m1, i, fs.drop_first());
        assert forall|x: int|
            0 <= x < m.len() implies projection_map(m[x].projection).dom().subset_of(
                projection_map(#[trigger] crate::node::project_all(m, i, fs)[x].projection).dom(),
            ) by {
            assert(projection_map(m[x].projection).dom().subset_of(projection_map(m1[x].projection).dom()));
            assert(projection_map(m1[x].projection).dom().subset_of(projection_map(m2[x].projection).dom()));
        }
    }
}

/// Filtering or ranging a relation never changes what is projected: projecting
/// two relations with the same table and join columns gives the same tree but
/// for the filter and range of the nested select.
pub proof fn lemma_filter_keeps_projection(m: Seq<SelectView>, i: int, f1: Field, f2: Field)
    requires
        0 <= i < m.len(),
        f1.local_id == f2.local_id,
        f1.kind matches FieldKind::Foreign(r1) && f2.kind matches FieldKind::Foreign(r2)
            && r1@.table == r2@.table && r1@.join == r2@.join,
    ensures
        project_spec(m, i, f1).len() == project_spec(m, i, f2).len() == m.len() + 1,
        forall|x: int|
            0 <= x < m.len() + 1 ==> (#[trigger] project_spec(m, i, f1)[x]).projection == project_spec(
                m,
                i,
                f2,
            )[x].projection && project_spec(m, i, f1)[x].table == project_spec(m, i, f2)[x].table
                && project_spec(m, i, f1)[x].alias == project_spec(m, i, f2)[x].alias,
        forall|x: int|
            0 <= x < m.len() ==> #[trigger] project_spec(m, i, f1)[x] == project_spec(m, i, f2)[x],
{
    let a = project_spec(m, i, f1);
    let b = project_spec(m, i, f2);
    assert forall|x: int| 0 <= x < m.len() implies #[trigger] a[x] == b[x] by {}
}

} // verus!
