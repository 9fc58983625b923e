//! Field descriptors: a column, or a relation into a foreign table with its
//! join columns, quantification, filter and row range.
use vstd::prelude::*;
use crate::expr::{Expr, Operand};
use crate::lower::{
    combine, lemma_combine_wf, lower_logic, opt_model, optimize, vec_model, wf, wf_opt, Clause, LogicOp,
    LowerWhere, Lowered,
};
use crate::ty::{Typed, Unit};
use crate::LocalId;

verus! {

/// How the unit of a relation is quantified into its output.
#[derive(Clone, Copy, Debug, PartialEq, Eq, Structural)]
pub enum Quantified {
    /// Exactly one related entity.
    AsSelf,
    /// At most one related entity.
    AsOption,
    /// Any number of related entities.
    AsVec,
}

/// The half-open range of rows that a select returns.
#[derive(Clone, Copy, Debug, PartialEq, Eq, Structural)]
pub struct RowRange {
    pub start: Option<usize>,
    pub end: Option<usize>,
}

/// One equality of a join: `local` column of the owning table equals
/// `foreign` column of the related table.
pub struct ColumnEq {
    pub local: String,
    pub foreign: String,
}

/// Which side of a relation holds the foreign key.
#[derive(Clone, Copy, Debug, PartialEq, Eq, Structural)]
pub enum Direction {
    /// The owning table's columns point at the foreign table: one related entity.
    SelfReferencesForeign,
    /// The foreign table's columns point at the owning table: a collection.
    ForeignReferencesSelf,
}

/// The table named on one side of a relation declaration.
pub enum Table {
    /// The owning table.
    SelfTable,
    /// Another table, by name.
    Foreign(String),
}

/// One side of a relation declaration: a table and some of its columns.
pub struct ColumnTuple {
    pub table: Table,
    pub columns: Vec<String>,
}

/// Why a relation declaration is refused.
#[derive(Clone, Copy, Debug, PartialEq, Eq, Structural)]
pub enum RelationError {
    /// Both sides name the owning table.
    SelfReference,
    /// Neither side names the owning table.
    NoSelf,
    /// The two sides list different numbers of columns.
    ColumnCountMismatch,
    /// No columns are listed.
    NoColumns,
}

/// A relation from the owning table into a foreign table.
pub struct Foreign {
    table: String,
    join: Vec<ColumnEq>,
    quantified: Quantified,
    filter: Option<Lowered>,
    range: Option<RowRange>,
}

/// Mathematical model of a relation.
pub struct ForeignView {
    pub table: Seq<char>,
    pub join: Seq<ColumnEq>,
    pub quantified: Quantified,
    pub filter: Option<Clause>,
    pub range: Option<RowRange>,
}

/// The clause `parent.local = child.foreign` of one join pair.
pub open spec fn eq_clause(pair: ColumnEq) -> Clause {
    Clause::Expr(Expr::Equals(Operand::Outer(pair.local), Operand::Column(pair.foreign)))
}

/// The join predicate of a non-empty list of join pairs: the single equality,
/// or the conjunction of all of them.
pub open spec fn join_clause(join: Seq<ColumnEq>) -> Clause {
    if join.len() == 1 {
        eq_clause(join[0])
    } else {
        Clause::And(join.map_values(|p: ColumnEq| eq_clause(p)))
    }
}

/// The join pairs of two column lists, one by one.
pub open spec fn pairs(local: Seq<String>, foreign: Seq<String>) -> Seq<ColumnEq> {
    Seq::new(local.len(), |i: int| ColumnEq { local: local[i], foreign: foreign[i] })
}

/// What `Foreign::new` returns for these arguments.
pub open spec fn paired(
    r: Result<Foreign, RelationError>,
    table: Seq<char>,
    local: Seq<String>,
    foreign: Seq<String>,
    quantified: Quantified,
) -> bool {
    if local.len() != foreign.len() {
        r == Err::<Foreign, _>(RelationError::ColumnCountMismatch)
    } else if local.len() == 0 {
        r == Err::<Foreign, _>(RelationError::NoColumns)
    } else {
        r matches Ok(rel) && rel.wf() && rel@ == (ForeignView {
            table,
            join: pairs(local, foreign),
            quantified,
            filter: None,
            range: None,
        })
    }
}

/// The quantification that a direction implies.
pub open spec fn direction_quantified(dir: Direction) -> Quantified {
    match dir {
        Direction::SelfReferencesForeign => Quantified::AsSelf,
        Direction::ForeignReferencesSelf => Quantified::AsVec,
    }
}

/// What `Foreign::declare` returns for a declaration in direction `dir`.
pub open spec fn declared(
    r: Result<(Foreign, Direction), RelationError>,
    table: Seq<char>,
    local: Seq<String>,
    foreign: Seq<String>,
    dir: Direction,
) -> bool {
    if local.len() != foreign.len() {
        r == Err::<(Foreign, Direction), _>(RelationError::ColumnCountMismatch)
    } else if local.len() == 0 {
        r == Err::<(Foreign, Direction), _>(RelationError::NoColumns)
    } else {
        r matches Ok((rel, d)) && d == dir && rel.wf() && rel@ == (ForeignView {
            table,
            join: pairs(local, foreign),
            quantified: direction_quantified(dir),
            filter: None,
            range: None,
        })
    }
}

/// The join predicate of a non-empty list of join pairs is a well-formed lowering.
pub proof fn lemma_join_clause_wf(join: Seq<ColumnEq>)
    requires
        join.len() >= 1,
    ensures
        wf(join_clause(join)),
{
    if join.len() >= 2 {
        let s = join.map_values(|p: ColumnEq| eq_clause(p));
        assert forall|i: int| 0 <= i < s.len() implies !(s[i] is And) && wf(#[trigger] s[i]) by {
            assert(s[i] == eq_clause(join[i]));
        }
    }
}

impl View for Foreign {
    type V = ForeignView;

    closed spec fn view(&self) -> ForeignView {
        ForeignView {
            table: self.table@,
            join: self.join@,
            quantified: self.quantified,
            filter: opt_model(self.filter),
            range: self.range,
        }
    }
}

impl Foreign {
    /// A relation has at least one join pair, and its filter is a well-formed lowering.
    pub open spec fn wf(&self) -> bool {
        self@.join.len() >= 1 && wf_opt(self@.filter)
    }

    /// Pairs the local and foreign columns of a relation into `table`, one by one.
    pub fn new(table: &str, local: Vec<String>, foreign: Vec<String>, quantified: Quantified) -> (r:
        Result<Foreign, RelationError>)
        ensures
            paired(r, table@, local@, foreign@, quantified),
    {
        if local.len() != foreign.len() {
            return Err(RelationError::ColumnCountMismatch);
        }
        if local.len() == 0 {
            return Err(RelationError::NoColumns);
        }
        let mut join: Vec<ColumnEq> = Vec::new();
        let mut i: usize = 0;
        while i < local.len()
            invariant
                local@.len() == foreign@.len(),
                i <= local@.len(),
                join@ == pairs(local@, foreign@).subrange(0, i as int),
            decreases local@.len() - i,
        {
            let pair = ColumnEq { local: local[i].clone(), foreign: foreign[i].clone() };
            join.push(pair);
            i = i + 1;
            assert(join@ =~= pairs(local@, foreign@).subrange(0, i as int));
        }
        assert(join@ =~= pairs(local@, foreign@));
        Ok(Foreign { table: table.to_string(), join, quantified, filter: None, range: None })
    }

    /// Reads a relation declaration `first => second`, where one side names the
    /// owning table and the other the foreign table. When the foreign table's
    /// columns point at the owning table the relation is a collection.
    pub fn declare(first: ColumnTuple, second: ColumnTuple) -> (r: Result<(Foreign, Direction), RelationError>)
        ensures
            match (first.table, second.table) {
                (Table::SelfTable, Table::SelfTable) => r == Err::<(Foreign, Direction), _>(
                    RelationError::SelfReference,
                ),
                (Table::Foreign(_), Table::Foreign(_)) => r == Err::<(Foreign, Direction), _>(
                    RelationError::NoSelf,
                ),
                (Table::SelfTable, Table::Foreign(t)) => declared(
                    r,
                    t@,
                    first.columns@,
                    second.columns@,
                    Direction::SelfReferencesForeign,
                ),
                (Table::Foreign(t), Table::SelfTable) => declared(
                    r,
                    t@,
                    second.columns@,
                    first.columns@,
                    Direction::ForeignReferencesSelf,
                ),
            },
    {
        match (first.table, second.table) {
            (Table::SelfTable, Table::Foreign(path)) => {
                match Foreign::new(path.as_str(), first.columns, second.columns, Quantified::AsSelf) {
                    Ok(rel) => Ok((rel, Direction::SelfReferencesForeign)),
                    Err(e) => Err(e),
                }
            },
            (Table::Foreign(path), Table::SelfTable) => {
                match Foreign::new(path.as_str(), second.columns, first.columns, Quantified::AsVec) {
                    Ok(rel) => Ok((rel, Direction::ForeignReferencesSelf)),
                    Err(e) => Err(e),
                }
            },
            (Table::SelfTable, Table::SelfTable) => Err(RelationError::SelfReference),
            (Table::Foreign(_), Table::Foreign(_)) => Err(RelationError::NoSelf),
        }
    }

    /// Whether the relation leads to a collection of entities.
    pub fn is_collection(&self) -> (r: bool)
        ensures
            r == (self@.quantified == Quantified::AsVec),
    {
        self.quantified == Quantified::AsVec
    }

    /// How the related entities are quantified.
    pub fn quantified(&self) -> (r: Quantified)
        ensures
            r == self@.quantified,
    {
        self.quantified
    }

    /// The foreign table.
    pub fn table(&self) -> (r: &str)
        ensures
            r@ == self@.table,
    {
        self.table.as_str()
    }

    /// Adds a condition on the foreign table: filtering twice filters by the
    /// conjunction of both conditions.
    pub fn filter<W: LowerWhere>(self, w: W) -> (r: Foreign)
        requires
            self.wf(),
        ensures
            r.wf(),
            r@ == (ForeignView { filter: combine(LogicOp::And, self@.filter, w.lowered_where()), ..self@ }),
    {
        let lowered = w.lower_where();
        proof {
            lemma_combine_wf(LogicOp::And, self@.filter, w.lowered_where());
        }
        let filter = lower_logic(LogicOp::And, self.filter, lowered);
        Foreign { table: self.table, join: self.join, quantified: self.quantified, filter, range: self.range }
    }

    /// Sets the range of rows taken from the foreign table.
    pub fn range(self, range: RowRange) -> (r: Foreign)
        requires
            self.wf(),
        ensures
            r.wf(),
            r@ == (ForeignView { range: Some(range), ..self@ }),
    {
        Foreign { table: self.table, join: self.join, quantified: self.quantified, filter: self.filter, range: Some(range) }
    }

    /// The join predicate: each local column of the enclosing select equals the
    /// paired column of the foreign table.
    pub fn join_predicate(&self) -> (r: Lowered)
        requires
            self.wf(),
        ensures
            r.model() == join_clause(self@.join),
    {
        let mut clauses: Vec<Lowered> = Vec::new();
        let mut i: usize = 0;
        while i < self.join.len()
            invariant
                i <= self.join@.len(),
                vec_model(clauses) == Seq::new(i as nat, |j: int| eq_clause(self.join@[j])),
            decreases self.join@.len() - i,
        {
            let pair = &self.join[i];
            let e = Expr::Equals(Operand::Outer(pair.local.clone()), Operand::Column(pair.foreign.clone()));
            assert(Clause::Expr(e) == eq_clause(self.join@[i as int]));
            let ghost before = vec_model(clauses);
            clauses.push(Lowered::Expr(e));
            assert(vec_model(clauses) =~= before.push(eq_clause(self.join@[i as int])));
            i = i + 1;
            assert(vec_model(clauses) =~= Seq::new(i as nat, |j: int| eq_clause(self.join@[j])));
        }
        let ghost all = vec_model(clauses);
        assert(all =~= self.join@.map_values(|p: ColumnEq| eq_clause(p)));
        match optimize(LogicOp::And, clauses) {
            Some(l) => l,
            None => Lowered::And(Vec::new()),
        }
    }

    /// Takes the relation apart into its table, join predicate, filter and range.
    pub(crate) fn into_parts(self) -> (r: (String, Lowered, Option<Lowered>, Option<RowRange>))
        requires
            self.wf(),
        ensures
            r.0@ == self@.table,
            r.1.model() == join_clause(self@.join),
            opt_model(r.2) == self@.filter,
            r.3 == self@.range,
    {
        let join = self.join_predicate();
        (self.table, join, self.filter, self.range)
    }
}

/// A typed projection of a plain column, whose value has type `Out`.
pub struct Primitive<Out> {
    name: String,
    local_id: LocalId,
    out: core::marker::PhantomData<Out>,
}

impl<Out> Primitive<Out> {
    /// The column name.
    pub closed spec fn spec_name(&self) -> Seq<char> {
        self.name@
    }

    /// The key of the column in its table.
    pub closed spec fn spec_local_id(&self) -> LocalId {
        self.local_id
    }

    /// The projection of column `name`, keyed `local_id` in its table.
    pub fn new(name: &str, local_id: LocalId) -> (r: Self)
        ensures
            r.spec_name() == name@,
            r.spec_local_id() == local_id,
    {
        Primitive { name: name.to_string(), local_id, out: core::marker::PhantomData }
    }

    /// The column name.
    pub fn name(&self) -> (r: &str)
        ensures
            r@ == self.spec_name(),
    {
        self.name.as_str()
    }

    /// The key of the column in its table.
    pub fn local_id(&self) -> (r: LocalId)
        ensures
            r == self.spec_local_id(),
    {
        self.local_id
    }

    /// The field that this projection puts into a select.
    pub fn into_field(self) -> (r: Field)
        ensures
            r.wf(),
            r.name@ == self.spec_name(),
            r.local_id == self.spec_local_id(),
            r.kind is Primitive,
    {
        Field { name: self.name, local_id: self.local_id, kind: FieldKind::Primitive }
    }
}

impl<Out> Typed for Primitive<Out> {
    type Ty = Unit<Out>;
}

/// What a field is.
pub enum FieldKind {
    /// A plain column.
    Primitive,
    /// A relation into a foreign table.
    Foreign(Foreign),
}

/// A field declared on a table, identified there by its `LocalId`.
pub struct Field {
    pub name: String,
    pub local_id: LocalId,
    pub kind: FieldKind,
}

impl Field {
    /// A relation field holds a well-formed relation.
    pub open spec fn wf(&self) -> bool {
        match self.kind {
            FieldKind::Primitive => true,
            FieldKind::Foreign(rel) => rel.wf(),
        }
    }

    /// A column field.
    pub fn primitive(name: &str, local_id: LocalId) -> (r: Field)
        ensures
            r.wf(),
            r.name@ == name@,
            r.local_id == local_id,
            r.kind is Primitive,
    {
        Field { name: name.to_string(), local_id, kind: FieldKind::Primitive }
    }

    /// A relation field.
    pub fn foreign(name: &str, local_id: LocalId, relation: Foreign) -> (r: Field)
        requires
            relation.wf(),
        ensures
            r.wf(),
            r.name@ == name@,
            r.local_id == local_id,
            r.kind == FieldKind::Foreign(relation),
    {
        Field { name: name.to_string(), local_id, kind: FieldKind::Foreign(relation) }
    }
}

} // verus!
