//! The root of a query: a table with an optional filter and row range, from
//! which probing starts.
use vstd::prelude::*;
use crate::engine::{Engine, SelectView};
use crate::field::RowRange;
use crate::lower::{combine, lemma_combine_wf, lower_logic, opt_model, wf_opt, Clause, LogicOp, LowerWhere, Lowered};
use crate::engine::MAX_SELECTS;
use crate::node::{Node, Phase, UrmError, UrmResult};
use crate::probe::{needed, picks_wf, probe_selection, walk, Pick};

verus! {

/// A select over one table, before probing.
pub struct Select {
    table: String,
    filter: Option<Lowered>,
    range: Option<RowRange>,
}

/// Mathematical model of a query.
pub struct QueryView {
    pub table: Seq<char>,
    pub filter: Option<Clause>,
    pub range: Option<RowRange>,
}

impl Select {
    /// The filter is a well-formed lowering.
    pub open spec fn wf(&self) -> bool {
        wf_opt(self@.filter)
    }
}

impl View for Select {
    type V = QueryView;

    closed spec fn view(&self) -> QueryView {
        QueryView { table: self.table@, filter: opt_model(self.filter), range: self.range }
    }
}

/// Selects everything from `table`.
pub fn select(table: &str) -> (r: Select)
    ensures
        r.wf(),
        r@ == (QueryView { table: table@, filter: None, range: None }),
{
    Select { table: table.to_string(), filter: None, range: None }
}

impl Select {
    /// Adds a condition: filtering twice filters by the conjunction of both.
    pub fn filter<W: LowerWhere>(self, w: W) -> (r: Select)
        requires
            self.wf(),
        ensures
            r.wf(),
            r@ == (QueryView { filter: combine(LogicOp::And, self@.filter, w.lowered_where()), ..self@ }),
    {
        let lowered = w.lower_where();
        proof {
            lemma_combine_wf(LogicOp::And, self@.filter, w.lowered_where());
        }
        Select { table: self.table, filter: lower_logic(LogicOp::And, self.filter, lowered), range: self.range }
    }

    /// Sets the range of rows.
    pub fn range(self, range: RowRange) -> (r: Select)
        requires
            self.wf(),
        ensures
            r.wf(),
            r@ == (QueryView { range: Some(range), ..self@ }),
    {
        Select { table: self.table, filter: self.filter, range: Some(range) }
    }

    /// Starts probing: a query tree holding the root select, at alias 0, and
    /// the node in the probe phase for it.
    pub fn probe(self) -> (r: (Engine, Node))
        requires
            self.wf(),
        ensures
            r.0.wf(),
            r.0@ == seq![
                SelectView {
                    table: self@.table,
                    alias: 0,
                    projection: Seq::empty(),
                    filter: self@.filter,
                    range: self@.range,
                },
            ],
            r.1@ matches Phase::Probe(p) && p@ == 0,
    {
        let (engine, probing) = Engine::new_select(self.table.as_str(), self.filter, self.range);
        (engine, Node::new_probe(probing))
    }
}

impl Select {
    /// Probes the whole selection from the root select: the query tree that a
    /// depth-first walk of `selection` builds.
    pub fn probe_with(self, selection: Vec<Pick>) -> (r: UrmResult<Engine>)
        requires
            self.wf(),
            picks_wf(selection@),
        ensures
            1 + needed(selection@) <= MAX_SELECTS ==> (r matches Ok(e) && e.wf() && e@ == walk(
                seq![
                    SelectView {
                        table: self@.table,
                        alias: 0,
                        projection: Seq::empty(),
                        filter: self@.filter,
                        range: self@.range,
                    },
                ],
                0,
                selection@,
            )),
            1 + needed(selection@) > MAX_SELECTS ==> r == Err::<Engine, UrmError>(UrmError::Probe),
    {
        let (mut engine, root) = self.probe();
        match probe_selection(&mut engine, &root, selection) {
            Ok(()) => Ok(engine),
            Err(e) => Err(e),
        }
    }
}

} // verus!
