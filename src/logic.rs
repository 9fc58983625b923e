//! Logical combinators of boolean expressions.
use vstd::prelude::*;
use crate::lower::{
    combine, lemma_combine_wf, lower_logic, wf_opt, clauses_of, Clause, Lower,
    LogicOp, Lowered, node,
};
use crate::ty::{Nullable, ScalarTyped, Typed};

verus! {

/// Logical conjunction of two clauses.
///
/// To use more than two clauses, nest it: `And(x, And(y, z))`.
pub struct And<L, R>(pub L, pub R);

impl<L, R> Typed for And<L, R> {
    type Ty = Nullable<bool>;
}

impl<L, R> Lower for And<L, R> where L: Lower + ScalarTyped<bool>, R: Lower + ScalarTyped<bool> {
    open spec fn lowered(&self) -> Option<Clause> {
        combine(LogicOp::And, self.0.lowered(), self.1.lowered())
    }

    proof fn lemma_lowered_wf(&self) {
        self.0.lemma_lowered_wf();
        self.1.lemma_lowered_wf();
        lemma_combine_wf(LogicOp::And, self.0.lowered(), self.1.lowered());
    }

    fn lower(self) -> (r: Option<Lowered>) {
        let lhs = self.0.lower();
        let rhs = self.1.lower();
        lower_logic(LogicOp::And, lhs, rhs)
    }
}

/// Logical disjunction of two clauses.
///
/// To use more than two clauses, nest it: `Or(x, Or(y, z))`.
pub struct Or<L, R>(pub L, pub R);

impl<L, R> Typed for Or<L, R> {
    type Ty = Nullable<bool>;
}

impl<L, R> Lower for Or<L, R> where L: Lower + ScalarTyped<bool>, R: Lower + ScalarTyped<bool> {
    open spec fn lowered(&self) -> Option<Clause> {
        combine(LogicOp::Or, self.0.lowered(), self.1.lowered())
    }

    proof fn lemma_lowered_wf(&self) {
        self.0.lemma_lowered_wf();
        self.1.lemma_lowered_wf();
        lemma_combine_wf(LogicOp::Or, self.0.lowered(), self.1.lowered());
    }

    fn lower(self) -> (r: Option<Lowered>) {
        let lhs = self.0.lower();
        let rhs = self.1.lower();
        lower_logic(LogicOp::Or, lhs, rhs)
    }
}

/// Conjunction is flattened: lowering `And(And(a, b), And(c, d))` yields the
/// same flat list of clauses as lowering `And(a, And(b, And(c, d)))`.
pub proof fn lemma_and_flattening<A, B, C, D>(a: A, b: B, c: C, d: D)
    where
        A: Lower + ScalarTyped<bool>,
        B: Lower + ScalarTyped<bool>,
        C: Lower + ScalarTyped<bool>,
        D: Lower + ScalarTyped<bool>,
    ensures
        And(And(a, b), And(c, d)).lowered() == And(a, And(b, And(c, d))).lowered(),
        clauses_of(LogicOp::And, And(And(a, b), And(c, d)).lowered()) == clauses_of(
            LogicOp::And,
            a.lowered(),
        ) + clauses_of(LogicOp::And, b.lowered()) + clauses_of(LogicOp::And, c.lowered())
            + clauses_of(LogicOp::And, d.lowered()),
{
    a.lemma_lowered_wf();
    b.lemma_lowered_wf();
    c.lemma_lowered_wf();
    d.lemma_lowered_wf();
    lemma_flattening(LogicOp::And, a.lowered(), b.lowered(), c.lowered(), d.lowered());
}

/// Disjunction is flattened in the same way as conjunction.
pub proof fn lemma_or_flattening<A, B, C, D>(a: A, b: B, c: C, d: D)
    where
        A: Lower + ScalarTyped<bool>,
        B: Lower + ScalarTyped<bool>,
        C: Lower + ScalarTyped<bool>,
        D: Lower + ScalarTyped<bool>,
    ensures
        Or(Or(a, b), Or(c, d)).lowered() == Or(a, Or(b, Or(c, d))).lowered(),
        clauses_of(LogicOp::Or, Or(Or(a, b), Or(c, d)).lowered()) == clauses_of(
            LogicOp::Or,
            a.lowered(),
        ) + clauses_of(LogicOp::Or, b.lowered()) + clauses_of(LogicOp::Or, c.lowered())
            + clauses_of(LogicOp::Or, d.lowered()),
{
    a.lemma_lowered_wf();
    b.lemma_lowered_wf();
    c.lemma_lowered_wf();
    d.lemma_lowered_wf();
    lemma_flattening(LogicOp::Or, a.lowered(), b.lowered(), c.lowered(), d.lowered());
}

proof fn lemma_flattening(
    op: LogicOp,
    a: Option<Clause>,
    b: Option<Clause>,
    c: Option<Clause>,
    d: Option<Clause>,
)
    requires
        wf_opt(a),
        wf_opt(b),
        wf_opt(c),
        wf_opt(d),
    ensures
        combine(op, combine(op, a, b), combine(op, c, d)) == combine(
            op,
            a,
            combine(op, b, combine(op, c, d)),
        ),
        clauses_of(op, combine(op, combine(op, a, b), combine(op, c, d))) == clauses_of(op, a)
            + clauses_of(op, b) + clauses_of(op, c) + clauses_of(op, d),
{
    let (ca, cb, cc, cd) = (clauses_of(op, a), clauses_of(op, b), clauses_of(op, c), clauses_of(op, d));
    lemma_combine_wf(op, a, b);
    lemma_combine_wf(op, c, d);
    lemma_combine_wf(op, combine(op, a, b), combine(op, c, d));
    lemma_combine_wf(op, b, combine(op, c, d));
    lemma_combine_wf(op, a, combine(op, b, combine(op, c, d)));
    assert((ca + cb) + (cc + cd) =~= ca + (cb + (cc + cd)));
    assert((ca + cb) + (cc + cd) =~= ca + cb + cc + cd);
}

/// Absent operands collapse: `op` over two absent operands is absent, and over
/// one present operand it is that operand itself, never a singleton node.
pub proof fn lemma_collapse_absent(op: LogicOp, x: Option<Clause>)
    requires
        wf_opt(x),
    ensures
        combine(op, None, None) == None::<Clause>,
        combine(op, x, None) == x,
        combine(op, None, x) == x,
{
    assert(clauses_of(op, x) + Seq::empty() =~= clauses_of(op, x));
    assert(Seq::empty() + clauses_of(op, x) =~= clauses_of(op, x));
    match x {
        Some(c) => {
            if c.is_node(op) {
                assert(node(op, c.operands()) == c);
            }
        },
        None => {},
    }
}

} // verus!
