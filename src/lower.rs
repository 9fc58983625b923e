//! Lowering of logical expressions into a flat intermediate form.
use vstd::prelude::*;
use crate::expr::Expr;
use crate::ty::{ScalarTyped, Void};

verus! {

/// The normalized form of a boolean expression.
pub enum Lowered {
    And(Vec<Lowered>),
    Or(Vec<Lowered>),
    Expr(Expr),
}

/// Mathematical model of a `Lowered` expression.
pub enum Clause {
    And(Seq<Clause>),
    Or(Seq<Clause>),
    Expr(Expr),
}

impl Lowered {
    /// The mathematical model of this expression.
    pub open spec fn model(self) -> Clause
        decreases self,
    {
        match self {
            Lowered::And(v) => Clause::And(
                Seq::new(v@.len(), |i: int| if 0 <= i < v.len() { v[i].model() } else { Clause::And(seq![]) }),
            ),
            Lowered::Or(v) => Clause::Or(
                Seq::new(v@.len(), |i: int| if 0 <= i < v.len() { v[i].model() } else { Clause::And(seq![]) }),
            ),
            Lowered::Expr(e) => Clause::Expr(e),
        }
    }
}

/// A combinator has at least two operands, none of them a combinator of the
/// same kind, and its operands are well-formed themselves.
pub open spec fn wf(c: Clause) -> bool
    decreases c,
{
    match c {
        Clause::And(s) => s.len() >= 2 && forall|i: int| 0 <= i < s.len() ==> !(s[i] is And) && wf(s[i]),
        Clause::Or(s) => s.len() >= 2 && forall|i: int| 0 <= i < s.len() ==> !(s[i] is Or) && wf(s[i]),
        Clause::Expr(_) => true,
    }
}

/// The two logical combinators.
#[derive(Clone, Copy, PartialEq, Eq, Structural)]
pub enum LogicOp {
    And,
    Or,
}

impl Clause {
    /// Whether this clause is a combinator node of kind `op`.
    pub open spec fn is_node(self, op: LogicOp) -> bool {
        match op {
            LogicOp::And => self is And,
            LogicOp::Or => self is Or,
        }
    }

    /// The operands of a combinator node.
    pub open spec fn operands(self) -> Seq<Clause> {
        match self {
            Clause::And(s) => s,
            Clause::Or(s) => s,
            Clause::Expr(_) => Seq::empty(),
        }
    }
}

/// The combinator node of kind `op` over `s`.
pub open spec fn node(op: LogicOp, s: Seq<Clause>) -> Clause {
    match op {
        LogicOp::And => Clause::And(s),
        LogicOp::Or => Clause::Or(s),
    }
}

/// The clauses that a lowered operand contributes to a combinator of kind `op`:
/// none when absent, the operands of a node of the same kind, else the operand itself.
pub open spec fn clauses_of(op: LogicOp, c: Option<Clause>) -> Seq<Clause> {
    match c {
        None => Seq::empty(),
        Some(x) => if x.is_node(op) { x.operands() } else { seq![x] },
    }
}

/// Zero clauses are absent, one clause stands alone, more form a node of kind `op`.
pub open spec fn collapse(op: LogicOp, s: Seq<Clause>) -> Option<Clause> {
    if s.len() == 0 {
        None
    } else if s.len() == 1 {
        Some(s[0])
    } else {
        Some(node(op, s))
    }
}

/// The lowered form of `op` applied to two lowered operands.
pub open spec fn combine(op: LogicOp, x: Option<Clause>, y: Option<Clause>) -> Option<Clause> {
    collapse(op, clauses_of(op, x) + clauses_of(op, y))
}

/// Well-formedness of an absent or present lowered expression.
pub open spec fn wf_opt(c: Option<Clause>) -> bool {
    match c {
        None => true,
        Some(x) => wf(x),
    }
}

/// The model of an absent or present lowered expression.
pub open spec fn opt_model(l: Option<Lowered>) -> Option<Clause> {
    match l {
        None => None,
        Some(x) => Some(x.model()),
    }
}

/// The models of a list of lowered expressions.
pub open spec fn vec_model(v: Vec<Lowered>) -> Seq<Clause> {
    Seq::new(v@.len(), |i: int| v@[i].model())
}

proof fn lemma_node_model(op: LogicOp, v: Vec<Lowered>)
    ensures
        (match op {
            LogicOp::And => Lowered::And(v),
            LogicOp::Or => Lowered::Or(v),
        }).model() == node(op, vec_model(v)),
{
    let l = match op {
        LogicOp::And => Lowered::And(v),
        LogicOp::Or => Lowered::Or(v),
    };
    assert(l.model().operands() =~= vec_model(v));
}

/// Collapses a list of clauses of a combinator of kind `op`: no clause gives
/// nothing, one clause is returned unwrapped, more become one node.
pub fn optimize(op: LogicOp, clauses: Vec<Lowered>) -> (r: Option<Lowered>)
    ensures
        opt_model(r) == collapse(op, vec_model(clauses)),
{
    let mut clauses = clauses;
    if clauses.len() == 0 {
        None
    } else if clauses.len() == 1 {
        let c = clauses.remove(0);
        Some(c)
    } else {
        proof {
            lemma_node_model(op, clauses);
        }
        match op {
            LogicOp::And => Some(Lowered::And(clauses)),
            LogicOp::Or => Some(Lowered::Or(clauses)),
        }
    }
}

/// Appends the clauses that `operand` contributes to a combinator of kind `op`.
fn push_clauses(op: LogicOp, out: &mut Vec<Lowered>, operand: Option<Lowered>)
    ensures
        vec_model(*final(out)) == vec_model(*old(out)) + clauses_of(op, opt_model(operand)),
{
    match operand {
        None => {
            assert(vec_model(*out) =~= vec_model(*out) + Seq::<Clause>::empty());
        },
        Some(Lowered::And(v)) if op == LogicOp::And => {
            let mut v = v;
            proof {
                lemma_node_model(op, v);
            }
            let ghost before = vec_model(*out);
            let ghost added = vec_model(v);
            out.append(&mut v);
            assert(vec_model(*out) =~= before + added);
        },
        Some(Lowered::Or(v)) if op == LogicOp::Or => {
            let mut v = v;
            proof {
                lemma_node_model(op, v);
            }
            let ghost before = vec_model(*out);
            let ghost added = vec_model(v);
            out.append(&mut v);
            assert(vec_model(*out) =~= before + added);
        },
        Some(x) => {
            let ghost before = vec_model(*out);
            let ghost xm = x.model();
            out.push(x);
            assert(vec_model(*out) =~= before + seq![xm]);
        },
    }
}

/// Lowers `op` applied to two lowered operands, merging operands that are
/// themselves nodes of kind `op` into one flat list.
pub fn lower_logic(op: LogicOp, lhs: Option<Lowered>, rhs: Option<Lowered>) -> (r: Option<Lowered>)
    ensures
        opt_model(r) == combine(op, opt_model(lhs), opt_model(rhs)),
{
    let mut clauses: Vec<Lowered> = Vec::new();
    assert(vec_model(clauses) =~= Seq::<Clause>::empty());
    push_clauses(op, &mut clauses, lhs);
    push_clauses(op, &mut clauses, rhs);
    assert(vec_model(clauses) =~= clauses_of(op, opt_model(lhs)) + clauses_of(op, opt_model(rhs)));
    optimize(op, clauses)
}

/// Something that can be lowered into the normalized form.
pub trait Lower: Sized {
    /// The model of the lowered form; `None` stands for "absent", i.e. trivially true.
    spec fn lowered(&self) -> Option<Clause>;

    /// The lowered form is well-formed.
    proof fn lemma_lowered_wf(&self)
        ensures
            wf_opt(self.lowered()),
    ;

    fn lower(self) -> (r: Option<Lowered>)
        ensures
            opt_model(r) == self.lowered(),
    ;
}

/// Lowering of the condition of a `WHERE` clause.
pub trait LowerWhere {
    spec fn lowered_where(&self) -> Option<Clause>;

    fn lower_where(self) -> (r: Option<Lowered>)
        ensures
            opt_model(r) == self.lowered_where(),
            wf_opt(opt_model(r)),
    ;
}

impl<T: Lower + ScalarTyped<bool>> LowerWhere for T {
    open spec fn lowered_where(&self) -> Option<Clause> {
        self.lowered()
    }

    fn lower_where(self) -> (r: Option<Lowered>) {
        proof {
            self.lemma_lowered_wf();
        }
        self.lower()
    }
}

impl<T: Lower> Lower for Option<T> {
    open spec fn lowered(&self) -> Option<Clause> {
        match self {
            Some(t) => t.lowered(),
            None => None,
        }
    }

    proof fn lemma_lowered_wf(&self) {
        match self {
            Some(t) => t.lemma_lowered_wf(),
            None => {},
        }
    }

    fn lower(self) -> (r: Option<Lowered>) {
        match self {
            Some(t) => t.lower(),
            None => None,
        }
    }
}

impl<U> Lower for Void<U> {
    open spec fn lowered(&self) -> Option<Clause> {
        None
    }

    proof fn lemma_lowered_wf(&self) {
    }

    fn lower(self) -> (r: Option<Lowered>) {
        None
    }
}

/// The clauses of a well-formed lowering are well-formed and are not nodes of kind `op`.
pub proof fn lemma_clauses_wf(op: LogicOp, c: Option<Clause>)
    requires
        wf_opt(c),
    ensures
        forall|i: int|
            0 <= i < clauses_of(op, c).len() ==> wf(#[trigger] clauses_of(op, c)[i])
                && !clauses_of(op, c)[i].is_node(op),
{
}

/// Collapsing well-formed clauses that are not nodes of kind `op` is well-formed,
/// and gives back the same clauses.
pub proof fn lemma_collapse_wf(op: LogicOp, s: Seq<Clause>)
    requires
        forall|i: int| 0 <= i < s.len() ==> wf(#[trigger] s[i]) && !s[i].is_node(op),
    ensures
        wf_opt(collapse(op, s)),
        clauses_of(op, collapse(op, s)) == s,
{
    if s.len() == 1 {
        assert(clauses_of(op, collapse(op, s)) =~= s);
    }
}

/// Combining well-formed lowerings is well-formed, and its clauses are the
/// clauses of the left operand followed by those of the right one.
pub proof fn lemma_combine_wf(op: LogicOp, x: Option<Clause>, y: Option<Clause>)
    requires
        wf_opt(x),
        wf_opt(y),
    ensures
        wf_opt(combine(op, x, y)),
        clauses_of(op, combine(op, x, y)) == clauses_of(op, x) + clauses_of(op, y),
{
    lemma_clauses_wf(op, x);
    lemma_clauses_wf(op, y);
    let s = clauses_of(op, x) + clauses_of(op, y);
    assert forall|i: int| 0 <= i < s.len() implies wf(#[trigger] s[i]) && !s[i].is_node(op) by {
        if i >= clauses_of(op, x).len() {
            assert(s[i] == clauses_of(op, y)[i - clauses_of(op, x).len()]);
        }
    }
    lemma_collapse_wf(op, s);
}

} // verus!
