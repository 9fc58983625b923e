//! Leaf expressions: column references, bound parameters, and the
//! comparisons built from them.
use vstd::prelude::*;

verus! {

/// A table as it occurs in one select: its name and the ordinal of its alias.
pub struct TableAlias {
    pub table: String,
    pub alias: u16,
}

/// A value bound to a query parameter.
pub enum Value {
    Text(String),
    Integer(i64),
    TextArray(Vec<String>),
}

/// An operand of a comparison.
pub enum Operand {
    /// A column of the table of the select that the expression belongs to.
    Column(String),
    /// A column of the table of the enclosing select (used by join predicates).
    Outer(String),
    /// A bound parameter.
    Param(Value),
}

/// Something that stands for an operand of a comparison.
pub trait AsOperand: Sized {
    spec fn operand(&self) -> Operand;

    fn as_operand(self) -> (r: Operand)
        ensures
            r == self.operand(),
    ;
}

/// A boolean leaf expression.
pub enum Expr {
    /// `left = right`
    Equals(Operand, Operand),
    /// `item = any(vector)`
    Contains { vector: Operand, item: Operand },
}

} // verus!
