//! Comparisons of two operands.
use vstd::prelude::*;
use crate::expr::{AsOperand, Expr};
use crate::lower::{Clause, Lower, Lowered};
use crate::ty::{Nullable, ScalarTyped, Type, Typed, VectorTyped};

verus! {

/// Tests equality of two operands of the same type.
pub struct Equals<L, R>(pub L, pub R);

impl<L, R> Typed for Equals<L, R> {
    type Ty = Nullable<bool>;
}

impl<L, R> Lower for Equals<L, R> where
    L: AsOperand + Typed,
    R: AsOperand + Typed,
    L::Ty: Type<Output = <R::Ty as Type>::Output>,
 {
    open spec fn lowered(&self) -> Option<Clause> {
        Some(Clause::Expr(Expr::Equals(self.0.operand(), self.1.operand())))
    }

    proof fn lemma_lowered_wf(&self) {
    }

    fn lower(self) -> (r: Option<Lowered>) {
        let left = self.0.as_operand();
        let right = self.1.as_operand();
        Some(Lowered::Expr(Expr::Equals(left, right)))
    }
}

/// Tests whether a vector `V` contains an item `I` of its unit type.
pub struct Contains<V, I>(pub V, pub I);

impl<V, I> Typed for Contains<V, I> {
    type Ty = Nullable<bool>;
}

impl<V, I, U> Lower for Contains<V, I> where
    V: AsOperand + Typed<Ty: Type<Unit = U>> + VectorTyped<U>,
    I: AsOperand + ScalarTyped<U>,
 {
    open spec fn lowered(&self) -> Option<Clause> {
        Some(Clause::Expr(Expr::Contains { vector: self.0.operand(), item: self.1.operand() }))
    }

    proof fn lemma_lowered_wf(&self) {
    }

    fn lower(self) -> (r: Option<Lowered>) {
        let vector = self.0.as_operand();
        let item = self.1.as_operand();
        Some(Lowered::Expr(Expr::Contains { vector, item }))
    }
}

} // verus!
