//! Values bound as query parameters.
use vstd::prelude::*;
use crate::expr::{AsOperand, Operand, Value};
use crate::ty::{Typed, Unit, Vector as VectorTy};

verus! {

/// A single value bound as a parameter.
pub struct Scalar<T>(pub T);

/// A list of values bound as one array parameter.
pub struct Vector<T>(pub Vec<T>);

impl<T> Typed for Scalar<T> {
    type Ty = Unit<T>;
}

impl<T> Typed for Vector<T> {
    type Ty = VectorTy<T>;
}

impl AsOperand for Scalar<String> {
    open spec fn operand(&self) -> Operand {
        Operand::Param(Value::Text(self.0))
    }

    fn as_operand(self) -> (r: Operand) {
        Operand::Param(Value::Text(self.0))
    }
}

impl AsOperand for Scalar<i64> {
    open spec fn operand(&self) -> Operand {
        Operand::Param(Value::Integer(self.0))
    }

    fn as_operand(self) -> (r: Operand) {
        Operand::Param(Value::Integer(self.0))
    }
}

impl AsOperand for Vector<String> {
    open spec fn operand(&self) -> Operand {
        Operand::Param(Value::TextArray(self.0))
    }

    fn as_operand(self) -> (r: Operand) {
        Operand::Param(Value::TextArray(self.0))
    }
}

} // verus!
