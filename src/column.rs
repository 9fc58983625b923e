//! Columns: primitive fields of a table.
use vstd::prelude::*;
use crate::expr::{AsOperand, Operand};
use crate::ty::{Type, Typed};
use crate::LocalId;

verus! {

/// A column of a table, with its value type `Ty`.
pub struct Column<Ty> {
    name: String,
    local_id: LocalId,
    ty: core::marker::PhantomData<Ty>,
}

impl<Ty> Column<Ty> {
    /// The column name.
    pub closed spec fn spec_name(&self) -> Seq<char> {
        self.name@
    }

    /// The key of the column in its table.
    pub closed spec fn spec_local_id(&self) -> LocalId {
        self.local_id
    }

    /// The column `name`, keyed `local_id` in its table.
    pub fn new(name: &str, local_id: LocalId) -> (r: Self)
        ensures
            r.spec_name() == name@,
            r.spec_local_id() == local_id,
    {
        Column { name: name.to_string(), local_id, ty: core::marker::PhantomData }
    }

    /// The column name.
    pub fn name(&self) -> (r: &str)
        ensures
            r@ == self.spec_name(),
    {
        self.name.as_str()
    }

    /// The key of the column in its table.
    pub fn local_id(&self) -> (r: LocalId)
        ensures
            r == self.spec_local_id(),
    {
        self.local_id
    }
}

impl<Ty: Type> Typed for Column<Ty> {
    type Ty = Ty;
}

impl<Ty> AsOperand for Column<Ty> {
    closed spec fn operand(&self) -> Operand {
        Operand::Column(self.name)
    }

    fn as_operand(self) -> (r: Operand) {
        Operand::Column(self.name)
    }
}

} // verus!
