//! Probing query construction: a tree of correlated SQL selects is built by
//! walking a selection once, and is then rendered as indented SQL text.

pub mod builder;
pub mod column;
pub mod engine;
pub mod expr;
pub mod field;
pub mod func;
pub mod logic;
pub mod lower;
pub mod node;
pub mod probe;
pub mod quantify;
pub mod query;
pub mod tree;
pub mod ty;
pub mod value;

use vstd::prelude::*;

verus! {

/// Identifies a declared field within its table: the key of a projection.
#[derive(Clone, Copy, Debug, PartialEq, Eq, Structural)]
pub struct LocalId(pub u16);

} // verus!

