//! Quantification of types: a type-level mapping of a unit type into
//! itself, an optional value or a collection.
use vstd::prelude::*;

verus! {

/// Quantify some unit type `U`.
pub trait Quantify<U> {
    type Output;
}

/// Quantify a type as itself, i.e. no quantification.
pub struct AsSelf;

impl<U> Quantify<U> for AsSelf {
    type Output = U;
}

/// Quantify a type using `Option<_>`.
pub struct AsOption;

impl<U> Quantify<U> for AsOption {
    type Output = Option<U>;
}

/// Quantify a type using a `Vec<_>`.
pub struct AsVec;

impl<U> Quantify<U> for AsVec {
    type Output = Vec<U>;
}

} // verus!
