//! Type descriptors: each projectable thing names its unit type and the
//! quantified output type that a caller finally receives.
use vstd::prelude::*;
use crate::quantify;

verus! {

/// The output type of a projection, together with its unit type.
pub trait Type {
    /// Unit (unquantified) output of this type, i.e. no `Option`, no `Vec`.
    type Unit;

    /// Final, quantified output (possibly `Vec<Self::Unit>` or `Option<Self::Unit>`).
    type Output;
}

/// Implemented by types that are scalar, i.e. not a collection.
pub trait ScalarType: Type {}

/// Implemented by types that are vector-valued.
pub trait VectorType: Type {}

/// Any type that is interpreted as having a `Type`.
pub trait Typed {
    type Ty: Type;
}

/// Typed things whose type is scalar with unit `U`.
pub trait ScalarTyped<U> {}

impl<T, U> ScalarTyped<U> for T where T: Typed, T::Ty: ScalarType<Unit = U> {}

/// Typed things whose type is vector-valued with unit `U`.
pub trait VectorTyped<U> {}

impl<T, U> VectorTyped<U> for T where T: Typed, T::Ty: VectorType<Unit = U> {}

/// Maps a type into the type `U`, keeping its quantification.
pub trait MapTo<U>: Type {
    type Quantify: quantify::Quantify<U>;
}

/// Non-nullable unit type.
pub struct Unit<U>(core::marker::PhantomData<U>);

impl<U> Type for Unit<U> {
    type Unit = U;
    type Output = U;
}

impl<U> ScalarType for Unit<U> {}

impl<U, V> MapTo<V> for Unit<U> {
    type Quantify = quantify::AsSelf;
}

/// Nullable type.
pub struct Nullable<U>(core::marker::PhantomData<U>);

impl<U> Type for Nullable<U> {
    type Unit = U;
    type Output = Option<U>;
}

impl<U> ScalarType for Nullable<U> {}

impl<U, V> MapTo<V> for Nullable<U> {
    type Quantify = quantify::AsOption;
}

/// Collection type.
pub struct Vector<U>(core::marker::PhantomData<U>);

impl<U> Type for Vector<U> {
    type Unit = U;
    type Output = Vec<U>;
}

impl<U> VectorType for Vector<U> {}

impl<U, V> MapTo<V> for Vector<U> {
    type Quantify = quantify::AsVec;
}

/// The type of a projection of type `In` whose unit is mapped by `F` into
/// `Out`: the unit becomes `Out`, and the quantification stays that of `In`.
pub struct MapToProbe<In, F, Out> {
    input: core::marker::PhantomData<In>,
    func: core::marker::PhantomData<F>,
    out: core::marker::PhantomData<Out>,
}

impl<In: MapTo<Out>, F, Out> Type for MapToProbe<In, F, Out> {
    type Unit = Out;
    type Output = <In::Quantify as quantify::Quantify<Out>>::Output;
}

/// A type that always resolves to no value.
pub struct Void<U>(core::marker::PhantomData<U>);

impl<U> Void<U> {
    /// The value of this type.
    pub fn new() -> Self {
        Void(core::marker::PhantomData)
    }
}

impl<U> Type for Void<U> {
    type Unit = U;
    type Output = Option<U>;
}

impl<U> ScalarType for Void<U> {}

impl<U> Typed for Void<U> {
    type Ty = Self;
}

impl<T: Typed> Typed for Option<T> {
    type Ty = Nullable<<T::Ty as Type>::Unit>;
}

} // verus!
