//! The seal of [`InfallibleConverter`](crate::infallible::InfallibleConverter).

use vstd::prelude::*;

verus! {

/// Restricts the infallible-converter trait to converters whose error
/// type is marked infallible.
pub trait Sealed {

}

impl<C: crate::Converter> Sealed for C where C::Error: crate::infallible::InfallibleError {

}

} // verus!
