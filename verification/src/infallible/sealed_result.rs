//! The seal of [`InfallibleResult`](crate::infallible::InfallibleResult).

use vstd::prelude::*;

verus! {

/// Restricts the infallible-result trait to `Result` values whose error
/// type is marked infallible.
pub trait Sealed {

}

impl<T, E: crate::infallible::InfallibleError> Sealed for Result<T, E> {

}

} // verus!
