//! Infallible converters: converters whose error type can never be
//! constructed, and helpers to unwrap their results without inspecting them.

mod sealed_converter;
mod sealed_result;

use crate::Converter;
use std::collections::VecDeque;
use vstd::prelude::*;

verus! {

/// An error value that is never produced: it has no public constructor, and
/// no function of this crate creates one. Converters that cannot fail use
/// this as their error type, and their contracts promise `Ok` on every call.
#[derive(Clone, Copy, Debug, PartialEq, Eq)]
pub struct NeverError {
    _never: (),
}

/// A value of the error type that is never produced; no call ever returns
/// it, so nothing more is known of it.
pub closed spec fn never_value() -> NeverError {
    NeverError { _never: () }
}

/// A marker trait for error types that are never constructed.
///
/// Marking an error type promises that every `Result` carrying it is `Ok`;
/// the converters whose contracts guarantee as much implement
/// [`InfallibleConverter`].
pub trait InfallibleError {

}

impl InfallibleError for NeverError {

}

/// A trait for `Result` values whose error type is infallible.
pub trait InfallibleResult: Sized + sealed_result::Sealed {
    /// The success type of the result.
    type T;

    /// Whether the result is a success; with an infallible error type every
    /// result is.
    spec fn is_success(self) -> bool;

    /// The value carried by a successful result.
    spec fn success(self) -> Self::T;

    /// Unwraps the result without inspecting the error.
    fn unwrap_infallible(self) -> (r: Self::T)
        requires
            self.is_success(),
        ensures
            r == self.success(),
    ;
}

impl<T, E: InfallibleError> InfallibleResult for Result<T, E> {
    type T = T;

    open spec fn is_success(self) -> bool {
        self is Ok
    }

    open spec fn success(self) -> T {
        self->Ok_0
    }

    fn unwrap_infallible(self) -> (r: T) {
        match self {
            Ok(t) => t,
            Err(_) => vstd::pervasive::unreached(),
        }
    }
}

/// A trait for converters that can never fail: their `convert` and
/// `finalize` always succeed.
pub trait InfallibleConverter: Converter + sealed_converter::Sealed {
    /// Converts without any errors.
    fn convert_ok(&mut self, item: Self::Item, buf: &mut VecDeque<Self::Output>) -> (r: usize)
        requires
            old(self).pre(item),
        ensures
            old(buf)@.is_prefix_of(final(buf)@),
            final(buf)@.len() == old(buf)@.len() + r,
            Self::convert_rel(
                *old(self),
                item,
                *final(self),
                final(buf)@.skip(old(buf)@.len() as int),
                Ok(r),
            ),
            forall|i: Self::Item| old(self).pre(i) ==> #[trigger] final(self).pre(i),
    ;

    /// Finalizes without any errors.
    fn finalize_ok(&mut self)
        ensures
            *final(self) == *old(self),
            old(self).fin_ok(),
    ;
}

} // verus!
