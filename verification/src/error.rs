//! Error types shared by the drivers of this crate.

use crate::infallible::InfallibleError;
use vstd::prelude::*;

verus! {

/// An error of a driver over a fallible source: either the source itself
/// failed, or the conversion did. The two sides are kept strictly apart so
/// that a caller can tell which one to abandon.
#[derive(Clone, Copy, Debug, PartialEq, Eq)]
pub enum CombinedError<S, C> {
    /// The source yielded an error instead of an item.
    Stream(S),
    /// The converter rejected an item or its trailing state.
    Conversion(C),
}

impl<S: InfallibleError, C: InfallibleError> InfallibleError for CombinedError<S, C> {

}

} // verus!
