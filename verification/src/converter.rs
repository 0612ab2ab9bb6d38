//! A collection of basic converters.

mod chained;
mod exact;
mod into;
mod iter;
mod map;

pub use crate::encoding;
pub use chained::{ChainedConverter, ChainedError};
pub use exact::{ExactConverter, ItemEq, UnmatchedError};
pub use into::IntoConverter;
pub use iter::{IterConverter, TryIterConverter};
pub use map::{MapConverter, TryMapConverter};
