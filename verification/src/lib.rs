//! Composable, verified stream converters.
//!
//! A [`Converter`] consumes one input item at a time and appends zero or more
//! output items to a buffer, which makes it possible to transcode unbounded
//! sequences incrementally: character-set decoders and encoders, pattern
//! matchers and per-item mappings all share the same small contract, and the
//! drivers in [`iter`] pull items from a source and feed them through a
//! converter one at a time.

pub mod converter;
pub mod encoding;
pub mod error;
pub mod infallible;
pub mod iter;
pub mod iterator;
pub mod source;
pub mod stream;

use std::collections::VecDeque;
use vstd::prelude::*;

verus! {

/// True when the converter accepts every input item in its current state.
///
/// The drivers of this crate feed a converter whatever the source yields,
/// so they require a converter that accepts everything and rely on
/// [`Converter::convert`] never shrinking the set of accepted items.
pub open spec fn accepts_all<C: Converter>(c: C) -> bool {
    forall|i: C::Item| c.pre(i)
}

/// True when the converter consumed every item of `items`, in order, each
/// call succeeding with no output (`Ok(0)`) and leaving the converter
/// short of its end. The drivers pull more input in exactly this
/// situation.
pub open spec fn converts_silently<C: Converter>(pre: C, items: Seq<C::Item>, post: C) -> bool
    decreases items.len(),
{
    if items.len() == 0 {
        post == pre
    } else {
        exists|mid: C|
            #[trigger] C::convert_rel(pre, items[0], mid, Seq::empty(), Ok::<usize, C::Error>(0))
                && !mid.ended() && converts_silently(mid, items.drop_first(), post)
    }
}

/// Extends a silent run by one more silently converted item.
pub proof fn lemma_converts_silently_push<C: Converter>(
    pre: C,
    items: Seq<C::Item>,
    mid: C,
    item: C::Item,
    post: C,
)
    requires
        converts_silently(pre, items, mid),
        C::convert_rel(mid, item, post, Seq::empty(), Ok::<usize, C::Error>(0)),
        !post.ended(),
    ensures
        converts_silently(pre, items.push(item), post),
    decreases items.len(),
{
    if items.len() == 0 {
        assert(items.push(item)[0] == item);
        assert(items.push(item).drop_first() =~= Seq::<C::Item>::empty());
        assert(converts_silently(post, items.push(item).drop_first(), post));
    } else {
        let m1 = choose|m: C|
            #[trigger] C::convert_rel(pre, items[0], m, Seq::empty(), Ok::<usize, C::Error>(0))
                && !m.ended() && converts_silently(m, items.drop_first(), mid);
        lemma_converts_silently_push(m1, items.drop_first(), mid, item, post);
        assert(items.push(item)[0] == items[0]);
        assert(items.push(item).drop_first() =~= items.drop_first().push(item));
    }
}

/// A unit of conversion: consumes one item per call and appends zero or more
/// outputs to a buffer.
///
/// The contract shared by every converter:
/// * `convert` only appends to the buffer, and `Ok(n)` reports exactly how
///   many outputs were appended; `Ok(0)` means the item was buffered
///   internally and more input is needed.
/// * `is_ended` reports the abstract [`ended`](Converter::ended) state: once a
///   converter has ended it will never produce output again.
/// * `finalize` is called once, when the input is exhausted; it fails exactly
///   when the converter still holds an incomplete trailing state, and it
///   leaves the converter unchanged, so calling it again returns the same
///   outcome.
pub trait Converter: Sized {
    /// The type of input items.
    type Item;

    /// The type of outputs.
    type Output;

    /// The type of conversion errors.
    type Error;

    /// When `convert` may be called with `item`.
    ///
    /// Most converters accept every item; converters that wrap a caller
    /// supplied function restrict this to the function's own precondition.
    spec fn pre(&self, item: Self::Item) -> bool;

    /// The conversion relation: what one call of `convert` on `item` may
    /// do, relating the state before (`pre`), the state after (`post`),
    /// the outputs appended to the buffer (`out`), and the result (`r`).
    ///
    /// Each converter defines this to its exact behaviour, and `convert`
    /// ensures that every call satisfies it; combinators and drivers state
    /// their own contracts in terms of the inner converters' relations.
    spec fn convert_rel(
        pre: Self,
        item: Self::Item,
        post: Self,
        out: Seq<Self::Output>,
        r: Result<usize, Self::Error>,
    ) -> bool;

    /// Whether the converter has reached its end and will never again
    /// produce output.
    spec fn ended(&self) -> bool;

    /// Whether `finalize` would succeed: true when no incomplete trailing
    /// state is pending.
    spec fn fin_ok(&self) -> bool;

    /// The error that `finalize` reports when an incomplete trailing state
    /// is pending; meaningful only when [`fin_ok`](Converter::fin_ok) is
    /// false.
    spec fn fin_err(&self) -> Self::Error;

    /// The advisory bounds that [`size_hint`](Converter::size_hint)
    /// reports.
    spec fn hint(&self) -> (usize, Option<usize>);

    /// Consumes one item, appends its outputs to `buf`, and returns how many
    /// outputs were appended, or a conversion error. `Ok(0)` means the item
    /// was buffered and more input is needed.
    fn convert(&mut self, item: Self::Item, buf: &mut VecDeque<Self::Output>) -> (r: Result<
        usize,
        Self::Error,
    >)
        requires
            old(self).pre(item),
        ensures
            old(buf)@.is_prefix_of(final(buf)@),
            r matches Ok(n) ==> final(buf)@.len() == old(buf)@.len() + n,
            r matches Err(_) ==> final(buf)@ == old(buf)@,
            Self::convert_rel(
                *old(self),
                item,
                *final(self),
                final(buf)@.skip(old(buf)@.len() as int),
                r,
            ),
            forall|i: Self::Item| old(self).pre(i) ==> #[trigger] final(self).pre(i),
    ;

    /// Returns whether the converter reached its end.
    fn is_ended(&self) -> (r: bool)
        ensures
            r == self.ended(),
    ;

    /// Finalizes the converter once the input is exhausted, reporting an
    /// error when an incomplete trailing state is pending.
    fn finalize(&mut self) -> (r: Result<(), Self::Error>)
        ensures
            *final(self) == *old(self),
            r == (if old(self).fin_ok() {
                Ok::<(), Self::Error>(())
            } else {
                Err::<(), Self::Error>(old(self).fin_err())
            }),
    ;

    /// Advisory bounds `(min, max)` on the number of outputs a single item
    /// can produce; used only to preallocate buffer capacity.
    fn size_hint(&self) -> (r: (usize, Option<usize>))
        ensures
            r == self.hint(),
    ;
}

/// The advisory output estimate of a driver: the product of the source's
/// estimate and the converter's per-item hint, with the lower bound
/// saturating at the largest representable value and the upper bound
/// dropped when it would overflow or either side gives none.
pub open spec fn combined_hint(
    source: (usize, Option<usize>),
    per_item: (usize, Option<usize>),
) -> (usize, Option<usize>) {
    (
        if source.0 * per_item.0 > usize::MAX {
            usize::MAX
        } else {
            (source.0 * per_item.0) as usize
        },
        match (source.1, per_item.1) {
            (Some(a), Some(b)) => if a * b > usize::MAX {
                None::<usize>
            } else {
                Some((a * b) as usize)
            },
            _ => None::<usize>,
        },
    )
}

} // verus!
