//! A driver over a source whose items may themselves be errors.

use crate::error::CombinedError;
use crate::source::Source;
use crate::{accepts_all, Converter};
use std::collections::VecDeque;
use vstd::prelude::*;

verus! {

/// True when the converter consumed every item of `items` in order — all
/// of which are successes — each call succeeding with no output (`Ok(0)`)
/// and leaving the converter short of its end.
pub open spec fn try_converts_silently<C: Converter, E>(
    pre: C,
    items: Seq<Result<C::Item, E>>,
    post: C,
) -> bool
    decreases items.len(),
{
    if items.len() == 0 {
        post == pre
    } else {
        exists|mid: C|
            items[0] is Ok && #[trigger] C::convert_rel(
                pre,
                items[0]->Ok_0,
                mid,
                Seq::empty(),
                Ok::<usize, C::Error>(0),
            ) && !mid.ended() && try_converts_silently(mid, items.drop_first(), post)
    }
}

/// Extends a silent run by one more silently converted successful item.
pub proof fn lemma_try_converts_silently_push<C: Converter, E>(
    pre: C,
    items: Seq<Result<C::Item, E>>,
    mid: C,
    item: C::Item,
    post: C,
)
    requires
        try_converts_silently(pre, items, mid),
        C::convert_rel(mid, item, post, Seq::empty(), Ok::<usize, C::Error>(0)),
        !post.ended(),
    ensures
        try_converts_silently(pre, items.push(Ok::<C::Item, E>(item)), post),
    decreases items.len(),
{
    let pushed = items.push(Ok::<C::Item, E>(item));
    if items.len() == 0 {
        assert(pushed[0] == Ok::<C::Item, E>(item));
        assert(pushed[0]->Ok_0 == item);
        assert(pushed.drop_first() =~= Seq::<Result<C::Item, E>>::empty());
        assert(try_converts_silently(post, pushed.drop_first(), post));
    } else {
        let m1 = choose|m: C|
            items[0] is Ok && #[trigger] C::convert_rel(
                pre,
                items[0]->Ok_0,
                m,
                Seq::empty(),
                Ok::<usize, C::Error>(0),
            ) && !m.ended() && try_converts_silently(m, items.drop_first(), mid);
        lemma_try_converts_silently_push(m1, items.drop_first(), mid, item, post);
        assert(pushed[0] == items[0]);
        assert(pushed[0]->Ok_0 == items[0]->Ok_0);
        assert(pushed.drop_first() =~= items.drop_first().push(Ok::<C::Item, E>(item)));
    }
}

/// What one call of the fallible driver's `next` with an empty output
/// buffer does. The driver pulls `k` source items; every item before the
/// last is a success converted silently, and exactly one of five things
/// happens:
/// * the last item is a success whose conversion produces `n > 0`
///   outputs: the first is returned and the rest stay buffered;
/// * the last item is a success whose conversion fails: the error is
///   returned as [`CombinedError::Conversion`];
/// * the last item is a success consumed silently, but the converter has
///   ended: it is finalized, and the call returns `None` on a clean end
///   or the finalization error as [`CombinedError::Conversion`];
/// * the last item is a source error: it is returned unchanged as
///   [`CombinedError::Stream`], and the converter — untouched by the
///   failing item — is not finalized;
/// * the source is exhausted after the silent items: the converter is
///   finalized, and the call returns `None` on a clean end or the
///   finalization error as [`CombinedError::Conversion`].
pub open spec fn try_drive_outcome<C: Converter, E>(
    pre: C,
    items: Seq<Result<C::Item, E>>,
    post: C,
    rest: Seq<Result<C::Item, E>>,
    buffered: Seq<C::Output>,
    r: Option<Result<C::Output, CombinedError<E, C::Error>>>,
) -> bool {
    ||| (exists|k: int, mid: C, out: Seq<C::Output>, n: usize|
        1 <= k <= items.len() && try_converts_silently(pre, items.take(k - 1), mid) && items[k
            - 1] is Ok && #[trigger] C::convert_rel(
            mid,
            items[k - 1]->Ok_0,
            post,
            out,
            Ok::<usize, C::Error>(n),
        ) && n > 0 && out.len() == n && rest == items.skip(k) && r == Some(
            Ok::<C::Output, CombinedError<E, C::Error>>(out[0]),
        ) && buffered == out.drop_first())
    ||| (exists|k: int, mid: C, e: C::Error|
        1 <= k <= items.len() && try_converts_silently(pre, items.take(k - 1), mid) && items[k
            - 1] is Ok && #[trigger] C::convert_rel(
            mid,
            items[k - 1]->Ok_0,
            post,
            Seq::empty(),
            Err::<usize, C::Error>(e),
        ) && rest == items.skip(k) && r == Some(
            Err::<C::Output, CombinedError<E, C::Error>>(CombinedError::Conversion(e)),
        ) && buffered.len() == 0)
    ||| (exists|k: int, mid: C|
        1 <= k <= items.len() && try_converts_silently(pre, items.take(k - 1), mid) && items[k
            - 1] is Ok && #[trigger] C::convert_rel(
            mid,
            items[k - 1]->Ok_0,
            post,
            Seq::empty(),
            Ok::<usize, C::Error>(0),
        ) && post.ended() && rest == items.skip(k) && buffered.len() == 0 && r == (
        if post.fin_ok() {
            None::<Result<C::Output, CombinedError<E, C::Error>>>
        } else {
            Some(Err::<C::Output, CombinedError<E, C::Error>>(
                CombinedError::Conversion(post.fin_err()),
            ))
        }))
    ||| (exists|k: int|
        1 <= k <= items.len() && #[trigger] try_converts_silently(pre, items.take(k - 1), post)
            && items[k - 1] is Err && rest == items.skip(k) && buffered.len() == 0 && r == Some(
            Err::<C::Output, CombinedError<E, C::Error>>(
                CombinedError::Stream(items[k - 1]->Err_0),
            ),
        ))
    ||| (try_converts_silently(pre, items, post) && rest.len() == 0 && buffered.len() == 0 && r
        == (if post.fin_ok() {
        None::<Result<C::Output, CombinedError<E, C::Error>>>
    } else {
        Some(Err::<C::Output, CombinedError<E, C::Error>>(
            CombinedError::Conversion(post.fin_err()),
        ))
    }))
}

/// A driver like [`ConvertedIterator`](crate::iter::ConvertedIterator)
/// whose source yields `Result` items: a source error is passed through as
/// [`CombinedError::Stream`], kept strictly apart from conversion errors,
/// and the converter is never finalized on behalf of a failing source.
#[verifier::reject_recursive_types(T)]
#[verifier::reject_recursive_types(E)]
pub struct ConvertedTryIterator<S, C, T, E> where
    S: Source<Item = Result<T, E>>,
    C: Converter<Item = T>,
 {
    buffer: VecDeque<C::Output>,
    iter: S,
    converter: C,
}

impl<S, C, T, E> ConvertedTryIterator<S, C, T, E> where
    S: Source<Item = Result<T, E>>,
    C: Converter<Item = T>,
 {
    /// The outputs already produced by the converter but not yet yielded.
    pub closed spec fn buffered(&self) -> Seq<C::Output> {
        self.buffer@
    }

    /// The upstream source.
    pub closed spec fn source(&self) -> S {
        self.iter
    }

    /// The converter.
    pub closed spec fn conv(&self) -> C {
        self.converter
    }

    /// Creates a new driver over `iter` and `converter`.
    pub fn new(iter: S, converter: C) -> (r: Self)
        ensures
            r.buffered() == Seq::<C::Output>::empty(),
            r.source() == iter,
            r.conv() == converter,
    {
        let (min, max) = converter.size_hint();
        let cap: usize = match max {
            Some(m) => m,
            None => min,
        };
        ConvertedTryIterator { buffer: VecDeque::with_capacity(cap), iter, converter }
    }

    /// Yields the next converted output, a source or conversion error, or
    /// `None` at the end of the input.
    ///
    /// Outputs buffered from an earlier conversion are yielded first, one
    /// per call, without touching the source or the converter; only with
    /// an empty buffer does the driver pull from the source again, and
    /// then the call behaves exactly as [`try_drive_outcome`] describes.
    /// A source error is surfaced unchanged as [`CombinedError::Stream`]
    /// without finalizing the converter; conversion and finalization
    /// errors are surfaced as [`CombinedError::Conversion`]; and at a
    /// genuine end of input the converter is finalized, reporting a
    /// trailing incomplete state instead of truncating silently.
    pub fn next(&mut self) -> (r: Option<Result<C::Output, CombinedError<E, C::Error>>>)
        requires
            accepts_all(old(self).conv()),
        ensures
            accepts_all(final(self).conv()),
            old(self).buffered().len() > 0 ==> ({
                &&& r == Some(Ok::<C::Output, CombinedError<E, C::Error>>(old(self).buffered()[0]))
                &&& final(self).buffered() == old(self).buffered().drop_first()
                &&& final(self).source() == old(self).source()
                &&& final(self).conv() == old(self).conv()
            }),
            old(self).buffered().len() == 0 ==> try_drive_outcome(
                old(self).conv(),
                old(self).source().remaining(),
                final(self).conv(),
                final(self).source().remaining(),
                final(self).buffered(),
                r,
            ),
            r is None ==> final(self).buffered().len() == 0 && final(self).conv().fin_ok(),
    {
        if self.buffer.len() > 0 {
            match self.buffer.pop_front() {
                Some(o) => Some(Ok(o)),
                None => None,
            }
        } else {
            let ghost rem0 = old(self).source().remaining();
            let ghost mut consumed: Seq<Result<T, E>> = Seq::empty();
            proof {
                assert(rem0.take(0) =~= Seq::<Result<T, E>>::empty());
                assert(rem0.skip(0) =~= rem0);
            }
            loop
                invariant
                    old(self).buffered().len() == 0,
                    self.buffer@.len() == 0,
                    accepts_all(self.conv()),
                    rem0 == old(self).source().remaining(),
                    try_converts_silently(old(self).conv(), consumed, self.converter),
                    0 <= consumed.len() <= rem0.len(),
                    consumed == rem0.take(consumed.len() as int),
                    self.iter.remaining() == rem0.skip(consumed.len() as int),
                decreases self.iter.remaining().len(),
            {
                let ghost before_conv = self.converter;
                let ghost k = consumed.len() as int + 1;
                match self.iter.pull() {
                    Some(next_item) => {
                        proof {
                            assert(next_item == rem0[k - 1]);
                            assert(rem0.skip(consumed.len() as int).drop_first() =~= rem0.skip(k));
                        }
                        match next_item {
                            Ok(item) => {
                                let ghost b1 = self.buffer@;
                                match self.converter.convert(item, &mut self.buffer) {
                                    Ok(n) => {
                                        if n == 0 {
                                            proof {
                                                assert(self.buffer@.skip(b1.len() as int) =~= Seq::<
                                                    C::Output,
                                                >::empty());
                                            }
                                            if self.converter.is_ended() {
                                                let finished = self.converter.finalize();
                                                proof {
                                                    assert(consumed =~= rem0.take(k - 1));
                                                }
                                                return match finished {
                                                    Ok(_) => None,
                                                    Err(e) => Some(
                                                        Err(CombinedError::Conversion(e)),
                                                    ),
                                                };
                                            }
                                            proof {
                                                lemma_try_converts_silently_push(
                                                    old(self).conv(),
                                                    consumed,
                                                    before_conv,
                                                    item,
                                                    self.converter,
                                                );
                                                consumed = consumed.push(Ok::<T, E>(item));
                                                assert(consumed =~= rem0.take(
                                                    consumed.len() as int,
                                                ));
                                            }
                                        } else {
                                            let ghost produced = self.buffer@;
                                            proof {
                                                assert(self.buffer@.skip(b1.len() as int)
                                                    =~= produced);
                                                assert(consumed =~= rem0.take(k - 1));
                                            }
                                            return match self.buffer.pop_front() {
                                                Some(o) => Some(Ok(o)),
                                                None => None,
                                            };
                                        }
                                    },
                                    Err(e) => {
                                        proof {
                                            assert(self.buffer@.skip(b1.len() as int) =~= Seq::<
                                                C::Output,
                                            >::empty());
                                            assert(consumed =~= rem0.take(k - 1));
                                        }
                                        return Some(Err(CombinedError::Conversion(e)));
                                    },
                                }
                            },
                            Err(e) => {
                                proof {
                                    assert(consumed =~= rem0.take(k - 1));
                                }
                                return Some(Err(CombinedError::Stream(e)));
                            },
                        }
                    },
                    None => {
                        proof {
                            assert(consumed =~= rem0);
                        }
                        return match self.converter.finalize() {
                            Ok(_) => None,
                            Err(e) => Some(Err(CombinedError::Conversion(e))),
                        };
                    },
                }
            }
        }
    }

    /// Advisory bounds on how many outputs remain, the product of the
    /// source's estimate and the converter's per-item hint, saturating at
    /// the largest representable value.
    pub fn size_hint(&self) -> (r: (usize, Option<usize>))
        ensures
            r == crate::combined_hint(self.source().estimate(), self.conv().hint()),
    {
        let (iter_min, iter_max) = self.iter.size_estimate();
        let (conv_min, conv_max) = self.converter.size_hint();
        let low: usize = match iter_min.checked_mul(conv_min) {
            Some(v) => v,
            None => usize::MAX,
        };
        let high: Option<usize> = match (iter_max, conv_max) {
            (Some(a), Some(b)) => match a.checked_mul(b) {
                Some(v) => Some(v),
                None => None,
            },
            _ => None,
        };
        (low, high)
    }
}

} // verus!
