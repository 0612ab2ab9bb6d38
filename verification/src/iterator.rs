//! Drivers over item sources, with the same contract as [`crate::iter`].

mod tryiterator;

pub use tryiterator::ConvertedTryIterator;

use crate::iter::drive_outcome;
use crate::source::Source;
use crate::{accepts_all, converts_silently, lemma_converts_silently_push, Converter};
use std::collections::VecDeque;
use vstd::prelude::*;

verus! {

/// A driver that pulls items from a [`Source`] and converts them with a
/// [`Converter`], yielding one output per call to [`next`](Self::next).
///
/// The driver owns a buffer of outputs already produced but not yet
/// yielded. Buffered outputs are always yielded, one at a time, before the
/// source is consulted again; when the buffer is empty the driver pulls
/// and converts items until an output, an error, or the end of the input.
pub struct ConvertedIterator<S, C> where S: Source, C: Converter<Item = S::Item> {
    buffer: VecDeque<C::Output>,
    iter: S,
    converter: C,
}

impl<S, C> ConvertedIterator<S, C> where S: Source, C: Converter<Item = S::Item> {
    /// The outputs already produced by the converter but not yet yielded.
    pub closed spec fn buffered(&self) -> Seq<C::Output> {
        self.buffer@
    }

    /// The upstream source.
    pub closed spec fn source(&self) -> S {
        self.iter
    }

    /// The converter.
    pub closed spec fn conv(&self) -> C {
        self.converter
    }

    /// Creates a new driver over `iter` and `converter`.
    pub fn new(iter: S, converter: C) -> (r: Self)
        ensures
            r.buffered() == Seq::<C::Output>::empty(),
            r.source() == iter,
            r.conv() == converter,
    {
        let (min, max) = converter.size_hint();
        let cap: usize = match max {
            Some(m) => m,
            None => min,
        };
        ConvertedIterator { buffer: VecDeque::with_capacity(cap), iter, converter }
    }

    /// Yields the next converted output, a conversion error, or `None` at
    /// the end of the input.
    ///
    /// Outputs buffered from an earlier conversion are yielded first, one
    /// per call, without touching the source or the converter; only with
    /// an empty buffer does the driver pull from the source again, and
    /// then the call behaves exactly as [`drive_outcome`] describes: the
    /// yielded value is the converter's, the surfaced error is the
    /// converter's, and at the end of the input the converter is
    /// finalized, reporting a trailing incomplete state instead of
    /// truncating silently.
    pub fn next(&mut self) -> (r: Option<Result<C::Output, C::Error>>)
        requires
            accepts_all(old(self).conv()),
        ensures
            accepts_all(final(self).conv()),
            old(self).buffered().len() > 0 ==> ({
                &&& r == Some(Ok::<C::Output, C::Error>(old(self).buffered()[0]))
                &&& final(self).buffered() == old(self).buffered().drop_first()
                &&& final(self).source() == old(self).source()
                &&& final(self).conv() == old(self).conv()
            }),
            old(self).buffered().len() == 0 ==> drive_outcome(
                old(self).conv(),
                old(self).source().remaining(),
                final(self).conv(),
                final(self).source().remaining(),
                final(self).buffered(),
                r,
            ),
            r is None ==> final(self).buffered().len() == 0 && final(self).conv().fin_ok(),
    {
        if self.buffer.len() > 0 {
            match self.buffer.pop_front() {
                Some(o) => Some(Ok(o)),
                None => None,
            }
        } else {
            let ghost rem0 = old(self).source().remaining();
            let ghost mut consumed: Seq<S::Item> = Seq::empty();
            proof {
                assert(rem0.take(0) =~= Seq::<S::Item>::empty());
                assert(rem0.skip(0) =~= rem0);
            }
            loop
                invariant
                    old(self).buffered().len() == 0,
                    self.buffer@.len() == 0,
                    accepts_all(self.conv()),
                    rem0 == old(self).source().remaining(),
                    converts_silently(old(self).conv(), consumed, self.converter),
                    0 <= consumed.len() <= rem0.len(),
                    consumed == rem0.take(consumed.len() as int),
                    self.iter.remaining() == rem0.skip(consumed.len() as int),
                decreases self.iter.remaining().len(),
            {
                let ghost before_conv = self.converter;
                let ghost k = consumed.len() as int + 1;
                match self.iter.pull() {
                    Some(item) => {
                        proof {
                            assert(item == rem0[k - 1]);
                            assert(rem0.skip(consumed.len() as int).drop_first() =~= rem0.skip(k));
                        }
                        let ghost b1 = self.buffer@;
                        match self.converter.convert(item, &mut self.buffer) {
                            Ok(n) => {
                                if n == 0 {
                                    proof {
                                        assert(self.buffer@.skip(b1.len() as int) =~= Seq::<
                                            C::Output,
                                        >::empty());
                                    }
                                    if self.converter.is_ended() {
                                        let finished = self.converter.finalize();
                                        proof {
                                            assert(consumed =~= rem0.take(k - 1));
                                        }
                                        return match finished {
                                            Ok(_) => None,
                                            Err(e) => Some(Err(e)),
                                        };
                                    }
                                    proof {
                                        lemma_converts_silently_push(
                                            old(self).conv(),
                                            consumed,
                                            before_conv,
                                            item,
                                            self.converter,
                                        );
                                        consumed = consumed.push(item);
                                        assert(consumed =~= rem0.take(consumed.len() as int));
                                    }
                                } else {
                                    let ghost produced = self.buffer@;
                                    proof {
                                        assert(self.buffer@.skip(b1.len() as int) =~= produced);
                                        assert(consumed =~= rem0.take(k - 1));
                                    }
                                    return match self.buffer.pop_front() {
                                        Some(o) => Some(Ok(o)),
                                        None => None,
                                    };
                                }
                            },
                            Err(e) => {
                                proof {
                                    assert(self.buffer@.skip(b1.len() as int) =~= Seq::<
                                        C::Output,
                                    >::empty());
                                    assert(consumed =~= rem0.take(k - 1));
                                }
                                return Some(Err(e));
                            },
                        }
                    },
                    None => {
                        proof {
                            assert(consumed =~= rem0);
                        }
                        return match self.converter.finalize() {
                            Ok(_) => None,
                            Err(e) => Some(Err(e)),
                        };
                    },
                }
            }
        }
    }

    /// Advisory bounds on how many outputs remain, the product of the
    /// source's estimate and the converter's per-item hint, saturating at
    /// the largest representable value.
    pub fn size_hint(&self) -> (r: (usize, Option<usize>))
        ensures
            r == crate::combined_hint(self.source().estimate(), self.conv().hint()),
    {
        let (iter_min, iter_max) = self.iter.size_estimate();
        let (conv_min, conv_max) = self.converter.size_hint();
        let low: usize = match iter_min.checked_mul(conv_min) {
            Some(v) => v,
            None => usize::MAX,
        };
        let high: Option<usize> = match (iter_max, conv_max) {
            (Some(a), Some(b)) => match a.checked_mul(b) {
                Some(v) => Some(v),
                None => None,
            },
            _ => None,
        };
        (low, high)
    }
}

} // verus!
