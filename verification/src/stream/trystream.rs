//! The state machine behind drivers over fallible asynchronous sources.

use crate::error::CombinedError;
use crate::stream::PollNext;
use crate::{accepts_all, Converter};
use std::collections::VecDeque;
use std::marker::PhantomData;
use vstd::prelude::*;

verus! {

/// The buffer and converter of a driver over an asynchronous source whose
/// items may themselves be errors of type `E`. A source error is passed
/// through as [`CombinedError::Stream`], kept strictly apart from
/// conversion errors, and the converter is never finalized on behalf of a
/// failing source.
#[verifier::reject_recursive_types(E)]
pub struct ConvertedTryStream<C: Converter, E> {
    buffer: VecDeque<C::Output>,
    converter: C,
    /// Carries the source error type.
    pub _source_error: PhantomData<E>,
}

impl<C: Converter, E> ConvertedTryStream<C, E> {
    /// The outputs already produced by the converter but not yet yielded.
    pub closed spec fn buffered(&self) -> Seq<C::Output> {
        self.buffer@
    }

    /// The converter.
    pub closed spec fn conv(&self) -> C {
        self.converter
    }

    /// Creates a new driver state around `converter`.
    pub fn new(converter: C) -> (r: Self)
        ensures
            r.buffered() == Seq::<C::Output>::empty(),
            r.conv() == converter,
    {
        let (min, max) = converter.size_hint();
        let cap: usize = match max {
            Some(m) => m,
            None => min,
        };
        ConvertedTryStream { buffer: VecDeque::with_capacity(cap), converter, _source_error: PhantomData }
    }

    /// Pops the next buffered output, if any; buffered outputs must be
    /// yielded one at a time before the source is polled again.
    pub fn next_buffered(&mut self) -> (r: Option<C::Output>)
        ensures
            old(self).buffered().len() == 0
                ==> r is None && final(self).buffered() == old(self).buffered()
                    && final(self).conv() == old(self).conv(),
            old(self).buffered().len() > 0
                ==> r == Some(old(self).buffered()[0])
                    && final(self).buffered() == old(self).buffered().drop_first()
                    && final(self).conv() == old(self).conv(),
    {
        self.buffer.pop_front()
    }

    /// Handles one successful item polled from the source, as
    /// [`ConvertedStream::on_item`](crate::stream::ConvertedStream::on_item)
    /// does, wrapping any conversion or finalization error as
    /// [`CombinedError::Conversion`].
    pub fn on_item(&mut self, item: C::Item) -> (r: PollNext<
        C::Output,
        CombinedError<E, C::Error>,
    >)
        requires
            accepts_all(old(self).conv()),
            old(self).buffered().len() == 0,
        ensures
            accepts_all(final(self).conv()),
            exists|out: Seq<C::Output>, rr: Result<usize, C::Error>|
                C::convert_rel(old(self).conv(), item, final(self).conv(), out, rr) && (match rr {
                    Ok(n) => if n == 0 {
                        &&& out.len() == 0
                        &&& final(self).buffered().len() == 0
                        &&& (final(self).conv().ended() ==> r == (if final(self).conv().fin_ok() {
                            PollNext::<C::Output, CombinedError<E, C::Error>>::Finished
                        } else {
                            PollNext::<C::Output, CombinedError<E, C::Error>>::Failed(
                                CombinedError::Conversion(final(self).conv().fin_err()),
                            )
                        }))
                        &&& (!final(self).conv().ended() ==> r == PollNext::<
                            C::Output,
                            CombinedError<E, C::Error>,
                        >::NotReady)
                    } else {
                        &&& out.len() == n
                        &&& r == PollNext::<C::Output, CombinedError<E, C::Error>>::Item(out[0])
                        &&& final(self).buffered() == out.drop_first()
                    },
                    Err(e) => {
                        &&& out.len() == 0
                        &&& final(self).buffered().len() == 0
                        &&& r == PollNext::<C::Output, CombinedError<E, C::Error>>::Failed(
                            CombinedError::Conversion(e),
                        )
                    },
                }),
            r is Finished ==> final(self).buffered().len() == 0 && final(self).conv().fin_ok()
                && final(self).conv().ended(),
            r is NotReady ==> final(self).buffered().len() == 0 && !final(self).conv().ended(),
    {
        let converted = self.converter.convert(item, &mut self.buffer);
        proof {
            assert(self.buffer@.skip(old(self).buffer@.len() as int) =~= self.buffer@);
        }
        match converted {
            Ok(n) => {
                if n == 0 {
                    if self.converter.is_ended() {
                        match self.converter.finalize() {
                            Ok(_) => PollNext::Finished,
                            Err(e) => PollNext::Failed(CombinedError::Conversion(e)),
                        }
                    } else {
                        PollNext::NotReady
                    }
                } else {
                    match self.buffer.pop_front() {
                        Some(o) => PollNext::Item(o),
                        None => PollNext::NotReady,
                    }
                }
            },
            Err(e) => PollNext::Failed(CombinedError::Conversion(e)),
        }
    }

    /// Handles an error polled from the source: it is passed through
    /// unchanged as the error to report, and the converter is left
    /// untouched and unfinalized.
    pub fn on_source_error(&mut self, e: E) -> (r: CombinedError<E, C::Error>)
        ensures
            *final(self) == *old(self),
            r == CombinedError::Stream::<E, C::Error>(e),
    {
        CombinedError::Stream(e)
    }

    /// Advisory bounds `(min, max)` on the number of outputs one source
    /// item can produce, as the converter reports them; used by a wrapper
    /// to derive its own size estimate.
    pub fn converter_size_hint(&self) -> (r: (usize, Option<usize>))
        ensures
            r == self.conv().hint(),
    {
        self.converter.size_hint()
    }

    /// Handles the end of the source: finalizes the converter and reports
    /// a clean finish, or the error of a trailing incomplete state as
    /// [`CombinedError::Conversion`].
    pub fn on_end(&mut self) -> (r: PollNext<C::Output, CombinedError<E, C::Error>>)
        ensures
            *final(self) == *old(self),
            r == (if old(self).conv().fin_ok() {
                PollNext::<C::Output, CombinedError<E, C::Error>>::Finished
            } else {
                PollNext::<C::Output, CombinedError<E, C::Error>>::Failed(
                    CombinedError::Conversion(old(self).conv().fin_err()),
                )
            }),
    {
        match self.converter.finalize() {
            Ok(_) => PollNext::Finished,
            Err(e) => PollNext::Failed(CombinedError::Conversion(e)),
        }
    }
}

} // verus!
