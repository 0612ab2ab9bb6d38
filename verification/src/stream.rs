//! The state machine behind asynchronous stream drivers.
//!
//! Task polling and suspension are outside what this crate verifies, so
//! the asynchronous wrapper around a stream stays thin: it owns its
//! upstream source and a [`ConvertedStream`], yields anything the buffer
//! still holds via [`next_buffered`](ConvertedStream::next_buffered), and
//! otherwise polls its source and hands the outcome to
//! [`on_item`](ConvertedStream::on_item) or
//! [`on_end`](ConvertedStream::on_end); the returned [`PollNext`] says
//! what to report to the task. Every decision of the driver is made here.

mod trystream;

pub use trystream::ConvertedTryStream;

use crate::{accepts_all, Converter};
use std::collections::VecDeque;
use vstd::prelude::*;

verus! {

/// What a stream driver reports after handling one source event.
#[derive(Clone, Copy, Debug, PartialEq, Eq)]
pub enum PollNext<O, E> {
    /// One output is ready to be yielded.
    Item(O),
    /// The conversion or the finalization failed.
    Failed(E),
    /// The input ended and the converter finalized cleanly.
    Finished,
    /// The item was consumed without an output; more input is needed.
    NotReady,
}

/// The buffer and converter of a driver over an asynchronous source.
pub struct ConvertedStream<C: Converter> {
    buffer: VecDeque<C::Output>,
    converter: C,
}

impl<C: Converter> ConvertedStream<C> {
    /// The outputs already produced by the converter but not yet yielded.
    pub closed spec fn buffered(&self) -> Seq<C::Output> {
        self.buffer@
    }

    /// The converter.
    pub closed spec fn conv(&self) -> C {
        self.converter
    }

    /// Creates a new driver state around `converter`.
    pub fn new(converter: C) -> (r: Self)
        ensures
            r.buffered() == Seq::<C::Output>::empty(),
            r.conv() == converter,
    {
        let (min, max) = converter.size_hint();
        let cap: usize = match max {
            Some(m) => m,
            None => min,
        };
        ConvertedStream { buffer: VecDeque::with_capacity(cap), converter }
    }

    /// Pops the next buffered output, if any; buffered outputs must be
    /// yielded one at a time before the source is polled again.
    pub fn next_buffered(&mut self) -> (r: Option<C::Output>)
        ensures
            old(self).buffered().len() == 0
                ==> r is None && final(self).buffered() == old(self).buffered()
                    && final(self).conv() == old(self).conv(),
            old(self).buffered().len() > 0
                ==> r == Some(old(self).buffered()[0])
                    && final(self).buffered() == old(self).buffered().drop_first()
                    && final(self).conv() == old(self).conv(),
    {
        self.buffer.pop_front()
    }

    /// Handles one item polled from the source: the item is converted
    /// once, and the report follows the converter's own behaviour. A fresh
    /// first output is reported as `Item` with the rest left buffered; a
    /// conversion error is reported as `Failed`; a call that consumed the
    /// item without output reports `NotReady`, unless the converter has
    /// ended, in which case it is finalized and the call reports
    /// `Finished` or the finalization error.
    pub fn on_item(&mut self, item: C::Item) -> (r: PollNext<C::Output, C::Error>)
        requires
            accepts_all(old(self).conv()),
            old(self).buffered().len() == 0,
        ensures
            accepts_all(final(self).conv()),
            exists|out: Seq<C::Output>, rr: Result<usize, C::Error>|
                C::convert_rel(old(self).conv(), item, final(self).conv(), out, rr) && (match rr {
                    Ok(n) => if n == 0 {
                        &&& out.len() == 0
                        &&& final(self).buffered().len() == 0
                        &&& (final(self).conv().ended() ==> r == (if final(self).conv().fin_ok() {
                            PollNext::<C::Output, C::Error>::Finished
                        } else {
                            PollNext::<C::Output, C::Error>::Failed(final(self).conv().fin_err())
                        }))
                        &&& (!final(self).conv().ended() ==> r == PollNext::<
                            C::Output,
                            C::Error,
                        >::NotReady)
                    } else {
                        &&& out.len() == n
                        &&& r == PollNext::<C::Output, C::Error>::Item(out[0])
                        &&& final(self).buffered() == out.drop_first()
                    },
                    Err(e) => {
                        &&& out.len() == 0
                        &&& final(self).buffered().len() == 0
                        &&& r == PollNext::<C::Output, C::Error>::Failed(e)
                    },
                }),
            r is Finished ==> final(self).buffered().len() == 0 && final(self).conv().fin_ok()
                && final(self).conv().ended(),
            r is NotReady ==> final(self).buffered().len() == 0 && !final(self).conv().ended(),
    {
        let converted = self.converter.convert(item, &mut self.buffer);
        proof {
            assert(self.buffer@.skip(old(self).buffer@.len() as int) =~= self.buffer@);
        }
        match converted {
            Ok(n) => {
                if n == 0 {
                    if self.converter.is_ended() {
                        match self.converter.finalize() {
                            Ok(_) => PollNext::Finished,
                            Err(e) => PollNext::Failed(e),
                        }
                    } else {
                        PollNext::NotReady
                    }
                } else {
                    match self.buffer.pop_front() {
                        Some(o) => PollNext::Item(o),
                        None => PollNext::NotReady,
                    }
                }
            },
            Err(e) => PollNext::Failed(e),
        }
    }

    /// Advisory bounds `(min, max)` on the number of outputs one source
    /// item can produce, as the converter reports them; used by a wrapper
    /// to derive its own size estimate.
    pub fn converter_size_hint(&self) -> (r: (usize, Option<usize>))
        ensures
            r == self.conv().hint(),
    {
        self.converter.size_hint()
    }

    /// Handles the end of the source: finalizes the converter and reports
    /// a clean finish, or the error of a trailing incomplete state.
    pub fn on_end(&mut self) -> (r: PollNext<C::Output, C::Error>)
        ensures
            *final(self) == *old(self),
            r == (if old(self).conv().fin_ok() {
                PollNext::<C::Output, C::Error>::Finished
            } else {
                PollNext::<C::Output, C::Error>::Failed(old(self).conv().fin_err())
            }),
    {
        match self.converter.finalize() {
            Ok(_) => PollNext::Finished,
            Err(e) => PollNext::Failed(e),
        }
    }
}

} // verus!
