//! A converter that chains two converters into a fallback sequence.

use crate::Converter;
use std::collections::VecDeque;
use vstd::prelude::*;

verus! {

/// An error of a chained converter, telling apart a failure of the first
/// segment from a failure of the second.
#[derive(Clone, Copy, Debug, PartialEq, Eq)]
pub enum ChainedError<E, F> {
    /// The first converter failed.
    First(E),
    /// The second converter failed.
    Second(F),
}

/// Routes every item to the first converter until it signals its end after
/// a call that produced no output; at that transition the first converter
/// is finalized once, the very item that triggered the transition is
/// retried against the second converter, and from then on the first
/// converter is never touched again.
pub struct ChainedConverter<C, D> {
    /// The converter that handles the leading segment of the input.
    pub first: C,
    /// The converter that takes over once the first one has ended.
    pub second: D,
    /// Whether the first converter has ended and been finalized.
    pub first_ended: bool,
}

impl<C, D> ChainedConverter<C, D> {
    /// Creates a new instance.
    pub fn new(first: C, second: D) -> (r: Self)
        ensures
            r.first == first,
            r.second == second,
            !r.first_ended,
    {
        ChainedConverter { first, second, first_ended: false }
    }
}

impl<C, D> Converter for ChainedConverter<C, D> where
    C: Converter,
    C::Item: Copy,
    D: Converter<Item = C::Item, Output = C::Output>,
 {
    type Item = C::Item;

    type Output = C::Output;

    type Error = ChainedError<C::Error, D::Error>;

    open spec fn pre(&self, item: C::Item) -> bool {
        self.first.pre(item) && self.second.pre(item)
    }

    open spec fn ended(&self) -> bool {
        self.second.ended()
    }

    open spec fn fin_ok(&self) -> bool {
        self.second.fin_ok()
    }

    open spec fn fin_err(&self) -> ChainedError<C::Error, D::Error> {
        ChainedError::Second(self.second.fin_err())
    }

    open spec fn hint(&self) -> (usize, Option<usize>) {
        (0usize, None::<usize>)
    }

    /// One call behaves in exactly one of four ways. After the transition,
    /// the item goes to the second converter alone and its errors are
    /// tagged `Second`. Before it, the item goes to the first converter:
    /// its result is passed through with errors tagged `First`, except
    /// when it reports `Ok(0)` and has ended — then the first converter is
    /// finalized (a failure surfacing as `First`), the flag flips for
    /// good, and the very same item is retried against the second
    /// converter.
    open spec fn convert_rel(
        pre: Self,
        item: C::Item,
        post: Self,
        out: Seq<C::Output>,
        r: Result<usize, ChainedError<C::Error, D::Error>>,
    ) -> bool {
        if pre.first_ended {
            &&& post.first == pre.first
            &&& post.first_ended
            &&& (exists|rr: Result<usize, D::Error>|
                D::convert_rel(pre.second, item, post.second, out, rr) && r == (match rr {
                    Ok(n) => Ok::<usize, ChainedError<C::Error, D::Error>>(n),
                    Err(e) => Err::<usize, ChainedError<C::Error, D::Error>>(
                        ChainedError::Second(e),
                    ),
                }))
        } else {
            ||| (exists|mid: C, n: usize|
                C::convert_rel(pre.first, item, mid, out, Ok(n)) && !(n == 0 && mid.ended())
                    && post == (ChainedConverter { first: mid, second: pre.second, first_ended: false })
                    && r == Ok::<usize, ChainedError<C::Error, D::Error>>(n))
            ||| (exists|mid: C, e: C::Error|
                C::convert_rel(pre.first, item, mid, out, Err(e))
                    && post == (ChainedConverter { first: mid, second: pre.second, first_ended: false })
                    && r == Err::<usize, ChainedError<C::Error, D::Error>>(ChainedError::First(e)))
            ||| (exists|mid: C|
                C::convert_rel(pre.first, item, mid, out, Ok(0usize)) && mid.ended()
                    && !mid.fin_ok()
                    && post == (ChainedConverter { first: mid, second: pre.second, first_ended: true })
                    && r == Err::<usize, ChainedError<C::Error, D::Error>>(
                    ChainedError::First(mid.fin_err()),
                ))
            ||| (exists|mid: C, out1: Seq<C::Output>, out2: Seq<C::Output>, rr: Result<
                usize,
                D::Error,
            >|
                C::convert_rel(pre.first, item, mid, out1, Ok(0usize)) && mid.ended()
                    && mid.fin_ok() && D::convert_rel(pre.second, item, post.second, out2, rr)
                    && out == out1 + out2 && post.first == mid && post.first_ended && r == (
                match rr {
                    Ok(n) => Ok::<usize, ChainedError<C::Error, D::Error>>(n),
                    Err(e) => Err::<usize, ChainedError<C::Error, D::Error>>(
                        ChainedError::Second(e),
                    ),
                }))
        }
    }

    fn convert(&mut self, item: C::Item, buf: &mut VecDeque<C::Output>) -> (r: Result<
        usize,
        ChainedError<C::Error, D::Error>,
    >)
        ensures
            old(self).first_ended ==> final(self).first == old(self).first,
            old(self).first_ended ==> final(self).first_ended,
            old(self).first_ended ==> (r matches Err(e) ==> e is Second),
            !old(self).first_ended && !final(self).first_ended
                ==> final(self).second == old(self).second,
            !old(self).first_ended
                ==> (r matches Err(e) && e is Second ==> final(self).first_ended),
            r matches Err(e) && e is First ==> final(self).second == old(self).second,
            final(self).first_ended ==> old(self).first_ended || final(self).first.ended(),
    {
        let ghost base = old(buf)@.len() as int;
        if self.first_ended {
            let inner = self.second.convert(item, buf);
            let result: Result<usize, ChainedError<C::Error, D::Error>> = match inner {
                Ok(n) => Ok(n),
                Err(e) => Err(ChainedError::Second(e)),
            };
            proof {
                assert(D::convert_rel(old(self).second, item, self.second, buf@.skip(base), inner));
            }
            return result;
        }
        let ghost first0 = self.first;
        let ghost second0 = self.second;
        let converted = self.first.convert(item, buf);
        let ghost mid = self.first;
        let ghost out1 = buf@.skip(base);
        match converted {
            Ok(n) => {
                if n == 0 && self.first.is_ended() {
                    self.first_ended = true;
                    match self.first.finalize() {
                        Ok(_) => {},
                        Err(e) => {
                            proof {
                                assert(C::convert_rel(first0, item, mid, out1, Ok(0usize)));
                            }
                            return Err(ChainedError::First(e));
                        },
                    }
                    let ghost len1 = buf@.len() as int;
                    let retried = self.second.convert(item, buf);
                    let result: Result<usize, ChainedError<C::Error, D::Error>> = match retried {
                        Ok(m) => Ok(m),
                        Err(e) => Err(ChainedError::Second(e)),
                    };
                    proof {
                        let out2 = buf@.skip(len1);
                        assert(C::convert_rel(first0, item, mid, out1, Ok(0usize)));
                        assert(D::convert_rel(second0, item, self.second, out2, retried));
                        assert(buf@.skip(base) =~= out1 + out2);
                    }
                    return result;
                }
                proof {
                    assert(C::convert_rel(first0, item, mid, out1, Ok(n)));
                    assert(buf@.skip(base) =~= out1);
                }
                Ok(n)
            },
            Err(e) => {
                proof {
                    assert(C::convert_rel(first0, item, mid, out1, Err(e)));
                    assert(buf@.skip(base) =~= out1);
                }
                Err(ChainedError::First(e))
            },
        }
    }

    fn is_ended(&self) -> (r: bool) {
        self.second.is_ended()
    }

    fn finalize(&mut self) -> (r: Result<(), ChainedError<C::Error, D::Error>>) {
        match self.second.finalize() {
            Ok(_) => Ok(()),
            Err(e) => Err(ChainedError::Second(e)),
        }
    }

    fn size_hint(&self) -> (r: (usize, Option<usize>)) {
        (0, None)
    }
}

} // verus!
