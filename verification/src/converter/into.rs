//! A converter that applies a standard fallible conversion to each item.

use crate::Converter;
use std::collections::VecDeque;
use std::marker::PhantomData;
use vstd::prelude::*;
use vstd::std_specs::convert::TryIntoSpec;

verus! {

/// Converts each item with `TryInto`, emitting one output per item or the
/// conversion's own error.
pub struct IntoConverter<I, O> {
    /// Carries the input type.
    pub _input: PhantomData<I>,
    /// Carries the output type.
    pub _output: PhantomData<O>,
}

impl<I, O> IntoConverter<I, O> {
    /// Creates a new instance.
    pub fn new() -> (r: Self) {
        IntoConverter { _input: PhantomData, _output: PhantomData }
    }
}

impl<I: TryInto<O>, O> Converter for IntoConverter<I, O> {
    type Item = I;

    type Output = O;

    type Error = <I as TryInto<O>>::Error;

    open spec fn pre(&self, item: I) -> bool {
        true
    }

    open spec fn ended(&self) -> bool {
        false
    }

    open spec fn fin_ok(&self) -> bool {
        true
    }

    open spec fn fin_err(&self) -> <I as TryInto<O>>::Error {
        vstd::pervasive::arbitrary()
    }

    open spec fn hint(&self) -> (usize, Option<usize>) {
        (1usize, Some(1usize))
    }

    open spec fn convert_rel(
        pre: Self,
        item: I,
        post: Self,
        out: Seq<O>,
        r: Result<usize, <I as TryInto<O>>::Error>,
    ) -> bool {
        &&& post == pre
        &&& (match r {
            Ok(n) => n == 1 && out.len() == 1,
            Err(_) => out.len() == 0,
        })
        &&& (<I as TryIntoSpec<O>>::obeys_try_into_spec() ==> (match item.try_into_spec() {
            Ok(o) => out == seq![o] && r == Ok::<usize, <I as TryInto<O>>::Error>(1usize),
            Err(e) => r == Err::<usize, <I as TryInto<O>>::Error>(e),
        }))
    }

    fn convert(&mut self, item: I, buf: &mut VecDeque<O>) -> (r: Result<
        usize,
        <I as TryInto<O>>::Error,
    >) {
        match item.try_into() {
            Ok(o) => {
                buf.push_back(o);
                proof {
                    assert(buf@.skip(old(buf)@.len() as int) =~= seq![o]);
                }
                Ok(1)
            },
            Err(e) => Err(e),
        }
    }

    fn is_ended(&self) -> (r: bool) {
        false
    }

    fn finalize(&mut self) -> (r: Result<(), <I as TryInto<O>>::Error>) {
        Ok(())
    }

    fn size_hint(&self) -> (r: (usize, Option<usize>)) {
        (1, Some(1))
    }
}

} // verus!
