//! Converters that apply a caller-supplied function to each item.

use crate::infallible::{never_value, InfallibleConverter, InfallibleResult, NeverError};
use crate::Converter;
use std::collections::VecDeque;
use std::marker::PhantomData;
use vstd::prelude::*;

verus! {

/// Converts each item with a function, emitting exactly one output per
/// item and never failing.
pub struct MapConverter<F, I> {
    /// The function applied to each item.
    pub f: F,
    /// Carries the input type.
    pub _input: PhantomData<I>,
}

impl<F, I> MapConverter<F, I> {
    /// Creates a new instance around `f`.
    pub fn new(f: F) -> (r: Self)
        ensures
            r.f == f,
    {
        MapConverter { f, _input: PhantomData }
    }
}

impl<F: Fn(I) -> O, I, O> Converter for MapConverter<F, I> {
    type Item = I;

    type Output = O;

    type Error = NeverError;

    open spec fn pre(&self, item: I) -> bool {
        call_requires(self.f, (item,))
    }

    open spec fn ended(&self) -> bool {
        false
    }

    open spec fn fin_ok(&self) -> bool {
        true
    }

    open spec fn fin_err(&self) -> NeverError {
        never_value()
    }

    open spec fn hint(&self) -> (usize, Option<usize>) {
        (1usize, Some(1usize))
    }

    open spec fn convert_rel(
        pre: Self,
        item: I,
        post: Self,
        out: Seq<O>,
        r: Result<usize, NeverError>,
    ) -> bool {
        &&& post == pre
        &&& out.len() == 1
        &&& call_ensures(pre.f, (item,), out[0])
        &&& r == Ok::<usize, NeverError>(1usize)
    }

    fn convert(&mut self, item: I, buf: &mut VecDeque<O>) -> (r: Result<usize, NeverError>) {
        let o = (self.f)(item);
        buf.push_back(o);
        proof {
            assert(buf@.skip(old(buf)@.len() as int) =~= seq![o]);
        }
        Ok(1)
    }

    fn is_ended(&self) -> (r: bool) {
        false
    }

    fn finalize(&mut self) -> (r: Result<(), NeverError>) {
        Ok(())
    }

    fn size_hint(&self) -> (r: (usize, Option<usize>)) {
        (1, Some(1))
    }
}

impl<F: Fn(I) -> O, I, O> InfallibleConverter for MapConverter<F, I> {
    fn convert_ok(&mut self, item: I, buf: &mut VecDeque<O>) -> (r: usize) {
        self.convert(item, buf).unwrap_infallible()
    }

    fn finalize_ok(&mut self) {
        self.finalize().unwrap_infallible()
    }
}

/// Converts each item with a fallible function, emitting one output per
/// item or the function's own error.
pub struct TryMapConverter<F, I> {
    /// The function applied to each item.
    pub f: F,
    /// Carries the input type.
    pub _input: PhantomData<I>,
}

impl<F, I> TryMapConverter<F, I> {
    /// Creates a new instance around `f`.
    pub fn new(f: F) -> (r: Self)
        ensures
            r.f == f,
    {
        TryMapConverter { f, _input: PhantomData }
    }
}

impl<F: Fn(I) -> Result<O, E>, I, O, E> Converter for TryMapConverter<F, I> {
    type Item = I;

    type Output = O;

    type Error = E;

    open spec fn pre(&self, item: I) -> bool {
        call_requires(self.f, (item,))
    }

    open spec fn ended(&self) -> bool {
        false
    }

    open spec fn fin_ok(&self) -> bool {
        true
    }

    open spec fn fin_err(&self) -> E {
        vstd::pervasive::arbitrary()
    }

    open spec fn hint(&self) -> (usize, Option<usize>) {
        (1usize, Some(1usize))
    }

    open spec fn convert_rel(
        pre: Self,
        item: I,
        post: Self,
        out: Seq<O>,
        r: Result<usize, E>,
    ) -> bool {
        &&& post == pre
        &&& (match r {
            Ok(n) => n == 1 && out.len() == 1 && call_ensures(pre.f, (item,), Ok::<O, E>(out[0])),
            Err(e) => out.len() == 0 && call_ensures(pre.f, (item,), Err::<O, E>(e)),
        })
    }

    fn convert(&mut self, item: I, buf: &mut VecDeque<O>) -> (r: Result<usize, E>) {
        match (self.f)(item) {
            Ok(o) => {
                buf.push_back(o);
                proof {
                    assert(buf@.skip(old(buf)@.len() as int) =~= seq![o]);
                }
                Ok(1)
            },
            Err(e) => Err(e),
        }
    }

    fn is_ended(&self) -> (r: bool) {
        false
    }

    fn finalize(&mut self) -> (r: Result<(), E>) {
        Ok(())
    }

    fn size_hint(&self) -> (r: (usize, Option<usize>)) {
        (1, Some(1))
    }
}

} // verus!
