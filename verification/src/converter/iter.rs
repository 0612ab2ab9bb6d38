//! Converters that apply a function producing several outputs per item.

use crate::infallible::{never_value, InfallibleConverter, InfallibleResult, NeverError};
use crate::Converter;
use std::collections::VecDeque;
use std::marker::PhantomData;
use vstd::prelude::*;

verus! {

/// Converts each item with a function that returns any number of outputs,
/// all of which are appended in order; it never fails.
pub struct IterConverter<F, I> {
    /// The function applied to each item.
    pub f: F,
    /// Carries the input type.
    pub _input: PhantomData<I>,
}

impl<F, I> IterConverter<F, I> {
    /// Creates a new instance around `f`.
    pub fn new(f: F) -> (r: Self)
        ensures
            r.f == f,
    {
        IterConverter { f, _input: PhantomData }
    }
}

impl<F: Fn(I) -> Vec<O>, I, O> Converter for IterConverter<F, I> {
    type Item = I;

    type Output = O;

    type Error = NeverError;

    open spec fn pre(&self, item: I) -> bool {
        call_requires(self.f, (item,))
    }

    open spec fn ended(&self) -> bool {
        false
    }

    open spec fn fin_ok(&self) -> bool {
        true
    }

    open spec fn fin_err(&self) -> NeverError {
        never_value()
    }

    open spec fn hint(&self) -> (usize, Option<usize>) {
        (0usize, None::<usize>)
    }

    open spec fn convert_rel(
        pre: Self,
        item: I,
        post: Self,
        out: Seq<O>,
        r: Result<usize, NeverError>,
    ) -> bool {
        &&& post == pre
        &&& (exists|produced: Vec<O>|
            call_ensures(pre.f, (item,), produced) && out == produced@ && r == Ok::<
                usize,
                NeverError,
            >(produced@.len() as usize))
    }

    fn convert(&mut self, item: I, buf: &mut VecDeque<O>) -> (r: Result<usize, NeverError>) {
        let mut produced = (self.f)(item);
        let ghost witness = produced;
        let n: usize = produced.len();
        while produced.len() > 0
            invariant
                produced@.len() + buf@.len() == witness@.len() + old(buf)@.len(),
                n == witness@.len(),
                buf@ == old(buf)@ + witness@.take(witness@.len() - produced@.len()),
                produced@ == witness@.skip(witness@.len() - produced@.len()),
            decreases produced@.len(),
        {
            let x = produced.remove(0);
            buf.push_back(x);
            proof {
                let k = witness@.len() - produced@.len();
                assert(buf@ =~= old(buf)@ + witness@.take(k));
                assert(produced@ =~= witness@.skip(k));
            }
        }
        proof {
            assert(witness@.take(witness@.len() as int) =~= witness@);
            assert(buf@ =~= old(buf)@ + witness@);
            assert(buf@.skip(old(buf)@.len() as int) =~= witness@);
        }
        Ok(n)
    }

    fn is_ended(&self) -> (r: bool) {
        false
    }

    fn finalize(&mut self) -> (r: Result<(), NeverError>) {
        Ok(())
    }

    fn size_hint(&self) -> (r: (usize, Option<usize>)) {
        (0, None)
    }
}

impl<F: Fn(I) -> Vec<O>, I, O> InfallibleConverter for IterConverter<F, I> {
    fn convert_ok(&mut self, item: I, buf: &mut VecDeque<O>) -> (r: usize) {
        self.convert(item, buf).unwrap_infallible()
    }

    fn finalize_ok(&mut self) {
        self.finalize().unwrap_infallible()
    }
}

/// Converts each item with a fallible function that returns any number of
/// outputs, all of which are appended in order, or the function's own
/// error.
pub struct TryIterConverter<F, I> {
    /// The function applied to each item.
    pub f: F,
    /// Carries the input type.
    pub _input: PhantomData<I>,
}

impl<F, I> TryIterConverter<F, I> {
    /// Creates a new instance around `f`.
    pub fn new(f: F) -> (r: Self)
        ensures
            r.f == f,
    {
        TryIterConverter { f, _input: PhantomData }
    }
}

impl<F: Fn(I) -> Result<Vec<O>, E>, I, O, E> Converter for TryIterConverter<F, I> {
    type Item = I;

    type Output = O;

    type Error = E;

    open spec fn pre(&self, item: I) -> bool {
        call_requires(self.f, (item,))
    }

    open spec fn ended(&self) -> bool {
        false
    }

    open spec fn fin_ok(&self) -> bool {
        true
    }

    open spec fn fin_err(&self) -> E {
        vstd::pervasive::arbitrary()
    }

    open spec fn hint(&self) -> (usize, Option<usize>) {
        (0usize, None::<usize>)
    }

    open spec fn convert_rel(
        pre: Self,
        item: I,
        post: Self,
        out: Seq<O>,
        r: Result<usize, E>,
    ) -> bool {
        &&& post == pre
        &&& (match r {
            Ok(n) => exists|produced: Vec<O>|
                call_ensures(pre.f, (item,), Ok::<Vec<O>, E>(produced)) && out == produced@ && n
                    == produced@.len(),
            Err(e) => out.len() == 0 && call_ensures(pre.f, (item,), Err::<Vec<O>, E>(e)),
        })
    }

    fn convert(&mut self, item: I, buf: &mut VecDeque<O>) -> (r: Result<usize, E>) {
        match (self.f)(item) {
            Ok(mut produced) => {
                let ghost witness = produced;
                let n: usize = produced.len();
                while produced.len() > 0
                    invariant
                        produced@.len() + buf@.len() == witness@.len() + old(buf)@.len(),
                        n == witness@.len(),
                        buf@ == old(buf)@ + witness@.take(witness@.len() - produced@.len()),
                        produced@ == witness@.skip(witness@.len() - produced@.len()),
                    decreases produced@.len(),
                {
                    let x = produced.remove(0);
                    buf.push_back(x);
                    proof {
                        let k = witness@.len() - produced@.len();
                        assert(buf@ =~= old(buf)@ + witness@.take(k));
                        assert(produced@ =~= witness@.skip(k));
                    }
                }
                proof {
                    assert(witness@.take(witness@.len() as int) =~= witness@);
                    assert(buf@ =~= old(buf)@ + witness@);
                    assert(buf@.skip(old(buf)@.len() as int) =~= witness@);
                }
                Ok(n)
            },
            Err(e) => Err(e),
        }
    }

    fn is_ended(&self) -> (r: bool) {
        false
    }

    fn finalize(&mut self) -> (r: Result<(), E>) {
        Ok(())
    }

    fn size_hint(&self) -> (r: (usize, Option<usize>)) {
        (0, None)
    }
}

} // verus!
