//! A converter that consumes an exact sequence of expected items.

use crate::Converter;
use std::collections::VecDeque;
use std::marker::PhantomData;
use vstd::prelude::*;

verus! {

/// An error when an input item does not match the expected pattern.
#[derive(Clone, Copy, Default, Debug, PartialEq, Eq)]
pub struct UnmatchedError;

/// Items that can be compared with a verified outcome: the executable
/// comparison returns exactly spec-level equality. The pattern matcher
/// compares its items through this trait, so its contract can promise
/// precisely which items it accepts.
pub trait ItemEq: Sized {
    /// Returns whether the two items are equal.
    fn eq_item(&self, other: &Self) -> (r: bool)
        ensures
            r == (self == other),
    ;
}

impl ItemEq for bool {
    fn eq_item(&self, other: &Self) -> (r: bool) {
        *self == *other
    }
}

impl ItemEq for u8 {
    fn eq_item(&self, other: &Self) -> (r: bool) {
        *self == *other
    }
}

impl ItemEq for u16 {
    fn eq_item(&self, other: &Self) -> (r: bool) {
        *self == *other
    }
}

impl ItemEq for u32 {
    fn eq_item(&self, other: &Self) -> (r: bool) {
        *self == *other
    }
}

impl ItemEq for u64 {
    fn eq_item(&self, other: &Self) -> (r: bool) {
        *self == *other
    }
}

impl ItemEq for usize {
    fn eq_item(&self, other: &Self) -> (r: bool) {
        *self == *other
    }
}

impl ItemEq for i8 {
    fn eq_item(&self, other: &Self) -> (r: bool) {
        *self == *other
    }
}

impl ItemEq for i16 {
    fn eq_item(&self, other: &Self) -> (r: bool) {
        *self == *other
    }
}

impl ItemEq for i32 {
    fn eq_item(&self, other: &Self) -> (r: bool) {
        *self == *other
    }
}

impl ItemEq for i64 {
    fn eq_item(&self, other: &Self) -> (r: bool) {
        *self == *other
    }
}

impl ItemEq for isize {
    fn eq_item(&self, other: &Self) -> (r: bool) {
        *self == *other
    }
}

impl ItemEq for char {
    fn eq_item(&self, other: &Self) -> (r: bool) {
        let same: bool = (*self as u32) == (*other as u32);
        proof {
            vstd::utf8::char_u32_cast(*self, *self as u32);
            vstd::utf8::char_u32_cast(*other, *other as u32);
        }
        same
    }
}

/// Consumes exactly the items of an expected pattern, without emitting any
/// outputs. Each input item must equal the next expected item; once the
/// whole pattern has been consumed the converter signals its end, so that
/// a chained successor can take over. Finalizing with part of the pattern
/// still unmatched reports an error: an unfinished fixed-pattern match is
/// trailing incomplete state.
pub struct ExactConverter<T, O> {
    /// The expected items, in order.
    pub expected: Vec<T>,
    /// How many expected items have been matched so far.
    pub pos: usize,
    /// Whether an item past the end of the pattern has been seen.
    pub done: bool,
    /// Carries the output type.
    pub _output: PhantomData<O>,
}

impl<T, O> ExactConverter<T, O> {
    /// Creates a new instance that expects exactly the items of `expected`.
    pub fn new(expected: Vec<T>) -> (r: Self)
        ensures
            r.expected == expected,
            r.pos == 0,
            !r.done,
    {
        ExactConverter { expected, pos: 0, done: false, _output: PhantomData }
    }
}

impl<T: ItemEq, O> Converter for ExactConverter<T, O> {
    type Item = T;

    type Output = O;

    type Error = UnmatchedError;

    open spec fn pre(&self, item: T) -> bool {
        true
    }

    open spec fn ended(&self) -> bool {
        self.done
    }

    open spec fn fin_ok(&self) -> bool {
        self.done || self.pos >= self.expected@.len()
    }

    open spec fn fin_err(&self) -> UnmatchedError {
        UnmatchedError
    }

    open spec fn hint(&self) -> (usize, Option<usize>) {
        (0usize, Some(0usize))
    }

    open spec fn convert_rel(
        pre: Self,
        item: T,
        post: Self,
        out: Seq<O>,
        r: Result<usize, UnmatchedError>,
    ) -> bool {
        &&& out.len() == 0
        &&& post.expected == pre.expected
        &&& if pre.done {
            post == pre && r == Ok::<usize, UnmatchedError>(0usize)
        } else if pre.pos >= pre.expected@.len() {
            &&& post.done
            &&& post.pos == pre.pos
            &&& r == Ok::<usize, UnmatchedError>(0usize)
        } else {
            &&& !post.done
            &&& post.pos == pre.pos + 1
            &&& r == (if pre.expected@[pre.pos as int] == item {
                Ok::<usize, UnmatchedError>(0usize)
            } else {
                Err::<usize, UnmatchedError>(UnmatchedError)
            })
        }
    }

    fn convert(&mut self, item: T, buf: &mut VecDeque<O>) -> (r: Result<usize, UnmatchedError>) {
        if self.done {
            return Ok(0);
        }
        if self.pos < self.expected.len() {
            let matched: bool = self.expected[self.pos].eq_item(&item);
            self.pos = self.pos + 1;
            if matched {
                Ok(0)
            } else {
                Err(UnmatchedError)
            }
        } else {
            self.done = true;
            Ok(0)
        }
    }

    fn is_ended(&self) -> (r: bool) {
        self.done
    }

    fn finalize(&mut self) -> (r: Result<(), UnmatchedError>) {
        if self.done || self.pos >= self.expected.len() {
            Ok(())
        } else {
            Err(UnmatchedError)
        }
    }

    fn size_hint(&self) -> (r: (usize, Option<usize>)) {
        (0, Some(0))
    }
}

} // verus!
