//! Forward-only item sources that feed the drivers of this crate.

use vstd::prelude::*;

verus! {

/// A forward-only, single-pass source of items.
///
/// A source abstractly holds the sequence of items it has not yet handed
/// out; `pull` removes and returns the first of them, or reports
/// exhaustion.
pub trait Source: Sized {
    /// The type of items the source produces.
    type Item;

    /// The items the source has not yet handed out, in order.
    spec fn remaining(&self) -> Seq<Self::Item>;

    /// Removes and returns the next item, or `None` when the source is
    /// exhausted.
    fn pull(&mut self) -> (r: Option<Self::Item>)
        ensures
            old(self).remaining().len() == 0
                ==> r is None && final(self).remaining() == old(self).remaining(),
            old(self).remaining().len() > 0
                ==> r == Some(old(self).remaining()[0])
                    && final(self).remaining() == old(self).remaining().drop_first(),
    ;

    /// The advisory bounds that [`size_estimate`](Source::size_estimate)
    /// reports.
    spec fn estimate(&self) -> (usize, Option<usize>);

    /// Advisory bounds `(min, max)` on how many items remain; used only to
    /// preallocate buffer capacity.
    fn size_estimate(&self) -> (r: (usize, Option<usize>))
        ensures
            r == self.estimate(),
    ;
}

/// A source that hands out the items of a vector, in order.
pub struct VecSource<T> {
    /// The items not yet handed out, stored in reverse order so that the
    /// next one can be popped from the end.
    stack: Vec<T>,
}

impl<T> VecSource<T> {
    /// Creates a source that yields the items of `items`, front to back.
    pub fn new(items: Vec<T>) -> (r: Self)
        ensures
            r.remaining() == items@,
    {
        let ghost input = items@;
        let mut forward = items;
        let mut stack: Vec<T> = Vec::new();
        while forward.len() > 0
            invariant
                forward@.len() + stack@.len() == input.len(),
                forward@ == input.take(forward@.len() as int),
                forall|j: int|
                    0 <= j < stack@.len() ==> stack@[j] == input[input.len() - 1 - j],
            decreases forward@.len(),
        {
            match forward.pop() {
                Some(x) => {
                    stack.push(x);
                    proof {
                        assert(forward@ =~= input.take(forward@.len() as int));
                    }
                },
                None => {},
            }
        }
        proof {
            assert(stack@.reverse() =~= input);
        }
        VecSource { stack }
    }
}

impl<T> Source for VecSource<T> {
    type Item = T;

    closed spec fn remaining(&self) -> Seq<T> {
        self.stack@.reverse()
    }

    closed spec fn estimate(&self) -> (usize, Option<usize>) {
        ((self.stack@.len() as usize), Some(self.stack@.len() as usize))
    }

    fn pull(&mut self) -> (r: Option<T>) {
        let popped = self.stack.pop();
        proof {
            if old(self).stack@.len() > 0 {
                assert(self.stack@.reverse() =~= old(self).stack@.reverse().drop_first());
            } else {
                assert(self.stack@.reverse() =~= old(self).stack@.reverse());
            }
        }
        popped
    }

    fn size_estimate(&self) -> (r: (usize, Option<usize>))
        ensures
            r.0 == self.remaining().len(),
            r.1 == Some(r.0),
    {
        let n = self.stack.len();
        (n, Some(n))
    }
}

} // verus!
