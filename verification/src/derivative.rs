//! The pairwise-difference adapter: the discrete first derivative of a
//! sequence, produced lazily with one buffered element of state.

use crate::delta::Delta;
use crate::producer::Producer;
use vstd::prelude::*;

verus! {

/// The sequence of successive differences `s[i + 1] - s[i]` of `s`: the
/// discrete derivative.  It has `max(|s| - 1, 0)` elements.
pub open spec fn diffs<T: Delta>(s: Seq<T>) -> Seq<T::Out> {
    Seq::new(
        if s.len() == 0 { 0 } else { (s.len() - 1) as nat },
        |i: int| s[i + 1].diff_spec(s[i]),
    )
}

/// Whether every adjacent pair of `s` may be subtracted.
pub open spec fn all_diffs_defined<T: Delta>(s: Seq<T>) -> bool {
    forall|i: int| 0 <= i < s.len() - 1 ==> s[i + 1].diff_defined(#[trigger] s[i])
}

/// Stepping law for `diffs`: dropping the front element of the source drops
/// the front difference and nothing else, so differences come out front to
/// back, one per adjacent pair, in source order.
pub proof fn lemma_diffs_step<T: Delta>(s: Seq<T>)
    requires
        s.len() >= 2,
    ensures
        diffs(s).len() == s.len() - 1,
        diffs(s)[0] == s[1].diff_spec(s[0]),
        diffs(s.drop_first()) == diffs(s).drop_first(),
{
    assert(diffs(s.drop_first()) =~= diffs(s).drop_first());
}

/// The lazy pairwise-difference adapter.
///
/// It owns a sequence producer and at most one buffered element: the "prev"
/// of the next difference.  Each pull of [`Self::next`] draws just enough
/// from the source (two elements the first time, one thereafter) to emit the
/// next difference, and reports exhaustion once no adjacent pair is left.
pub struct DiscreteDerivativeIter<S: Producer> {
    source: S,
    prev: Option<S::Item>,
}

impl<S: Producer> DiscreteDerivativeIter<S> {
    /// The elements still in play: the buffered previous element, if any,
    /// followed by whatever the source has yet to yield.  The differences
    /// the adapter has yet to emit are exactly `diffs(self.pending())`.
    pub closed spec fn pending(self) -> Seq<S::Item> {
        match self.prev {
            Some(p) => seq![p] + self.source.remaining(),
            None => self.source.remaining(),
        }
    }

    /// Whether a previous element is buffered (the seed has been consumed).
    pub closed spec fn is_seeded(self) -> bool {
        self.prev is Some
    }

    /// The elements the underlying source has yet to yield.
    pub closed spec fn source_remaining(self) -> Seq<S::Item> {
        self.source.remaining()
    }
}

impl<S: Producer> DiscreteDerivativeIter<S> where S::Item: Delta {
    /// Pull the next difference, or `None` once fewer than two elements are
    /// in play.  Once exhausted, the state no longer changes, so every later
    /// pull is exhausted too.  At most one source element is consumed beyond
    /// those the emitted differences required (plus the one-time seed).
    pub fn next(&mut self) -> (r: Option<<S::Item as Delta>::Out>)
        requires
            old(self).pending().len() >= 2
                ==> old(self).pending()[1].diff_defined(old(self).pending()[0]),
        ensures
            r is Some <==> old(self).pending().len() >= 2,
            old(self).pending().len() < 2 ==> final(self).pending() == old(self).pending(),
            old(self).pending().len() >= 2 ==> {
                &&& r == Some(old(self).pending()[1].diff_spec(old(self).pending()[0]))
                &&& final(self).pending() == old(self).pending().drop_first()
                &&& final(self).is_seeded()
            },
            old(self).is_seeded() ==> old(self).source_remaining().len()
                <= final(self).source_remaining().len() + 1,
            old(self).source_remaining().len() <= final(self).source_remaining().len() + 2,
    {
        let p: S::Item = match self.prev {
            Some(p0) => p0,
            None => {
                match self.source.produce() {
                    Some(x) => x,
                    None => {
                        return None;
                    },
                }
            },
        };
        match self.source.produce() {
            Some(x) => {
                self.prev = Some(x);
                proof {
                    assert(self.pending() =~= old(self).pending().drop_first());
                }
                Some(x.diff(p))
            },
            None => {
                self.prev = Some(p);
                proof {
                    assert(self.pending() =~= old(self).pending());
                }
                None
            },
        }
    }

    /// Run the adapter to exhaustion and collect every difference, in order:
    /// for `n` pending elements, exactly `max(n - 1, 0)` outputs, the `i`-th
    /// being `pending[i + 1] - pending[i]`.
    pub fn collect_all(self) -> (r: Vec<<S::Item as Delta>::Out>)
        requires
            all_diffs_defined(self.pending()),
        ensures
            r@ == diffs(self.pending()),
            r@.len() == if self.pending().len() == 0 { 0int } else { self.pending().len() - 1 },
            forall|i: int| 0 <= i < r@.len()
                ==> #[trigger] r@[i] == self.pending()[i + 1].diff_spec(self.pending()[i]),
    {
        let ghost all: Seq<S::Item> = self.pending();
        let mut it = self;
        let mut out: Vec<<S::Item as Delta>::Out> = Vec::new();
        loop
            invariant
                all_diffs_defined(it.pending()),
                out@ + diffs(it.pending()) == diffs(all),
            ensures
                out@ == diffs(all),
            decreases it.pending().len(),
        {
            let ghost before: Seq<S::Item> = it.pending();
            match it.next() {
                Some(d) => {
                    out.push(d);
                    proof {
                        lemma_diffs_step(before);
                        assert(out@ + diffs(it.pending()) =~= diffs(all));
                        assert forall|i: int| 0 <= i < it.pending().len() - 1
                            implies it.pending()[i + 1].diff_defined(#[trigger] it.pending()[i]) by {
                            assert(it.pending()[i + 1] == before[i + 2]);
                            assert(it.pending()[i] == before[i + 1]);
                        }
                    }
                },
                None => {
                    proof {
                        assert(diffs(it.pending()).len() == 0);
                        assert(out@ =~= diffs(all));
                    }
                    break;
                },
            }
        }
        out
    }
}

/// Wrap any sequence producer of subtractable elements in a
/// [`DiscreteDerivativeIter`].
pub trait DiscreteDerivativeIterExt: Producer where Self::Item: Delta {
    /// The adapter over `self`, not yet seeded, with every element of `self`
    /// still in play.
    fn discrete_derivative(self) -> (r: DiscreteDerivativeIter<Self>)
        ensures
            r.pending() == self.remaining(),
            !r.is_seeded(),
    ;
}

impl<S: Producer> DiscreteDerivativeIterExt for S where S::Item: Delta {
    fn discrete_derivative(self) -> (r: DiscreteDerivativeIter<S>) {
        DiscreteDerivativeIter { source: self, prev: None }
    }
}

} // verus!
