//! Pull-based sequence producers: the source abstraction the adapter wraps.

use vstd::prelude::*;

verus! {

/// A sequence producer: an entity that, when asked, yields either its next
/// element or an exhaustion signal.  Pulling is destructive and forward-only;
/// no length, random access or rewind capability is required of it.
///
/// `remaining()` is the (ghost) sequence of elements the producer has yet to
/// yield.  `produce` pops its first element, or reports exhaustion — and then
/// keeps reporting exhaustion, since the empty remainder stays empty.
pub trait Producer: Sized {
    type Item;

    /// The elements this producer has yet to yield, in order.
    spec fn remaining(&self) -> Seq<Self::Item>;

    /// Yield the next element, or `None` once the source is exhausted.
    fn produce(&mut self) -> (r: Option<Self::Item>)
        ensures
            old(self).remaining().len() == 0 ==> r is None
                && final(self).remaining() == old(self).remaining(),
            old(self).remaining().len() > 0 ==> r == Some(old(self).remaining()[0])
                && final(self).remaining() == old(self).remaining().drop_first(),
    ;
}

/// A producer that owns its elements and yields them front to back.
pub struct VecProducer<T> {
    items: Vec<T>,
    pos: usize,
}

impl<T: Copy> VecProducer<T> {
    pub fn new(items: Vec<T>) -> (r: Self)
        ensures
            r.remaining() == items@,
    {
        VecProducer { items, pos: 0 }
    }
}

impl<T: Copy> Producer for VecProducer<T> {
    type Item = T;

    closed spec fn remaining(&self) -> Seq<T> {
        if self.pos <= self.items.len() {
            self.items@.skip(self.pos as int)
        } else {
            Seq::empty()
        }
    }

    fn produce(&mut self) -> (r: Option<T>)
    {
        if self.pos < self.items.len() {
            let x = self.items[self.pos];
            self.pos = self.pos + 1;
            proof {
                assert(self.remaining() =~= old(self).remaining().drop_first());
            }
            Some(x)
        } else {
            None
        }
    }
}

/// A producer over a read-only view of a sequence; the elements are copied
/// out one at a time and the underlying storage is never modified.
pub struct SliceProducer<'a, T> {
    items: &'a [T],
    pos: usize,
}

impl<'a, T: Copy> SliceProducer<'a, T> {
    pub fn new(items: &'a [T]) -> (r: Self)
        ensures
            r.remaining() == items@,
    {
        SliceProducer { items, pos: 0 }
    }
}

impl<'a, T: Copy> Producer for SliceProducer<'a, T> {
    type Item = T;

    closed spec fn remaining(&self) -> Seq<T> {
        if self.pos <= self.items.len() {
            self.items@.skip(self.pos as int)
        } else {
            Seq::empty()
        }
    }

    fn produce(&mut self) -> (r: Option<T>)
    {
        if self.pos < self.items.len() {
            let x = self.items[self.pos];
            self.pos = self.pos + 1;
            proof {
                assert(self.remaining() =~= old(self).remaining().drop_first());
            }
            Some(x)
        } else {
            None
        }
    }
}

} // verus!
