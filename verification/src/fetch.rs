//! A bounded first-in-first-out prefetch buffer: the decision core of the
//! prefetching reader and iterator wrappers.  An outside source fills it up
//! to its capacity; items leave it in exactly the order they entered.

use vstd::prelude::*;

verus! {

/// A queue of at most `spec_capacity` items, drained in arrival order.
#[derive(Clone)]
pub struct PrefetchQueue<T> {
    items: Vec<T>,
    cap: usize,
}

impl<T> View for PrefetchQueue<T> {
    type V = Seq<T>;

    closed spec fn view(&self) -> Seq<T> {
        self.items@
    }
}

impl<T> PrefetchQueue<T> {
    /// The most items the queue will hold.
    pub closed spec fn spec_capacity(&self) -> nat {
        self.cap as nat
    }

    /// Invariant: the queue never holds more than its capacity.
    pub open spec fn wf(&self) -> bool {
        self@.len() <= self.spec_capacity()
    }

    /// Create an empty queue that will hold at most `cap` items.
    pub fn new(cap: usize) -> (r: Self)
        ensures
            r.wf(),
            r@ == Seq::<T>::empty(),
            r.spec_capacity() == cap,
    {
        PrefetchQueue { items: Vec::new(), cap }
    }

    /// How many items are waiting.
    pub fn len(&self) -> (r: usize)
        ensures
            r == self@.len(),
    {
        self.items.len()
    }

    /// Whether no items are waiting.
    pub fn is_empty(&self) -> (r: bool)
        ensures
            r == (self@.len() == 0),
    {
        self.items.is_empty()
    }

    /// Whether the queue holds as many items as it ever will.
    pub fn is_full(&self) -> (r: bool)
        requires
            self.wf(),
        ensures
            r == (self@.len() == self.spec_capacity()),
    {
        self.items.len() == self.cap
    }

    /// The most items the queue will hold.
    pub fn capacity(&self) -> (r: usize)
        ensures
            r == self.spec_capacity(),
    {
        self.cap
    }

    /// Accept one item at the back, or hand it back when the queue is full.
    pub fn push_back(&mut self, item: T) -> (r: Result<(), T>)
        requires
            old(self).wf(),
        ensures
            final(self).wf(),
            old(self)@.len() < old(self).spec_capacity() ==> (r is Ok && final(self)@ == old(
                self,
            )@.push(item)),
            old(self)@.len() == old(self).spec_capacity() ==> (r matches Err(it) && it == item
                && final(self)@ == old(self)@),
            final(self).spec_capacity() == old(self).spec_capacity(),
    {
        if self.items.len() < self.cap {
            self.items.push(item);
            Ok(())
        } else {
            Err(item)
        }
    }

    /// Hand out the item that has waited longest, or `None` when the queue
    /// is empty.
    pub fn pop_front(&mut self) -> (r: Option<T>)
        requires
            old(self).wf(),
        ensures
            final(self).wf(),
            old(self)@.len() == 0 ==> (r is None && final(self)@ == old(self)@),
            old(self)@.len() > 0 ==> (r matches Some(it) && it == old(self)@[0] && final(self)@
                == old(self)@.subrange(1, old(self)@.len() as int)),
            final(self).spec_capacity() == old(self).spec_capacity(),
    {
        if self.items.is_empty() {
            None
        } else {
            let item = self.items.remove(0);
            proof {
                assert(self.items@ =~= old(self)@.subrange(1, old(self)@.len() as int));
            }
            Some(item)
        }
    }
}

impl<T: Copy> PrefetchQueue<T> {
    /// Accept as much of a slice as there is room for, in order; the number
    /// of items taken comes back.
    #[verifier::loop_isolation(false)]
    pub fn push_slice(&mut self, data: &[T]) -> (r: usize)
        requires
            old(self).wf(),
        ensures
            final(self).wf(),
            r == vstd::math::min(
                old(self).spec_capacity() - old(self)@.len(),
                data@.len() as int,
            ),
            final(self)@ == old(self)@ + data@.subrange(0, r as int),
            final(self).spec_capacity() == old(self).spec_capacity(),
    {
        let room = self.cap - self.items.len();
        let take = if data.len() < room {
            data.len()
        } else {
            room
        };
        let mut i: usize = 0;
        while i < take
            invariant
                i <= take,
                self.items@.len() == old(self)@.len() + i,
                self.cap == old(self).cap,
                self.items@ =~= old(self)@ + data@.subrange(0, i as int),
            decreases take - i,
        {
            self.items.push(*vstd::slice::slice_index_get(data, i));
            proof {
                assert(self.items@ =~= old(self)@ + data@.subrange(0, i + 1));
            }
            i += 1;
        }
        take
    }

    /// Move the longest-waiting items into the front of `out`, as many as
    /// fit and are waiting; the number moved comes back, and the rest of
    /// `out` is untouched.
    #[verifier::loop_isolation(false)]
    pub fn pop_into(&mut self, out: &mut [T]) -> (r: usize)
        requires
            old(self).wf(),
        ensures
            final(self).wf(),
            r == vstd::math::min(old(self)@.len() as int, old(out)@.len() as int),
            final(self)@ == old(self)@.subrange(r as int, old(self)@.len() as int),
            final(out)@.len() == old(out)@.len(),
            forall|j: int| 0 <= j < r ==> #[trigger] final(out)@[j] == old(self)@[j],
            forall|j: int| r <= j < old(out)@.len() ==> #[trigger] final(out)@[j] == old(out)@[j],
            final(self).spec_capacity() == old(self).spec_capacity(),
    {
        let take = if out.len() < self.items.len() {
            out.len()
        } else {
            self.items.len()
        };
        let mut i: usize = 0;
        while i < take
            invariant
                i <= take,
                *self == *old(self),
                out@.len() == old(out)@.len(),
                forall|j: int| 0 <= j < i ==> #[trigger] out@[j] == old(self)@[j],
                forall|j: int| i <= j < old(out)@.len() ==> #[trigger] out@[j] == old(out)@[j],
            decreases take - i,
        {
            out[i] = *vstd::slice::slice_index_get(self.items.as_slice(), i);
            i += 1;
        }
        let mut rest: Vec<T> = Vec::new();
        let mut k: usize = take;
        while k < self.items.len()
            invariant
                take <= k <= self.items@.len(),
                *self == *old(self),
                out@.len() == old(out)@.len(),
                forall|j: int| 0 <= j < take ==> #[trigger] out@[j] == old(self)@[j],
                forall|j: int| take <= j < old(out)@.len() ==> #[trigger] out@[j] == old(out)@[j],
                rest@ =~= old(self)@.subrange(take as int, k as int),
            decreases self.items@.len() - k,
        {
            rest.push(*vstd::slice::slice_index_get(self.items.as_slice(), k));
            proof {
                assert(rest@ =~= old(self)@.subrange(take as int, k + 1));
            }
            k += 1;
        }
        self.items = rest;
        take
    }
}

} // verus!
