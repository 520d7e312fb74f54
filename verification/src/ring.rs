//! Bounded history of decoded samples: append at the tail, evict the
//! oldest from the head once the capacity is reached.  Single writer;
//! readers only observe copies or borrows.

use vstd::prelude::*;

use crate::sample::TelemetrySample;

verus! {

/// One bounded push: append `x`; if that exceeds `cap`, drop the
/// oldest element so exactly `cap` remain.
pub open spec fn push_evict<T>(c: Seq<T>, cap: nat, x: T) -> Seq<T> {
    let grown = c.push(x);
    if grown.len() > cap {
        grown.drop_first()
    } else {
        grown
    }
}

/// `items` pushed in order after `init`, each push bounded by `cap`.
pub open spec fn push_all<T>(init: Seq<T>, cap: nat, items: Seq<T>) -> Seq<T>
    decreases items.len(),
{
    if items.len() == 0 {
        init
    } else {
        push_evict(push_all(init, cap, items.drop_last()), cap, items.last())
    }
}

/// Bounded pushes keep exactly the newest elements: starting within the
/// bound, the store ends as the suffix of everything ever pushed that
/// still fits, in original order.
pub proof fn lemma_push_all_suffix<T>(init: Seq<T>, cap: nat, items: Seq<T>)
    requires
        init.len() <= cap,
    ensures
        push_all(init, cap, items) == (init + items).skip(
            if init.len() + items.len() <= cap {
                0
            } else {
                init.len() + items.len() - cap
            },
        ),
        push_all(init, cap, items).len() == if init.len() + items.len() <= cap {
            init.len() + items.len()
        } else {
            cap
        },
    decreases items.len(),
{
    if items.len() == 0 {
        assert((init + items).skip(0) =~= init);
    } else {
        let dropped = items.drop_last();
        let x = items.last();
        lemma_push_all_suffix(init, cap, dropped);
        let prev = push_all(init, cap, dropped);
        let total_prev = init.len() + dropped.len();
        if prev.len() < cap {
            assert(prev.push(x) =~= (init + items).skip(0));
        } else {
            let clip = total_prev - cap;
            assert(prev =~= (init + dropped).skip(clip as int));
            assert(prev.push(x).drop_first() =~= (init + items).skip(clip + 1));
        }
    }
}

/// Pushing at least `cap` samples into an empty store leaves exactly
/// `cap` of them: the most recently pushed ones, in original order.
pub proof fn lemma_ring_fifo<T>(cap: nat, items: Seq<T>)
    requires
        items.len() >= cap,
    ensures
        push_all(Seq::<T>::empty(), cap, items) == items.skip(items.len() - cap),
        push_all(Seq::<T>::empty(), cap, items).len() == cap,
{
    lemma_push_all_suffix(Seq::<T>::empty(), cap, items);
    if items.len() == cap {
        assert((Seq::<T>::empty() + items).skip(0) =~= items.skip(0));
        assert(items.skip(0) =~= items.skip(items.len() - cap));
    } else {
        assert((Seq::<T>::empty() + items).skip(items.len() - cap) =~= items.skip(
            items.len() - cap,
        ));
    }
}

/// Fixed-capacity FIFO-eviction store of samples.
pub struct RingBuffer {
    buf: Vec<TelemetrySample>,
    capacity: usize,
}

impl RingBuffer {
    /// Current contents, oldest first.
    pub closed spec fn contents(self) -> Seq<TelemetrySample> {
        self.buf@
    }

    /// The fixed capacity bound.
    pub closed spec fn cap(self) -> nat {
        self.capacity as nat
    }

    /// Invariant: never more samples than the capacity allows.
    pub open spec fn wf(self) -> bool {
        self.contents().len() <= self.cap()
    }

    /// An empty store with the given capacity bound.
    pub fn new(capacity: usize) -> (r: Self)
        ensures
            r.wf(),
            r.cap() == capacity,
            r.contents() == Seq::<TelemetrySample>::empty(),
    {
        let r = RingBuffer { buf: Vec::new(), capacity };
        proof {
            assert(r.contents() =~= Seq::<TelemetrySample>::empty());
        }
        r
    }

    /// Number of samples currently held.
    pub fn len(&self) -> (n: usize)
        ensures
            n == self.contents().len(),
    {
        self.buf.len()
    }

    /// The capacity bound the store was created with.
    pub fn capacity(&self) -> (c: usize)
        ensures
            c == self.cap(),
    {
        self.capacity
    }

    /// Borrow of the sample at position `i`, oldest first.
    pub fn get(&self, i: usize) -> (s: &TelemetrySample)
        requires
            i < self.contents().len(),
        ensures
            *s == self.contents()[i as int],
    {
        &self.buf[i]
    }

    /// Borrow of the whole chronological contents, for a consumer that
    /// only observes.
    pub fn snapshot(&self) -> (r: &Vec<TelemetrySample>)
        ensures
            r@ == self.contents(),
    {
        &self.buf
    }

    /// Appends at the tail; once full, evicts exactly the oldest sample
    /// so the length stays at the capacity bound.
    pub fn push(&mut self, s: TelemetrySample)
        requires
            old(self).wf(),
        ensures
            final(self).wf(),
            final(self).cap() == old(self).cap(),
            final(self).contents() == push_evict(old(self).contents(), old(self).cap(), s),
    {
        self.buf.push(s);
        if self.buf.len() > self.capacity {
            self.buf.remove(0);
            proof {
                assert(self.buf@ =~= old(self).buf@.push(s).drop_first());
            }
        }
    }
}

} // verus!
