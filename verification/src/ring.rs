//! Fixed-capacity chronological ring buffer. `push` appends and evicts the
//! oldest entry when full, so the buffer never holds more than its capacity.

use vstd::prelude::*;

verus! {

/// A type that can produce a verified copy of itself.
pub trait Dup: Sized {
    fn dup(&self) -> (r: Self)
        ensures
            r == *self,
    ;
}

/// What a ring's contents become when `e` is pushed with capacity `cap`:
/// the element is appended, and the oldest entries beyond `cap` fall away.
pub open spec fn ring_push<E>(s: Seq<E>, e: E, cap: nat) -> Seq<E> {
    let t = s.push(e);
    if t.len() <= cap {
        t
    } else {
        t.subrange(t.len() - cap, t.len() as int)
    }
}

/// Fixed-capacity chronological store. Oldest entries are evicted first.
pub struct Ring<E> {
    buf: Vec<E>,
    capacity: usize,
}

impl<E: Dup> Ring<E> {
    /// The entries, oldest first.
    pub closed spec fn view(&self) -> Seq<E> {
        self.buf@
    }

    /// The fixed capacity this ring was created with.
    pub closed spec fn cap(&self) -> nat {
        self.capacity as nat
    }

    /// The ring never holds more entries than its capacity.
    pub closed spec fn wf(&self) -> bool {
        self.buf@.len() <= self.capacity
    }

    /// An empty ring with the given capacity.
    pub fn new(capacity: usize) -> (r: Self)
        ensures
            r.wf(),
            r@ == Seq::<E>::empty(),
            r.cap() == capacity,
    {
        Ring { buf: Vec::new(), capacity }
    }

    /// Appends an entry, evicting the oldest if the ring is full.
    pub fn push(&mut self, e: E)
        requires
            old(self).wf(),
        ensures
            final(self).wf(),
            final(self)@ == ring_push(old(self)@, e, old(self).cap()),
            final(self).cap() == old(self).cap(),
    {
        if self.buf.len() >= self.capacity {
            if self.buf.len() > 0 {
                self.buf.remove(0);
            }
        }
        if self.buf.len() < self.capacity {
            self.buf.push(e);
        }
        proof {
            assert(self.buf@ =~= ring_push(old(self)@, e, old(self).cap()));
        }
    }

    /// The entries, newest first.
    pub fn list(&self) -> (r: Vec<E>)
        ensures
            r@.len() == self@.len(),
            forall|i: int| 0 <= i < r@.len() ==> r@[i] == self@[self@.len() - 1 - i],
    {
        let mut r: Vec<E> = Vec::new();
        let n = self.buf.len();
        let mut i: usize = n;
        while i > 0
            invariant
                i <= n,
                n == self.buf@.len(),
                r@.len() == n - i,
                forall|j: int| 0 <= j < r@.len() ==> r@[j] == self.buf@[n - 1 - j],
            decreases i,
        {
            i = i - 1;
            r.push(self.buf[i].dup());
        }
        r
    }

    /// The entries, oldest first.
    pub fn list_chronological(&self) -> (r: Vec<E>)
        ensures
            r@ == self@,
    {
        let mut r: Vec<E> = Vec::new();
        let n = self.buf.len();
        let mut i: usize = 0;
        while i < n
            invariant
                i <= n,
                n == self.buf@.len(),
                r@ == self.buf@.take(i as int),
            decreases n - i,
        {
            r.push(self.buf[i].dup());
            i = i + 1;
            proof {
                assert(r@ =~= self.buf@.take(i as int));
            }
        }
        proof {
            assert(r@ =~= self.buf@);
        }
        r
    }

    /// Removes every entry.
    pub fn clear(&mut self)
        ensures
            final(self).wf(),
            final(self)@ == Seq::<E>::empty(),
            final(self).cap() == old(self).cap(),
    {
        self.buf.clear();
    }

    /// How many entries the ring currently holds.
    pub fn len(&self) -> (r: usize)
        ensures
            r == self@.len(),
    {
        self.buf.len()
    }

    /// Whether the ring holds no entries.
    pub fn is_empty(&self) -> (r: bool)
        ensures
            r == (self@.len() == 0),
    {
        self.buf.len() == 0
    }
}

/// Pushing never lets a well-formed ring exceed its capacity, and the new
/// contents are a suffix of the old contents followed by the new entry: the
/// history is kept except for an evicted prefix.
pub proof fn lemma_ring_push_bounded_history<E>(s: Seq<E>, e: E, cap: nat)
    requires
        s.len() <= cap,
    ensures
        ring_push(s, e, cap).len() <= cap,
        ring_push(s, e, cap).is_suffix_of(s.push(e)),
        cap > 0 ==> ring_push(s, e, cap).last() == e,
        s.len() < cap ==> ring_push(s, e, cap) == s.push(e),
{
    let t = s.push(e);
    if t.len() > cap {
        assert(ring_push(s, e, cap) =~= t.subrange(t.len() - cap, t.len() as int));
        assert(t.subrange(t.len() - cap, t.len() as int).is_suffix_of(t));
    } else {
        assert(t.is_suffix_of(t)) by {
            assert(t =~= t.subrange(0, t.len() as int));
        }
    }
}


/// A ring's contents after pushing a run of entries in order.
pub open spec fn ring_push_all<E>(s: Seq<E>, es: Seq<E>, cap: nat) -> Seq<E>
    decreases es.len(),
{
    if es.len() == 0 {
        s
    } else {
        ring_push(ring_push_all(s, es.drop_last(), cap), es.last(), cap)
    }
}


/// Pushing two runs in turn is pushing their concatenation.
pub proof fn lemma_ring_push_all_app<E>(s: Seq<E>, a: Seq<E>, b: Seq<E>, cap: nat)
    ensures
        ring_push_all(s, a + b, cap) == ring_push_all(ring_push_all(s, a, cap), b, cap),
    decreases b.len(),
{
    if b.len() == 0 {
        assert(a + b =~= a);
    } else {
        lemma_ring_push_all_app(s, a, b.drop_last(), cap);
        assert((a + b).drop_last() =~= a + b.drop_last());
        assert((a + b).last() == b.last());
    }
}

} // verus!
