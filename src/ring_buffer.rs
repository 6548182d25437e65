//! A fixed-capacity queue that overwrites its oldest item when full.
use vstd::prelude::*;
use vstd::std_specs::iter::IteratorSpec;

verus! {

/// A queue of at most `capacity` items, stored in a `Vec` used as a ring.
///
/// The items run from slot `start`, `count` slots forward, wrapping round the
/// end of the buffer.
pub struct RingBuffer<T> {
    buffer: Vec<Option<T>>,
    start: usize,
    count: usize,
    capacity: usize,
}

/// Index `x` of a ring of `cap` slots, for `x < 2 * cap`.
pub open spec fn wrap(x: int, cap: int) -> int {
    if x < cap {
        x
    } else {
        x - cap
    }
}

/// The slot after slot `i` of a ring of `cap` slots.
fn next_slot(i: usize, cap: usize) -> (r: usize)
    requires
        i < cap,
    ensures
        r == wrap(i + 1, cap as int),
{
    if i + 1 < cap {
        i + 1
    } else {
        0
    }
}

impl<T> View for RingBuffer<T> {
    type V = Seq<T>;

    /// The items in the order they will be dequeued.
    closed spec fn view(&self) -> Seq<T> {
        Seq::new(
            self.count as nat,
            |i: int| self.buffer@[wrap(self.start + i, self.capacity as int)]->0,
        )
    }
}

impl<T> RingBuffer<T> {
    /// The number of items the buffer holds before it overwrites.
    pub closed spec fn cap(&self) -> nat {
        self.capacity as nat
    }

    pub closed spec fn wf(&self) -> bool {
        &&& self.buffer.len() == self.capacity
        &&& self.count <= self.capacity
        &&& self.capacity > 0 ==> self.start < self.capacity
        &&& self.capacity == 0 ==> self.start == 0
        &&& forall|i: int|
            0 <= i < self.count ==> (#[trigger] self.buffer@[wrap(
                self.start + i,
                self.capacity as int,
            )]) is Some
    }

    /// Creates an empty ring buffer that holds up to `capacity` items.
    pub fn new(capacity: usize) -> (r: Self)
        ensures
            r.wf(),
            r@ == Seq::<T>::empty(),
            r.cap() == capacity,
    {
        let mut buffer: Vec<Option<T>> = Vec::new();
        let mut i: usize = 0;
        while i < capacity
            invariant
                i <= capacity,
                buffer.len() == i,
            decreases capacity - i,
        {
            buffer.push(None);
            i = i + 1;
        }
        let r = RingBuffer { buffer, start: 0, count: 0, capacity };
        assert(r@ =~= Seq::<T>::empty());
        r
    }

    /// The number of items in the buffer.
    pub fn len(&self) -> (n: usize)
        requires
            self.wf(),
        ensures
            n == self@.len(),
    {
        self.count
    }

    /// Adds `item` at the back. When the buffer is full, the oldest item is
    /// dropped from the front and returned. A buffer of capacity zero keeps nothing.
    pub fn enqueue(&mut self, item: T) -> (r: Option<T>)
        requires
            old(self).wf(),
        ensures
            final(self).wf(),
            final(self).cap() == old(self).cap(),
            old(self).cap() == 0 ==> r is None && final(self)@ == old(self)@,
            0 < old(self)@.len() == old(self).cap() ==> r == Some(old(self)@[0]) && final(self)@
                == old(self)@.drop_first().push(item),
            0 < old(self).cap() && old(self)@.len() < old(self).cap() ==> r is None
                && final(self)@ == old(self)@.push(item),
    {
        if self.capacity == 0 {
            return None;
        }
        let ghost prev = self@;
        let cap = self.capacity;
        if self.count == cap {
            let start = self.start;
            let overwritten = self.buffer[start].take();
            self.buffer.set(start, Some(item));
            self.start = next_slot(start, cap);
            assert forall|i: int| 0 <= i < self.count implies (#[trigger] self.buffer@[wrap(
                self.start + i,
                cap as int,
            )]) is Some by {
                if i + 1 < self.count {
                    assert(old(self).buffer@[wrap(start + (i + 1), cap as int)] is Some);
                }
            }
            assert(self@ =~= prev.drop_first().push(item));
            overwritten
        } else {
            let back = if self.start < cap - self.count {
                self.start + self.count
            } else {
                self.start - (cap - self.count)
            };
            self.buffer.set(back, Some(item));
            self.count = self.count + 1;
            assert(self@ =~= prev.push(item));
            None
        }
    }

    /// Removes and returns the oldest item, if there is one.
    pub fn dequeue(&mut self) -> (r: Option<T>)
        requires
            old(self).wf(),
        ensures
            final(self).wf(),
            final(self).cap() == old(self).cap(),
            old(self)@.len() == 0 ==> r is None && final(self)@ == old(self)@,
            old(self)@.len() > 0 ==> r == Some(old(self)@[0]) && final(self)@ == old(self)@.drop_first(),
    {
        if self.count == 0 {
            return None;
        }
        let ghost prev = self@;
        let start = self.start;
        let r = self.buffer[start].take();
        self.start = next_slot(start, self.capacity);
        self.count = self.count - 1;
        assert forall|i: int| 0 <= i < self.count implies (#[trigger] self.buffer@[wrap(
            self.start + i,
            self.capacity as int,
        )]) is Some by {
            assert(old(self).buffer@[wrap(start + (i + 1), self.capacity as int)] is Some);
        }
        assert(self@ =~= prev.drop_first());
        r
    }

    /// The item that `dequeue` would return next, left in place.
    pub fn peek(&self) -> (r: Option<&T>)
        requires
            self.wf(),
        ensures
            self@.len() == 0 ==> r is None,
            self@.len() > 0 ==> r == Some(&self@[0]),
    {
        if self.count == 0 {
            return None;
        }
        self.buffer[self.start].as_ref()
    }

    /// The items from oldest to newest, as references.
    pub fn items(&self) -> (r: Vec<&T>)
        requires
            self.wf(),
        ensures
            r.len() == self@.len(),
            forall|i: int| 0 <= i < r.len() ==> *r[i] == self@[i],
    {
        let mut r: Vec<&T> = Vec::new();
        let mut i: usize = 0;
        let mut at = self.start;
        while i < self.count
            invariant
                self.wf(),
                i <= self.count,
                r.len() == i,
                self.capacity > 0 ==> at < self.capacity,
                i < self.count ==> at == wrap(self.start + i, self.capacity as int),
                forall|k: int| 0 <= k < i ==> *r[k] == self@[k],
            decreases self.count - i,
        {
            assert(self.buffer@[at as int] is Some);
            let x = self.buffer[at].as_ref().unwrap();
            r.push(x);
            at = next_slot(at, self.capacity);
            i = i + 1;
        }
        r
    }

    /// An iterator over the items from oldest to newest.
    pub fn iter(&self) -> (it: std::vec::IntoIter<&T>)
        requires
            self.wf(),
        ensures
            it.remaining().len() == self@.len(),
            forall|i: int| 0 <= i < self@.len() ==> *it.remaining()[i] == self@[i],
    {
        let v = self.items();
        v.into_iter()
    }
}

} // verus!
