//! A fixed-capacity, FIFO-evicting ordered container of past observations.

use vstd::prelude::*;
use vstd::math::min;
use crate::SimulationError;
use std::collections::VecDeque;

verus! {

/// A fixed-size circular buffer holding the most recent observations,
/// oldest first.
pub struct RingBuffer<T: Copy> {
    buffer: VecDeque<T>,
    capacity: usize,
}

impl<T: Copy> View for RingBuffer<T> {
    type V = Seq<T>;

    /// The held elements, oldest first.
    closed spec fn view(&self) -> Seq<T> {
        self.buffer@
    }
}

/// The sub-sequence of the last `n` elements of `s`.
pub open spec fn last_n<T>(s: Seq<T>, n: int) -> Seq<T>
    recommends
        0 <= n <= s.len(),
{
    s.subrange(s.len() - n, s.len() as int)
}

/// One push onto a buffer of capacity `cap`: if the buffer is full, the
/// single oldest element is evicted before `value` is appended.
pub open spec fn push_evict<T>(s: Seq<T>, cap: nat, value: T) -> Seq<T>
    recommends
        0 < cap,
        s.len() <= cap,
{
    if s.len() < cap {
        s.push(value)
    } else {
        s.subrange(1, s.len() as int).push(value)
    }
}

/// `values` pushed one by one, oldest first, onto `s`.
pub open spec fn push_all<T>(s: Seq<T>, cap: nat, values: Seq<T>) -> Seq<T>
    decreases values.len(),
{
    if values.len() == 0 {
        s
    } else {
        push_all(push_evict(s, cap, values[0]), cap, values.drop_first())
    }
}

impl<T: Copy> RingBuffer<T> {
    /// The fixed capacity chosen at construction.
    pub closed spec fn spec_capacity(&self) -> nat {
        self.capacity as nat
    }

    /// The container never holds more elements than its (positive) capacity.
    pub open spec fn well_formed(&self) -> bool {
        &&& 0 < self.spec_capacity()
        &&& self@.len() <= self.spec_capacity()
    }

    /// Initializes a [`RingBuffer`] with the given fixed capacity.
    ///
    /// Fails with [`SimulationError::InvalidCapacity`] if `capacity` is zero.
    pub fn with_capacity(capacity: usize) -> (r: Result<Self, SimulationError>)
        ensures
            capacity == 0 ==> r is Err && r->Err_0 == SimulationError::InvalidCapacity,
            capacity > 0 ==> r is Ok && (r->Ok_0).well_formed() && (r->Ok_0)@
                == Seq::<T>::empty() && (r->Ok_0).spec_capacity() == capacity,
    {
        if capacity == 0 {
            Err(SimulationError::InvalidCapacity)
        } else {
            Ok(Self { buffer: VecDeque::with_capacity(capacity), capacity })
        }
    }

    /// Pushes a new value to the buffer.
    ///
    /// If the buffer is at capacity, the oldest element is evicted first, so
    /// one push never removes more than one element.
    pub fn push(&mut self, value: T)
        requires
            old(self).well_formed(),
        ensures
            final(self).well_formed(),
            final(self).spec_capacity() == old(self).spec_capacity(),
            final(self)@ == push_evict(old(self)@, old(self).spec_capacity(), value),
    {
        if self.buffer.len() == self.capacity {
            self.buffer.pop_front();
        }
        self.buffer.push_back(value);
    }

    /// Provides a reference to the most recently pushed value, or `None` if
    /// the buffer is empty.
    pub fn last(&self) -> (r: Option<&T>)
        ensures
            self@.len() == 0 ==> r is None,
            self@.len() > 0 ==> (r matches Some(v) && *v == self@[self@.len() - 1]),
    {
        let len = self.buffer.len();
        if len == 0 {
            None
        } else {
            Some(&self.buffer[len - 1])
        }
    }

    /// Provides a reference to the `n`th last element, counted 1-based from
    /// the newest end (`nth_last(1)` is the most recent value), or `None` if
    /// fewer than `n` elements are held.
    pub fn nth_last(&self, n: usize) -> (r: Option<&T>)
        ensures
            1 <= n <= self@.len() ==> (r matches Some(v) && *v == self@[self@.len() - n]),
            !(1 <= n <= self@.len()) ==> r is None,
    {
        let len = self.buffer.len();
        if 1 <= n && n <= len {
            Some(&self.buffer[len - n])
        } else {
            None
        }
    }

    /// Returns `true` if the buffer is empty.
    pub fn is_empty(&self) -> (r: bool)
        ensures
            r == (self@.len() == 0),
    {
        self.buffer.len() == 0
    }

    /// Returns the elements of the buffer, oldest to newest, as a fresh
    /// vector; the buffer itself is not changed, so independent iterations
    /// may be taken from the same reference.
    pub fn iter(&self) -> (r: Vec<T>)
        ensures
            r@ == self@,
    {
        let len = self.buffer.len();
        let mut out: Vec<T> = Vec::new();
        let mut i: usize = 0;
        while i < len
            invariant
                i <= len,
                len == self.buffer@.len(),
                out@ == self.buffer@.subrange(0, i as int),
            decreases len - i,
        {
            out.push(self.buffer[i]);
            i = i + 1;
        }
        proof {
            assert(out@ =~= self@);
        }
        out
    }

    /// Returns the number of elements currently in the buffer.
    pub fn len(&self) -> (r: usize)
        ensures
            r == self@.len(),
    {
        self.buffer.len()
    }

    /// Returns the last `min(n, len)` elements of the buffer, oldest to
    /// newest, together with the number of elements actually returned, so a
    /// caller can tell a short window from a full one.
    pub fn slice_end(&self, n: usize) -> (r: (Vec<T>, usize))
        ensures
            r.1 == min(n as int, self@.len() as int),
            r.0@ == last_n(self@, r.1 as int),
            r.0@.len() == r.1,
    {
        let len = self.buffer.len();
        let start = if n <= len {
            len - n
        } else {
            0
        };
        let mut out: Vec<T> = Vec::new();
        let mut i: usize = start;
        while i < len
            invariant
                start <= i <= len,
                len == self.buffer@.len(),
                out@ == self.buffer@.subrange(start as int, i as int),
            decreases len - i,
        {
            out.push(self.buffer[i]);
            i = i + 1;
        }
        proof {
            assert(out@ =~= last_n(self@, len - start));
        }
        (out, len - start)
    }
}

/// A single push keeps the window of most recent values: if a buffer holds
/// the most recent `min(k, cap)` of the `k` values pushed so far, in push
/// order, then after one more push it holds the most recent `min(k + 1, cap)`
/// of the `k + 1` values, in push order.
pub proof fn lemma_push_keeps_recent_window<T>(pushed: Seq<T>, cap: nat, value: T)
    requires
        0 < cap,
    ensures
        push_evict(last_n(pushed, min(pushed.len() as int, cap as int)), cap, value)
            == last_n(pushed.push(value), min(pushed.len() as int + 1, cap as int)),
{
    let k = pushed.len() as int;
    let m = min(k, cap as int);
    let w = last_n(pushed, m);
    if k < cap {
        assert(w =~= pushed);
        assert(w.push(value) =~= last_n(pushed.push(value), min(k + 1, cap as int)));
    } else {
        assert(w.len() == cap);
        assert(w.subrange(1, w.len() as int).push(value)
            =~= last_n(pushed.push(value), cap as int));
    }
}

/// Law: for any sequence of pushes onto a buffer that holds the most recent
/// window of the values pushed before, the buffer afterwards holds exactly
/// the most recent `min(total, cap)` of all values pushed, in push order.
pub proof fn lemma_push_all_recent_window<T>(pushed: Seq<T>, cap: nat, values: Seq<T>)
    requires
        0 < cap,
    ensures
        push_all(last_n(pushed, min(pushed.len() as int, cap as int)), cap, values)
            == last_n(pushed + values, min(pushed.len() as int + values.len() as int, cap as int)),
    decreases values.len(),
{
    let w = last_n(pushed, min(pushed.len() as int, cap as int));
    if values.len() == 0 {
        assert(pushed + values =~= pushed);
    } else {
        lemma_push_keeps_recent_window(pushed, cap, values[0]);
        lemma_push_all_recent_window(pushed.push(values[0]), cap, values.drop_first());
        assert(pushed.push(values[0]) + values.drop_first() =~= pushed + values);
    }
}

/// Law: starting from an empty buffer of capacity `cap`, after pushing
/// `values` one by one the buffer holds exactly `min(values.len(), cap)`
/// elements: the most recently pushed ones, in push order.
pub proof fn lemma_pushes_from_empty<T>(cap: nat, values: Seq<T>)
    requires
        0 < cap,
    ensures
        push_all(Seq::<T>::empty(), cap, values)
            == last_n(values, min(values.len() as int, cap as int)),
        push_all(Seq::<T>::empty(), cap, values).len()
            == min(values.len() as int, cap as int),
{
    let empty = Seq::<T>::empty();
    assert(empty =~= last_n(empty, min(0, cap as int)));
    lemma_push_all_recent_window(empty, cap, values);
    assert(empty + values =~= values);
}

/// Law: on a full buffer, the window returned by `slice_end(n)` with
/// `n >= capacity` is the whole contents, and re-pushing it, oldest first,
/// reproduces the container state exactly.
pub proof fn lemma_slice_end_roundtrip<T>(s: Seq<T>, cap: nat, n: int)
    requires
        0 < cap,
        s.len() == cap,
        n >= cap,
    ensures
        last_n(s, min(n, s.len() as int)) == s,
        push_all(s, cap, last_n(s, min(n, s.len() as int))) == s,
{
    assert(last_n(s, min(n, s.len() as int)) =~= s);
    assert(s =~= last_n(s, min(s.len() as int, cap as int)));
    lemma_push_all_recent_window(s, cap, s);
    assert(last_n(s + s, min(s.len() as int + s.len() as int, cap as int)) =~= s);
}

} // verus!
