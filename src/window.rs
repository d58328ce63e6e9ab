use std::collections::VecDeque;
use vstd::prelude::*;

use crate::mean::Mean;

verus! {

/// Sum of a sequence of samples, taken from the oldest to the newest.
pub open spec fn sum_of(s: Seq<i64>) -> int
    decreases s.len(),
{
    if s.len() == 0 {
        0
    } else {
        sum_of(s.drop_last()) + s.last()
    }
}

/// The last `n` elements of `s` (all of `s` when it is shorter).
pub open spec fn keep_last(s: Seq<i64>, n: nat) -> Seq<i64> {
    if s.len() <= n {
        s
    } else {
        s.subrange(s.len() - n, s.len() as int)
    }
}

/// The contents of a window of capacity `cap` holding `w` after `v` arrives.
pub open spec fn window_push(w: Seq<i64>, cap: nat, v: i64) -> Seq<i64> {
    keep_last(w.push(v), cap)
}

/// The contents of a fresh window of capacity `cap` after `vals` arrived in order.
pub open spec fn after_adds(cap: nat, vals: Seq<i64>) -> Seq<i64>
    decreases vals.len(),
{
    if vals.len() == 0 {
        Seq::empty()
    } else {
        window_push(after_adds(cap, vals.drop_last()), cap, vals.last())
    }
}

pub proof fn lemma_sum_push(s: Seq<i64>, v: i64)
    ensures
        sum_of(s.push(v)) == sum_of(s) + v,
{
    assert(s.push(v).drop_last() =~= s);
}

pub proof fn lemma_sum_drop_first(s: Seq<i64>)
    requires
        s.len() > 0,
    ensures
        sum_of(s) == s[0] + sum_of(s.subrange(1, s.len() as int)),
    decreases s.len(),
{
    if s.len() > 1 {
        let t = s.drop_last();
        lemma_sum_drop_first(t);
        assert(t.subrange(1, t.len() as int) =~= s.subrange(1, s.len() as int).drop_last());
    } else {
        assert(s.drop_last() =~= Seq::<i64>::empty());
        assert(s.subrange(1, s.len() as int) =~= Seq::<i64>::empty());
    }
}

pub proof fn lemma_sum_bounds(s: Seq<i64>)
    ensures
        s.len() * i64::MIN <= sum_of(s) <= s.len() * i64::MAX,
    decreases s.len(),
{
    if s.len() > 0 {
        lemma_sum_bounds(s.drop_last());
    }
}

/// A window holds at most `cap` samples: feeding it `vals` leaves exactly the
/// last `min(|vals|, cap)` of them, in arrival order, oldest first.
pub proof fn lemma_window_holds_last(cap: nat, vals: Seq<i64>)
    requires
        cap >= 1,
    ensures
        after_adds(cap, vals) == keep_last(vals, cap),
        after_adds(cap, vals).len() == if vals.len() < cap { vals.len() } else { cap },
    decreases vals.len(),
{
    if vals.len() > 0 {
        let p = vals.drop_last();
        lemma_window_holds_last(cap, p);
        assert(p.push(vals.last()) =~= vals);
        assert(keep_last(keep_last(p, cap).push(vals.last()), cap) =~= keep_last(vals, cap));
    }
}

/// Once a window of capacity `cap` is full, the next sample evicts the value
/// that arrived first, and the others move up by one.
pub proof fn lemma_first_in_first_evicted(cap: nat, vals: Seq<i64>)
    requires
        cap >= 1,
        vals.len() == cap + 1,
    ensures
        after_adds(cap, vals.take(cap as int)) == vals.take(cap as int),
        after_adds(cap, vals.take(cap as int))[0] == vals[0],
        after_adds(cap, vals) == after_adds(cap, vals.take(cap as int)).drop_first().push(
            vals[cap as int],
        ),
{
    lemma_window_holds_last(cap, vals.take(cap as int));
    lemma_window_holds_last(cap, vals);
    assert(vals.take(cap as int).drop_first().push(vals[cap as int]) =~= keep_last(vals, cap));
}

/// Why a window cannot be made.
#[derive(Debug, PartialEq, Eq, Clone, Copy)]
pub enum WindowError {
    /// The requested capacity was zero.
    InvalidCapacity,
}

/// A rolling window over the most recent `capacity` samples, with a running sum.
pub struct CircularBuffer {
    buffer: VecDeque<i64>,
    capacity: usize,
    sum: i128,
}

impl View for CircularBuffer {
    type V = Seq<i64>;

    closed spec fn view(&self) -> Seq<i64> {
        self.buffer@
    }
}

impl CircularBuffer {
    /// The capacity the window was made with.
    pub closed spec fn cap(&self) -> nat {
        self.capacity as nat
    }

    /// The window is never over capacity, and its running sum is exact.
    pub open spec fn wf(&self) -> bool {
        &&& self.cap() > 0
        &&& self@.len() <= self.cap()
        &&& self.sum_is_exact()
    }

    pub closed spec fn sum_is_exact(&self) -> bool {
        self.sum == sum_of(self.buffer@)
    }

    /// An empty window of the given capacity; a zero capacity is refused.
    pub fn new(capacity: usize) -> (r: Result<CircularBuffer, WindowError>)
        ensures
            capacity == 0 <==> r is Err,
            r matches Err(e) ==> e == WindowError::InvalidCapacity,
            r matches Ok(b) ==> b.wf() && b@ == Seq::<i64>::empty() && b.cap() == capacity,
    {
        if capacity == 0 {
            return Err(WindowError::InvalidCapacity);
        }
        let b = CircularBuffer { buffer: VecDeque::with_capacity(capacity), capacity, sum: 0 };
        assert(b.buffer@ =~= Seq::<i64>::empty());
        Ok(b)
    }

    /// Appends `value` as the newest sample, evicting the oldest one first
    /// when the window is full.
    pub fn add(&mut self, value: i64)
        requires
            old(self).wf(),
        ensures
            final(self).wf(),
            final(self).cap() == old(self).cap(),
            final(self)@ == window_push(old(self)@, old(self).cap(), value),
            final(self)@.len() == if old(self)@.len() < old(self).cap() {
                old(self)@.len() + 1
            } else {
                old(self).cap()
            },
            final(self)@.last() == value,
            old(self)@.len() < old(self).cap() ==> final(self)@ == old(self)@.push(value),
            old(self)@.len() == old(self).cap() ==> final(self)@ == old(self)@.drop_first().push(
                value,
            ),
    {
        let ghost w = self.buffer@;
        if self.buffer.len() == self.capacity {
            proof {
                lemma_sum_drop_first(w);
                lemma_sum_bounds(w.drop_first());
            }
            let oldest = self.buffer.pop_front();
            if let Some(x) = oldest {
                self.sum = self.sum - x as i128;
            }
            assert(self.buffer@ =~= w.drop_first());
        }
        proof {
            lemma_sum_push(self.buffer@, value);
            lemma_sum_bounds(self.buffer@);
        }
        let ghost before = self.buffer@;
        self.buffer.push_back(value);
        self.sum = self.sum + value as i128;
        assert(self.buffer@ =~= window_push(w, self.capacity as nat, value)) by {
            if w.len() == self.capacity {
                assert(w.push(value).subrange(1, w.len() + 1 as int) =~= before.push(value));
            }
        }
    }

    /// The arithmetic mean of the samples held, or `None` when there are none.
    pub fn average(&self) -> (r: Option<Mean>)
        requires
            self.wf(),
        ensures
            self@.len() == 0 <==> r is None,
            r matches Some(m) ==> m.is_mean_of(self@),
            r matches Some(m) ==> m.whole == sum_of(self@) / (self@.len() as int) && m.frac
                == sum_of(self@) % (self@.len() as int),
    {
        let n = self.buffer.len();
        if n == 0 {
            None
        } else {
            Some(Mean::from_sum(self.sum, n))
        }
    }

    /// Number of samples held.
    pub fn len(&self) -> (r: usize)
        ensures
            r == self@.len(),
    {
        self.buffer.len()
    }

    pub fn is_empty(&self) -> (r: bool)
        ensures
            r == (self@.len() == 0),
    {
        self.buffer.len() == 0
    }

    /// The capacity the window was made with.
    pub fn capacity(&self) -> (r: usize)
        ensures
            r == self.cap(),
    {
        self.capacity
    }

    /// The oldest sample held.
    pub fn front(&self) -> (r: Option<i64>)
        ensures
            self@.len() == 0 ==> r is None,
            self@.len() > 0 ==> r == Some(self@[0]),
    {
        if self.buffer.len() == 0 {
            None
        } else {
            Some(self.buffer[0])
        }
    }

    /// The newest sample held.
    pub fn back(&self) -> (r: Option<i64>)
        ensures
            self@.len() == 0 ==> r is None,
            self@.len() > 0 ==> r == Some(self@.last()),
    {
        let n = self.buffer.len();
        if n == 0 {
            None
        } else {
            Some(self.buffer[n - 1])
        }
    }

    /// The samples held, oldest first.
    pub fn to_vec(&self) -> (r: Vec<i64>)
        ensures
            r@ == self@,
    {
        let mut out: Vec<i64> = Vec::new();
        let n = self.buffer.len();
        let mut i: usize = 0;
        while i < n
            invariant
                n == self.buffer@.len(),
                i <= n,
                out@ == self.buffer@.take(i as int),
            decreases n - i,
        {
            out.push(self.buffer[i]);
            i = i + 1;
            assert(out@ =~= self.buffer@.take(i as int));
        }
        assert(out@ =~= self.buffer@);
        out
    }
}

} // verus!
