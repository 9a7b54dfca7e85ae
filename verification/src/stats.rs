//! Latency tracker: a fixed-capacity circular buffer over the most recent
//! render-latency samples, with a running minimum and maximum over every
//! sample ever pushed.
//!
//! Telemetry only: the render loop feeds it one sample per tick and the
//! console reads it back; no rendering decision depends on it. Samples are
//! integer latencies (the shell measures in whole microseconds or
//! milliseconds); an average over the current buffer contents is derived on
//! demand from [`Stats::buffer`], which hands back only slots that were
//! actually filled.

use vstd::prelude::*;

use vstd::arithmetic::div_mod::{
    lemma_fundamental_div_mod,
    lemma_fundamental_div_mod_converse,
    lemma_mod_bound,
};
use vstd::seq_lib::lemma_multiset_commutative;
use vstd::seq_lib::lemma_seq_union_to_multiset_commutative;

verus! {

/// The least sample of a non-empty sequence.
pub open spec fn min_of(s: Seq<u64>) -> u64
    recommends
        s.len() > 0,
    decreases s.len(),
{
    if s.len() <= 1 {
        s[0]
    } else {
        let m = min_of(s.drop_last());
        if s.last() < m {
            s.last()
        } else {
            m
        }
    }
}

/// The greatest sample of a non-empty sequence.
pub open spec fn max_of(s: Seq<u64>) -> u64
    recommends
        s.len() > 0,
    decreases s.len(),
{
    if s.len() <= 1 {
        s[0]
    } else {
        let m = max_of(s.drop_last());
        if s.last() > m {
            s.last()
        } else {
            m
        }
    }
}

/// How many of the buffer's slots are filled after `c` pushes into a ring
/// of capacity `cap`: all of `c` before the first wrap, `cap` from then on.
pub open spec fn filled(c: int, cap: int) -> int {
    if c < cap {
        c
    } else {
        cap
    }
}

/// Which sample the slot at ring position `i` holds after `c` pushes: the
/// most recent sample whose push landed on that slot.
pub open spec fn slot_source(c: int, cap: int, i: int) -> int {
    let r = c % cap;
    if i < r {
        c - r + i
    } else {
        c - r - cap + i
    }
}

/// The buffer's contents after pushing `samples` in order into a ring of
/// capacity `cap`: one entry per filled slot, in slot order.
pub open spec fn ring_view(samples: Seq<u64>, cap: int) -> Seq<u64> {
    Seq::new(
        filled(samples.len() as int, cap) as nat,
        |i: int| samples[slot_source(samples.len() as int, cap, i)],
    )
}

/// The samples a conforming buffer must hold: the most recent
/// `filled(len, cap)` ones, oldest first.
pub open spec fn recent(samples: Seq<u64>, cap: int) -> Seq<u64> {
    samples.subrange(samples.len() - filled(samples.len() as int, cap), samples.len() as int)
}

/// Tracks the minimum and maximum sample encountered and keeps the most
/// recent samples in a fixed-capacity ring buffer.
pub struct Stats {
    min: u64,
    max: u64,
    buffer: Vec<u64>,
    cursor: usize,
    capacity: usize,
    samples: Ghost<Seq<u64>>,
}

impl Stats {
    /// Every sample ever pushed, oldest first.
    pub closed spec fn samples(&self) -> Seq<u64> {
        self.samples@
    }

    /// The ring's fixed capacity.
    pub closed spec fn capacity(&self) -> usize {
        self.capacity
    }

    /// The tracker's invariant: the ring holds the most recent samples at
    /// the positions their pushes landed on, the cursor points at the slot
    /// the next push overwrites, and the running extremes are the extremes
    /// of everything pushed so far (zero while nothing was).
    pub closed spec fn wf(&self) -> bool {
        let c = self.samples@.len() as int;
        let cap = self.capacity as int;
        &&& cap > 0
        &&& self.cursor == c % cap
        &&& self.buffer@ == ring_view(self.samples@, cap)
        &&& if c > 0 {
            self.min == min_of(self.samples@) && self.max == max_of(self.samples@)
        } else {
            self.min == 0 && self.max == 0
        }
    }

    /// Creates an empty tracker over the last `capacity` samples.
    pub fn new(capacity: usize) -> (r: Self)
        requires
            capacity > 0,
        ensures
            r.wf(),
            r.samples() == Seq::<u64>::empty(),
            r.capacity() == capacity,
    {
        proof {
            assert(ring_view(Seq::<u64>::empty(), capacity as int) =~= Seq::<u64>::empty());
            lemma_mod_bound(0, capacity as int);
        }
        Self { min: 0, max: 0, buffer: Vec::new(), cursor: 0, capacity, samples: Ghost(Seq::empty()) }
    }

    /// Pushes a sample: stores it at the cursor, advances the cursor
    /// modulo the capacity (overwriting the oldest sample once the ring is
    /// full), and updates the running minimum and maximum.
    pub fn push(&mut self, value: u64)
        requires
            old(self).wf(),
        ensures
            final(self).wf(),
            final(self).samples() == old(self).samples().push(value),
            final(self).capacity() == old(self).capacity(),
    {
        let ghost s = self.samples@;
        let ghost c = s.len() as int;
        let ghost cap = self.capacity as int;
        proof {
            lemma_mod_bound(c, cap);
            lemma_fundamental_div_mod(c, cap);
            if c < cap {
                vstd::arithmetic::div_mod::lemma_small_mod(c as nat, cap as nat);
            }
            if c % cap + 1 < cap {
                lemma_fundamental_div_mod_converse(c + 1, cap, c / cap, c % cap + 1);
            } else {
                assert(c % cap + 1 == cap);
                assert((c / cap + 1) * cap == (c / cap) * cap + cap) by (nonlinear_arith);
                lemma_fundamental_div_mod_converse(c + 1, cap, c / cap + 1, 0);
            }
        }
        let was_empty = self.buffer.len() == 0;
        if self.buffer.len() < self.capacity {
            self.buffer.push(value);
        } else {
            self.buffer.set(self.cursor, value);
        }
        self.cursor = if self.cursor + 1 == self.capacity {
            0
        } else {
            self.cursor + 1
        };
        if was_empty {
            self.min = value;
            self.max = value;
        } else {
            if value < self.min {
                self.min = value;
            }
            if value > self.max {
                self.max = value;
            }
        }
        proof {
            self.samples@ = s.push(value);
            lemma_min_of_push(s, value);
            lemma_max_of_push(s, value);
            let s2 = s.push(value);
            assert forall|i: int| 0 <= i < filled(c + 1, cap) implies self.buffer@[i] == s2[
                slot_source(c + 1, cap, i)
            ] by {
                let r = c % cap;
                let r2 = (c + 1) % cap;
                if i == r && c >= cap {
                    assert(slot_source(c + 1, cap, i) == c);
                } else if i == c && c < cap {
                    assert(slot_source(c + 1, cap, i) == c);
                } else {
                    assert(self.buffer@[i] == s[slot_source(c, cap, i)]);
                    assert(slot_source(c + 1, cap, i) == slot_source(c, cap, i));
                }
            }
            assert(self.buffer@ =~= ring_view(s2, cap));
        }
    }

    /// The least sample encountered, or zero while none was pushed.
    pub fn min(&self) -> (r: u64)
        requires
            self.wf(),
        ensures
            self.samples().len() > 0 ==> r == min_of(self.samples()),
            self.samples().len() == 0 ==> r == 0,
    {
        self.min
    }

    /// The greatest sample encountered, or zero while none was pushed.
    pub fn max(&self) -> (r: u64)
        requires
            self.wf(),
        ensures
            self.samples().len() > 0 ==> r == max_of(self.samples()),
            self.samples().len() == 0 ==> r == 0,
    {
        self.max
    }

    /// The filled slots of the ring, in slot order: exactly the most
    /// recent samples, up to the capacity. Unfilled slots are not handed
    /// out, so an average over the result is an average over real samples
    /// even before the first fill.
    pub fn buffer(&self) -> (r: Vec<u64>)
        requires
            self.wf(),
        ensures
            r@ == ring_view(self.samples(), self.capacity() as int),
    {
        let n = self.buffer.len();
        let mut out: Vec<u64> = Vec::new();
        let mut i: usize = 0;
        while i < n
            invariant
                n == self.buffer@.len(),
                i <= n,
                out@ == self.buffer@.subrange(0, i as int),
            decreases n - i,
        {
            let x = self.buffer[i];
            out.push(x);
            proof {
                assert(out@ =~= self.buffer@.subrange(0, i + 1));
            }
            i = i + 1;
        }
        proof {
            assert(out@ =~= self.buffer@);
        }
        out
    }

    /// How many samples the ring can hold.
    pub fn buffer_size(&self) -> (r: usize)
        ensures
            r == self.capacity(),
    {
        self.capacity
    }
}

/// Pushing a sample moves the running minimum exactly when the sample
/// undercuts it.
proof fn lemma_min_of_push(s: Seq<u64>, v: u64)
    ensures
        s.len() == 0 ==> min_of(s.push(v)) == v,
        s.len() > 0 ==> min_of(s.push(v)) == if v < min_of(s) {
            v
        } else {
            min_of(s)
        },
{
    let s2 = s.push(v);
    assert(s2.drop_last() =~= s);
    assert(s2.last() == v);
    if s.len() == 0 {
        assert(s2[0] == v);
    }
}

/// Pushing a sample moves the running maximum exactly when the sample
/// exceeds it.
proof fn lemma_max_of_push(s: Seq<u64>, v: u64)
    ensures
        s.len() == 0 ==> max_of(s.push(v)) == v,
        s.len() > 0 ==> max_of(s.push(v)) == if v > max_of(s) {
            v
        } else {
            max_of(s)
        },
{
    let s2 = s.push(v);
    assert(s2.drop_last() =~= s);
    assert(s2.last() == v);
    if s.len() == 0 {
        assert(s2[0] == v);
    }
}

/// The ring always holds exactly the most recent samples — as many as its
/// capacity allows, all of them before the first fill — merely rotated by
/// the cursor: as multisets, the buffer and the recent suffix are equal.
pub proof fn lemma_buffer_holds_recent(samples: Seq<u64>, cap: int)
    requires
        cap > 0,
    ensures
        ring_view(samples, cap).to_multiset() == recent(samples, cap).to_multiset(),
{
    let c = samples.len() as int;
    lemma_mod_bound(c, cap);
    if c < cap {
        vstd::arithmetic::div_mod::lemma_small_mod(c as nat, cap as nat);
        assert(ring_view(samples, cap) =~= recent(samples, cap));
    } else {
        let r = c % cap;
        let suffix = recent(samples, cap);
        let rotated = suffix.subrange(cap - r, cap as int);
        let rest = suffix.subrange(0, cap - r);
        lemma_fundamental_div_mod(c, cap);
        assert(ring_view(samples, cap) =~= rotated + rest);
        assert(suffix =~= rest + rotated);
        lemma_seq_union_to_multiset_commutative(rotated, rest);
        lemma_multiset_commutative(rest, rotated);
        assert(ring_view(samples, cap).to_multiset() =~= recent(samples, cap).to_multiset());
    }
}

} // verus!
