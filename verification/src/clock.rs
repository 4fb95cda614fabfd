//! Vector clocks: points in the per-thread logical-time lattice.

use vstd::prelude::*;

verus! {

/// The timestamp that the clock `c` holds for thread `i`. Threads beyond the
/// stored length have not been heard of and stand at zero.
pub open spec fn tick_at(c: Seq<u64>, i: int) -> u64 {
    if 0 <= i < c.len() {
        c[i]
    } else {
        0
    }
}

/// `a` happens before or equals `b`: no thread is further along in `a`.
pub open spec fn clock_le(a: Seq<u64>, b: Seq<u64>) -> bool {
    forall|i: int| #![trigger tick_at(a, i)] #![trigger tick_at(b, i)] tick_at(a, i) <= tick_at(b, i)
}

/// The least clock that is at or after both `a` and `b`: the pointwise
/// maximum, as long as the longer of the two.
pub open spec fn clock_join(a: Seq<u64>, b: Seq<u64>) -> Seq<u64> {
    Seq::new(
        if a.len() >= b.len() { a.len() } else { b.len() },
        |i: int| if tick_at(a, i) >= tick_at(b, i) { tick_at(a, i) } else { tick_at(b, i) },
    )
}

/// A vector clock. Its view is the sequence of timestamps, one per thread.
#[derive(Debug)]
pub struct VClock {
    pub ticks: Vec<u64>,
}

impl View for VClock {
    type V = Seq<u64>;

    open spec fn view(&self) -> Seq<u64> {
        self.ticks@
    }
}

impl Clone for VClock {
    fn clone(&self) -> (res: Self)
        ensures
            res@ == self@,
    {
        let mut ticks: Vec<u64> = Vec::new();
        let mut i: usize = 0;
        while i < self.ticks.len()
            invariant
                i <= self.ticks.len(),
                ticks@ == self.ticks@.subrange(0, i as int),
            decreases self.ticks.len() - i,
        {
            ticks.push(self.ticks[i]);
            i += 1;
        }
        assert(self.ticks@.subrange(0, self.ticks@.len() as int) == self.ticks@);
        VClock { ticks }
    }
}

impl Default for VClock {
    /// The empty clock, which happens before every other.
    fn default() -> (res: Self)
        ensures
            res@ == Seq::<u64>::empty(),
    {
        VClock { ticks: Vec::new() }
    }
}

impl VClock {
    /// The clock that holds the given timestamps.
    pub fn from_ticks(ticks: Vec<u64>) -> (res: Self)
        ensures
            res@ == ticks@,
    {
        VClock { ticks }
    }

    /// The timestamp of thread `idx`, zero where the clock has none.
    pub fn get(&self, idx: usize) -> (t: u64)
        ensures
            t == tick_at(self@, idx as int),
    {
        if idx < self.ticks.len() {
            self.ticks[idx]
        } else {
            0
        }
    }

    /// Merges the causal history of `other` into this clock.
    pub fn join(&mut self, other: &VClock)
        ensures
            final(self)@ == clock_join(old(self)@, other@),
    {
        let n = other.ticks.len();
        let mut i: usize = 0;
        while i < n
            invariant
                n == other@.len(),
                i <= n,
                self@.len() == if old(self)@.len() >= i { old(self)@.len() } else { i as nat },
                forall|j: int|
                    0 <= j < self@.len() ==> self@[j] == if j < i {
                        clock_join(old(self)@, other@)[j]
                    } else {
                        old(self)@[j]
                    },
            decreases n - i,
        {
            let t = other.ticks[i];
            if i < self.ticks.len() {
                if self.ticks[i] < t {
                    self.ticks[i] = t;
                }
            } else {
                self.ticks.push(t);
            }
            i += 1;
        }
        assert(self@ =~= clock_join(old(self)@, other@));
    }
}

/// What a thread's clock is after it has synchronised with `clock`: it has
/// taken in that history, unless causal tracking is off.
pub open spec fn acquired(thread: Option<Seq<u64>>, clock: Seq<u64>) -> Option<Seq<u64>> {
    match thread {
        Some(current) => Some(clock_join(current, clock)),
        None => None,
    }
}

/// The clock of the thread on whose behalf operations run, or nothing where
/// causal tracking is switched off.
#[derive(Debug)]
pub struct ThreadClock {
    pub current: Option<VClock>,
}

impl View for ThreadClock {
    type V = Option<Seq<u64>>;

    open spec fn view(&self) -> Option<Seq<u64>> {
        match self.current {
            Some(clock) => Some(clock@),
            None => None,
        }
    }
}

impl ThreadClock {
    /// No causal tracking.
    pub fn disabled() -> (res: Self)
        ensures
            res@ == None::<Seq<u64>>,
    {
        ThreadClock { current: None }
    }

    /// Causal tracking, with the thread standing at `clock`.
    pub fn tracking(clock: VClock) -> (res: Self)
        ensures
            res@ == Some(clock@),
    {
        ThreadClock { current: Some(clock) }
    }

    /// Makes everything that the thread does from now on happen after
    /// `clock`.
    pub fn acquire(&mut self, clock: &VClock)
        ensures
            final(self)@ == acquired(old(self)@, clock@),
    {
        match &mut self.current {
            Some(current) => {
                current.join(clock);
            },
            None => {},
        }
    }

    /// The point at which the thread stands, for attaching to data that it
    /// hands to others.
    pub fn release(&self) -> (res: Option<VClock>)
        ensures
            res is Some == self@ is Some,
            res matches Some(clock) ==> self@ == Some(clock@),
    {
        match &self.current {
            Some(current) => Some(current.clone()),
            None => None,
        }
    }
}

/// Joining only adds causal history: the result is at or after both inputs,
/// and it is the least such clock.
pub proof fn lemma_join_is_least_upper_bound(a: Seq<u64>, b: Seq<u64>, c: Seq<u64>)
    ensures
        clock_le(a, clock_join(a, b)),
        clock_le(b, clock_join(a, b)),
        clock_le(a, c) && clock_le(b, c) ==> clock_le(clock_join(a, b), c),
{
    let j = clock_join(a, b);
    assert forall|i: int| tick_at(a, i) <= #[trigger] tick_at(j, i) && tick_at(b, i) <= tick_at(
        j,
        i,
    ) by {}
    if clock_le(a, c) && clock_le(b, c) {
        assert forall|i: int| #[trigger] tick_at(j, i) <= tick_at(c, i) by {
            assert(tick_at(a, i) <= tick_at(c, i));
            assert(tick_at(b, i) <= tick_at(c, i));
        }
    }
}

} // verus!
