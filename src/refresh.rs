use vstd::prelude::*;

verus! {

/// Number of rungs on the refresh-interval ladder.
pub const RUNG_COUNT: usize = 5;

/// Rung that a new controller starts on (500 ms).
pub const DEFAULT_RUNG: usize = 1;

/// The polling interval, in milliseconds, of each rung, shortest first.
pub open spec fn rung_interval(rung: nat) -> nat {
    if rung == 0 {
        250
    } else if rung == 1 {
        500
    } else if rung == 2 {
        1000
    } else if rung == 3 {
        2000
    } else {
        5000
    }
}

/// The rung that `faster` moves to from `rung`.
pub open spec fn faster_rung(rung: nat) -> nat {
    if rung == 0 { 0 } else { (rung - 1) as nat }
}

/// The rung that `slower` moves to from `rung`.
pub open spec fn slower_rung(rung: nat) -> nat {
    if rung + 1 >= RUNG_COUNT { rung } else { rung + 1 }
}

/// Adjustable polling cadence, stepped through a fixed ladder of intervals.
#[derive(Clone, Copy, Debug, PartialEq, Eq)]
pub struct RefreshRate {
    rung: usize,
}

impl RefreshRate {
    pub closed spec fn rung(&self) -> nat {
        self.rung as nat
    }

    pub open spec fn wf(&self) -> bool {
        self.rung() < RUNG_COUNT
    }

    pub open spec fn interval_spec(&self) -> nat {
        rung_interval(self.rung())
    }

    pub fn new() -> (r: Self)
        ensures
            r.wf(),
            r.rung() == DEFAULT_RUNG,
            r.interval_spec() == 500,
    {
        RefreshRate { rung: DEFAULT_RUNG }
    }

    /// The current polling interval in milliseconds.
    pub fn interval_ms(&self) -> (r: u64)
        requires
            self.wf(),
        ensures
            r == self.interval_spec(),
    {
        if self.rung == 0 {
            250
        } else if self.rung == 1 {
            500
        } else if self.rung == 2 {
            1000
        } else if self.rung == 3 {
            2000
        } else {
            5000
        }
    }

    /// Moves to the next shorter interval, staying on the shortest.
    pub fn faster(&mut self)
        requires
            old(self).wf(),
        ensures
            final(self).wf(),
            final(self).rung() == faster_rung(old(self).rung()),
    {
        if self.rung > 0 {
            self.rung = self.rung - 1;
        }
    }

    /// Moves to the next longer interval, staying on the longest.
    pub fn slower(&mut self)
        requires
            old(self).wf(),
        ensures
            final(self).wf(),
            final(self).rung() == slower_rung(old(self).rung()),
    {
        if self.rung + 1 < RUNG_COUNT {
            self.rung = self.rung + 1;
        }
    }
}

/// The rung reached after `n` calls of `faster` from `rung`.
pub open spec fn faster_times(rung: nat, n: nat) -> nat
    decreases n,
{
    if n == 0 { rung } else { faster_rung(faster_times(rung, (n - 1) as nat)) }
}

/// The rung reached after `n` calls of `slower` from `rung`.
pub open spec fn slower_times(rung: nat, n: nat) -> nat
    decreases n,
{
    if n == 0 { rung } else { slower_rung(slower_times(rung, (n - 1) as nat)) }
}

/// Repeated `faster` calls step down one rung at a time and stop at the
/// shortest interval; repeated `slower` calls step up and stop at the longest;
/// on interior rungs each of the two steps undoes the other.
pub proof fn lemma_ladder(rung: nat, n: nat)
    requires
        rung < RUNG_COUNT,
    ensures
        faster_times(rung, n) == if n >= rung { 0 } else { (rung - n) as nat },
        slower_times(rung, n) == if rung + n >= RUNG_COUNT - 1 {
            (RUNG_COUNT - 1) as nat
        } else {
            rung + n
        },
        faster_times(rung, n) < RUNG_COUNT,
        rung_interval(faster_times(rung, n)) >= 250,
        slower_times(rung, n) < RUNG_COUNT,
        rung_interval(slower_times(rung, n)) <= 5000,
        0 < rung < RUNG_COUNT - 1 ==> slower_rung(faster_rung(rung)) == rung,
        0 < rung < RUNG_COUNT - 1 ==> faster_rung(slower_rung(rung)) == rung,
    decreases n,
{
    if n > 0 {
        lemma_ladder(rung, (n - 1) as nat);
    }
}

} // verus!
