use vstd::prelude::*;

verus! {

/// `a + b`, or the largest `u64` where the sum does not fit.
pub open spec fn saturating_sum(a: u64, b: u64) -> u64 {
    if a + b > u64::MAX {
        u64::MAX
    } else {
        (a + b) as u64
    }
}

/// One job's timer, in milliseconds. The first tick comes one full period
/// after the start; after a run the next tick comes one period after the
/// moment the tick was taken, so a slow run delays the next tick and runs of
/// one job never overlap.
#[derive(Debug, Clone, Copy)]
pub struct Ticker {
    period_ms: u64,
    next_ms: u64,
}

impl Ticker {
    pub closed spec fn period(&self) -> u64 {
        self.period_ms
    }

    pub closed spec fn due(&self) -> u64 {
        self.next_ms
    }

    /// A timer started at `start_ms`.
    pub fn new(start_ms: u64, period_ms: u64) -> (r: Ticker)
        requires
            period_ms > 0,
        ensures
            r.period() == period_ms,
            r.due() == saturating_sum(start_ms, period_ms),
            start_ms + period_ms <= u64::MAX ==> forall|window: int|
                window >= 0 ==> #[trigger] on_time_runs(
                    period_ms as nat,
                    start_ms + window - r.due(),
                ) == window / (period_ms as int),
    {
        let r = Ticker { period_ms, next_ms: sum_or_max(start_ms, period_ms) };
        proof {
            if start_ms + period_ms <= u64::MAX {
                assert forall|window: int| window >= 0 implies #[trigger] on_time_runs(
                    period_ms as nat,
                    start_ms + window - r.due(),
                ) == window / (period_ms as int) by {
                    lemma_runs_in_window(period_ms as nat, window);
                    assert(start_ms + window - r.due() == window - period_ms);
                }
            }
        }
        r
    }

    /// When the next tick is due.
    pub fn next_due(&self) -> (r: u64)
        ensures
            r == self.due(),
    {
        self.next_ms
    }

    /// Whether a run starts at `now_ms`: it does once the tick is due, and
    /// the next one is then due a period later.
    pub fn tick(&mut self, now_ms: u64) -> (r: bool)
        ensures
            r == (now_ms >= old(self).due()),
            final(self).period() == old(self).period(),
            r ==> final(self).due() == saturating_sum(now_ms, old(self).period()),
            !r ==> final(self).due() == old(self).due(),
            r && old(self).period() > 0 && now_ms == old(self).due() && now_ms + old(self).period()
                <= u64::MAX ==> forall|
                end: int,
            |
                #![trigger on_time_runs(old(self).period() as nat, end - old(self).due())]
                end >= old(self).due() ==> on_time_runs(
                    old(self).period() as nat,
                    end - old(self).due(),
                ) == 1 + on_time_runs(old(self).period() as nat, end - final(self).due()),
    {
        if now_ms >= self.next_ms {
            let ghost due = self.next_ms;
            self.next_ms = sum_or_max(now_ms, self.period_ms);
            proof {
                if self.period_ms > 0 && now_ms == due && now_ms + self.period_ms <= u64::MAX {
                    assert forall|end: int| end >= due implies #[trigger] on_time_runs(
                        self.period_ms as nat,
                        end - due,
                    ) == 1 + on_time_runs(self.period_ms as nat, end - self.next_ms) by {
                        assert(end - self.next_ms == (end - due) - self.period_ms);
                    }
                }
            }
            true
        } else {
            false
        }
    }
}

/// How many runs a timer starts when it is polled exactly at each due time
/// and runs take no time, the first being due `remaining` milliseconds
/// before the end of the window.
pub open spec fn on_time_runs(period: nat, remaining: int) -> nat
    decreases remaining + period,
{
    if period == 0 || remaining < 0 {
        0
    } else {
        1 + on_time_runs(period, remaining - period)
    }
}

/// A timer that is polled on time starts `window / period` runs in the first
/// `window` milliseconds after its start: the first run comes one period
/// after the start, and each run is followed by the next a period later.
pub proof fn lemma_runs_in_window(period: nat, window: int)
    requires
        period > 0,
        window >= 0,
    ensures
        on_time_runs(period, window - period) == window / (period as int),
    decreases window,
{
    let p = period as int;
    if window < p {
        assert(window / p == 0) by (nonlinear_arith)
            requires
                0 <= window < p,
        ;
    } else {
        lemma_runs_in_window(period, window - p);
        assert((window - p) / p + 1 == window / p) by {
            vstd::arithmetic::div_mod::lemma_div_plus_one(window - p, p);
        }
    }
}

fn sum_or_max(a: u64, b: u64) -> (r: u64)
    ensures
        r == saturating_sum(a, b),
{
    if a > u64::MAX - b {
        u64::MAX
    } else {
        a + b
    }
}

} // verus!
