//! The periodic ticker.

use vstd::arithmetic::div_mod::{lemma_fundamental_div_mod, lemma_mod_bound};
use vstd::prelude::*;

verus! {

/// A ticker as a pair of numbers: its period and the deadline it waits for.
pub struct TickerView {
    pub period: nat,
    pub deadline: nat,
}

impl TickerView {
    /// A ticker has a period of at least one clock tick.
    pub open spec fn wf(self) -> bool {
        self.period > 0
    }

    /// Whether `now` is a time at which the ticker can be polled: the
    /// deadline that follows one due at `now` still fits the 64 bits of the
    /// clock.
    pub open spec fn in_range(self, now: nat) -> bool {
        now + self.period <= u64::MAX
    }

    /// Whether the deadline has been reached at `now`.
    pub open spec fn due(self, now: nat) -> bool {
        self.deadline <= now
    }

    /// The ticker after it has fired once: the deadline moves on by exactly
    /// one period, whatever the time is.
    pub open spec fn fired(self) -> TickerView {
        TickerView { period: self.period, deadline: self.deadline + self.period }
    }

    /// The ticker after it has been polled at `now`: it fires once if it is
    /// due, and is left alone if it is not.
    pub open spec fn polled(self, now: nat) -> TickerView {
        if self.due(now) {
            self.fired()
        } else {
            self
        }
    }

    /// The ticker after it has been polled at each time of `nows` in turn.
    pub open spec fn polled_at(self, nows: Seq<nat>) -> TickerView
        decreases nows.len(),
    {
        if nows.len() == 0 {
            self
        } else {
            self.polled_at(nows.drop_last()).polled(nows.last())
        }
    }

    /// How many of the polls at the times of `nows` made the ticker fire.
    pub open spec fn fired_count(self, nows: Seq<nat>) -> nat
        decreases nows.len(),
    {
        if nows.len() == 0 {
            0
        } else {
            let before = self.polled_at(nows.drop_last());
            self.fired_count(nows.drop_last()) + if before.due(nows.last()) {
                1nat
            } else {
                0nat
            }
        }
    }

    /// How many deadlines of the ticker have been reached at `now`: none if
    /// it is not due, and otherwise the one it waits for and one more for
    /// each whole period that has gone by since.
    pub open spec fn deadlines_reached(self, now: nat) -> nat {
        if self.due(now) {
            ((now - self.deadline) / (self.period as int) + 1) as nat
        } else {
            0
        }
    }

    /// The time by which the ticker is behind at `now`, in clock ticks: zero
    /// if it is not due, and otherwise one more than the time since its
    /// deadline.
    pub open spec fn backlog(self, now: nat) -> nat {
        if self.due(now) {
            (now - self.deadline + 1) as nat
        } else {
            0
        }
    }
}

/// A source of periodic deadlines on the caller's clock.
///
/// The deadlines are `period`, `2 * period`, `3 * period`, ... after the
/// time of construction. A ticker that is polled late fires once and moves
/// its deadline on by one period from the deadline it had, not from the time
/// of the poll.
pub struct Ticker {
    period: u64,
    next_deadline: u64,
}

impl View for Ticker {
    type V = TickerView;

    closed spec fn view(&self) -> TickerView {
        TickerView { period: self.period as nat, deadline: self.next_deadline as nat }
    }
}

impl Ticker {
    /// A ticker made at `now` that fires every `period` clock ticks.
    pub fn every(period: u64, now: u64) -> (ticker: Ticker)
        requires
            period > 0,
            now + period <= u64::MAX,
        ensures
            ticker@ == (TickerView { period: period as nat, deadline: (now + period) as nat }),
            ticker@.wf(),
    {
        Ticker { period, next_deadline: now + period }
    }

    /// The period in clock ticks.
    pub fn period(&self) -> (period: u64)
        ensures
            period == self@.period,
    {
        self.period
    }

    /// The deadline that the ticker waits for.
    pub fn next_deadline(&self) -> (deadline: u64)
        ensures
            deadline == self@.deadline,
    {
        self.next_deadline
    }

    /// Whether `now` is a time at which the ticker may be polled.
    pub fn is_in_range(&self, now: u64) -> (ok: bool)
        ensures
            ok == self@.in_range(now as nat),
    {
        now <= u64::MAX - self.period
    }

    /// Whether the deadline has been reached at `now`.
    pub fn is_due(&self, now: u64) -> (due: bool)
        ensures
            due == self@.due(now as nat),
    {
        self.next_deadline <= now
    }

    /// The wait for the next tick, polled at `now`. If the deadline has been
    /// reached the wait is over: the ticker fires, the call returns `true`
    /// and the deadline moves on by one period. Otherwise the wait goes on
    /// and nothing changes.
    pub fn poll_next(&mut self, now: u64) -> (fired: bool)
        requires
            old(self)@.in_range(now as nat),
        ensures
            fired == old(self)@.due(now as nat),
            final(self)@ == old(self)@.polled(now as nat),
    {
        if self.next_deadline <= now {
            self.next_deadline = self.next_deadline + self.period;
            true
        } else {
            false
        }
    }
}

/// However late the polls come, the deadline is the first one plus one period
/// for each time the ticker fired: lateness does not accumulate.
pub proof fn lemma_no_drift(ticker: TickerView, nows: Seq<nat>)
    ensures
        ticker.polled_at(nows).period == ticker.period,
        ticker.polled_at(nows).deadline == ticker.deadline + ticker.fired_count(nows)
            * ticker.period,
        ticker.fired_count(nows) <= nows.len(),
    decreases nows.len(),
{
    if nows.len() == 0 {
        assert(0 * ticker.period == 0);
    } else {
        lemma_no_drift(ticker, nows.drop_last());
        let k = ticker.fired_count(nows.drop_last());
        assert((k + 1) * ticker.period == k * ticker.period + ticker.period) by (nonlinear_arith);
    }
}

/// A ticker that has fired `fired` times is due at `now` exactly if it has
/// fired for fewer deadlines than have been reached.
pub proof fn lemma_due_after_firings(ticker: TickerView, now: nat, fired: nat)
    requires
        ticker.wf(),
    ensures
        (ticker.deadline + fired * ticker.period <= now) == (fired < ticker.deadlines_reached(now)),
{
    let p = ticker.period as int;
    let k = fired as int;
    if ticker.due(now) {
        let x = now - ticker.deadline;
        let q = x / p;
        let r = x % p;
        lemma_fundamental_div_mod(x, p);
        lemma_mod_bound(x, p);
        assert(x == p * q + r);
        if k <= q {
            assert(k * p <= p * q) by (nonlinear_arith)
                requires
                    k <= q,
                    p > 0,
            ;
        } else {
            assert(k * p >= p * q + p) by (nonlinear_arith)
                requires
                    k >= q + 1,
                    p > 0,
            ;
        }
    } else {
        assert(k * p >= 0) by (nonlinear_arith)
            requires
                k >= 0,
                p > 0,
        ;
    }
}

/// The catch-up rule. A late ticker that is polled again and again at one
/// time fires once per poll until it has fired for every deadline reached,
/// and then no more: it neither skips a deadline nor fires for one twice.
pub proof fn lemma_catch_up(ticker: TickerView, now: nat, polls: nat)
    requires
        ticker.wf(),
    ensures
        ticker.fired_count(Seq::new(polls, |i: int| now)) == if polls
            <= ticker.deadlines_reached(now) {
            polls
        } else {
            ticker.deadlines_reached(now)
        },
    decreases polls,
{
    if polls > 0 {
        let times = Seq::new(polls, |i: int| now);
        let init = Seq::new((polls - 1) as nat, |i: int| now);
        assert(times.drop_last() =~= init);
        lemma_catch_up(ticker, now, (polls - 1) as nat);
        lemma_no_drift(ticker, init);
        lemma_due_after_firings(ticker, now, ticker.fired_count(init));
    }
}

} // verus!
