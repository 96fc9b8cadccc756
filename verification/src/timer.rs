//! Cooldown and expiry timers, polled once per simulation tick.

use vstd::prelude::*;
use crate::{ConfigError, ELAPSED_MAX, PERIOD_MAX};

verus! {

/// Repeating timers gate fire rates and restart after each completion;
/// one-shot timers represent expiry and stay completed.
#[derive(Clone, Copy, Debug, PartialEq, Eq, Structural)]
pub enum TimerMode {
    Repeating,
    Once,
}

/// An accumulator gating timed events. `just` is the one-tick edge signal:
/// true only on the tick in which the accumulated time crossed the period.
/// A repeating timer resets its accumulator to zero on completion and
/// discards any excess, so the spacing between completions is never
/// shorter than the period; a one-shot timer stays completed.
#[derive(Clone, Copy, Debug, PartialEq, Eq, Structural)]
pub struct Timer {
    pub mode: TimerMode,
    pub period: u64,
    pub acc: u64,
    pub finished: bool,
    pub just: bool,
}

impl Timer {
    /// The period is positive and within range, and the accumulator never
    /// passes it: a repeating timer sits strictly below it, a one-shot
    /// timer reaches it exactly when it has completed.
    pub open spec fn wf(self) -> bool {
        &&& 0 < self.period <= PERIOD_MAX
        &&& match self.mode {
            TimerMode::Repeating => self.acc < self.period && !self.finished,
            TimerMode::Once => self.acc <= self.period && (self.finished <==> self.acc
                == self.period),
        }
    }

    /// Rejects a non-positive or out-of-range period; otherwise starts
    /// from a zero accumulator.
    pub fn new(period: u64, mode: TimerMode) -> (r: Result<Timer, ConfigError>)
        ensures
            0 < period <= PERIOD_MAX ==> r == Result::<Timer, ConfigError>::Ok(
                Timer { mode, period, acc: 0, finished: false, just: false },
            ),
            !(0 < period <= PERIOD_MAX) ==> r == Result::<Timer, ConfigError>::Err(
                ConfigError::BadPeriod,
            ),
            r is Ok ==> r->Ok_0.wf(),
    {
        if period == 0 || period > PERIOD_MAX {
            Err(ConfigError::BadPeriod)
        } else {
            Ok(Timer { mode, period, acc: 0, finished: false, just: false })
        }
    }

    /// The one-tick completion edge.
    pub fn just_finished(&self) -> (r: bool)
        ensures
            r == self.just,
    {
        self.just
    }

    /// Accumulates one tick of elapsed time.
    pub fn tick(&mut self, elapsed: u64)
        requires
            old(self).wf(),
            elapsed <= ELAPSED_MAX,
        ensures
            *final(self) == spec_tick(*old(self), elapsed),
            final(self).wf(),
    {
        match self.mode {
            TimerMode::Repeating => {
                let total: u64 = self.acc + elapsed;
                if total >= self.period {
                    self.acc = 0;
                    self.just = true;
                } else {
                    self.acc = total;
                    self.just = false;
                }
            },
            TimerMode::Once => {
                if self.finished {
                    self.just = false;
                } else {
                    let total: u64 = self.acc + elapsed;
                    if total >= self.period {
                        self.acc = self.period;
                        self.finished = true;
                        self.just = true;
                    } else {
                        self.acc = total;
                        self.just = false;
                    }
                }
            },
        }
    }
}

/// What one tick does to a timer.
pub open spec fn spec_tick(t: Timer, elapsed: u64) -> Timer {
    match t.mode {
        TimerMode::Repeating => {
            if t.acc + elapsed >= t.period {
                Timer { acc: 0, just: true, ..t }
            } else {
                Timer { acc: (t.acc + elapsed) as u64, just: false, ..t }
            }
        },
        TimerMode::Once => {
            if t.finished {
                Timer { just: false, ..t }
            } else if t.acc + elapsed >= t.period {
                Timer { acc: t.period, finished: true, just: true, ..t }
            } else {
                Timer { acc: (t.acc + elapsed) as u64, just: false, ..t }
            }
        },
    }
}

/// The timer after a whole sequence of ticks.
pub open spec fn run_timer(t: Timer, es: Seq<u64>) -> Timer
    decreases es.len(),
{
    if es.len() == 0 {
        t
    } else {
        run_timer(spec_tick(t, es[0]), es.drop_first())
    }
}

/// How often the completion edge fires over a sequence of ticks. Each
/// tick contributes one boolean edge, so no tick is ever counted twice.
pub open spec fn count_edges(t: Timer, es: Seq<u64>) -> int
    decreases es.len(),
{
    if es.len() == 0 {
        0
    } else {
        let t2 = spec_tick(t, es[0]);
        (if t2.just {
            1int
        } else {
            0int
        }) + count_edges(t2, es.drop_first())
    }
}

/// Total elapsed time of a sequence of ticks.
pub open spec fn sum_elapsed(es: Seq<u64>) -> int
    decreases es.len(),
{
    if es.len() == 0 {
        0
    } else {
        es[0] + sum_elapsed(es.drop_first())
    }
}

/// Every period crossing in the run lands exactly on the period, so the
/// reset-to-zero policy discards nothing.
pub open spec fn exact_crossings(t: Timer, es: Seq<u64>) -> bool
    decreases es.len(),
{
    if es.len() == 0 {
        true
    } else {
        &&& (t.acc + es[0] >= t.period ==> t.acc + es[0] == t.period)
        &&& exact_crossings(spec_tick(t, es[0]), es.drop_first())
    }
}

/// The completion edge fires at most once per tick: each tick contributes
/// a single boolean edge, so a run of ticks never counts more edges than
/// ticks.
pub proof fn lemma_edge_at_most_once_per_tick(t: Timer, es: Seq<u64>)
    ensures
        0 <= count_edges(t, es) <= es.len(),
    decreases es.len(),
{
    if es.len() > 0 {
        lemma_edge_at_most_once_per_tick(spec_tick(t, es[0]), es.drop_first());
    }
}

/// Ticking preserves timer well-formedness.
pub proof fn lemma_spec_tick_wf(t: Timer, elapsed: u64)
    requires
        t.wf(),
    ensures
        spec_tick(t, elapsed).wf(),
{
}

/// A run of a well-formed repeating timer with exact crossings keeps an
/// exact balance: the edges fired, times the period, equal the time
/// accumulated and not yet carried in the accumulator.
pub proof fn lemma_repeating_edge_balance(t: Timer, es: Seq<u64>)
    requires
        t.wf(),
        t.mode == TimerMode::Repeating,
        exact_crossings(t, es),
    ensures
        count_edges(t, es) * t.period == t.acc + sum_elapsed(es) - run_timer(t, es).acc,
        run_timer(t, es).wf(),
        run_timer(t, es).mode == TimerMode::Repeating,
        run_timer(t, es).period == t.period,
    decreases es.len(),
{
    if es.len() == 0 {
    } else {
        let t2 = spec_tick(t, es[0]);
        lemma_spec_tick_wf(t, es[0]);
        lemma_repeating_edge_balance(t2, es.drop_first());
        let c2 = count_edges(t2, es.drop_first());
        if t2.just {
            assert((1 + c2) * t.period == t.period + c2 * t.period) by (nonlinear_arith);
        }
    }
}

/// For every cooldown period and every sequence of tick durations that
/// sums to exactly `k` periods without ever overshooting a crossing, the
/// "just completed" edge of a fresh repeating timer fires exactly `k`
/// times over the run — and at most once in any one tick, since each tick
/// emits a single boolean edge. A run that overshoots a crossing discards
/// the excess and fires fewer edges.
pub proof fn lemma_repeating_fires_k_times(t: Timer, es: Seq<u64>, k: int)
    requires
        t.wf(),
        t.mode == TimerMode::Repeating,
        t.acc == 0,
        exact_crossings(t, es),
        sum_elapsed(es) == k * t.period,
    ensures
        count_edges(t, es) == k,
{
    lemma_repeating_edge_balance(t, es);
    let c = count_edges(t, es);
    let f = run_timer(t, es).acc;
    assert(c * t.period == k * t.period - f);
    assert(c == k) by (nonlinear_arith)
        requires
            c * t.period == k * t.period - f,
            0 <= f < t.period,
    ;
}

} // verus!
