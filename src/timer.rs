//! The tick timer: it gathers elapsed time and fires once each time the
//! gathered time reaches the interval, starting again from zero.
use vstd::prelude::*;

verus! {

/// The interval between two steps, in milliseconds, when none is chosen.
pub const DEFAULT_INTERVAL_MILLIS: u64 = 600;

/// What a timer holds.
pub struct TimerView {
    pub interval: nat,
    pub elapsed: nat,
}

/// The gathered time stays below the interval, or is zero.
pub open spec fn timer_wf(t: TimerView) -> bool {
    t.elapsed == 0 || t.elapsed < t.interval
}

/// Feeding `delta` to `t` makes it fire.
pub open spec fn timer_fires(t: TimerView, delta: nat) -> bool {
    t.elapsed + delta >= t.interval
}

/// The timer after `delta` was fed to `t`.
pub open spec fn timer_after(t: TimerView, delta: nat) -> TimerView {
    if timer_fires(t, delta) {
        TimerView { interval: t.interval, elapsed: 0 }
    } else {
        TimerView { interval: t.interval, elapsed: t.elapsed + delta }
    }
}

/// The timer after each of `deltas` was fed to `t` in turn.
pub open spec fn timer_run(t: TimerView, deltas: Seq<nat>) -> TimerView
    decreases deltas.len(),
{
    if deltas.len() == 0 {
        t
    } else {
        timer_after(timer_run(t, deltas.drop_last()), deltas.last())
    }
}

/// How many times the timer fires while each of `deltas` is fed to `t`.
pub open spec fn fire_count(t: TimerView, deltas: Seq<nat>) -> nat
    decreases deltas.len(),
{
    if deltas.len() == 0 {
        0
    } else {
        fire_count(t, deltas.drop_last()) + if timer_fires(
            timer_run(t, deltas.drop_last()),
            deltas.last(),
        ) {
            1nat
        } else {
            0nat
        }
    }
}

/// The sum of `deltas`.
pub open spec fn total(deltas: Seq<nat>) -> nat
    decreases deltas.len(),
{
    if deltas.len() == 0 {
        0
    } else {
        total(deltas.drop_last()) + deltas.last()
    }
}

/// While the gathered time stays below the interval the timer never fires,
/// and it keeps all the time fed to it.
pub proof fn lemma_short_feeds_do_not_fire(t: TimerView, deltas: Seq<nat>)
    requires
        t.elapsed + total(deltas) < t.interval,
    ensures
        fire_count(t, deltas) == 0,
        timer_run(t, deltas) == (TimerView { interval: t.interval, elapsed: t.elapsed + total(deltas) }),
    decreases deltas.len(),
{
    if deltas.len() > 0 {
        lemma_short_feeds_do_not_fire(t, deltas.drop_last());
    }
}

/// Once the gathered time reaches the interval the timer fires exactly once,
/// and starts again from zero: the excess is dropped, so a following feed
/// shorter than the interval does not fire again.
pub proof fn lemma_reaching_interval_fires_once(t: TimerView, deltas: Seq<nat>, next: nat)
    requires
        deltas.len() > 0,
        t.elapsed + total(deltas.drop_last()) < t.interval,
        t.elapsed + total(deltas) >= t.interval,
        next < t.interval,
    ensures
        fire_count(t, deltas) == 1,
        timer_run(t, deltas).elapsed == 0,
        !timer_fires(timer_run(t, deltas), next),
{
    lemma_short_feeds_do_not_fire(t, deltas.drop_last());
}

/// A timer that fires every `interval` time units.
pub struct TickTimer {
    interval: u64,
    elapsed: u64,
}

impl View for TickTimer {
    type V = TimerView;

    closed spec fn view(&self) -> TimerView {
        TimerView { interval: self.interval as nat, elapsed: self.elapsed as nat }
    }
}

impl TickTimer {
    /// The timer is well formed.
    pub open spec fn wf(&self) -> bool {
        timer_wf(self@)
    }

    /// A timer with nothing gathered yet.
    pub fn new(interval: u64) -> (r: TickTimer)
        ensures
            r.wf(),
            r@ == (TimerView { interval: interval as nat, elapsed: 0 }),
    {
        TickTimer { interval, elapsed: 0 }
    }

    /// The interval of the timer.
    pub fn interval(&self) -> (r: u64)
        ensures
            r as nat == self@.interval,
    {
        self.interval
    }

    /// The time gathered since the timer last fired.
    pub fn elapsed(&self) -> (r: u64)
        ensures
            r as nat == self@.elapsed,
    {
        self.elapsed
    }

    /// Feeds `delta` time units to the timer and says whether it fired.
    pub fn tick(&mut self, delta: u64) -> (fired: bool)
        requires
            old(self).wf(),
        ensures
            final(self).wf(),
            fired == timer_fires(old(self)@, delta as nat),
            final(self)@ == timer_after(old(self)@, delta as nat),
    {
        if delta >= self.interval - self.elapsed {
            self.elapsed = 0;
            true
        } else {
            self.elapsed = self.elapsed + delta;
            false
        }
    }
}

} // verus!
