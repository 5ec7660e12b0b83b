//! The level timer.
use std::time::Duration;
use vstd::prelude::*;

use bevy::time::Stopwatch;

verus! {

/// `bevy::time::Stopwatch`: an elapsed time and a pause flag.
#[verifier::external_type_specification]
#[verifier::external_body]
pub struct ExStopwatch(Stopwatch);

/// The length of a `Duration`, in nanoseconds.
pub uninterp spec fn duration_nanos(d: Duration) -> nat;

/// The time a `Stopwatch` has measured, in nanoseconds.
pub uninterp spec fn stopwatch_elapsed(w: Stopwatch) -> nat;

/// Whether a `Stopwatch` is paused.
pub uninterp spec fn stopwatch_paused(w: Stopwatch) -> bool;

/// The longest time a `Duration` can hold, in nanoseconds.
pub open spec fn max_duration_nanos() -> nat {
    18_446_744_073_709_551_615 * 1_000_000_000 + 999_999_999
}

/// The whole seconds in a number of nanoseconds.
pub open spec fn whole_seconds(nanos: nat) -> nat {
    nanos / 1_000_000_000
}

/// `Stopwatch::new`: a stopwatch that has measured nothing and is running.
#[verifier::external_body]
fn stopwatch_new() -> (w: Stopwatch)
    ensures
        stopwatch_elapsed(w) == 0,
        !stopwatch_paused(w),
{
    Stopwatch::new()
}

/// `Stopwatch::elapsed`: the time measured so far.
#[verifier::external_body]
fn stopwatch_read(w: &Stopwatch) -> (d: Duration)
    ensures
        duration_nanos(d) == stopwatch_elapsed(*w),
        duration_nanos(d) <= max_duration_nanos(),
{
    w.elapsed()
}

/// `Stopwatch::tick`: a running stopwatch adds `delta` to its time, a paused
/// one keeps it. The sum must fit a `Duration`: the addition panics
/// otherwise.
#[verifier::external_body]
fn stopwatch_tick(w: &mut Stopwatch, delta: Duration)
    requires
        stopwatch_elapsed(*old(w)) + duration_nanos(delta) <= max_duration_nanos(),
    ensures
        stopwatch_paused(*final(w)) == stopwatch_paused(*old(w)),
        stopwatch_elapsed(*final(w)) == if stopwatch_paused(*old(w)) {
            stopwatch_elapsed(*old(w))
        } else {
            stopwatch_elapsed(*old(w)) + duration_nanos(delta)
        },
{
    w.tick(delta);
}

/// `Duration::checked_add`: the sum, or nothing where it does not fit.
#[verifier::external_body]
fn duration_checked_add(a: Duration, b: Duration) -> (r: Option<Duration>)
    ensures
        match r {
            Some(sum) => duration_nanos(sum) == duration_nanos(a) + duration_nanos(b)
                && duration_nanos(sum) <= max_duration_nanos(),
            None => duration_nanos(a) + duration_nanos(b) > max_duration_nanos(),
        },
{
    a.checked_add(b)
}

/// `Duration::as_secs`: the whole seconds of a duration.
#[verifier::external_body]
fn duration_as_secs(d: Duration) -> (r: u64)
    ensures
        r == whole_seconds(duration_nanos(d)),
{
    d.as_secs()
}

/// The time played in the current level. It never runs backwards.
pub struct LevelTimer(Stopwatch);

impl View for LevelTimer {
    type V = nat;

    /// The elapsed time in nanoseconds.
    closed spec fn view(&self) -> nat {
        stopwatch_elapsed(self.0)
    }
}

impl LevelTimer {
    /// The timer is running.
    pub closed spec fn wf(&self) -> bool {
        !stopwatch_paused(self.0)
    }

    /// A timer at zero.
    pub fn new() -> (r: Self)
        ensures
            r.wf(),
            r@ == 0,
    {
        LevelTimer(stopwatch_new())
    }

    /// The elapsed time.
    pub fn get_time(&self) -> (d: Duration)
        ensures
            duration_nanos(d) == self@,
    {
        stopwatch_read(&self.0)
    }

    /// The elapsed time in whole seconds.
    pub fn elapsed_secs(&self) -> (r: u64)
        ensures
            r == whole_seconds(self@),
    {
        duration_as_secs(stopwatch_read(&self.0))
    }

    /// Adds `delta` to the elapsed time and says whether it did. A step that
    /// would take the time beyond what a `Duration` holds is left out.
    pub fn tick(&mut self, delta: Duration) -> (advanced: bool)
        requires
            old(self).wf(),
        ensures
            final(self).wf(),
            advanced == (old(self)@ + duration_nanos(delta) <= max_duration_nanos()),
            final(self)@ == if advanced {
                old(self)@ + duration_nanos(delta)
            } else {
                old(self)@
            },
    {
        let now = stopwatch_read(&self.0);
        match duration_checked_add(now, delta) {
            Some(_) => {
                stopwatch_tick(&mut self.0, delta);
                true
            },
            None => false,
        }
    }
}

/// What a fixed step did to the level timer.
#[derive(Clone, Copy, Debug, PartialEq, Eq, Structural)]
pub enum TickOutcome {
    /// The one timer advanced.
    Ticked,
    /// The one timer is at its limit and stayed there.
    Saturated,
    /// There is no timer, or more than one: none was touched.
    NoSingleTimer,
}

/// Advances the level timer by `delta`, where there is exactly one.
pub fn tick_level_timer(timers: &mut Vec<LevelTimer>, delta: Duration) -> (r: TickOutcome)
    requires
        forall|i: int| 0 <= i < old(timers)@.len() ==> old(timers)@[i].wf(),
    ensures
        final(timers)@.len() == old(timers)@.len(),
        forall|i: int| 0 <= i < final(timers)@.len() ==> final(timers)@[i].wf(),
        old(timers)@.len() != 1 ==> r == TickOutcome::NoSingleTimer && final(timers)@ == old(timers)@,
        old(timers)@.len() == 1 ==> {
            let fits = old(timers)@[0]@ + duration_nanos(delta) <= max_duration_nanos();
            &&& r == if fits {
                TickOutcome::Ticked
            } else {
                TickOutcome::Saturated
            }
            &&& final(timers)@[0]@ == if fits {
                old(timers)@[0]@ + duration_nanos(delta)
            } else {
                old(timers)@[0]@
            }
        },
{
    if timers.len() != 1 {
        return TickOutcome::NoSingleTimer;
    }
    let advanced = timers[0].tick(delta);
    if advanced {
        TickOutcome::Ticked
    } else {
        TickOutcome::Saturated
    }
}

} // verus!
