use bevy::time::Timer;
use bevy::time::TimerMode;
use std::time::Duration;
use vstd::prelude::*;

verus! {

/// `bevy::time::Timer`, a timer that is ticked by hand. Nothing is known of
/// what one holds but through `timer_state`.
#[verifier::external_type_specification]
#[verifier::external_body]
pub struct ExTimer(Timer);

/// What a `Timer` holds, with times in nanoseconds.
pub struct TimerState {
    /// Time counted so far.
    pub elapsed: nat,
    /// Time after which the timer finishes.
    pub duration: nat,
    /// Whether the timer has reached its duration.
    pub finished: bool,
    /// Whether the last tick was the one that reached the duration.
    pub just_finished: bool,
    /// Whether the timer starts over when it finishes.
    pub repeating: bool,
    /// Whether ticks are ignored.
    pub paused: bool,
}

/// The state of a `bevy::time::Timer`: what its methods `elapsed`,
/// `duration`, `finished`, `just_finished`, `mode` and `paused` report of it.
pub uninterp spec fn timer_state(t: Timer) -> TimerState;

/// The longest time a `Duration` holds, in nanoseconds.
pub open spec fn max_duration_nanos() -> nat {
    18_446_744_073_709_551_615_999_999_999
}

/// A one-shot timer after `delta` more nanoseconds: a paused or finished timer
/// only forgets that it had just finished; a running one counts on and
/// finishes, clamped at its duration, once the duration is reached.
pub open spec fn ticked(s: TimerState, delta: nat) -> TimerState {
    if s.paused || s.finished {
        TimerState { just_finished: false, ..s }
    } else if s.elapsed + delta >= s.duration {
        TimerState { elapsed: s.duration, finished: true, just_finished: true, ..s }
    } else {
        TimerState { elapsed: s.elapsed + delta, finished: false, just_finished: false, ..s }
    }
}

/// A one-shot timer of the given duration that was just made: running, with
/// nothing elapsed.
pub open spec fn fresh_timer(duration: nat) -> TimerState {
    TimerState {
        elapsed: 0,
        duration,
        finished: false,
        just_finished: false,
        repeating: false,
        paused: false,
    }
}

/// A timer after it was started over: nothing elapsed and not finished, with
/// its duration, mode and pause as before.
pub open spec fn restarted(s: TimerState) -> TimerState {
    TimerState { elapsed: 0, finished: false, just_finished: false, ..s }
}

/// `Timer::new` in `TimerMode::Once`, with a duration made by
/// `Duration::from_nanos`: a running timer of that duration with nothing
/// elapsed.
#[verifier::external_body]
pub(crate) fn once_timer(duration_nanos: u64) -> (t: Timer)
    ensures
        timer_state(t) == fresh_timer(duration_nanos as nat),
{
    Timer::new(Duration::from_nanos(duration_nanos), TimerMode::Once)
}

/// `Timer::tick` on a one-shot timer, with a delta made by
/// `Duration::from_nanos`. The timer becomes what `ticked` says. The sum of
/// the elapsed time and the delta must fit a `Duration`: the timer adds the
/// two and fails where the sum does not fit.
#[verifier::external_body]
pub(crate) fn tick_timer(t: &mut Timer, delta_nanos: u64)
    requires
        !timer_state(*old(t)).repeating,
        timer_state(*old(t)).elapsed + delta_nanos <= max_duration_nanos(),
    ensures
        timer_state(*final(t)) == ticked(timer_state(*old(t)), delta_nanos as nat),
{
    t.tick(Duration::from_nanos(delta_nanos));
}

/// `Timer::elapsed`, read in nanoseconds by `Duration::as_nanos`.
#[verifier::external_body]
pub(crate) fn timer_elapsed_nanos(t: &Timer) -> (n: u128)
    ensures
        n == timer_state(*t).elapsed,
{
    t.elapsed().as_nanos()
}

/// `Timer::duration`, read in nanoseconds by `Duration::as_nanos`.
#[verifier::external_body]
pub(crate) fn timer_duration_nanos(t: &Timer) -> (n: u128)
    ensures
        n == timer_state(*t).duration,
{
    t.duration().as_nanos()
}

/// `Timer::finished` reads the finished flag.
pub assume_specification[ Timer::finished ](t: &Timer) -> (r: bool)
    ensures
        r == timer_state(*t).finished,
;

/// `Timer::just_finished` tells whether the last tick finished the timer.
pub assume_specification[ Timer::just_finished ](t: &Timer) -> (r: bool)
    ensures
        r == timer_state(*t).just_finished,
;

/// `Timer::reset` clears the elapsed time and both finished flags and keeps
/// the duration, the mode and the pause.
pub assume_specification[ Timer::reset ](t: &mut Timer)
    ensures
        timer_state(*final(t)) == restarted(timer_state(*old(t))),
;

} // verus!
