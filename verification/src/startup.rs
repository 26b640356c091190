//! The startup timer's decisions.
//!
//! The timer sleeps for the configured startup timeout, then re-reads
//! the configuration: an unchanged value means the deadline is due, a
//! grown value (the effect of a timeout extension) means sleeping for
//! the difference and checking again. When the deadline is due and
//! `readyz` is still false, a `StartTimeout` event is emitted.

use vstd::prelude::*;

use crate::event::Event;
use crate::seconds::Seconds;

verus! {

/// What the startup timer does after a sleep elapses.
#[derive(Clone, Copy, Debug, PartialEq, Eq, Structural)]
pub enum StartupStep {
    /// The configured timeout is as it was: the deadline is due.
    Expired,
    /// The configured timeout grew while sleeping: sleep this much
    /// longer, then re-check. An unlimited new timeout means the
    /// deadline moved out of reach and the sleep never ends.
    Extended(Seconds),
}

/// The first sleep of the startup timer: the whole configured timeout,
/// or nothing at all when the timeout is unlimited, which disables the
/// startup deadline and ends the timer immediately.
pub fn startup_window(unit_timeout_start_sec: &Seconds) -> (r: Option<u64>)
    ensures
        r == (if unit_timeout_start_sec.is_finite_spec() {
            Some(unit_timeout_start_sec.micros_spec())
        } else {
            None::<u64>
        }),
{
    if unit_timeout_start_sec.is_finite() {
        Some(unit_timeout_start_sec.micros())
    } else {
        None
    }
}

/// Compares the timeout the elapsed sleep was based on against the one
/// now configured. The configured startup timeout only ever grows while
/// the timer runs — extensions add to it — so a finite new value is at
/// least the old one.
pub fn startup_recheck(timeout: &Seconds, new_timeout: &Seconds) -> (r: StartupStep)
    requires
        timeout.is_finite_spec(),
        new_timeout.is_finite_spec() ==> timeout.micros_spec() <= new_timeout.micros_spec(),
    ensures
        r == (if *new_timeout == *timeout {
            StartupStep::Expired
        } else if new_timeout.is_finite_spec() {
            StartupStep::Extended(Seconds::Micros((new_timeout.micros_spec() - timeout.micros_spec()) as u64))
        } else {
            StartupStep::Extended(Seconds::Infinite)
        }),
{
    if *new_timeout == *timeout {
        StartupStep::Expired
    } else if new_timeout.is_finite() {
        StartupStep::Extended(Seconds::Micros(new_timeout.minus(timeout)))
    } else {
        StartupStep::Extended(Seconds::Infinite)
    }
}

/// What a due deadline does: nothing when the workload became ready in
/// time, a `StartTimeout` event otherwise.
pub fn startup_deadline_event(readyz: bool) -> (r: Option<Event>)
    ensures
        r == (if readyz {
            None::<Event>
        } else {
            Some(Event::StartTimeout)
        }),
{
    if readyz {
        None
    } else {
        Some(Event::StartTimeout)
    }
}

} // verus!
