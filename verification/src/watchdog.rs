//! The watchdog timer state machine.
//!
//! The timer tracks the last keep-alive and a current window derived
//! from `unit_watchdog_sec`. The loop around it arms a sleep for the
//! window, races it against inbound messages, and feeds whichever wins
//! into `step`. Timestamps are microseconds of a monotonic clock.

use vstd::prelude::*;

use crate::event::Event;
use crate::seconds::Seconds;

verus! {

/// What the watchdog timer can be woken by: its own sleep elapsing, a
/// keep-alive, a trigger (bookkept exactly like a keep-alive; its status
/// effect travels separately as an event), or a notice that the
/// configured window changed.
#[derive(Clone, Copy, Debug, PartialEq, Eq, Structural)]
pub enum Message {
    Wake,
    KeepAlive,
    Trigger,
    NewTimeout,
}

/// The watchdog timer's whole state: the current window and the
/// monotonic timestamp of the last keep-alive.
#[derive(Clone, Copy, Debug, PartialEq, Eq, Structural)]
pub struct WatchdogTimer {
    pub duration: Seconds,
    pub last_timestamp: u64,
}

impl WatchdogTimer {
    /// How long the next sleep should be armed for: the window, where
    /// there is a finite positive one. A zero window disables the
    /// watchdog and an unlimited one can never elapse; neither arms.
    pub open spec fn arm_spec(self) -> Option<u64> {
        if self.duration.is_finite_spec() && !self.duration.is_zero_spec() {
            Some(self.duration.micros_spec())
        } else {
            None
        }
    }

    /// Whether a wake-up at `now` finds the last keep-alive out of
    /// date: more than one window ago. The check is relative to the
    /// last keep-alive, not to the start of the sleep, so a shortened
    /// window does not fire before the sleep next elapses.
    pub open spec fn fires_spec(self, now: u64) -> bool {
        self.duration.is_finite_spec()
            && now - self.last_timestamp > self.duration.micros_spec()
    }

    /// The state after one message, and the event it emits, if any.
    pub open spec fn step_spec(self, msg: Message, now: u64, configured: Seconds) -> (WatchdogTimer, Option<Event>) {
        match msg {
            Message::Wake => (
                self,
                if self.fires_spec(now) {
                    Some(Event::WatchdogTimeout)
                } else {
                    None
                },
            ),
            Message::KeepAlive => (WatchdogTimer { last_timestamp: now, ..self }, None),
            Message::Trigger => (WatchdogTimer { last_timestamp: now, ..self }, None),
            Message::NewTimeout => (WatchdogTimer { duration: configured, ..self }, None),
        }
    }

    /// A timer whose window is `unit_watchdog_sec` and whose last
    /// keep-alive is "now".
    pub fn new(unit_watchdog_sec: &Seconds, now: u64) -> (r: WatchdogTimer)
        ensures
            r.duration == *unit_watchdog_sec,
            r.last_timestamp == now,
    {
        WatchdogTimer { duration: *unit_watchdog_sec, last_timestamp: now }
    }

    /// The sleep to arm before waiting for the next message, if any.
    pub fn arm(&self) -> (r: Option<u64>)
        ensures
            r == self.arm_spec(),
    {
        if self.duration.is_finite() && !self.duration.is_zero() {
            Some(self.duration.micros())
        } else {
            None
        }
    }

    /// Feeds one message into the timer. `now` is the current monotonic
    /// timestamp; a keep-alive or trigger resets the bookkeeping to it,
    /// a timeout notice replaces the window with `configured` (the
    /// current `unit_watchdog_sec`), and a wake-up emits
    /// `WatchdogTimeout` exactly when the last keep-alive is more than
    /// one window old.
    pub fn step(&mut self, msg: &Message, now: u64, configured: &Seconds) -> (r: Option<Event>)
        requires
            old(self).last_timestamp <= now,
        ensures
            (*final(self), r) == old(self).step_spec(*msg, now, *configured),
    {
        match msg {
            Message::Wake => {
                if self.duration.is_finite() {
                    let elapsed = now - self.last_timestamp;
                    if elapsed > self.duration.micros() {
                        return Some(Event::WatchdogTimeout);
                    }
                }
                None
            },
            Message::KeepAlive => {
                self.last_timestamp = now;
                None
            },
            Message::Trigger => {
                self.last_timestamp = now;
                None
            },
            Message::NewTimeout => {
                self.duration = *configured;
                None
            },
        }
    }
}

/// One input fed to the timer: the message, the monotonic timestamp at
/// which it is handled, and the `unit_watchdog_sec` in force at that
/// moment.
pub struct WatchdogInput {
    pub msg: Message,
    pub now: u64,
    pub configured: Seconds,
}

/// The timer state after a whole sequence of inputs.
pub open spec fn watchdog_run_spec(t: WatchdogTimer, inputs: Seq<WatchdogInput>) -> WatchdogTimer
    decreases inputs.len(),
{
    if inputs.len() == 0 {
        t
    } else {
        watchdog_run_spec(
            t.step_spec(inputs[0].msg, inputs[0].now, inputs[0].configured).0,
            inputs.skip(1),
        )
    }
}

/// Whether any step of a run emits an event.
pub open spec fn watchdog_run_emits(t: WatchdogTimer, inputs: Seq<WatchdogInput>) -> bool
    decreases inputs.len(),
{
    if inputs.len() == 0 {
        false
    } else {
        t.step_spec(inputs[0].msg, inputs[0].now, inputs[0].configured).1 != None::<Event>
            || watchdog_run_emits(
                t.step_spec(inputs[0].msg, inputs[0].now, inputs[0].configured).0,
                inputs.skip(1),
            )
    }
}

/// A disabled watchdog stays silent: starting from a zero window, and
/// as long as `unit_watchdog_sec` stays zero, the timer never emits a
/// `WatchdogTimeout` and its window stays zero. Wake-ups are absent from
/// the inputs because a zero window never arms a sleep (`arm_spec` is
/// `None`), so no wake-up can reach the timer.
pub proof fn lemma_disabled_watchdog_never_fires(t: WatchdogTimer, inputs: Seq<WatchdogInput>)
    requires
        t.duration.is_zero_spec(),
        forall|i: int| 0 <= i < inputs.len() ==> (#[trigger] inputs[i]).msg != Message::Wake,
        forall|i: int| 0 <= i < inputs.len()
            ==> ((#[trigger] inputs[i]).msg == Message::NewTimeout ==> inputs[i].configured.is_zero_spec()),
    ensures
        t.arm_spec() == None::<u64>,
        !watchdog_run_emits(t, inputs),
        watchdog_run_spec(t, inputs).duration.is_zero_spec(),
    decreases inputs.len(),
{
    if inputs.len() != 0 {
        let t2 = t.step_spec(inputs[0].msg, inputs[0].now, inputs[0].configured).0;
        lemma_disabled_watchdog_never_fires(t2, inputs.skip(1));
    }
}

} // verus!
