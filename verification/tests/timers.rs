use adapter::event::Event;
use adapter::seconds::Seconds;
use adapter::startup::{startup_deadline_event, startup_recheck, startup_window, StartupStep};
use adapter::watchdog::{Message, WatchdogTimer};

const SECOND: u64 = 1_000_000;

#[test]
fn disabled_watchdog_never_arms() {
    let timer = WatchdogTimer::new(&Seconds::Micros(0), 0);
    assert_eq!(timer.arm(), None);
}

#[test]
fn unlimited_watchdog_never_arms() {
    let timer = WatchdogTimer::new(&Seconds::Infinite, 0);
    assert_eq!(timer.arm(), None);
}

#[test]
fn keep_alives_prevent_timeout() {
    // A 0.2 s window with a keep-alive every 0.1 s for one second: the
    // sleep elapses between messages, but the last keep-alive is never
    // more than one window old.
    let window = Seconds::Micros(200_000);
    let mut timer = WatchdogTimer::new(&window, 0);
    let mut now: u64 = 0;
    for tick in 1..=10u64 {
        now = tick * 100_000;
        assert_eq!(timer.step(&Message::KeepAlive, now, &window), None);
        assert_eq!(timer.arm(), Some(200_000));
        assert_eq!(timer.step(&Message::Wake, now + 150_000, &window), None);
    }
}

#[test]
fn missed_keep_alive_fires_timeout() {
    // A 0.1 s window, one keep-alive at the start, then silence: the
    // wake-up 0.3 s later finds the keep-alive three windows old.
    let window = Seconds::Micros(100_000);
    let mut timer = WatchdogTimer::new(&window, 0);
    assert_eq!(timer.step(&Message::KeepAlive, 0, &window), None);
    assert_eq!(
        timer.step(&Message::Wake, 300_000, &window),
        Some(Event::WatchdogTimeout)
    );
}

#[test]
fn wake_exactly_at_window_boundary_does_not_fire() {
    let window = Seconds::Micros(100_000);
    let mut timer = WatchdogTimer::new(&window, 0);
    assert_eq!(timer.step(&Message::Wake, 100_000, &window), None);
    assert_eq!(timer.step(&Message::Wake, 100_001, &window), Some(Event::WatchdogTimeout));
}

#[test]
fn trigger_is_bookkept_as_keep_alive() {
    let window = Seconds::Micros(100_000);
    let mut timer = WatchdogTimer::new(&window, 0);
    assert_eq!(timer.step(&Message::Trigger, 250_000, &window), None);
    assert_eq!(timer.step(&Message::Wake, 300_000, &window), None);
}

#[test]
fn new_timeout_rereads_configuration() {
    let mut timer = WatchdogTimer::new(&Seconds::Micros(0), 0);
    assert_eq!(timer.arm(), None);
    assert_eq!(
        timer.step(&Message::NewTimeout, 0, &Seconds::Micros(2 * SECOND)),
        None
    );
    assert_eq!(timer.arm(), Some(2 * SECOND));
    // The deadline check stays relative to the last keep-alive.
    assert_eq!(timer.step(&Message::Wake, SECOND, &Seconds::Micros(0)), None);
    assert_eq!(
        timer.step(&Message::Wake, 2 * SECOND + 1, &Seconds::Micros(0)),
        Some(Event::WatchdogTimeout)
    );
}

#[test]
fn startup_window_comes_from_configuration() {
    assert_eq!(startup_window(&Seconds::Micros(200_000)), Some(200_000));
    assert_eq!(startup_window(&Seconds::Infinite), None);
}

#[test]
fn startup_timeout_fires_when_not_ready() {
    // A 0.2 s startup deadline and no READY: the sleep elapses, the
    // configured value is unchanged, and readyz is still false.
    let configured = Seconds::Micros(200_000);
    assert_eq!(
        startup_recheck(&configured, &Seconds::Micros(200_000)),
        StartupStep::Expired
    );
    assert_eq!(startup_deadline_event(false), Some(Event::StartTimeout));
    assert_eq!(startup_deadline_event(true), None);
}

#[test]
fn extension_slides_the_startup_deadline() {
    // A 0.5 s deadline; at 0.3 s an extension of 0.5 s arrives, so the
    // configured total becomes 1.0 s. The sleep that elapses at 0.5 s
    // finds the value changed and sleeps for the 0.5 s difference;
    // READY at 0.7 s makes the deadline check at 1.0 s a no-op.
    let initial = Seconds::Micros(500_000);
    let extended = initial.plus(&Seconds::Micros(500_000));
    assert_eq!(extended, Seconds::Micros(1_000_000));
    assert_eq!(
        startup_recheck(&initial, &extended),
        StartupStep::Extended(Seconds::Micros(500_000))
    );
    let readyz_at_deadline = true;
    assert_eq!(
        startup_recheck(&extended, &extended),
        StartupStep::Expired
    );
    assert_eq!(startup_deadline_event(readyz_at_deadline), None);
}

#[test]
fn extension_to_unlimited_never_expires() {
    let initial = Seconds::Micros(500_000);
    assert_eq!(
        startup_recheck(&initial, &Seconds::Infinite),
        StartupStep::Extended(Seconds::Infinite)
    );
}

#[test]
fn seconds_addition_saturates_to_unlimited() {
    assert_eq!(
        Seconds::Micros(u64::MAX).plus(&Seconds::Micros(1)),
        Seconds::Infinite
    );
    assert_eq!(
        Seconds::Infinite.plus(&Seconds::Micros(1)),
        Seconds::Infinite
    );
    assert_eq!(
        Seconds::Micros(2).plus(&Seconds::Micros(3)),
        Seconds::Micros(5)
    );
}
