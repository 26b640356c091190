use adapter::config::{Configuration, ConfigurationChange};
use adapter::event::{classify, Classifiers, Event, EventList};
use adapter::message::{Message, MessageEffect};
use adapter::probe::{probe_response_code, Probe};
use adapter::seconds::Seconds;
use adapter::status::{Change, ChangeOperation, ReadyBarrier, Status};

fn default_classifiers() -> Classifiers {
    let c = Configuration::default();
    Classifiers {
        status_livez_true: c.status_livez_true,
        status_livez_false: c.status_livez_false,
        status_readyz_true: c.status_readyz_true,
        status_readyz_false: c.status_readyz_false,
        status_shutdown: c.status_shutdown,
    }
}

#[test]
fn status_changes_apply_per_flag() {
    let mut status = Status { healthz: false, livez: true, readyz: false };
    status.apply(&Change {
        healthz: ChangeOperation::Keep,
        livez: ChangeOperation::Keep,
        readyz: ChangeOperation::Assign(true),
    });
    assert_eq!(status, Status { healthz: false, livez: true, readyz: true });
    status.apply(&Change {
        healthz: ChangeOperation::Assign(true),
        livez: ChangeOperation::Assign(false),
        readyz: ChangeOperation::Keep,
    });
    assert_eq!(status, Status { healthz: true, livez: false, readyz: true });
}

#[test]
fn initial_status_follows_configuration() {
    let mut config = Configuration::default();
    config.initial_livez = true;
    let status = Status::from_config(&config);
    assert_eq!(status, Status { healthz: false, livez: true, readyz: false });
}

#[test]
fn barrier_releases_healthz_only_on_last_acknowledgement() {
    let mut barrier = ReadyBarrier::new(7);
    let mut status = Status { healthz: false, livez: false, readyz: false };
    for _ in 0..6 {
        let released = barrier.task_ready();
        assert_eq!(released, None);
        assert!(!status.healthz);
    }
    let change = barrier.task_ready().unwrap();
    assert_eq!(change.livez, ChangeOperation::Keep);
    assert_eq!(change.readyz, ChangeOperation::Keep);
    status.apply(&change);
    assert!(status.healthz);
}

#[test]
fn ready_path_serves_ok_on_all_probes() {
    // INITIAL_LIVEZ=false, INITIAL_READYZ=false, the ready classifiers
    // containing `ready`: after the barrier fires, healthz answers 200;
    // after READY=1 arrives, livez and readyz answer 200 too.
    let config = Configuration::default();
    let mut status = Status::from_config(&config);
    assert_eq!(probe_response_code(&status, &Probe::Healthz), 503);

    let mut barrier = ReadyBarrier::new(1);
    let change = barrier.task_ready().unwrap();
    status.apply(&change);
    assert_eq!(probe_response_code(&status, &Probe::Healthz), 200);
    assert_eq!(probe_response_code(&status, &Probe::Livez), 503);
    assert_eq!(probe_response_code(&status, &Probe::Readyz), 503);

    let message = Message::from_str(b"READY=1").unwrap();
    let effect = message.dispatch(&config.unit_timeout_start_sec);
    let event = effect.event.unwrap();
    assert_eq!(event, Event::Ready);
    let reaction = classify(&default_classifiers(), &event).unwrap();
    status.apply(&reaction.change);
    assert_eq!(probe_response_code(&status, &Probe::Livez), 200);
    assert_eq!(probe_response_code(&status, &Probe::Readyz), 200);
}

#[test]
fn watchdog_timeout_drops_livez_under_defaults() {
    let mut status = Status { healthz: true, livez: true, readyz: true };
    let reaction = classify(&default_classifiers(), &Event::WatchdogTimeout).unwrap();
    status.apply(&reaction.change);
    assert!(status.healthz);
    assert!(!status.livez);
    assert!(!status.readyz);
}

#[test]
fn start_timeout_drops_livez_under_defaults() {
    let mut status = Status { healthz: true, livez: true, readyz: false };
    let reaction = classify(&default_classifiers(), &Event::StartTimeout).unwrap();
    status.apply(&reaction.change);
    assert!(!status.livez);
}

#[test]
fn allowed_watchdog_override_is_applied() {
    let mut config = Configuration::default();
    let message = Message::from_str(b"WATCHDOG_USEC=1000000").unwrap();
    let effect: MessageEffect = message.dispatch(&config.unit_timeout_start_sec);
    let change = effect.config_change.unwrap();
    assert_eq!(
        change,
        ConfigurationChange::WatchdogTimeout(Seconds::Micros(1_000_000))
    );
    assert!(config.apply_change(&change));
    assert_eq!(config.unit_watchdog_sec, Seconds::Micros(1_000_000));
}

#[test]
fn disallowed_watchdog_override_is_dropped() {
    // ALLOW_MESSAGE_WATCHDOG_USEC=false and a zero watchdog window:
    // WATCHDOG_USEC=1000000 arrives and the window stays zero; the
    // rejection is reported so the caller logs a warning.
    let mut config = Configuration::default();
    config.allow_message_watchdog_usec = false;
    let message = Message::from_str(b"WATCHDOG_USEC=1000000").unwrap();
    let change = message.dispatch(&config.unit_timeout_start_sec).config_change.unwrap();
    assert!(!config.apply_change(&change));
    assert_eq!(config.unit_watchdog_sec, Seconds::Micros(0));
}

#[test]
fn disallowed_extension_is_dropped() {
    let mut config = Configuration::default();
    config.allow_message_extend_timeout_usec = false;
    let before = config.unit_timeout_start_sec;
    let message = Message::from_str(b"EXTEND_TIMEOUT_USEC=500000").unwrap();
    let change = message.dispatch(&config.unit_timeout_start_sec).config_change.unwrap();
    assert!(!config.apply_change(&change));
    assert_eq!(config.unit_timeout_start_sec, before);
}

#[test]
fn extension_adds_to_the_configured_total() {
    let mut config = Configuration::default();
    let message = Message::from_str(b"EXTEND_TIMEOUT_USEC=500000").unwrap();
    let change = message.dispatch(&config.unit_timeout_start_sec).config_change.unwrap();
    assert_eq!(
        change,
        ConfigurationChange::StartupTimeout(Seconds::Micros(90_500_000))
    );
    assert!(config.apply_change(&change));
    assert_eq!(config.unit_timeout_start_sec, Seconds::Micros(90_500_000));
}

#[test]
fn default_configuration_matches_documented_defaults() {
    let c = Configuration::default();
    assert_eq!(c.notify_socket.0, "/var/run/adapter/adapter.sock");
    assert_eq!(c.port, 8089);
    assert!(c.echo);
    assert!(c.log);
    assert_eq!(c.channel_size, 32);
    assert!(!c.initial_livez);
    assert!(!c.initial_readyz);
    assert!(c.allow_message_watchdog_usec);
    assert!(c.allow_message_extend_timeout_usec);
    assert!(c.status_livez_true.contains(&Event::Ready));
    assert!(c.status_livez_true.contains(&Event::Watchdog));
    assert!(!c.status_livez_true.contains(&Event::Reloading));
    assert!(c.status_livez_false.contains(&Event::WatchdogTimeout));
    assert!(c.status_readyz_false.contains(&Event::Reloading));
    assert!(c.status_readyz_false.contains(&Event::Stopping));
    assert!(!c.status_shutdown.contains(&Event::Stopping));
    assert_eq!(c.unit_timeout_start_sec, Seconds::Micros(90_000_000));
    assert_eq!(c.unit_watchdog_sec, Seconds::Micros(0));
}

#[test]
fn ignored_messages_have_no_effect() {
    let config = Configuration::default();
    for line in [
        "MONOTONIC_USEC=123",
        "STATUS=fine",
        "NOTIFYACCESS=main",
        "EXIT_STATUS=0",
        "MAINPID=42",
        "FDSTORE=1",
        "FDSTOREREMOVE=1",
        "FDNAME=sock",
        "FDPOLL=0",
        "BARRIER=1",
    ] {
        let message = Message::from_str(line.as_bytes()).unwrap();
        let effect = message.dispatch(&config.unit_timeout_start_sec);
        assert_eq!(effect.event, None);
        assert_eq!(effect.config_change, None);
    }
}

#[test]
fn event_messages_dispatch_their_events() {
    let config = Configuration::default();
    let cases = vec![
        ("READY=1", Event::Ready),
        ("RELOADING=1", Event::Reloading),
        ("STOPPING=1", Event::Stopping),
        ("ERRNO=7", Event::ErrorNumber),
        ("BUSERROR=org.example", Event::BusError),
        ("WATCHDOG=1", Event::Watchdog),
        ("WATCHDOG=trigger", Event::WatchdogTrigger),
    ];
    for (line, event) in cases {
        let message = Message::from_str(line.as_bytes()).unwrap();
        let effect = message.dispatch(&config.unit_timeout_start_sec);
        assert_eq!(effect.event, Some(event));
        assert_eq!(effect.config_change, None);
    }
}

#[test]
fn event_list_order_is_kept() {
    let list = EventList::from_str(b"stopping,ready").unwrap();
    assert_eq!(list.0, vec![Event::Stopping, Event::Ready]);
}
