use adapter::error::Error;
use adapter::event::{classify, Classifiers, Event, EventList, EventReaction};
use adapter::status::ChangeOperation;
use adapter::watchdog;

#[test]
fn parses_every_event_name() {
    let cases = vec![
        ("ready", Event::Ready),
        ("reloading", Event::Reloading),
        ("stopping", Event::Stopping),
        ("errno", Event::ErrorNumber),
        ("buserror", Event::BusError),
        ("watchdog", Event::Watchdog),
        ("watchdog_trigger", Event::WatchdogTrigger),
        ("watchdog_timeout", Event::WatchdogTimeout),
        ("start_timeout", Event::StartTimeout),
    ];
    for (name, event) in cases {
        assert_eq!(Event::from_str(name.as_bytes()), Ok(event));
    }
    assert_eq!(
        Event::from_str(b"shutdown"),
        Err(Error::ParseEvent(b"shutdown".to_vec()))
    );
}

#[test]
fn parses_event_lists() {
    let list = EventList::from_str(b"ready,watchdog").unwrap();
    assert!(list.contains(&Event::Ready));
    assert!(list.contains(&Event::Watchdog));
    assert!(!list.contains(&Event::Stopping));
}

#[test]
fn empty_event_list_is_empty() {
    let list = EventList::from_str(b"").unwrap();
    for e in [
        Event::Ready,
        Event::Reloading,
        Event::Stopping,
        Event::ErrorNumber,
        Event::BusError,
        Event::Watchdog,
        Event::WatchdogTrigger,
        Event::WatchdogTimeout,
        Event::StartTimeout,
    ] {
        assert!(!list.contains(&e));
    }
}

#[test]
fn event_list_rejects_bad_tokens() {
    assert_eq!(
        EventList::from_str(b"ready,,watchdog"),
        Err(Error::ParseEvent(Vec::new()))
    );
    assert_eq!(
        EventList::from_str(b"ready,nope"),
        Err(Error::ParseEvent(b"nope".to_vec()))
    );
}

fn default_classifiers() -> Classifiers {
    Classifiers {
        status_livez_true: EventList::from_str(b"ready,watchdog").unwrap(),
        status_livez_false: EventList::from_str(
            b"errno,buserror,watchdog_trigger,watchdog_timeout,start_timeout",
        )
        .unwrap(),
        status_readyz_true: EventList::from_str(b"ready,watchdog").unwrap(),
        status_readyz_false: EventList::from_str(
            b"reloading,stopping,errno,buserror,watchdog_trigger,watchdog_timeout,start_timeout",
        )
        .unwrap(),
        status_shutdown: EventList::from_str(b"").unwrap(),
    }
}

#[test]
fn ready_sets_both_flags_true() {
    let reaction = classify(&default_classifiers(), &Event::Ready).unwrap();
    assert_eq!(reaction.watchdog, None);
    assert_eq!(reaction.change.healthz, ChangeOperation::Keep);
    assert_eq!(reaction.change.livez, ChangeOperation::Assign(true));
    assert_eq!(reaction.change.readyz, ChangeOperation::Assign(true));
}

#[test]
fn reloading_only_drops_readyz() {
    let reaction = classify(&default_classifiers(), &Event::Reloading).unwrap();
    assert_eq!(reaction.watchdog, None);
    assert_eq!(reaction.change.livez, ChangeOperation::Keep);
    assert_eq!(reaction.change.readyz, ChangeOperation::Assign(false));
}

#[test]
fn watchdog_events_feed_the_timer() {
    let c = default_classifiers();
    let r: EventReaction = classify(&c, &Event::Watchdog).unwrap();
    assert_eq!(r.watchdog, Some(watchdog::Message::KeepAlive));
    let r = classify(&c, &Event::WatchdogTrigger).unwrap();
    assert_eq!(r.watchdog, Some(watchdog::Message::Trigger));
    assert_eq!(r.change.livez, ChangeOperation::Assign(false));
    let r = classify(&c, &Event::WatchdogTimeout).unwrap();
    assert_eq!(r.watchdog, Some(watchdog::Message::NewTimeout));
    assert_eq!(r.change.livez, ChangeOperation::Assign(false));
}

#[test]
fn false_wins_when_both_classifiers_contain_the_event() {
    let c = Classifiers {
        status_livez_true: EventList::from_str(b"ready").unwrap(),
        status_livez_false: EventList::from_str(b"ready").unwrap(),
        status_readyz_true: EventList::from_str(b"ready").unwrap(),
        status_readyz_false: EventList::from_str(b"ready").unwrap(),
        status_shutdown: EventList::from_str(b"").unwrap(),
    };
    let reaction = classify(&c, &Event::Ready).unwrap();
    assert_eq!(reaction.change.livez, ChangeOperation::Assign(false));
    assert_eq!(reaction.change.readyz, ChangeOperation::Assign(false));
}

#[test]
fn shutdown_event_is_fatal() {
    let c = Classifiers {
        status_livez_true: EventList::from_str(b"ready").unwrap(),
        status_livez_false: EventList::from_str(b"").unwrap(),
        status_readyz_true: EventList::from_str(b"ready").unwrap(),
        status_readyz_false: EventList::from_str(b"").unwrap(),
        status_shutdown: EventList::from_str(b"stopping").unwrap(),
    };
    assert_eq!(
        classify(&c, &Event::Stopping),
        Err(Error::EventShutdown(Event::Stopping))
    );
    assert!(classify(&c, &Event::Ready).is_ok());
}
