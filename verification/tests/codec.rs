use adapter::error::Error;
use adapter::message::{Message, NotifyAccess, parse_datagram};
use adapter::seconds::Seconds;

fn parse(line: &str) -> Result<Message, Error> {
    Message::from_str(line.as_bytes())
}

#[test]
fn parses_flag_messages() {
    assert_eq!(parse("READY=1"), Ok(Message::Ready));
    assert_eq!(parse("RELOADING=1"), Ok(Message::Reloading));
    assert_eq!(parse("STOPPING=1"), Ok(Message::Stopping));
    assert_eq!(parse("WATCHDOG=1"), Ok(Message::Watchdog));
    assert_eq!(parse("WATCHDOG=trigger"), Ok(Message::WatchdogTrigger));
    assert_eq!(parse("FDSTORE=1"), Ok(Message::FDStore));
    assert_eq!(parse("FDSTOREREMOVE=1"), Ok(Message::FDStoreRemove));
    assert_eq!(parse("FDPOLL=0"), Ok(Message::FDPoll));
    assert_eq!(parse("BARRIER=1"), Ok(Message::Barrier));
}

#[test]
fn parses_microsecond_messages() {
    assert_eq!(
        parse("MONOTONIC_USEC=123"),
        Ok(Message::MonotonicMicrosecond(Seconds::Micros(123)))
    );
    assert_eq!(
        parse("WATCHDOG_USEC=1000000"),
        Ok(Message::WatchdogMicrosecond(Seconds::Micros(1_000_000)))
    );
    assert_eq!(
        parse("EXTEND_TIMEOUT_USEC=500000"),
        Ok(Message::ExtendTimeoutMicrosecond(Seconds::Micros(500_000)))
    );
}

#[test]
fn parses_text_messages() {
    assert_eq!(
        parse("STATUS=All systems go"),
        Ok(Message::Status(b"All systems go".to_vec()))
    );
    assert_eq!(parse("STATUS="), Ok(Message::Status(Vec::new())));
    assert_eq!(parse("STATUS=a=b"), Ok(Message::Status(b"a=b".to_vec())));
    assert_eq!(
        parse("BUSERROR=org.freedesktop.DBus.Error.TimedOut"),
        Ok(Message::BusError(b"org.freedesktop.DBus.Error.TimedOut".to_vec()))
    );
    assert_eq!(parse("FDNAME=stored"), Ok(Message::FDName(b"stored".to_vec())));
}

#[test]
fn parses_integer_messages() {
    assert_eq!(parse("ERRNO=-42"), Ok(Message::ErrorNumber(-42)));
    assert_eq!(parse("ERRNO=+7"), Ok(Message::ErrorNumber(7)));
    assert_eq!(parse("ERRNO=2147483647"), Ok(Message::ErrorNumber(i32::MAX)));
    assert_eq!(parse("ERRNO=-2147483648"), Ok(Message::ErrorNumber(i32::MIN)));
    assert_eq!(parse("EXIT_STATUS=0"), Ok(Message::ExitStatus(0)));
    assert_eq!(parse("MAINPID=4136"), Ok(Message::MainPID(4136)));
}

#[test]
fn parses_notify_access() {
    assert_eq!(
        parse("NOTIFYACCESS=none"),
        Ok(Message::NotifyAccess(NotifyAccess::Nobody))
    );
    assert_eq!(
        parse("NOTIFYACCESS=main"),
        Ok(Message::NotifyAccess(NotifyAccess::Main))
    );
    assert_eq!(
        parse("NOTIFYACCESS=exec"),
        Ok(Message::NotifyAccess(NotifyAccess::Exec))
    );
    assert_eq!(
        parse("NOTIFYACCESS=all"),
        Ok(Message::NotifyAccess(NotifyAccess::All))
    );
    assert_eq!(
        parse("NOTIFYACCESS=root"),
        Err(Error::ParseNotifyAccess(b"root".to_vec()))
    );
}

#[test]
fn rejects_bad_lines() {
    assert_eq!(parse("READY"), Err(Error::MessageSplit(b"READY".to_vec())));
    assert_eq!(parse(""), Err(Error::MessageSplit(Vec::new())));
    assert_eq!(parse("READY=2"), Err(Error::MessageUndefined(b"READY=2".to_vec())));
    assert_eq!(
        parse("WATCHDOG=yes"),
        Err(Error::MessageUndefined(b"WATCHDOG=yes".to_vec()))
    );
    assert_eq!(parse("FOO=1"), Err(Error::MessageUndefined(b"FOO=1".to_vec())));
    assert_eq!(
        parse("ERRNO=abc"),
        Err(Error::MessageParseInt(b"abc".to_vec()))
    );
    assert_eq!(
        parse("ERRNO=2147483648"),
        Err(Error::MessageParseInt(b"2147483648".to_vec()))
    );
    assert_eq!(
        parse("WATCHDOG_USEC=1.5"),
        Err(Error::MessageParseMicros(b"1.5".to_vec()))
    );
    assert_eq!(
        parse("WATCHDOG_USEC=-1"),
        Err(Error::MessageParseMicros(b"-1".to_vec()))
    );
    assert_eq!(
        parse("WATCHDOG_USEC=18446744073709551616"),
        Err(Error::MessageParseMicros(b"18446744073709551616".to_vec()))
    );
    assert_eq!(
        parse("WATCHDOG_USEC="),
        Err(Error::MessageParseMicros(Vec::new()))
    );
}

#[test]
fn encodes_canonical_forms() {
    assert_eq!(Message::Ready.encode(), b"READY=1".to_vec());
    assert_eq!(Message::WatchdogTrigger.encode(), b"WATCHDOG=trigger".to_vec());
    assert_eq!(
        Message::WatchdogMicrosecond(Seconds::Micros(200_000)).encode(),
        b"WATCHDOG_USEC=200000".to_vec()
    );
    assert_eq!(
        Message::ErrorNumber(-42).encode(),
        b"ERRNO=-42".to_vec()
    );
    assert_eq!(
        Message::ErrorNumber(i32::MIN).encode(),
        b"ERRNO=-2147483648".to_vec()
    );
    assert_eq!(
        Message::Status(b"warming up".to_vec()).encode(),
        b"STATUS=warming up".to_vec()
    );
    assert_eq!(
        Message::NotifyAccess(NotifyAccess::Nobody).encode(),
        b"NOTIFYACCESS=none".to_vec()
    );
    assert_eq!(
        Message::MonotonicMicrosecond(Seconds::Micros(0)).encode(),
        b"MONOTONIC_USEC=0".to_vec()
    );
}

#[test]
fn round_trips_every_message_kind() {
    let messages = vec![
        Message::Ready,
        Message::Reloading,
        Message::Stopping,
        Message::MonotonicMicrosecond(Seconds::Micros(987_654_321)),
        Message::Status(b"ready for traffic".to_vec()),
        Message::NotifyAccess(NotifyAccess::Main),
        Message::NotifyAccess(NotifyAccess::All),
        Message::ErrorNumber(0),
        Message::ErrorNumber(-2_147_483_648),
        Message::ErrorNumber(2_147_483_647),
        Message::BusError(b"org.example.Err".to_vec()),
        Message::ExitStatus(-1),
        Message::MainPID(1),
        Message::Watchdog,
        Message::WatchdogTrigger,
        Message::WatchdogMicrosecond(Seconds::Micros(u64::MAX)),
        Message::ExtendTimeoutMicrosecond(Seconds::Micros(1)),
        Message::FDStore,
        Message::FDStoreRemove,
        Message::FDName(b"sock".to_vec()),
        Message::FDPoll,
        Message::Barrier,
    ];
    for m in messages {
        let encoded = m.encode();
        assert_eq!(Message::from_str(&encoded), Ok(m));
    }
}

#[test]
fn parses_datagrams_line_by_line() {
    let messages = parse_datagram(b"READY=1\nSTATUS=up\nWATCHDOG=1").unwrap();
    assert_eq!(
        messages,
        vec![
            Message::Ready,
            Message::Status(b"up".to_vec()),
            Message::Watchdog,
        ]
    );
}

#[test]
fn datagram_trailing_newline_ends_last_line() {
    assert_eq!(
        parse_datagram(b"READY=1\n").unwrap(),
        vec![Message::Ready]
    );
    assert_eq!(parse_datagram(b"").unwrap(), Vec::<Message>::new());
}

#[test]
fn datagram_empty_line_is_fatal() {
    assert_eq!(
        parse_datagram(b"READY=1\n\nSTOPPING=1"),
        Err(Error::MessageSplit(Vec::new()))
    );
}

#[test]
fn datagram_reports_first_failing_line() {
    assert_eq!(
        parse_datagram(b"READY=1\nERRNO=abc\nFOO=1"),
        Err(Error::MessageParseInt(b"abc".to_vec()))
    );
}
