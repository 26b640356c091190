//! Events and event classifiers.
//!
//! Messages arriving on the notification socket and wake-ups of the two
//! timers are classified into a closed set of events. Configured sets of
//! event names (classifiers) then decide how each event moves the health
//! flags.

use vstd::prelude::*;

use crate::bytes::{bytes_eq, find_byte};
use crate::error::Error;
use crate::status::{Change, ChangeOperation};

verus! {

/// The internal classification of everything that can happen to the
/// adapter. The first seven originate from datagrams; the last two are
/// emitted by the startup and watchdog timers.
#[derive(Clone, Copy, Debug, PartialEq, Eq, Structural)]
pub enum Event {
    Ready,
    Reloading,
    Stopping,
    ErrorNumber,
    BusError,
    Watchdog,
    WatchdogTrigger,
    WatchdogTimeout,
    StartTimeout,
}

impl Event {
    /// The configuration name of each event.
    pub open spec fn name_spec(self) -> Seq<u8> {
        match self {
            Event::Ready => seq!['r' as u8, 'e' as u8, 'a' as u8, 'd' as u8, 'y' as u8],
            Event::Reloading => seq!['r' as u8, 'e' as u8, 'l' as u8, 'o' as u8, 'a' as u8, 'd' as u8, 'i' as u8, 'n' as u8, 'g' as u8],
            Event::Stopping => seq!['s' as u8, 't' as u8, 'o' as u8, 'p' as u8, 'p' as u8, 'i' as u8, 'n' as u8, 'g' as u8],
            Event::ErrorNumber => seq!['e' as u8, 'r' as u8, 'r' as u8, 'n' as u8, 'o' as u8],
            Event::BusError => seq!['b' as u8, 'u' as u8, 's' as u8, 'e' as u8, 'r' as u8, 'r' as u8, 'o' as u8, 'r' as u8],
            Event::Watchdog => seq!['w' as u8, 'a' as u8, 't' as u8, 'c' as u8, 'h' as u8, 'd' as u8, 'o' as u8, 'g' as u8],
            Event::WatchdogTrigger => seq!['w' as u8, 'a' as u8, 't' as u8, 'c' as u8, 'h' as u8, 'd' as u8, 'o' as u8, 'g' as u8, '_' as u8, 't' as u8, 'r' as u8, 'i' as u8, 'g' as u8, 'g' as u8, 'e' as u8, 'r' as u8],
            Event::WatchdogTimeout => seq!['w' as u8, 'a' as u8, 't' as u8, 'c' as u8, 'h' as u8, 'd' as u8, 'o' as u8, 'g' as u8, '_' as u8, 't' as u8, 'i' as u8, 'm' as u8, 'e' as u8, 'o' as u8, 'u' as u8, 't' as u8],
            Event::StartTimeout => seq!['s' as u8, 't' as u8, 'a' as u8, 'r' as u8, 't' as u8, '_' as u8, 't' as u8, 'i' as u8, 'm' as u8, 'e' as u8, 'o' as u8, 'u' as u8, 't' as u8],
        }
    }

    /// The event a configuration token names, if any.
    pub open spec fn token_spec(s: Seq<u8>) -> Option<Event> {
        if s == Event::Ready.name_spec() {
            Some(Event::Ready)
        } else if s == Event::Reloading.name_spec() {
            Some(Event::Reloading)
        } else if s == Event::Stopping.name_spec() {
            Some(Event::Stopping)
        } else if s == Event::ErrorNumber.name_spec() {
            Some(Event::ErrorNumber)
        } else if s == Event::BusError.name_spec() {
            Some(Event::BusError)
        } else if s == Event::Watchdog.name_spec() {
            Some(Event::Watchdog)
        } else if s == Event::WatchdogTrigger.name_spec() {
            Some(Event::WatchdogTrigger)
        } else if s == Event::WatchdogTimeout.name_spec() {
            Some(Event::WatchdogTimeout)
        } else if s == Event::StartTimeout.name_spec() {
            Some(Event::StartTimeout)
        } else {
            None
        }
    }

    /// Parses one token of the closed event-name set.
    pub fn from_str(s: &[u8]) -> (r: Result<Event, Error>)
        ensures
            match r {
                Ok(e) => Event::token_spec(s@) == Some(e),
                Err(Error::ParseEvent(v)) => Event::token_spec(s@) == None::<Event> && v@ == s@,
                Err(_) => false,
            },
    {
        let n_ready: [u8; 5] = ['r' as u8, 'e' as u8, 'a' as u8, 'd' as u8, 'y' as u8];
        let n_reloading: [u8; 9] = ['r' as u8, 'e' as u8, 'l' as u8, 'o' as u8, 'a' as u8, 'd' as u8, 'i' as u8, 'n' as u8, 'g' as u8];
        let n_stopping: [u8; 8] = ['s' as u8, 't' as u8, 'o' as u8, 'p' as u8, 'p' as u8, 'i' as u8, 'n' as u8, 'g' as u8];
        let n_errno: [u8; 5] = ['e' as u8, 'r' as u8, 'r' as u8, 'n' as u8, 'o' as u8];
        let n_buserror: [u8; 8] = ['b' as u8, 'u' as u8, 's' as u8, 'e' as u8, 'r' as u8, 'r' as u8, 'o' as u8, 'r' as u8];
        let n_watchdog: [u8; 8] = ['w' as u8, 'a' as u8, 't' as u8, 'c' as u8, 'h' as u8, 'd' as u8, 'o' as u8, 'g' as u8];
        let n_watchdog_trigger: [u8; 16] = ['w' as u8, 'a' as u8, 't' as u8, 'c' as u8, 'h' as u8, 'd' as u8, 'o' as u8, 'g' as u8, '_' as u8, 't' as u8, 'r' as u8, 'i' as u8, 'g' as u8, 'g' as u8, 'e' as u8, 'r' as u8];
        let n_watchdog_timeout: [u8; 16] = ['w' as u8, 'a' as u8, 't' as u8, 'c' as u8, 'h' as u8, 'd' as u8, 'o' as u8, 'g' as u8, '_' as u8, 't' as u8, 'i' as u8, 'm' as u8, 'e' as u8, 'o' as u8, 'u' as u8, 't' as u8];
        let n_start_timeout: [u8; 13] = ['s' as u8, 't' as u8, 'a' as u8, 'r' as u8, 't' as u8, '_' as u8, 't' as u8, 'i' as u8, 'm' as u8, 'e' as u8, 'o' as u8, 'u' as u8, 't' as u8];
        proof {
            assert(n_ready@ =~= Event::Ready.name_spec());
            assert(n_reloading@ =~= Event::Reloading.name_spec());
            assert(n_stopping@ =~= Event::Stopping.name_spec());
            assert(n_errno@ =~= Event::ErrorNumber.name_spec());
            assert(n_buserror@ =~= Event::BusError.name_spec());
            assert(n_watchdog@ =~= Event::Watchdog.name_spec());
            assert(n_watchdog_trigger@ =~= Event::WatchdogTrigger.name_spec());
            assert(n_watchdog_timeout@ =~= Event::WatchdogTimeout.name_spec());
            assert(n_start_timeout@ =~= Event::StartTimeout.name_spec());
        }
        if bytes_eq(s, n_ready.as_slice()) {
            Ok(Event::Ready)
        } else if bytes_eq(s, n_reloading.as_slice()) {
            Ok(Event::Reloading)
        } else if bytes_eq(s, n_stopping.as_slice()) {
            Ok(Event::Stopping)
        } else if bytes_eq(s, n_errno.as_slice()) {
            Ok(Event::ErrorNumber)
        } else if bytes_eq(s, n_buserror.as_slice()) {
            Ok(Event::BusError)
        } else if bytes_eq(s, n_watchdog.as_slice()) {
            Ok(Event::Watchdog)
        } else if bytes_eq(s, n_watchdog_trigger.as_slice()) {
            Ok(Event::WatchdogTrigger)
        } else if bytes_eq(s, n_watchdog_timeout.as_slice()) {
            Ok(Event::WatchdogTimeout)
        } else if bytes_eq(s, n_start_timeout.as_slice()) {
            Ok(Event::StartTimeout)
        } else {
            Err(Error::ParseEvent(vstd::slice::slice_to_vec(s)))
        }
    }
}

/// The comma-separated tokens of a classifier value: the chunks of the
/// value between commas, empty ones included.
pub open spec fn split_tokens(s: Seq<u8>) -> Seq<Seq<u8>> {
    crate::bytes::split_on(s, ',' as u8)
}

/// The event a token names; only meaningful where `token_spec` is `Some`.
pub open spec fn token_event(t: Seq<u8>) -> Event {
    match Event::token_spec(t) {
        Some(e) => e,
        None => Event::Ready,
    }
}

/// Every token names an event.
pub open spec fn all_tokens_valid(ts: Seq<Seq<u8>>) -> bool {
    forall|i: int| 0 <= i < ts.len() ==> Event::token_spec(#[trigger] ts[i]) != None::<Event>
}

/// The events named by a token sequence, in order.
pub open spec fn events_of(ts: Seq<Seq<u8>>) -> Seq<Event> {
    ts.map_values(|t: Seq<u8>| token_event(t))
}

/// A configured set of event names, kept in configuration order.
/// Membership of an event decides how it moves a health flag.
#[derive(Clone, Debug, PartialEq, Eq)]
pub struct EventList(pub Vec<Event>);

impl View for EventList {
    type V = Seq<Event>;

    open spec fn view(&self) -> Seq<Event> {
        self.0@
    }
}

impl EventList {
    /// Parses a comma-separated classifier value; the empty value is the
    /// empty classifier, and otherwise every token must name an event.
    pub fn from_str(s: &[u8]) -> (r: Result<EventList, Error>)
        ensures
            ({
                let ts = split_tokens(s@);
                match r {
                    Ok(l) => (s@.len() == 0 && l@ == Seq::<Event>::empty())
                        || (s@.len() > 0 && all_tokens_valid(ts) && l@ == events_of(ts)),
                    Err(Error::ParseEvent(v)) => s@.len() > 0
                        && Event::token_spec(v@) == None::<Event>
                        && (exists|i: int| 0 <= i < ts.len() && ts[i] == v@
                            && (forall|k: int| 0 <= k < i
                                ==> Event::token_spec(#[trigger] ts[k]) != None::<Event>)),
                    Err(_) => false,
                }
            }),
    {
        if s.len() == 0 {
            let l = EventList(Vec::new());
            assert(l@ =~= Seq::<Event>::empty());
            Ok(l)
        } else {
            match parse_tokens(s) {
                Ok(v) => Ok(EventList(v)),
                Err(e) => Err(e),
            }
        }
    }

    /// Whether `event` is in the classifier.
    pub fn contains(&self, event: &Event) -> (r: bool)
        ensures
            r == self@.contains(*event),
    {
        let n: usize = self.0.len();
        let mut i: usize = 0;
        while i < n
            invariant
                n == self.0@.len(),
                0 <= i <= n,
                forall|k: int| 0 <= k < i ==> self.0@[k] != *event,
            decreases n - i,
        {
            if self.0[i] == *event {
                return true;
            }
            i = i + 1;
        }
        false
    }
}

/// Parses a non-empty classifier value token by token.
fn parse_tokens(s: &[u8]) -> (r: Result<Vec<Event>, Error>)
    ensures
        ({
            let ts = split_tokens(s@);
            match r {
                Ok(v) => all_tokens_valid(ts) && v@ == events_of(ts),
                Err(Error::ParseEvent(b)) => Event::token_spec(b@) == None::<Event>
                    && (exists|i: int| 0 <= i < ts.len() && ts[i] == b@
                        && (forall|k: int| 0 <= k < i
                            ==> Event::token_spec(#[trigger] ts[k]) != None::<Event>)),
                Err(_) => false,
            }
        }),
    decreases s@.len(),
{
    proof {
        crate::bytes::lemma_split_on_decompose(s@, ',' as u8);
        crate::bytes::lemma_find_first(s@, ',' as u8);
    }
    let ghost ts = split_tokens(s@);
    match find_byte(s, ',' as u8) {
        None => {
            proof {
                assert(ts =~~= seq![s@]);
            }
            match Event::from_str(s) {
                Ok(e) => {
                    let mut v: Vec<Event> = Vec::new();
                    v.push(e);
                    proof {
                        assert(v@ =~= events_of(ts));
                    }
                    Ok(v)
                },
                Err(e) => {
                    proof {
                        assert(ts[0] == s@);
                    }
                    Err(e)
                },
            }
        },
        Some(i) => {
            proof {
                assert(ts =~~= seq![s@.take(i as int)] + split_tokens(s@.skip(i + 1)));
            }
            let tok = vstd::slice::slice_subrange(s, 0, i);
            proof {
                assert(tok@ =~= s@.take(i as int));
            }
            match Event::from_str(tok) {
                Err(e) => {
                    proof {
                        assert(ts[0] == tok@);
                    }
                    Err(e)
                },
                Ok(e) => {
                    let rest = vstd::slice::slice_subrange(s, i + 1, s.len());
                    proof {
                        assert(rest@ =~= s@.skip(i + 1));
                    }
                    let ghost rts = split_tokens(rest@);
                    match parse_tokens(rest) {
                        Ok(mut v) => {
                            v.insert(0, e);
                            proof {
                                assert(forall|k: int| 0 <= k < ts.len()
                                    ==> (#[trigger] ts[k]) == if k == 0 { tok@ } else { rts[k - 1] });
                                assert(all_tokens_valid(ts));
                                assert(v@ =~= events_of(ts));
                            }
                            Ok(v)
                        },
                        Err(err) => {
                            proof {
                                if let Error::ParseEvent(b) = &err {
                                    let j = choose|j: int| 0 <= j < rts.len() && rts[j] == b@
                                        && (forall|k: int| 0 <= k < j
                                            ==> Event::token_spec(#[trigger] rts[k]) != None::<Event>);
                                    assert(ts[j + 1] == rts[j]);
                                    assert(forall|k: int| 0 <= k < j + 1
                                        ==> Event::token_spec(#[trigger] ts[k]) != None::<Event>);
                                }
                            }
                            Err(err)
                        },
                    }
                },
            }
        },
    }
}

/// The five classifiers the event listener works with. They are copied
/// out of the configuration once at start-up and treated as immutable
/// for the rest of the run.
#[derive(Debug)]
pub struct Classifiers {
    pub status_livez_true: EventList,
    pub status_livez_false: EventList,
    pub status_readyz_true: EventList,
    pub status_readyz_false: EventList,
    pub status_shutdown: EventList,
}

/// Everything the event listener does with one event that is not fatal:
/// possibly a message to the watchdog timer, and one atomic status
/// change.
#[derive(Debug, PartialEq, Eq)]
pub struct EventReaction {
    pub watchdog: Option<crate::watchdog::Message>,
    pub change: Change,
}

/// The watchdog-timer message an event induces: a keep-alive for
/// `Watchdog`, a trigger for `WatchdogTrigger`, a window-change notice
/// for `WatchdogTimeout`, nothing for the rest.
pub open spec fn watchdog_message_spec(e: Event) -> Option<crate::watchdog::Message> {
    match e {
        Event::Watchdog => Some(crate::watchdog::Message::KeepAlive),
        Event::WatchdogTrigger => Some(crate::watchdog::Message::Trigger),
        Event::WatchdogTimeout => Some(crate::watchdog::Message::NewTimeout),
        _ => None,
    }
}

/// How one event moves one flag, given the flag's two classifiers:
/// false wins when both contain the event, and an event in neither
/// leaves the flag alone.
pub open spec fn flag_operation_spec(e: Event, set_true: Seq<Event>, set_false: Seq<Event>) -> ChangeOperation {
    if set_false.contains(e) {
        ChangeOperation::Assign(false)
    } else if set_true.contains(e) {
        ChangeOperation::Assign(true)
    } else {
        ChangeOperation::Keep
    }
}

/// The status change one event produces: `healthz` is never touched
/// here — only the ready barrier raises it — and the other two flags
/// follow their classifiers.
pub open spec fn change_spec(c: Classifiers, e: Event) -> Change {
    Change {
        healthz: ChangeOperation::Keep,
        livez: flag_operation_spec(e, c.status_livez_true@, c.status_livez_false@),
        readyz: flag_operation_spec(e, c.status_readyz_true@, c.status_readyz_false@),
    }
}

/// The event listener's decision for one event: fatal when the event is
/// in the shutdown classifier, otherwise the watchdog message and the
/// status change the event calls for.
pub fn classify(classifiers: &Classifiers, event: &Event) -> (r: Result<EventReaction, Error>)
    ensures
        match r {
            Ok(reaction) => !classifiers.status_shutdown@.contains(*event)
                && reaction.watchdog == watchdog_message_spec(*event)
                && reaction.change == change_spec(*classifiers, *event),
            Err(Error::EventShutdown(e)) => classifiers.status_shutdown@.contains(*event)
                && e == *event,
            Err(_) => false,
        },
{
    if classifiers.status_shutdown.contains(event) {
        return Err(Error::EventShutdown(*event));
    }

    let watchdog = match event {
        Event::Watchdog => Some(crate::watchdog::Message::KeepAlive),
        Event::WatchdogTrigger => Some(crate::watchdog::Message::Trigger),
        Event::WatchdogTimeout => Some(crate::watchdog::Message::NewTimeout),
        _ => None,
    };

    let healthz_operation = ChangeOperation::Keep;
    let mut livez_operation = ChangeOperation::Keep;
    let mut readyz_operation = ChangeOperation::Keep;

    if classifiers.status_livez_true.contains(event) {
        livez_operation = ChangeOperation::Assign(true);
    }
    if classifiers.status_livez_false.contains(event) {
        livez_operation = ChangeOperation::Assign(false);
    }
    if classifiers.status_readyz_true.contains(event) {
        readyz_operation = ChangeOperation::Assign(true);
    }
    if classifiers.status_readyz_false.contains(event) {
        readyz_operation = ChangeOperation::Assign(false);
    }

    Ok(EventReaction {
        watchdog,
        change: Change {
            healthz: healthz_operation,
            livez: livez_operation,
            readyz: readyz_operation,
        },
    })
}

/// The event listener never touches `healthz`: every change it
/// produces keeps the flag, so only the ready barrier's change can
/// raise it.
pub proof fn lemma_listener_never_touches_healthz(c: Classifiers, e: Event)
    ensures
        change_spec(c, e).healthz == ChangeOperation::Keep,
{
}

/// False wins ties: an event that both the true- and the false-
/// classifier of a flag contain forces the flag to false, for `livez`
/// and `readyz` alike.
pub proof fn lemma_false_wins_ties(c: Classifiers, e: Event)
    ensures
        c.status_livez_true@.contains(e) && c.status_livez_false@.contains(e)
            ==> change_spec(c, e).livez == ChangeOperation::Assign(false),
        c.status_readyz_true@.contains(e) && c.status_readyz_false@.contains(e)
            ==> change_spec(c, e).readyz == ChangeOperation::Assign(false),
{
}

} // verus!

