//! Runtime configuration and the configuration writer's mutation rule.
//!
//! The configuration is loaded once at start-up from the environment and
//! thereafter mutated only through `apply_change`, which gates the two
//! runtime overrides behind their policy flags.

use vstd::prelude::*;

use crate::event::EventList;
use crate::seconds::Seconds;

verus! {

/// An owned configuration string, such as the notification socket path.
#[derive(Clone, Debug)]
pub struct ConfigString(pub String);

impl ConfigString {
    pub fn from_str(s: &str) -> (r: Result<ConfigString, crate::error::Error>)
        ensures
            match r {
                Ok(c) => c.0@ == s@,
                Err(_) => false,
            },
    {
        Ok(ConfigString(s.to_owned()))
    }
}

/// The adapter's configuration. The five classifiers are read once by
/// the event listener at start-up; the two `unit_*` spans are the only
/// fields that change at runtime, and only through `apply_change`.
#[derive(Clone, Debug)]
pub struct Configuration {
    pub notify_socket: ConfigString,
    pub port: u16,
    pub echo: bool,
    pub log: bool,
    pub channel_size: usize,
    pub initial_livez: bool,
    pub initial_readyz: bool,
    pub allow_message_watchdog_usec: bool,
    pub allow_message_extend_timeout_usec: bool,
    pub status_livez_true: EventList,
    pub status_livez_false: EventList,
    pub status_readyz_true: EventList,
    pub status_readyz_false: EventList,
    pub status_shutdown: EventList,
    pub unit_timeout_start_sec: Seconds,
    pub unit_watchdog_sec: Seconds,
}

/// A runtime override received on the notification socket.
#[derive(Clone, Copy, Debug, PartialEq, Eq, Structural)]
pub enum ConfigurationChange {
    WatchdogTimeout(Seconds),
    StartupTimeout(Seconds),
}

impl Configuration {
    /// What applying a change leaves behind: the named span is replaced
    /// when its policy flag allows the override, and nothing else moves.
    pub open spec fn apply_change_spec(c: Configuration, change: ConfigurationChange) -> Configuration {
        match change {
            ConfigurationChange::WatchdogTimeout(t) => {
                if c.allow_message_watchdog_usec {
                    Configuration { unit_watchdog_sec: t, ..c }
                } else {
                    c
                }
            },
            ConfigurationChange::StartupTimeout(t) => {
                if c.allow_message_extend_timeout_usec {
                    Configuration { unit_timeout_start_sec: t, ..c }
                } else {
                    c
                }
            },
        }
    }

    /// Whether a change passes its policy flag.
    pub open spec fn change_allowed_spec(c: Configuration, change: ConfigurationChange) -> bool {
        match change {
            ConfigurationChange::WatchdogTimeout(_) => c.allow_message_watchdog_usec,
            ConfigurationChange::StartupTimeout(_) => c.allow_message_extend_timeout_usec,
        }
    }

    /// Applies one configuration change, honouring the policy flags.
    /// Returns whether the change was accepted; a rejected change leaves
    /// the configuration untouched and is reported so the caller can log
    /// a warning.
    pub fn apply_change(&mut self, change: &ConfigurationChange) -> (applied: bool)
        ensures
            *final(self) == Configuration::apply_change_spec(*old(self), *change),
            applied == Configuration::change_allowed_spec(*old(self), *change),
    {
        match change {
            ConfigurationChange::WatchdogTimeout(t) => {
                if self.allow_message_watchdog_usec {
                    self.unit_watchdog_sec = *t;
                    true
                } else {
                    false
                }
            },
            ConfigurationChange::StartupTimeout(t) => {
                if self.allow_message_extend_timeout_usec {
                    self.unit_timeout_start_sec = *t;
                    true
                } else {
                    false
                }
            },
        }
    }
}

/// A disallowed watchdog override leaves the watchdog span exactly as it
/// was; likewise for the startup span and its flag. Rejected changes
/// change nothing at all.
pub proof fn lemma_rejected_override_changes_nothing(c: Configuration, change: ConfigurationChange)
    requires
        !Configuration::change_allowed_spec(c, change),
    ensures
        Configuration::apply_change_spec(c, change) == c,
        Configuration::apply_change_spec(c, change).unit_watchdog_sec == c.unit_watchdog_sec,
        Configuration::apply_change_spec(c, change).unit_timeout_start_sec == c.unit_timeout_start_sec,
{
}

impl Default for Configuration {
    /// The configuration the adapter runs with when the environment sets
    /// nothing: health flags start pessimistic, both runtime overrides
    /// are allowed, the startup deadline is ninety seconds and the
    /// watchdog is disabled.
    fn default() -> (r: Configuration)
        ensures
            r.notify_socket.0@ == "/var/run/adapter/adapter.sock"@,
            r.port == 8089,
            r.echo,
            r.log,
            r.channel_size == 32,
            !r.initial_livez,
            !r.initial_readyz,
            r.allow_message_watchdog_usec,
            r.allow_message_extend_timeout_usec,
            r.status_livez_true@ == seq![crate::event::Event::Ready, crate::event::Event::Watchdog],
            r.status_livez_false@ == seq![
                crate::event::Event::ErrorNumber,
                crate::event::Event::BusError,
                crate::event::Event::WatchdogTrigger,
                crate::event::Event::WatchdogTimeout,
                crate::event::Event::StartTimeout,
            ],
            r.status_readyz_true@ == seq![crate::event::Event::Ready, crate::event::Event::Watchdog],
            r.status_readyz_false@ == seq![
                crate::event::Event::Reloading,
                crate::event::Event::Stopping,
                crate::event::Event::ErrorNumber,
                crate::event::Event::BusError,
                crate::event::Event::WatchdogTrigger,
                crate::event::Event::WatchdogTimeout,
                crate::event::Event::StartTimeout,
            ],
            r.status_shutdown@ == Seq::<crate::event::Event>::empty(),
            r.unit_timeout_start_sec == Seconds::Micros(90_000_000u64),
            r.unit_watchdog_sec == Seconds::Micros(0u64),
    {
        let livez_true = EventList(vec![crate::event::Event::Ready, crate::event::Event::Watchdog]);
        let livez_false = EventList(vec![
            crate::event::Event::ErrorNumber,
            crate::event::Event::BusError,
            crate::event::Event::WatchdogTrigger,
            crate::event::Event::WatchdogTimeout,
            crate::event::Event::StartTimeout,
        ]);
        let readyz_true = EventList(vec![crate::event::Event::Ready, crate::event::Event::Watchdog]);
        let readyz_false = EventList(vec![
            crate::event::Event::Reloading,
            crate::event::Event::Stopping,
            crate::event::Event::ErrorNumber,
            crate::event::Event::BusError,
            crate::event::Event::WatchdogTrigger,
            crate::event::Event::WatchdogTimeout,
            crate::event::Event::StartTimeout,
        ]);
        let shutdown = EventList(Vec::new());
        proof {
            assert(shutdown@ =~= Seq::<crate::event::Event>::empty());
        }
        Configuration {
            notify_socket: ConfigString("/var/run/adapter/adapter.sock".to_owned()),
            port: 8089,
            echo: true,
            log: true,
            channel_size: 32,
            initial_livez: false,
            initial_readyz: false,
            allow_message_watchdog_usec: true,
            allow_message_extend_timeout_usec: true,
            status_livez_true: livez_true,
            status_livez_false: livez_false,
            status_readyz_true: readyz_true,
            status_readyz_false: readyz_false,
            status_shutdown: shutdown,
            unit_timeout_start_sec: Seconds::Micros(90_000_000),
            unit_watchdog_sec: Seconds::Micros(0),
        }
    }
}

} // verus!
