//! The wire vocabulary of the notification socket.
//!
//! Each line of a datagram is one `KEY=VALUE` assignment. The parser
//! and the encoder are proved against one relation, `line_parses_to`,
//! which makes the encoder exactly inverse to the parser on the
//! recognised message set.

use vstd::prelude::*;

use crate::bytes::{bytes_eq, find_byte, find_first, push_bytes, split_on};
use crate::config::ConfigurationChange;
use crate::decimal::{
    dec_digits, digits_value, format_i32, format_u64, int_decimal, int_literal_value, is_digits,
    is_int_literal, lemma_dec_digits, parse_i32, parse_u64,
};
use crate::error::Error;
use crate::event::Event;
use crate::seconds::Seconds;

verus! {

/// Who may send on the notification socket, as reported by the
/// workload. Accepted and otherwise ignored.
#[derive(Clone, Copy, Debug, PartialEq, Eq, Structural)]
pub enum NotifyAccess {
    Nobody,
    Main,
    Exec,
    All,
}

/// The key `READY`.
pub open spec fn k_ready() -> Seq<u8> {
    seq!['R' as u8, 'E' as u8, 'A' as u8, 'D' as u8, 'Y' as u8]
}

/// The key `RELOADING`.
pub open spec fn k_reloading() -> Seq<u8> {
    seq!['R' as u8, 'E' as u8, 'L' as u8, 'O' as u8, 'A' as u8, 'D' as u8, 'I' as u8, 'N' as u8, 'G' as u8]
}

/// The key `STOPPING`.
pub open spec fn k_stopping() -> Seq<u8> {
    seq!['S' as u8, 'T' as u8, 'O' as u8, 'P' as u8, 'P' as u8, 'I' as u8, 'N' as u8, 'G' as u8]
}

/// The key `MONOTONIC_USEC`.
pub open spec fn k_monotonic_usec() -> Seq<u8> {
    seq!['M' as u8, 'O' as u8, 'N' as u8, 'O' as u8, 'T' as u8, 'O' as u8, 'N' as u8, 'I' as u8, 'C' as u8, '_' as u8, 'U' as u8, 'S' as u8, 'E' as u8, 'C' as u8]
}

/// The key `STATUS`.
pub open spec fn k_status() -> Seq<u8> {
    seq!['S' as u8, 'T' as u8, 'A' as u8, 'T' as u8, 'U' as u8, 'S' as u8]
}

/// The key `NOTIFYACCESS`.
pub open spec fn k_notifyaccess() -> Seq<u8> {
    seq!['N' as u8, 'O' as u8, 'T' as u8, 'I' as u8, 'F' as u8, 'Y' as u8, 'A' as u8, 'C' as u8, 'C' as u8, 'E' as u8, 'S' as u8, 'S' as u8]
}

/// The key `ERRNO`.
pub open spec fn k_errno() -> Seq<u8> {
    seq!['E' as u8, 'R' as u8, 'R' as u8, 'N' as u8, 'O' as u8]
}

/// The key `BUSERROR`.
pub open spec fn k_buserror() -> Seq<u8> {
    seq!['B' as u8, 'U' as u8, 'S' as u8, 'E' as u8, 'R' as u8, 'R' as u8, 'O' as u8, 'R' as u8]
}

/// The key `EXIT_STATUS`.
pub open spec fn k_exit_status() -> Seq<u8> {
    seq!['E' as u8, 'X' as u8, 'I' as u8, 'T' as u8, '_' as u8, 'S' as u8, 'T' as u8, 'A' as u8, 'T' as u8, 'U' as u8, 'S' as u8]
}

/// The key `MAINPID`.
pub open spec fn k_mainpid() -> Seq<u8> {
    seq!['M' as u8, 'A' as u8, 'I' as u8, 'N' as u8, 'P' as u8, 'I' as u8, 'D' as u8]
}

/// The key `WATCHDOG`.
pub open spec fn k_watchdog() -> Seq<u8> {
    seq!['W' as u8, 'A' as u8, 'T' as u8, 'C' as u8, 'H' as u8, 'D' as u8, 'O' as u8, 'G' as u8]
}

/// The key `WATCHDOG_USEC`.
pub open spec fn k_watchdog_usec() -> Seq<u8> {
    seq!['W' as u8, 'A' as u8, 'T' as u8, 'C' as u8, 'H' as u8, 'D' as u8, 'O' as u8, 'G' as u8, '_' as u8, 'U' as u8, 'S' as u8, 'E' as u8, 'C' as u8]
}

/// The key `EXTEND_TIMEOUT_USEC`.
pub open spec fn k_extend_timeout_usec() -> Seq<u8> {
    seq!['E' as u8, 'X' as u8, 'T' as u8, 'E' as u8, 'N' as u8, 'D' as u8, '_' as u8, 'T' as u8, 'I' as u8, 'M' as u8, 'E' as u8, 'O' as u8, 'U' as u8, 'T' as u8, '_' as u8, 'U' as u8, 'S' as u8, 'E' as u8, 'C' as u8]
}

/// The key `FDSTORE`.
pub open spec fn k_fdstore() -> Seq<u8> {
    seq!['F' as u8, 'D' as u8, 'S' as u8, 'T' as u8, 'O' as u8, 'R' as u8, 'E' as u8]
}

/// The key `FDSTOREREMOVE`.
pub open spec fn k_fdstoreremove() -> Seq<u8> {
    seq!['F' as u8, 'D' as u8, 'S' as u8, 'T' as u8, 'O' as u8, 'R' as u8, 'E' as u8, 'R' as u8, 'E' as u8, 'M' as u8, 'O' as u8, 'V' as u8, 'E' as u8]
}

/// The key `FDNAME`.
pub open spec fn k_fdname() -> Seq<u8> {
    seq!['F' as u8, 'D' as u8, 'N' as u8, 'A' as u8, 'M' as u8, 'E' as u8]
}

/// The key `FDPOLL`.
pub open spec fn k_fdpoll() -> Seq<u8> {
    seq!['F' as u8, 'D' as u8, 'P' as u8, 'O' as u8, 'L' as u8, 'L' as u8]
}

/// The key `BARRIER`.
pub open spec fn k_barrier() -> Seq<u8> {
    seq!['B' as u8, 'A' as u8, 'R' as u8, 'R' as u8, 'I' as u8, 'E' as u8, 'R' as u8]
}

/// The value `1`.
pub open spec fn v_one() -> Seq<u8> {
    seq!['1' as u8]
}

/// The value `0`.
pub open spec fn v_zero() -> Seq<u8> {
    seq!['0' as u8]
}

/// The value `trigger`.
pub open spec fn v_trigger() -> Seq<u8> {
    seq!['t' as u8, 'r' as u8, 'i' as u8, 'g' as u8, 'g' as u8, 'e' as u8, 'r' as u8]
}

/// The value `none`.
pub open spec fn v_acc_none() -> Seq<u8> {
    seq!['n' as u8, 'o' as u8, 'n' as u8, 'e' as u8]
}

/// The value `main`.
pub open spec fn v_acc_main() -> Seq<u8> {
    seq!['m' as u8, 'a' as u8, 'i' as u8, 'n' as u8]
}

/// The value `exec`.
pub open spec fn v_acc_exec() -> Seq<u8> {
    seq!['e' as u8, 'x' as u8, 'e' as u8, 'c' as u8]
}

/// The value `all`.
pub open spec fn v_acc_all() -> Seq<u8> {
    seq!['a' as u8, 'l' as u8, 'l' as u8]
}

impl NotifyAccess {
    /// The wire spelling of each keyword.
    pub open spec fn name_spec(self) -> Seq<u8> {
        match self {
            NotifyAccess::Nobody => v_acc_none(),
            NotifyAccess::Main => v_acc_main(),
            NotifyAccess::Exec => v_acc_exec(),
            NotifyAccess::All => v_acc_all(),
        }
    }

    /// The keyword a value names, if any.
    pub open spec fn token_spec(s: Seq<u8>) -> Option<NotifyAccess> {
        if s == v_acc_none() {
            Some(NotifyAccess::Nobody)
        } else if s == v_acc_main() {
            Some(NotifyAccess::Main)
        } else if s == v_acc_exec() {
            Some(NotifyAccess::Exec)
        } else if s == v_acc_all() {
            Some(NotifyAccess::All)
        } else {
            None
        }
    }

    /// Parses one of the four access keywords.
    pub fn from_str(s: &[u8]) -> (r: Result<NotifyAccess, Error>)
        ensures
            match r {
                Ok(a) => NotifyAccess::token_spec(s@) == Some(a),
                Err(Error::ParseNotifyAccess(v)) => NotifyAccess::token_spec(s@) == None::<NotifyAccess>
                    && v@ == s@,
                Err(_) => false,
            },
    {
        let a_acc_none: [u8; 4] = ['n' as u8, 'o' as u8, 'n' as u8, 'e' as u8];
        let a_acc_main: [u8; 4] = ['m' as u8, 'a' as u8, 'i' as u8, 'n' as u8];
        let a_acc_exec: [u8; 4] = ['e' as u8, 'x' as u8, 'e' as u8, 'c' as u8];
        let a_acc_all: [u8; 3] = ['a' as u8, 'l' as u8, 'l' as u8];
        proof {
            assert(a_acc_none@ =~= v_acc_none());
            assert(a_acc_main@ =~= v_acc_main());
            assert(a_acc_exec@ =~= v_acc_exec());
            assert(a_acc_all@ =~= v_acc_all());
        }
        if bytes_eq(s, a_acc_none.as_slice()) {
            Ok(NotifyAccess::Nobody)
        } else if bytes_eq(s, a_acc_main.as_slice()) {
            Ok(NotifyAccess::Main)
        } else if bytes_eq(s, a_acc_exec.as_slice()) {
            Ok(NotifyAccess::Exec)
        } else if bytes_eq(s, a_acc_all.as_slice()) {
            Ok(NotifyAccess::All)
        } else {
            Err(Error::ParseNotifyAccess(vstd::slice::slice_to_vec(s)))
        }
    }
}

/// The recognised message set, one variant per assignment of the
/// protocol. Microsecond-valued fields hold their span; free-text
/// fields hold their bytes.
#[derive(Clone, Debug, PartialEq, Eq)]
pub enum Message {
    Ready,
    Reloading,
    Stopping,
    MonotonicMicrosecond(Seconds),
    Status(Vec<u8>),
    NotifyAccess(NotifyAccess),
    ErrorNumber(i32),
    BusError(Vec<u8>),
    ExitStatus(i32),
    MainPID(i32),
    Watchdog,
    WatchdogTrigger,
    WatchdogMicrosecond(Seconds),
    ExtendTimeoutMicrosecond(Seconds),
    FDStore,
    FDStoreRemove,
    FDName(Vec<u8>),
    FDPoll,
    Barrier,
}

impl Message {
    /// A message the encoder can print: every microsecond-valued field
    /// holds a finite span, as every parsed message does.
    pub open spec fn wf_spec(self) -> bool {
        match self {
            Message::MonotonicMicrosecond(t) => t.is_finite_spec(),
            Message::WatchdogMicrosecond(t) => t.is_finite_spec(),
            Message::ExtendTimeoutMicrosecond(t) => t.is_finite_spec(),
            _ => true,
        }
    }

    /// The canonical wire form of a message.
    pub open spec fn encode_spec(self) -> Seq<u8> {
        match self {
            Message::Ready => k_ready() + seq!['=' as u8] + v_one(),
            Message::Reloading => k_reloading() + seq!['=' as u8] + v_one(),
            Message::Stopping => k_stopping() + seq!['=' as u8] + v_one(),
            Message::MonotonicMicrosecond(t) => k_monotonic_usec() + seq!['=' as u8] + dec_digits(t.micros_spec() as int),
            Message::Status(v) => k_status() + seq!['=' as u8] + v@,
            Message::NotifyAccess(a) => k_notifyaccess() + seq!['=' as u8] + a.name_spec(),
            Message::ErrorNumber(x) => k_errno() + seq!['=' as u8] + int_decimal(x as int),
            Message::BusError(v) => k_buserror() + seq!['=' as u8] + v@,
            Message::ExitStatus(x) => k_exit_status() + seq!['=' as u8] + int_decimal(x as int),
            Message::MainPID(x) => k_mainpid() + seq!['=' as u8] + int_decimal(x as int),
            Message::Watchdog => k_watchdog() + seq!['=' as u8] + v_one(),
            Message::WatchdogTrigger => k_watchdog() + seq!['=' as u8] + v_trigger(),
            Message::WatchdogMicrosecond(t) => k_watchdog_usec() + seq!['=' as u8] + dec_digits(t.micros_spec() as int),
            Message::ExtendTimeoutMicrosecond(t) => k_extend_timeout_usec() + seq!['=' as u8] + dec_digits(t.micros_spec() as int),
            Message::FDStore => k_fdstore() + seq!['=' as u8] + v_one(),
            Message::FDStoreRemove => k_fdstoreremove() + seq!['=' as u8] + v_one(),
            Message::FDName(v) => k_fdname() + seq!['=' as u8] + v@,
            Message::FDPoll => k_fdpoll() + seq!['=' as u8] + v_zero(),
            Message::Barrier => k_barrier() + seq!['=' as u8] + v_one(),
        }
    }
}

/// Whether two messages are the same message: equal up to the identity
/// of the vectors holding their free-text fields.
pub open spec fn like_spec(a: Message, b: Message) -> bool {
    match (a, b) {
        (Message::Status(x), Message::Status(y)) => x@ == y@,
        (Message::BusError(x), Message::BusError(y)) => x@ == y@,
        (Message::FDName(x), Message::FDName(y)) => x@ == y@,
        _ => a == b,
    }
}

/// Whether the line `s` parses to the message `m`: there is a first
/// `=`, the key before it is recognised, and the value after it is
/// what the key requires.
pub open spec fn line_parses_to(s: Seq<u8>, m: Message) -> bool {
    match find_first(s, '=' as u8) {
        None => false,
        Some(p) => {
            let key = s.take(p);
            let value = s.skip(p + 1);
            if key == k_ready() {
                value == v_one() && m == Message::Ready
            } else if key == k_reloading() {
                value == v_one() && m == Message::Reloading
            } else if key == k_stopping() {
                value == v_one() && m == Message::Stopping
            } else if key == k_monotonic_usec() {
                is_digits(value) && digits_value(value) <= u64::MAX
                    && m == Message::MonotonicMicrosecond(Seconds::Micros(digits_value(value) as u64))
            } else if key == k_status() {
                match m {
                    Message::Status(v) => v@ == value,
                    _ => false,
                }
            } else if key == k_notifyaccess() {
                match NotifyAccess::token_spec(value) {
                    Some(a) => m == Message::NotifyAccess(a),
                    None => false,
                }
            } else if key == k_errno() {
                is_int_literal(value) && i32::MIN <= int_literal_value(value) <= i32::MAX
                    && m == Message::ErrorNumber(int_literal_value(value) as i32)
            } else if key == k_buserror() {
                match m {
                    Message::BusError(v) => v@ == value,
                    _ => false,
                }
            } else if key == k_exit_status() {
                is_int_literal(value) && i32::MIN <= int_literal_value(value) <= i32::MAX
                    && m == Message::ExitStatus(int_literal_value(value) as i32)
            } else if key == k_mainpid() {
                is_int_literal(value) && i32::MIN <= int_literal_value(value) <= i32::MAX
                    && m == Message::MainPID(int_literal_value(value) as i32)
            } else if key == k_watchdog() {
                (value == v_one() && m == Message::Watchdog)
                    || (value == v_trigger() && m == Message::WatchdogTrigger)
            } else if key == k_watchdog_usec() {
                is_digits(value) && digits_value(value) <= u64::MAX
                    && m == Message::WatchdogMicrosecond(Seconds::Micros(digits_value(value) as u64))
            } else if key == k_extend_timeout_usec() {
                is_digits(value) && digits_value(value) <= u64::MAX
                    && m == Message::ExtendTimeoutMicrosecond(Seconds::Micros(digits_value(value) as u64))
            } else if key == k_fdstore() {
                value == v_one() && m == Message::FDStore
            } else if key == k_fdstoreremove() {
                value == v_one() && m == Message::FDStoreRemove
            } else if key == k_fdname() {
                match m {
                    Message::FDName(v) => v@ == value,
                    _ => false,
                }
            } else if key == k_fdpoll() {
                value == v_zero() && m == Message::FDPoll
            } else if key == k_barrier() {
                value == v_one() && m == Message::Barrier
            } else {
                false
            }
        },
    }
}

/// Whether the line `s` fails to parse with exactly the error `e`:
/// no `=` at all, a bad value under a recognised key, or an assignment
/// outside the recognised set.
pub open spec fn line_fails_with(s: Seq<u8>, e: Error) -> bool {
    match find_first(s, '=' as u8) {
        None => (match e {
            Error::MessageSplit(v) => v@ == s,
            _ => false,
        }),
        Some(p) => {
            let key = s.take(p);
            let value = s.skip(p + 1);
            if key == k_ready() {
                value != v_one() && undefined_err(s, e)
            } else if key == k_reloading() {
                value != v_one() && undefined_err(s, e)
            } else if key == k_stopping() {
                value != v_one() && undefined_err(s, e)
            } else if key == k_monotonic_usec() {
                micros_err(value, e)
            } else if key == k_status() {
                false
            } else if key == k_notifyaccess() {
                NotifyAccess::token_spec(value) == None::<NotifyAccess>
                    && (match e {
                        Error::ParseNotifyAccess(v) => v@ == value,
                        _ => false,
                    })
            } else if key == k_errno() {
                int_err(value, e)
            } else if key == k_buserror() {
                false
            } else if key == k_exit_status() {
                int_err(value, e)
            } else if key == k_mainpid() {
                int_err(value, e)
            } else if key == k_watchdog() {
                value != v_one() && value != v_trigger() && undefined_err(s, e)
            } else if key == k_watchdog_usec() {
                micros_err(value, e)
            } else if key == k_extend_timeout_usec() {
                micros_err(value, e)
            } else if key == k_fdstore() {
                value != v_one() && undefined_err(s, e)
            } else if key == k_fdstoreremove() {
                value != v_one() && undefined_err(s, e)
            } else if key == k_fdname() {
                false
            } else if key == k_fdpoll() {
                value != v_zero() && undefined_err(s, e)
            } else if key == k_barrier() {
                value != v_one() && undefined_err(s, e)
            } else {
                undefined_err(s, e)
            }
        },
    }
}

/// The error of an assignment outside the recognised set: it holds the
/// whole line.
pub open spec fn undefined_err(s: Seq<u8>, e: Error) -> bool {
    match e {
        Error::MessageUndefined(v) => v@ == s,
        _ => false,
    }
}

/// The error of a bad microsecond value, which must be a run of digits
/// that fits in 64 bits; it holds the value.
pub open spec fn micros_err(value: Seq<u8>, e: Error) -> bool {
    (!is_digits(value) || digits_value(value) > u64::MAX)
        && (match e {
            Error::MessageParseMicros(v) => v@ == value,
            _ => false,
        })
}

/// The error of a bad 32-bit integer value; it holds the value.
pub open spec fn int_err(value: Seq<u8>, e: Error) -> bool {
    (!is_int_literal(value) || int_literal_value(value) > i32::MAX
        || int_literal_value(value) < i32::MIN)
        && (match e {
            Error::MessageParseInt(v) => v@ == value,
            _ => false,
        })
}

impl Message {
    /// Parses one line into a message: exactly the lines of the
    /// recognised set parse, and a line that does not parse reports
    /// which way it is broken.
    pub fn from_str(s: &[u8]) -> (r: Result<Message, Error>)
        ensures
            match r {
                Ok(m) => line_parses_to(s@, m),
                Err(e) => line_fails_with(s@, e) && (forall|m: Message| !line_parses_to(s@, m)),
            },
    {
        let n: usize = s.len();
        let p = match find_byte(s, '=' as u8) {
            Some(p) => p,
            None => {
                return Err(Error::MessageSplit(vstd::slice::slice_to_vec(s)));
            },
        };
        proof {
            crate::bytes::lemma_find_first(s@, '=' as u8);
        }
        let key = vstd::slice::slice_subrange(s, 0, p);
        let value = vstd::slice::slice_subrange(s, p + 1, n);
        proof {
            assert(key@ =~= s@.take(p as int));
            assert(value@ =~= s@.skip(p + 1));
        }
        let a_ready: [u8; 5] = ['R' as u8, 'E' as u8, 'A' as u8, 'D' as u8, 'Y' as u8];
        let a_reloading: [u8; 9] = ['R' as u8, 'E' as u8, 'L' as u8, 'O' as u8, 'A' as u8, 'D' as u8, 'I' as u8, 'N' as u8, 'G' as u8];
        let a_stopping: [u8; 8] = ['S' as u8, 'T' as u8, 'O' as u8, 'P' as u8, 'P' as u8, 'I' as u8, 'N' as u8, 'G' as u8];
        let a_monotonic_usec: [u8; 14] = ['M' as u8, 'O' as u8, 'N' as u8, 'O' as u8, 'T' as u8, 'O' as u8, 'N' as u8, 'I' as u8, 'C' as u8, '_' as u8, 'U' as u8, 'S' as u8, 'E' as u8, 'C' as u8];
        let a_status: [u8; 6] = ['S' as u8, 'T' as u8, 'A' as u8, 'T' as u8, 'U' as u8, 'S' as u8];
        let a_notifyaccess: [u8; 12] = ['N' as u8, 'O' as u8, 'T' as u8, 'I' as u8, 'F' as u8, 'Y' as u8, 'A' as u8, 'C' as u8, 'C' as u8, 'E' as u8, 'S' as u8, 'S' as u8];
        let a_errno: [u8; 5] = ['E' as u8, 'R' as u8, 'R' as u8, 'N' as u8, 'O' as u8];
        let a_buserror: [u8; 8] = ['B' as u8, 'U' as u8, 'S' as u8, 'E' as u8, 'R' as u8, 'R' as u8, 'O' as u8, 'R' as u8];
        let a_exit_status: [u8; 11] = ['E' as u8, 'X' as u8, 'I' as u8, 'T' as u8, '_' as u8, 'S' as u8, 'T' as u8, 'A' as u8, 'T' as u8, 'U' as u8, 'S' as u8];
        let a_mainpid: [u8; 7] = ['M' as u8, 'A' as u8, 'I' as u8, 'N' as u8, 'P' as u8, 'I' as u8, 'D' as u8];
        let a_watchdog: [u8; 8] = ['W' as u8, 'A' as u8, 'T' as u8, 'C' as u8, 'H' as u8, 'D' as u8, 'O' as u8, 'G' as u8];
        let a_watchdog_usec: [u8; 13] = ['W' as u8, 'A' as u8, 'T' as u8, 'C' as u8, 'H' as u8, 'D' as u8, 'O' as u8, 'G' as u8, '_' as u8, 'U' as u8, 'S' as u8, 'E' as u8, 'C' as u8];
        let a_extend_timeout_usec: [u8; 19] = ['E' as u8, 'X' as u8, 'T' as u8, 'E' as u8, 'N' as u8, 'D' as u8, '_' as u8, 'T' as u8, 'I' as u8, 'M' as u8, 'E' as u8, 'O' as u8, 'U' as u8, 'T' as u8, '_' as u8, 'U' as u8, 'S' as u8, 'E' as u8, 'C' as u8];
        let a_fdstore: [u8; 7] = ['F' as u8, 'D' as u8, 'S' as u8, 'T' as u8, 'O' as u8, 'R' as u8, 'E' as u8];
        let a_fdstoreremove: [u8; 13] = ['F' as u8, 'D' as u8, 'S' as u8, 'T' as u8, 'O' as u8, 'R' as u8, 'E' as u8, 'R' as u8, 'E' as u8, 'M' as u8, 'O' as u8, 'V' as u8, 'E' as u8];
        let a_fdname: [u8; 6] = ['F' as u8, 'D' as u8, 'N' as u8, 'A' as u8, 'M' as u8, 'E' as u8];
        let a_fdpoll: [u8; 6] = ['F' as u8, 'D' as u8, 'P' as u8, 'O' as u8, 'L' as u8, 'L' as u8];
        let a_barrier: [u8; 7] = ['B' as u8, 'A' as u8, 'R' as u8, 'R' as u8, 'I' as u8, 'E' as u8, 'R' as u8];
        let a_one: [u8; 1] = ['1' as u8];
        let a_zero: [u8; 1] = ['0' as u8];
        let a_trigger: [u8; 7] = ['t' as u8, 'r' as u8, 'i' as u8, 'g' as u8, 'g' as u8, 'e' as u8, 'r' as u8];
        let a_acc_none: [u8; 4] = ['n' as u8, 'o' as u8, 'n' as u8, 'e' as u8];
        let a_acc_main: [u8; 4] = ['m' as u8, 'a' as u8, 'i' as u8, 'n' as u8];
        let a_acc_exec: [u8; 4] = ['e' as u8, 'x' as u8, 'e' as u8, 'c' as u8];
        let a_acc_all: [u8; 3] = ['a' as u8, 'l' as u8, 'l' as u8];
        proof {
            assert(a_ready@ =~= k_ready());
            assert(a_reloading@ =~= k_reloading());
            assert(a_stopping@ =~= k_stopping());
            assert(a_monotonic_usec@ =~= k_monotonic_usec());
            assert(a_status@ =~= k_status());
            assert(a_notifyaccess@ =~= k_notifyaccess());
            assert(a_errno@ =~= k_errno());
            assert(a_buserror@ =~= k_buserror());
            assert(a_exit_status@ =~= k_exit_status());
            assert(a_mainpid@ =~= k_mainpid());
            assert(a_watchdog@ =~= k_watchdog());
            assert(a_watchdog_usec@ =~= k_watchdog_usec());
            assert(a_extend_timeout_usec@ =~= k_extend_timeout_usec());
            assert(a_fdstore@ =~= k_fdstore());
            assert(a_fdstoreremove@ =~= k_fdstoreremove());
            assert(a_fdname@ =~= k_fdname());
            assert(a_fdpoll@ =~= k_fdpoll());
            assert(a_barrier@ =~= k_barrier());
            assert(a_one@ =~= v_one());
            assert(a_zero@ =~= v_zero());
            assert(a_trigger@ =~= v_trigger());
            assert(a_acc_none@ =~= v_acc_none());
            assert(a_acc_main@ =~= v_acc_main());
            assert(a_acc_exec@ =~= v_acc_exec());
            assert(a_acc_all@ =~= v_acc_all());
        }
        if bytes_eq(key, a_ready.as_slice()) {
            if bytes_eq(value, a_one.as_slice()) {
                Ok(Message::Ready)
            } else {
                Err(Error::MessageUndefined(vstd::slice::slice_to_vec(s)))
            }
        } else if bytes_eq(key, a_reloading.as_slice()) {
            if bytes_eq(value, a_one.as_slice()) {
                Ok(Message::Reloading)
            } else {
                Err(Error::MessageUndefined(vstd::slice::slice_to_vec(s)))
            }
        } else if bytes_eq(key, a_stopping.as_slice()) {
            if bytes_eq(value, a_one.as_slice()) {
                Ok(Message::Stopping)
            } else {
                Err(Error::MessageUndefined(vstd::slice::slice_to_vec(s)))
            }
        } else if bytes_eq(key, a_monotonic_usec.as_slice()) {
            match parse_u64(value) {
                Some(u) => Ok(Message::MonotonicMicrosecond(Seconds::Micros(u))),
                None => Err(Error::MessageParseMicros(vstd::slice::slice_to_vec(value))),
            }
        } else if bytes_eq(key, a_status.as_slice()) {
            Ok(Message::Status(vstd::slice::slice_to_vec(value)))
        } else if bytes_eq(key, a_notifyaccess.as_slice()) {
            match NotifyAccess::from_str(value) {
                Ok(a) => Ok(Message::NotifyAccess(a)),
                Err(e) => Err(e),
            }
        } else if bytes_eq(key, a_errno.as_slice()) {
            match parse_i32(value) {
                Some(x) => Ok(Message::ErrorNumber(x)),
                None => Err(Error::MessageParseInt(vstd::slice::slice_to_vec(value))),
            }
        } else if bytes_eq(key, a_buserror.as_slice()) {
            Ok(Message::BusError(vstd::slice::slice_to_vec(value)))
        } else if bytes_eq(key, a_exit_status.as_slice()) {
            match parse_i32(value) {
                Some(x) => Ok(Message::ExitStatus(x)),
                None => Err(Error::MessageParseInt(vstd::slice::slice_to_vec(value))),
            }
        } else if bytes_eq(key, a_mainpid.as_slice()) {
            match parse_i32(value) {
                Some(x) => Ok(Message::MainPID(x)),
                None => Err(Error::MessageParseInt(vstd::slice::slice_to_vec(value))),
            }
        } else if bytes_eq(key, a_watchdog.as_slice()) {
            if bytes_eq(value, a_one.as_slice()) {
                Ok(Message::Watchdog)
            } else if bytes_eq(value, a_trigger.as_slice()) {
                Ok(Message::WatchdogTrigger)
            } else {
                Err(Error::MessageUndefined(vstd::slice::slice_to_vec(s)))
            }
        } else if bytes_eq(key, a_watchdog_usec.as_slice()) {
            match parse_u64(value) {
                Some(u) => Ok(Message::WatchdogMicrosecond(Seconds::Micros(u))),
                None => Err(Error::MessageParseMicros(vstd::slice::slice_to_vec(value))),
            }
        } else if bytes_eq(key, a_extend_timeout_usec.as_slice()) {
            match parse_u64(value) {
                Some(u) => Ok(Message::ExtendTimeoutMicrosecond(Seconds::Micros(u))),
                None => Err(Error::MessageParseMicros(vstd::slice::slice_to_vec(value))),
            }
        } else if bytes_eq(key, a_fdstore.as_slice()) {
            if bytes_eq(value, a_one.as_slice()) {
                Ok(Message::FDStore)
            } else {
                Err(Error::MessageUndefined(vstd::slice::slice_to_vec(s)))
            }
        } else if bytes_eq(key, a_fdstoreremove.as_slice()) {
            if bytes_eq(value, a_one.as_slice()) {
                Ok(Message::FDStoreRemove)
            } else {
                Err(Error::MessageUndefined(vstd::slice::slice_to_vec(s)))
            }
        } else if bytes_eq(key, a_fdname.as_slice()) {
            Ok(Message::FDName(vstd::slice::slice_to_vec(value)))
        } else if bytes_eq(key, a_fdpoll.as_slice()) {
            if bytes_eq(value, a_zero.as_slice()) {
                Ok(Message::FDPoll)
            } else {
                Err(Error::MessageUndefined(vstd::slice::slice_to_vec(s)))
            }
        } else if bytes_eq(key, a_barrier.as_slice()) {
            if bytes_eq(value, a_one.as_slice()) {
                Ok(Message::Barrier)
            } else {
                Err(Error::MessageUndefined(vstd::slice::slice_to_vec(s)))
            }
        } else {
            Err(Error::MessageUndefined(vstd::slice::slice_to_vec(s)))
        }
    }

    /// Prints a message in its canonical wire form, the exact inverse
    /// of `from_str` on the recognised set.
    pub fn encode(&self) -> (r: Vec<u8>)
        requires
            self.wf_spec(),
        ensures
            r@ == self.encode_spec(),
    {
        let a_ready: [u8; 5] = ['R' as u8, 'E' as u8, 'A' as u8, 'D' as u8, 'Y' as u8];
        let a_reloading: [u8; 9] = ['R' as u8, 'E' as u8, 'L' as u8, 'O' as u8, 'A' as u8, 'D' as u8, 'I' as u8, 'N' as u8, 'G' as u8];
        let a_stopping: [u8; 8] = ['S' as u8, 'T' as u8, 'O' as u8, 'P' as u8, 'P' as u8, 'I' as u8, 'N' as u8, 'G' as u8];
        let a_monotonic_usec: [u8; 14] = ['M' as u8, 'O' as u8, 'N' as u8, 'O' as u8, 'T' as u8, 'O' as u8, 'N' as u8, 'I' as u8, 'C' as u8, '_' as u8, 'U' as u8, 'S' as u8, 'E' as u8, 'C' as u8];
        let a_status: [u8; 6] = ['S' as u8, 'T' as u8, 'A' as u8, 'T' as u8, 'U' as u8, 'S' as u8];
        let a_notifyaccess: [u8; 12] = ['N' as u8, 'O' as u8, 'T' as u8, 'I' as u8, 'F' as u8, 'Y' as u8, 'A' as u8, 'C' as u8, 'C' as u8, 'E' as u8, 'S' as u8, 'S' as u8];
        let a_errno: [u8; 5] = ['E' as u8, 'R' as u8, 'R' as u8, 'N' as u8, 'O' as u8];
        let a_buserror: [u8; 8] = ['B' as u8, 'U' as u8, 'S' as u8, 'E' as u8, 'R' as u8, 'R' as u8, 'O' as u8, 'R' as u8];
        let a_exit_status: [u8; 11] = ['E' as u8, 'X' as u8, 'I' as u8, 'T' as u8, '_' as u8, 'S' as u8, 'T' as u8, 'A' as u8, 'T' as u8, 'U' as u8, 'S' as u8];
        let a_mainpid: [u8; 7] = ['M' as u8, 'A' as u8, 'I' as u8, 'N' as u8, 'P' as u8, 'I' as u8, 'D' as u8];
        let a_watchdog: [u8; 8] = ['W' as u8, 'A' as u8, 'T' as u8, 'C' as u8, 'H' as u8, 'D' as u8, 'O' as u8, 'G' as u8];
        let a_watchdog_usec: [u8; 13] = ['W' as u8, 'A' as u8, 'T' as u8, 'C' as u8, 'H' as u8, 'D' as u8, 'O' as u8, 'G' as u8, '_' as u8, 'U' as u8, 'S' as u8, 'E' as u8, 'C' as u8];
        let a_extend_timeout_usec: [u8; 19] = ['E' as u8, 'X' as u8, 'T' as u8, 'E' as u8, 'N' as u8, 'D' as u8, '_' as u8, 'T' as u8, 'I' as u8, 'M' as u8, 'E' as u8, 'O' as u8, 'U' as u8, 'T' as u8, '_' as u8, 'U' as u8, 'S' as u8, 'E' as u8, 'C' as u8];
        let a_fdstore: [u8; 7] = ['F' as u8, 'D' as u8, 'S' as u8, 'T' as u8, 'O' as u8, 'R' as u8, 'E' as u8];
        let a_fdstoreremove: [u8; 13] = ['F' as u8, 'D' as u8, 'S' as u8, 'T' as u8, 'O' as u8, 'R' as u8, 'E' as u8, 'R' as u8, 'E' as u8, 'M' as u8, 'O' as u8, 'V' as u8, 'E' as u8];
        let a_fdname: [u8; 6] = ['F' as u8, 'D' as u8, 'N' as u8, 'A' as u8, 'M' as u8, 'E' as u8];
        let a_fdpoll: [u8; 6] = ['F' as u8, 'D' as u8, 'P' as u8, 'O' as u8, 'L' as u8, 'L' as u8];
        let a_barrier: [u8; 7] = ['B' as u8, 'A' as u8, 'R' as u8, 'R' as u8, 'I' as u8, 'E' as u8, 'R' as u8];
        let a_one: [u8; 1] = ['1' as u8];
        let a_zero: [u8; 1] = ['0' as u8];
        let a_trigger: [u8; 7] = ['t' as u8, 'r' as u8, 'i' as u8, 'g' as u8, 'g' as u8, 'e' as u8, 'r' as u8];
        let a_acc_none: [u8; 4] = ['n' as u8, 'o' as u8, 'n' as u8, 'e' as u8];
        let a_acc_main: [u8; 4] = ['m' as u8, 'a' as u8, 'i' as u8, 'n' as u8];
        let a_acc_exec: [u8; 4] = ['e' as u8, 'x' as u8, 'e' as u8, 'c' as u8];
        let a_acc_all: [u8; 3] = ['a' as u8, 'l' as u8, 'l' as u8];
        proof {
            assert(a_ready@ =~= k_ready());
            assert(a_reloading@ =~= k_reloading());
            assert(a_stopping@ =~= k_stopping());
            assert(a_monotonic_usec@ =~= k_monotonic_usec());
            assert(a_status@ =~= k_status());
            assert(a_notifyaccess@ =~= k_notifyaccess());
            assert(a_errno@ =~= k_errno());
            assert(a_buserror@ =~= k_buserror());
            assert(a_exit_status@ =~= k_exit_status());
            assert(a_mainpid@ =~= k_mainpid());
            assert(a_watchdog@ =~= k_watchdog());
            assert(a_watchdog_usec@ =~= k_watchdog_usec());
            assert(a_extend_timeout_usec@ =~= k_extend_timeout_usec());
            assert(a_fdstore@ =~= k_fdstore());
            assert(a_fdstoreremove@ =~= k_fdstoreremove());
            assert(a_fdname@ =~= k_fdname());
            assert(a_fdpoll@ =~= k_fdpoll());
            assert(a_barrier@ =~= k_barrier());
            assert(a_one@ =~= v_one());
            assert(a_zero@ =~= v_zero());
            assert(a_trigger@ =~= v_trigger());
            assert(a_acc_none@ =~= v_acc_none());
            assert(a_acc_main@ =~= v_acc_main());
            assert(a_acc_exec@ =~= v_acc_exec());
            assert(a_acc_all@ =~= v_acc_all());
        }
        let mut out: Vec<u8> = Vec::new();
        match self {
            Message::Ready => {
                push_bytes(&mut out, a_ready.as_slice());
                out.push('=' as u8);
                push_bytes(&mut out, a_one.as_slice());
            },
            Message::Reloading => {
                push_bytes(&mut out, a_reloading.as_slice());
                out.push('=' as u8);
                push_bytes(&mut out, a_one.as_slice());
            },
            Message::Stopping => {
                push_bytes(&mut out, a_stopping.as_slice());
                out.push('=' as u8);
                push_bytes(&mut out, a_one.as_slice());
            },
            Message::MonotonicMicrosecond(t) => {
                push_bytes(&mut out, a_monotonic_usec.as_slice());
                out.push('=' as u8);
                let mut digits = format_u64(t.micros());
                out.append(&mut digits);
            },
            Message::Status(v) => {
                push_bytes(&mut out, a_status.as_slice());
                out.push('=' as u8);
                push_bytes(&mut out, v.as_slice());
            },
            Message::NotifyAccess(a) => {
                push_bytes(&mut out, a_notifyaccess.as_slice());
                out.push('=' as u8);
                match a {
                    NotifyAccess::Nobody => push_bytes(&mut out, a_acc_none.as_slice()),
                    NotifyAccess::Main => push_bytes(&mut out, a_acc_main.as_slice()),
                    NotifyAccess::Exec => push_bytes(&mut out, a_acc_exec.as_slice()),
                    NotifyAccess::All => push_bytes(&mut out, a_acc_all.as_slice()),
                }
            },
            Message::ErrorNumber(x) => {
                push_bytes(&mut out, a_errno.as_slice());
                out.push('=' as u8);
                let mut digits = format_i32(*x);
                out.append(&mut digits);
            },
            Message::BusError(v) => {
                push_bytes(&mut out, a_buserror.as_slice());
                out.push('=' as u8);
                push_bytes(&mut out, v.as_slice());
            },
            Message::ExitStatus(x) => {
                push_bytes(&mut out, a_exit_status.as_slice());
                out.push('=' as u8);
                let mut digits = format_i32(*x);
                out.append(&mut digits);
            },
            Message::MainPID(x) => {
                push_bytes(&mut out, a_mainpid.as_slice());
                out.push('=' as u8);
                let mut digits = format_i32(*x);
                out.append(&mut digits);
            },
            Message::Watchdog => {
                push_bytes(&mut out, a_watchdog.as_slice());
                out.push('=' as u8);
                push_bytes(&mut out, a_one.as_slice());
            },
            Message::WatchdogTrigger => {
                push_bytes(&mut out, a_watchdog.as_slice());
                out.push('=' as u8);
                push_bytes(&mut out, a_trigger.as_slice());
            },
            Message::WatchdogMicrosecond(t) => {
                push_bytes(&mut out, a_watchdog_usec.as_slice());
                out.push('=' as u8);
                let mut digits = format_u64(t.micros());
                out.append(&mut digits);
            },
            Message::ExtendTimeoutMicrosecond(t) => {
                push_bytes(&mut out, a_extend_timeout_usec.as_slice());
                out.push('=' as u8);
                let mut digits = format_u64(t.micros());
                out.append(&mut digits);
            },
            Message::FDStore => {
                push_bytes(&mut out, a_fdstore.as_slice());
                out.push('=' as u8);
                push_bytes(&mut out, a_one.as_slice());
            },
            Message::FDStoreRemove => {
                push_bytes(&mut out, a_fdstoreremove.as_slice());
                out.push('=' as u8);
                push_bytes(&mut out, a_one.as_slice());
            },
            Message::FDName(v) => {
                push_bytes(&mut out, a_fdname.as_slice());
                out.push('=' as u8);
                push_bytes(&mut out, v.as_slice());
            },
            Message::FDPoll => {
                push_bytes(&mut out, a_fdpoll.as_slice());
                out.push('=' as u8);
                push_bytes(&mut out, a_zero.as_slice());
            },
            Message::Barrier => {
                push_bytes(&mut out, a_barrier.as_slice());
                out.push('=' as u8);
                push_bytes(&mut out, a_one.as_slice());
            },
        }
        proof {
            assert(out@ =~= self.encode_spec());
        }
        out
    }
}

/// The keys of the recognised set never contain `=`, so the first `=`
/// of an encoded line separates the key from the value.
proof fn lemma_keys_without_eq()
    ensures
        forall|k: int| 0 <= k < k_ready().len() ==> #[trigger] k_ready()[k] != '=' as u8,
        forall|k: int| 0 <= k < k_reloading().len() ==> #[trigger] k_reloading()[k] != '=' as u8,
        forall|k: int| 0 <= k < k_stopping().len() ==> #[trigger] k_stopping()[k] != '=' as u8,
        forall|k: int| 0 <= k < k_monotonic_usec().len() ==> #[trigger] k_monotonic_usec()[k] != '=' as u8,
        forall|k: int| 0 <= k < k_status().len() ==> #[trigger] k_status()[k] != '=' as u8,
        forall|k: int| 0 <= k < k_notifyaccess().len() ==> #[trigger] k_notifyaccess()[k] != '=' as u8,
        forall|k: int| 0 <= k < k_errno().len() ==> #[trigger] k_errno()[k] != '=' as u8,
        forall|k: int| 0 <= k < k_buserror().len() ==> #[trigger] k_buserror()[k] != '=' as u8,
        forall|k: int| 0 <= k < k_exit_status().len() ==> #[trigger] k_exit_status()[k] != '=' as u8,
        forall|k: int| 0 <= k < k_mainpid().len() ==> #[trigger] k_mainpid()[k] != '=' as u8,
        forall|k: int| 0 <= k < k_watchdog().len() ==> #[trigger] k_watchdog()[k] != '=' as u8,
        forall|k: int| 0 <= k < k_watchdog_usec().len() ==> #[trigger] k_watchdog_usec()[k] != '=' as u8,
        forall|k: int| 0 <= k < k_extend_timeout_usec().len() ==> #[trigger] k_extend_timeout_usec()[k] != '=' as u8,
        forall|k: int| 0 <= k < k_fdstore().len() ==> #[trigger] k_fdstore()[k] != '=' as u8,
        forall|k: int| 0 <= k < k_fdstoreremove().len() ==> #[trigger] k_fdstoreremove()[k] != '=' as u8,
        forall|k: int| 0 <= k < k_fdname().len() ==> #[trigger] k_fdname()[k] != '=' as u8,
        forall|k: int| 0 <= k < k_fdpoll().len() ==> #[trigger] k_fdpoll()[k] != '=' as u8,
        forall|k: int| 0 <= k < k_barrier().len() ==> #[trigger] k_barrier()[k] != '=' as u8,
{
}

/// Recognised keys of equal length still differ; the pairs whose
/// lengths already differ need no witness.
proof fn lemma_keys_distinct()
    ensures
        k_ready() != k_errno(),
        k_stopping() != k_buserror(),
        k_stopping() != k_watchdog(),
        k_buserror() != k_watchdog(),
        k_status() != k_fdname(),
        k_status() != k_fdpoll(),
        k_fdname() != k_fdpoll(),
        k_mainpid() != k_fdstore(),
        k_mainpid() != k_barrier(),
        k_fdstore() != k_barrier(),
        k_watchdog_usec() != k_fdstoreremove(),
{
    assert(k_ready()[0] == 'R' as u8 && k_errno()[0] == 'E' as u8);
    assert(k_stopping()[0] == 'S' as u8 && k_buserror()[0] == 'B' as u8 && k_watchdog()[0] == 'W' as u8);
    assert(k_status()[0] == 'S' as u8 && k_fdname()[0] == 'F' as u8 && k_fdpoll()[0] == 'F' as u8);
    assert(k_fdname()[2] == 'N' as u8 && k_fdpoll()[2] == 'P' as u8);
    assert(k_mainpid()[0] == 'M' as u8 && k_fdstore()[0] == 'F' as u8 && k_barrier()[0] == 'B' as u8);
    assert(k_watchdog_usec()[0] == 'W' as u8 && k_fdstoreremove()[0] == 'F' as u8);
}

/// In a line built as `key=value` from a key without `=`, the first
/// `=` sits right after the key.
proof fn lemma_encode_shape(key: Seq<u8>, value: Seq<u8>)
    requires
        forall|k: int| 0 <= k < key.len() ==> #[trigger] key[k] != '=' as u8,
    ensures
        find_first(key + seq!['=' as u8] + value, '=' as u8) == Some(key.len() as int),
        (key + seq!['=' as u8] + value).take(key.len() as int) == key,
        (key + seq!['=' as u8] + value).skip(key.len() as int + 1) == value,
{
    let s = key + seq!['=' as u8] + value;
    assert(s[key.len() as int] == '=' as u8);
    assert(forall|k: int| 0 <= k < key.len() ==> #[trigger] s[k] == key[k]);
    crate::bytes::lemma_find_first_unique(s, '=' as u8, key.len() as int);
    assert(s.take(key.len() as int) =~= key);
    assert(s.skip(key.len() as int + 1) =~= value);
}

/// One line parses to at most one message: parsing is deterministic up
/// to the identity of the vectors holding free-text fields.
pub proof fn lemma_line_parse_deterministic(s: Seq<u8>, m1: Message, m2: Message)
    requires
        line_parses_to(s, m1),
        line_parses_to(s, m2),
    ensures
        like_spec(m1, m2),
{
    assert(v_one().len() == 1 && v_trigger().len() == 7);
}

/// The round-trip law of the wire format: every well-formed message
/// parses back from its own encoding, and nothing else parses from
/// that encoding. Together with the contract of `Message::from_str`
/// this says that parsing an encoded message returns exactly the
/// message.
pub proof fn lemma_parse_encode_round_trip(m: Message)
    requires
        m.wf_spec(),
    ensures
        line_parses_to(m.encode_spec(), m),
        forall|m2: Message| line_parses_to(m.encode_spec(), m2) ==> like_spec(m2, m),
{
    let s = m.encode_spec();
    lemma_keys_without_eq();
    lemma_keys_distinct();
    match m {
        Message::Ready => {
            lemma_encode_shape(k_ready(), v_one());
        },
        Message::Reloading => {
            lemma_encode_shape(k_reloading(), v_one());
        },
        Message::Stopping => {
            lemma_encode_shape(k_stopping(), v_one());
        },
        Message::MonotonicMicrosecond(t) => {
            lemma_encode_shape(k_monotonic_usec(), dec_digits(t.micros_spec() as int));
            lemma_dec_digits(t.micros_spec() as int);
        },
        Message::Status(v) => {
            lemma_encode_shape(k_status(), v@);
        },
        Message::NotifyAccess(a) => {
            lemma_encode_shape(k_notifyaccess(), a.name_spec());
            assert(v_acc_none()[0] == 'n' as u8 && v_acc_main()[0] == 'm' as u8
                && v_acc_exec()[0] == 'e' as u8 && v_acc_all().len() == 3);
            assert(NotifyAccess::token_spec(a.name_spec()) == Some(a));
        },
        Message::ErrorNumber(x) => {
            lemma_encode_shape(k_errno(), int_decimal(x as int));
            lemma_int_decimal_literal(x as int);
        },
        Message::BusError(v) => {
            lemma_encode_shape(k_buserror(), v@);
        },
        Message::ExitStatus(x) => {
            lemma_encode_shape(k_exit_status(), int_decimal(x as int));
            lemma_int_decimal_literal(x as int);
        },
        Message::MainPID(x) => {
            lemma_encode_shape(k_mainpid(), int_decimal(x as int));
            lemma_int_decimal_literal(x as int);
        },
        Message::Watchdog => {
            lemma_encode_shape(k_watchdog(), v_one());
            assert(v_one().len() == 1 && v_trigger().len() == 7);
        },
        Message::WatchdogTrigger => {
            lemma_encode_shape(k_watchdog(), v_trigger());
            assert(v_one().len() == 1 && v_trigger().len() == 7);
        },
        Message::WatchdogMicrosecond(t) => {
            lemma_encode_shape(k_watchdog_usec(), dec_digits(t.micros_spec() as int));
            lemma_dec_digits(t.micros_spec() as int);
        },
        Message::ExtendTimeoutMicrosecond(t) => {
            lemma_encode_shape(k_extend_timeout_usec(), dec_digits(t.micros_spec() as int));
            lemma_dec_digits(t.micros_spec() as int);
        },
        Message::FDStore => {
            lemma_encode_shape(k_fdstore(), v_one());
        },
        Message::FDStoreRemove => {
            lemma_encode_shape(k_fdstoreremove(), v_one());
        },
        Message::FDName(v) => {
            lemma_encode_shape(k_fdname(), v@);
        },
        Message::FDPoll => {
            lemma_encode_shape(k_fdpoll(), v_zero());
        },
        Message::Barrier => {
            lemma_encode_shape(k_barrier(), v_one());
        },
    }
    assert forall|m2: Message| line_parses_to(s, m2) implies like_spec(m2, m) by {
        lemma_line_parse_deterministic(s, m2, m);
    }
}

/// Every message that parses from some line is well-formed: the
/// encoder accepts everything the parser produces.
pub proof fn lemma_parsed_messages_are_wf(s: Seq<u8>, m: Message)
    requires
        line_parses_to(s, m),
    ensures
        m.wf_spec(),
{
}

/// The canonical text of a signed 32-bit value is an integer literal
/// denoting that value.
proof fn lemma_int_decimal_literal(n: int)
    requires
        i32::MIN <= n <= i32::MAX,
    ensures
        is_int_literal(int_decimal(n)),
        int_literal_value(int_decimal(n)) == n,
{
    if n < 0 {
        lemma_dec_digits(-n);
        assert(int_decimal(n).skip(1) =~= dec_digits(-n));
        assert(int_decimal(n)[0] == '-' as u8);
    } else {
        lemma_dec_digits(n);
        assert(is_digits(dec_digits(n)));
        assert(int_decimal(n)[0] != '-' as u8 && int_decimal(n)[0] != '+' as u8);
    }
}

/// What the receiver does with one parsed message: the event it
/// dispatches, and the configuration change it dispatches. A timeout
/// extension adds the extension to the currently configured total
/// startup timeout, which is why the current value is an input here.
#[derive(Clone, Copy, Debug, PartialEq, Eq, Structural)]
pub struct MessageEffect {
    pub event: Option<Event>,
    pub config_change: Option<ConfigurationChange>,
}

/// The dispatch table of the receiver: which messages emit which
/// event, which emit a configuration change, and which are accepted
/// and ignored.
pub open spec fn dispatch_spec(m: Message, unit_timeout_start_sec: Seconds) -> MessageEffect {
    match m {
        Message::Ready => MessageEffect { event: Some(Event::Ready), config_change: None },
        Message::Reloading => MessageEffect { event: Some(Event::Reloading), config_change: None },
        Message::Stopping => MessageEffect { event: Some(Event::Stopping), config_change: None },
        Message::ErrorNumber(_) => MessageEffect { event: Some(Event::ErrorNumber), config_change: None },
        Message::BusError(_) => MessageEffect { event: Some(Event::BusError), config_change: None },
        Message::Watchdog => MessageEffect { event: Some(Event::Watchdog), config_change: None },
        Message::WatchdogTrigger => MessageEffect { event: Some(Event::WatchdogTrigger), config_change: None },
        Message::WatchdogMicrosecond(t) => MessageEffect {
            event: None,
            config_change: Some(ConfigurationChange::WatchdogTimeout(t)),
        },
        Message::ExtendTimeoutMicrosecond(ext) => MessageEffect {
            event: None,
            config_change: Some(ConfigurationChange::StartupTimeout(unit_timeout_start_sec.plus_spec(ext))),
        },
        _ => MessageEffect { event: None, config_change: None },
    }
}

impl Message {
    /// Decides what the receiver emits for this message.
    /// `unit_timeout_start_sec` is the startup timeout configured at
    /// the moment the message is handled.
    pub fn dispatch(&self, unit_timeout_start_sec: &Seconds) -> (r: MessageEffect)
        ensures
            r == dispatch_spec(*self, *unit_timeout_start_sec),
    {
        match self {
            Message::Ready => MessageEffect { event: Some(Event::Ready), config_change: None },
            Message::Reloading => MessageEffect { event: Some(Event::Reloading), config_change: None },
            Message::Stopping => MessageEffect { event: Some(Event::Stopping), config_change: None },
            Message::ErrorNumber(_) => MessageEffect { event: Some(Event::ErrorNumber), config_change: None },
            Message::BusError(_) => MessageEffect { event: Some(Event::BusError), config_change: None },
            Message::Watchdog => MessageEffect { event: Some(Event::Watchdog), config_change: None },
            Message::WatchdogTrigger => MessageEffect {
                event: Some(Event::WatchdogTrigger),
                config_change: None,
            },
            Message::WatchdogMicrosecond(t) => MessageEffect {
                event: None,
                config_change: Some(ConfigurationChange::WatchdogTimeout(*t)),
            },
            Message::ExtendTimeoutMicrosecond(ext) => MessageEffect {
                event: None,
                config_change: Some(ConfigurationChange::StartupTimeout(unit_timeout_start_sec.plus(ext))),
            },
            _ => MessageEffect { event: None, config_change: None },
        }
    }
}

/// The lines of a datagram, split on newlines; one trailing newline
/// ends the last line rather than opening an empty one.
pub open spec fn datagram_lines(s: Seq<u8>) -> Seq<Seq<u8>> {
    if s.len() == 0 {
        Seq::empty()
    } else if s.last() == '\n' as u8 {
        split_on(s, '\n' as u8).drop_last()
    } else {
        split_on(s, '\n' as u8)
    }
}

/// `datagram_lines` decomposes at the first newline.
pub proof fn lemma_datagram_lines_decompose(s: Seq<u8>)
    requires
        s.len() > 0,
    ensures
        match find_first(s, '\n' as u8) {
            None => datagram_lines(s) =~~= seq![s],
            Some(i) => datagram_lines(s) =~~= seq![s.take(i)] + datagram_lines(s.skip(i + 1)),
        },
{
    crate::bytes::lemma_find_first(s, '\n' as u8);
    crate::bytes::lemma_split_on_decompose(s, '\n' as u8);
    match find_first(s, '\n' as u8) {
        None => {
            assert(s.last() != '\n' as u8);
            assert(datagram_lines(s) =~~= seq![s]);
        },
        Some(i) => {
            let rest = s.skip(i + 1);
            crate::bytes::lemma_split_on_len(rest, '\n' as u8);
            if rest.len() == 0 {
                assert(s.last() == s[i]);
                assert(split_on(rest, '\n' as u8) =~~= seq![Seq::<u8>::empty()]);
                assert(split_on(s, '\n' as u8) =~~= seq![s.take(i), Seq::<u8>::empty()]);
                assert(datagram_lines(s) =~~= seq![s.take(i)]);
                assert(datagram_lines(rest) =~~= Seq::<Seq<u8>>::empty());
            } else {
                assert(s.last() == rest.last());
                if s.last() == '\n' as u8 {
                    assert(datagram_lines(s) =~~= (seq![s.take(i)] + split_on(rest, '\n' as u8)).drop_last());
                    assert((seq![s.take(i)] + split_on(rest, '\n' as u8)).drop_last()
                        =~~= seq![s.take(i)] + split_on(rest, '\n' as u8).drop_last());
                    assert(datagram_lines(rest) =~~= split_on(rest, '\n' as u8).drop_last());
                } else {
                    assert(datagram_lines(s) =~~= seq![s.take(i)] + split_on(rest, '\n' as u8));
                }
            }
        },
    }
}

/// Whether some message parses from the line `l`.
pub open spec fn some_message_parses(l: Seq<u8>) -> bool {
    exists|m: Message| line_parses_to(l, m)
}

/// The way a datagram fails: line `i` fails with `e`, and every line
/// before it parses.
pub open spec fn datagram_error_at(ls: Seq<Seq<u8>>, e: Error, i: int) -> bool {
    0 <= i < ls.len() && line_fails_with(ls[i], e)
        && (forall|k: int| 0 <= k < i ==> #[trigger] some_message_parses(ls[k]))
}

/// A failing tail keeps failing, one line later, after a parsing first
/// line is put in front.
proof fn lemma_datagram_error_shift(line: Seq<u8>, rls: Seq<Seq<u8>>, e: Error, j: int, first: Message)
    requires
        line_parses_to(line, first),
        datagram_error_at(rls, e, j),
    ensures
        datagram_error_at(seq![line] + rls, e, j + 1),
{
    let ls = seq![line] + rls;
    assert(ls[j + 1] == rls[j]);
    assert forall|k: int| 0 <= k < j + 1 implies #[trigger] some_message_parses(ls[k]) by {
        if k == 0 {
            assert(ls[0] == line);
            assert(line_parses_to(ls[0], first));
            assert(some_message_parses(ls[0]));
        } else {
            assert(ls[k] == rls[k - 1]);
            assert(some_message_parses(rls[k - 1]));
        }
    }
}

/// Parses a whole datagram: its lines, in order. The first line that
/// does not parse is fatal for the datagram, with its own error.
pub fn parse_datagram(s: &[u8]) -> (r: Result<Vec<Message>, Error>)
    ensures
        ({
            let ls = datagram_lines(s@);
            match r {
                Ok(ms) => ms@.len() == ls.len()
                    && (forall|i: int| 0 <= i < ls.len() ==> line_parses_to(ls[i], #[trigger] ms@[i])),
                Err(e) => exists|i: int| #[trigger] datagram_error_at(ls, e, i),
            }
        }),
    decreases s@.len(),
{
    if s.len() == 0 {
        let r: Vec<Message> = Vec::new();
        return Ok(r);
    }
    let n: usize = s.len();
    proof {
        lemma_datagram_lines_decompose(s@);
        crate::bytes::lemma_find_first(s@, '\n' as u8);
    }
    let ghost ls = datagram_lines(s@);
    match find_byte(s, '\n' as u8) {
        None => {
            match Message::from_str(s) {
                Ok(m) => {
                    let mut v: Vec<Message> = Vec::new();
                    v.push(m);
                    Ok(v)
                },
                Err(e) => {
                    proof {
                        assert(ls[0] == s@);
                        assert(datagram_error_at(ls, e, 0));
                    }
                    Err(e)
                },
            }
        },
        Some(p) => {
            let line = vstd::slice::slice_subrange(s, 0, p);
            let rest = vstd::slice::slice_subrange(s, p + 1, n);
            proof {
                assert(line@ =~= s@.take(p as int));
                assert(rest@ =~= s@.skip(p + 1));
            }
            let ghost rls = datagram_lines(rest@);
            match Message::from_str(line) {
                Err(e) => {
                    proof {
                        assert(ls[0] == line@);
                        assert(datagram_error_at(ls, e, 0));
                    }
                    Err(e)
                },
                Ok(m) => {
                    match parse_datagram(rest) {
                        Ok(mut v) => {
                            v.insert(0, m);
                            proof {
                                assert(forall|i: int| 1 <= i < ls.len() ==> ls[i] == rls[i - 1]);
                            }
                            Ok(v)
                        },
                        Err(e) => {
                            proof {
                                assert(ls =~~= seq![line@] + rls);
                                let j = choose|i: int| #[trigger] datagram_error_at(rls, e, i);
                                lemma_datagram_error_shift(line@, rls, e, j, m);
                                assert(datagram_error_at(ls, e, j + 1));
                            }
                            Err(e)
                        },
                    }
                },
            }
        },
    }
}

} // verus!
