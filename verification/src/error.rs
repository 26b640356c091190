//! Errors of the adapter's core logic.
//!
//! Everything here is fatal for the adapter by the error-handling policy:
//! an unparseable line on the notification socket indicates a
//! misconfigured sender, and a shutdown event is fatal by contract. The
//! process around the library adds its own input/output errors on top.

use vstd::prelude::*;

use crate::event::Event;

verus! {

#[derive(Clone, Debug, PartialEq, Eq)]
pub enum Error {
    /// A line held no `KEY=VALUE` assignment (no `=` at all).
    MessageSplit(Vec<u8>),
    /// The value of an integer-valued key was not a decimal integer in
    /// range; holds the offending value.
    MessageParseInt(Vec<u8>),
    /// The value of a microsecond-valued key was not a decimal count of
    /// microseconds; holds the offending value.
    MessageParseMicros(Vec<u8>),
    /// The assignment is not in the recognised message set; holds the
    /// whole line.
    MessageUndefined(Vec<u8>),
    /// A configured event name is not in the closed event set; holds the
    /// offending name.
    ParseEvent(Vec<u8>),
    /// The value of `NOTIFYACCESS` is not one of its four keywords.
    ParseNotifyAccess(Vec<u8>),
    /// An event in the configured shutdown set arrived.
    EventShutdown(Event),
}

} // verus!
