//! Sidecar adapter core: translates an assignment-line service-notification
//! protocol received over a Unix datagram socket into Kubernetes-style HTTP
//! health probes.
//!
//! This crate holds the verified logic of the adapter: the wire-message
//! parser and its inverse encoder, the event classifiers that drive the
//! health flags, the watchdog and startup timer state machines, the status
//! and configuration writers, and the ready barrier. The surrounding
//! process (sockets, HTTP transport, signals, scheduling) drives these
//! functions and is kept outside the verified core.

pub mod bytes;
pub mod config;
pub mod decimal;
pub mod error;
pub mod event;
pub mod message;
pub mod probe;
pub mod seconds;
pub mod startup;
pub mod status;
pub mod watchdog;
