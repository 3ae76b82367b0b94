//! The core of a dynamic, multi-protocol reverse proxy: a route-matching
//! and backend-selection engine, the per-service listener lifecycle, and a
//! cancellable health-check scheduler, all sharing one configuration store.
//! The embedding process supplies the I/O: sockets, timers and the
//! configuration file live outside this crate, which holds the decisions
//! and their proofs.

use vstd::prelude::*;

pub mod app_config;
pub mod channel;
pub mod handler;
pub mod listener;
pub mod proxy;
pub mod text;
pub mod timer;

verus! {

/// The error taxonomy of the proxy core.  Every fallible operation of the
/// library reports exactly one of these; "no match" is represented by
/// `Ok(None)` at the call sites concerned and is never an error.
#[derive(Clone, Copy, Debug, PartialEq, Eq, Structural)]
pub enum AppError {
    /// An unknown service or route reference.
    ConfigurationNotFound,
    /// A malformed inbound request.
    InvalidRequest,
    /// Forward-target resolution failed, e.g. an unparsable forward URL.
    RoutingError,
    /// An operation named a health-check task that is not registered.
    TaskNotFound,
    /// A listener could not be started: port unavailable or TLS material
    /// missing.  Fatal to that service's startup, never retried.
    ListenerBindFailure,
    /// A selected backend could not be reached; surfaced per request.
    BackendUnreachable,
}

} // verus!
