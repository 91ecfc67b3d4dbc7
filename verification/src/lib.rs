//! Hardware-accelerated TLS private-key offload engine.
//!
//! The library owns the lifecycle and decision logic of a pool of
//! cryptographic accelerator instances: driver startup and shutdown
//! (`manager`), instance discovery and round-robin load distribution
//! (`section`), per-instance state and the polling-loop policy
//! (`handle`), the binding of one TLS session to one instance
//! (`connection`), and the asynchronous sign/decrypt/complete protocol
//! the TLS engine drives (`provider`).
//!
//! The hardware driver and the TLS engine are reached through unsafe
//! C interfaces; those calls live outside this crate. The driver's
//! answers enter the library as plain status codes, and every decision
//! taken on them is verified here.

use vstd::prelude::*;

pub mod admin;
pub mod connection;
pub mod handle;
pub mod laws;
pub mod manager;
pub mod provider;
pub mod section;
pub mod telemetry;

verus! {

/// The driver reports success as status zero; any other status is an error.
pub const STATUS_SUCCESS: i32 = 0;

/// Whether a driver status code reports success.
pub open spec fn is_success(status: i32) -> bool {
    status == STATUS_SUCCESS
}

/// The error taxonomy of the offload engine.
#[derive(Clone, Copy, Debug, PartialEq, Eq, Structural)]
pub enum QatError {
    /// Driver startup, instance enumeration, or a per-instance
    /// initialization step failed; fatal to the component starting up.
    HardwareInitError,
    /// Every instance is draining or none exists; the caller may fall
    /// back to software crypto or reject the connection.
    NoHardwareAvailable,
    /// The driver reported failure on a submitted or completed
    /// operation; surfaced to the TLS engine as a crypto failure.
    OperationFailure,
    /// A caller broke the calling contract (double release of a user
    /// slot, a second submission while one is outstanding).
    LogicError,
}

} // verus!
