//! Errors of the network bootstrap.

use vstd::prelude::*;

verus! {

/// Why a bootstrap run failed.
#[derive(Clone, Copy, Debug, PartialEq, Eq, Structural)]
pub enum JoinError {
    /// The configured security mode names no supported authentication
    /// selector. A configuration error: no join attempt is made.
    UnsupportedSecurity,
    /// Every allowed join attempt was rejected by the access point.
    RetriesExhausted,
    /// The network stack reported its configuration complete but handed out
    /// no address.
    AddressConfigMissing,
}

} // verus!
