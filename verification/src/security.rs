//! The security policy mapper: from a human-readable security-mode name to a
//! protocol-level authentication selector.

use vstd::prelude::*;

use crate::errors::JoinError;

verus! {

/// The authentication selector the link handle is asked to join with.
#[derive(Clone, Copy, Debug, PartialEq, Eq, Structural)]
pub enum AuthMode {
    Open,
    Wpa,
    Wpa2,
    Wpa3,
}

/// The selector a security-mode name maps to: exactly the four names
/// `open`, `wpa`, `wpa2`, `wpa3` (case-sensitive) are supported, and any
/// other name is a configuration error.
pub open spec fn spec_auth_mode(mode: Seq<char>) -> Result<AuthMode, JoinError> {
    if mode == "open"@ {
        Ok(AuthMode::Open)
    } else if mode == "wpa"@ {
        Ok(AuthMode::Wpa)
    } else if mode == "wpa2"@ {
        Ok(AuthMode::Wpa2)
    } else if mode == "wpa3"@ {
        Ok(AuthMode::Wpa3)
    } else {
        Err(JoinError::UnsupportedSecurity)
    }
}

/// String equality over the character sequences.
fn str_eq(a: &str, b: &str) -> (r: bool)
    ensures
        r == (a@ == b@),
{
    let sa: String = a.to_owned();
    let sb: String = b.to_owned();
    sa == sb
}

/// Map a security-mode name to its authentication selector, or report
/// `UnsupportedSecurity` for every name outside the supported four.
pub fn auth_mode_for(mode: &str) -> (r: Result<AuthMode, JoinError>)
    ensures
        r == spec_auth_mode(mode@),
{
    if str_eq(mode, "open") {
        Ok(AuthMode::Open)
    } else if str_eq(mode, "wpa") {
        Ok(AuthMode::Wpa)
    } else if str_eq(mode, "wpa2") {
        Ok(AuthMode::Wpa2)
    } else if str_eq(mode, "wpa3") {
        Ok(AuthMode::Wpa3)
    } else {
        Err(JoinError::UnsupportedSecurity)
    }
}

/// Every security-mode name outside {open, wpa, wpa2, wpa3} maps to
/// `UnsupportedSecurity`.
pub proof fn lemma_unsupported_mode_rejected(mode: Seq<char>)
    requires
        mode != "open"@,
        mode != "wpa"@,
        mode != "wpa2"@,
        mode != "wpa3"@,
    ensures
        spec_auth_mode(mode) == Err::<AuthMode, JoinError>(JoinError::UnsupportedSecurity),
{
}

} // verus!
