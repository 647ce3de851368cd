//! Why a request was turned away.

use vstd::prelude::*;

verus! {

/// Why a caller could not be authenticated or authorized.
#[derive(Clone, Copy, Debug, PartialEq, Eq, Structural, Hash)]
pub enum AuthError {
    /// No credential was presented.
    MissingCredential,
    /// The credential is not laid out as a token.
    Malformed,
    /// The credential's signature does not match its claims.
    BadSignature,
    /// The credential is well formed and signed, but past its expiry.
    Expired,
    /// The principal's access was revoked after the credential was issued.
    Revoked,
    /// The credential is valid, but lacks a required capability.
    InsufficientPermissions,
    /// The request body does not hold the metadata the authenticator needs.
    MalformedBody,
}

} // verus!
