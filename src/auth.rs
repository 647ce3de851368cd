//! The two authenticators: bearer tokens of game servers and session
//! cookies of web operators.
//!
//! What needs the store (whether a server still holds an active key) is
//! looked up by the caller between decoding and admitting, and handed in as
//! a plain value.

use vstd::prelude::*;
use crate::credential::{claims_of, decode, decoded, well_framed, Jwt, Principal};
use crate::error::AuthError;
use crate::permissions::{covers, Permissions};

verus! {

/// The claims of a game server's token.
#[derive(Clone, Copy, Debug, PartialEq, Eq, Structural, Hash)]
pub struct ServerClaims {
    pub server_id: u16,
    pub exp: u64,
}

/// A game server that passed authentication, for the length of one request.
#[derive(Clone, Copy, Debug, PartialEq, Eq, Structural, Hash)]
pub struct AuthenticatedServer {
    pub id: u16,
    pub plugin_version: u16,
}

/// An operator that passed authentication, for the length of one request.
#[derive(Clone, Copy, Debug, PartialEq, Eq, Structural, Hash)]
pub struct Session {
    pub user_id: u64,
    pub permissions: Permissions,
    pub exp: u64,
}

/// What decoding a game server's bearer token gives.
pub open spec fn server_claims_of(
    token: Option<Seq<char>>,
    secret: Seq<u8>,
) -> Result<ServerClaims, AuthError> {
    match token {
        None => Err(AuthError::MissingCredential),
        Some(t) => match decoded(t, secret) {
            Err(e) => Err(e),
            Ok(c) => if c.payload.subject > u16::MAX {
                Err(AuthError::Malformed)
            } else {
                Ok(ServerClaims { server_id: c.payload.subject as u16, exp: c.exp })
            },
        },
    }
}

/// What admitting a server with decoded `claims` gives.
pub open spec fn server_admission(
    claims: ServerClaims,
    server_active: bool,
    now: u64,
    plugin_version: Option<u16>,
) -> Result<AuthenticatedServer, AuthError> {
    if !server_active {
        Err(AuthError::Revoked)
    } else if claims.exp <= now {
        Err(AuthError::Expired)
    } else {
        match plugin_version {
            None => Err(AuthError::MalformedBody),
            Some(v) => Ok(AuthenticatedServer { id: claims.server_id, plugin_version: v }),
        }
    }
}

/// The whole verdict on a game server's request: decode, look up, check
/// expiry, read the body.
pub open spec fn server_verdict(
    token: Option<Seq<char>>,
    secret: Seq<u8>,
    server_active: bool,
    now: u64,
    plugin_version: Option<u16>,
) -> Result<AuthenticatedServer, AuthError> {
    match server_claims_of(token, secret) {
        Err(e) => Err(e),
        Ok(c) => server_admission(c, server_active, now, plugin_version),
    }
}

/// The first step for a game server: decode its bearer token.
pub fn decode_server_token(token: Option<&str>, secret: &[u8]) -> (r: Result<
    ServerClaims,
    AuthError,
>)
    ensures
        r == server_claims_of(
            match token {
                Some(t) => Some(t@),
                None => None,
            },
            secret@,
        ),
{
    match token {
        None => Err(AuthError::MissingCredential),
        Some(t) => match decode(t, secret) {
            Err(e) => Err(e),
            Ok(c) => if c.payload.subject > 0xffff {
                Err(AuthError::Malformed)
            } else {
                Ok(ServerClaims { server_id: c.payload.subject as u16, exp: c.exp })
            },
        },
    }
}

/// The rest for a game server, once the store has told whether it still
/// holds an active key and the body's metadata has been read.
pub fn admit_server(
    claims: ServerClaims,
    server_active: bool,
    now: u64,
    plugin_version: Option<u16>,
) -> (r: Result<AuthenticatedServer, AuthError>)
    ensures
        r == server_admission(claims, server_active, now, plugin_version),
{
    if !server_active {
        Err(AuthError::Revoked)
    } else if claims.exp <= now {
        Err(AuthError::Expired)
    } else {
        match plugin_version {
            None => Err(AuthError::MalformedBody),
            Some(v) => Ok(AuthenticatedServer { id: claims.server_id, plugin_version: v }),
        }
    }
}

/// What a bearer credential gives once decoded and checked for expiry.
pub open spec fn bearer_verdict(token: Option<Seq<char>>, secret: Seq<u8>, now: u64) -> Result<
    Jwt<Principal>,
    AuthError,
> {
    match token {
        None => Err(AuthError::MissingCredential),
        Some(t) => match decoded(t, secret) {
            Err(e) => Err(e),
            Ok(c) => if c.exp <= now {
                Err(AuthError::Expired)
            } else {
                Ok(c)
            },
        },
    }
}

/// Decodes a bearer credential and turns it away once expired.
pub fn authenticate_bearer(token: Option<&str>, secret: &[u8], now: u64) -> (r: Result<
    Jwt<Principal>,
    AuthError,
>)
    ensures
        r == bearer_verdict(
            match token {
                Some(t) => Some(t@),
                None => None,
            },
            secret@,
            now,
        ),
{
    match token {
        None => Err(AuthError::MissingCredential),
        Some(t) => match decode(t, secret) {
            Err(e) => Err(e),
            Ok(c) => if c.has_expired_at(now) {
                Err(AuthError::Expired)
            } else {
                Ok(c)
            },
        },
    }
}

/// The verdict on a web session cookie for a route that requires `required`.
pub open spec fn session_verdict(
    cookie: Option<Seq<char>>,
    secret: Seq<u8>,
    now: u64,
    required: Permissions,
) -> Result<Session, AuthError> {
    match bearer_verdict(cookie, secret, now) {
        Err(e) => Err(e),
        Ok(c) => if c.payload.payload > u32::MAX {
            Err(AuthError::Malformed)
        } else if !covers(c.payload.payload as u32, required.bits) {
            Err(AuthError::InsufficientPermissions)
        } else {
            Ok(
                Session {
                    user_id: c.payload.subject,
                    permissions: Permissions { bits: c.payload.payload as u32 },
                    exp: c.exp,
                },
            )
        },
    }
}

/// Authenticates an operator by session cookie for a route that requires
/// `required`. A missing capability is refused like a missing credential,
/// with its own reason.
pub fn authenticate_session(
    cookie: Option<&str>,
    secret: &[u8],
    now: u64,
    required: Permissions,
) -> (r: Result<Session, AuthError>)
    ensures
        r == session_verdict(
            match cookie {
                Some(t) => Some(t@),
                None => None,
            },
            secret@,
            now,
            required,
        ),
{
    match authenticate_bearer(cookie, secret, now) {
        Err(e) => Err(e),
        Ok(c) => if c.payload.payload > 0xffff_ffff {
            Err(AuthError::Malformed)
        } else {
            let held = Permissions { bits: c.payload.payload as u32 };
            if !held.contains(required) {
                Err(AuthError::InsufficientPermissions)
            } else {
                Ok(Session { user_id: c.payload.subject, permissions: held, exp: c.exp })
            }
        },
    }
}

/// A game server's token whose expiry is at or before `now` is never
/// accepted, whatever its signature; when the signature is valid and the
/// server active, the refusal says "expired", not a signature failure.
pub proof fn lemma_expired_server_token_rejected(
    t: Seq<char>,
    secret: Seq<u8>,
    server_active: bool,
    now: u64,
    plugin_version: Option<u16>,
)
    requires
        well_framed(t),
        claims_of(t.subrange(0, 64)).exp <= now,
    ensures
        server_verdict(Some(t), secret, server_active, now, plugin_version) is Err,
        decoded(t, secret) is Ok ==> server_verdict(
            Some(t),
            secret,
            server_active,
            now,
            plugin_version,
        ) != Err::<AuthenticatedServer, AuthError>(AuthError::BadSignature),
        decoded(t, secret) is Ok && server_active && claims_of(t.subrange(0, 64)).payload.subject
            <= u16::MAX ==> server_verdict(Some(t), secret, server_active, now, plugin_version)
            == Err::<AuthenticatedServer, AuthError>(AuthError::Expired),
{
}

/// A session cookie whose expiry is at or before `now` is never accepted,
/// whatever its signature and mask; when the signature is valid, the refusal
/// says "expired".
pub proof fn lemma_expired_session_rejected(
    t: Seq<char>,
    secret: Seq<u8>,
    now: u64,
    required: Permissions,
)
    requires
        well_framed(t),
        claims_of(t.subrange(0, 64)).exp <= now,
    ensures
        session_verdict(Some(t), secret, now, required) is Err,
        decoded(t, secret) is Ok ==> session_verdict(Some(t), secret, now, required) == Err::<
            Session,
            AuthError,
        >(AuthError::Expired),
{
}

} // verus!
