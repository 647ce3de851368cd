//! The outcomes that handlers answer with, and their HTTP status codes.

use vstd::prelude::*;
use crate::bans::BanError;
use crate::error::AuthError;

verus! {

/// A resource was created; carries what identifies it.
#[derive(Debug, PartialEq, Eq, Hash)]
pub struct Created<T>(pub T);

impl<T> Created<T> {
    pub fn status(&self) -> (r: u16)
        ensures
            r == 201,
    {
        201
    }
}

/// Success with nothing to say.
#[derive(Clone, Copy, Debug, PartialEq, Eq, Structural, Hash)]
pub struct NoContent;

impl NoContent {
    pub fn status(&self) -> (r: u16)
        ensures
            r == 204,
    {
        204
    }
}

#[derive(Clone, Copy, Debug, PartialEq, Eq, Structural, Hash)]
pub struct SeeOther;

impl SeeOther {
    pub fn status(&self) -> (r: u16)
        ensures
            r == 303,
    {
        303
    }
}

#[derive(Clone, Copy, Debug, PartialEq, Eq, Structural, Hash)]
pub struct BadRequest;

impl BadRequest {
    pub fn status(&self) -> (r: u16)
        ensures
            r == 400,
    {
        400
    }
}

#[derive(Clone, Copy, Debug, PartialEq, Eq, Structural, Hash)]
pub struct Unauthorized;

impl Unauthorized {
    pub fn status(&self) -> (r: u16)
        ensures
            r == 401,
    {
        401
    }
}

#[derive(Clone, Copy, Debug, PartialEq, Eq, Structural, Hash)]
pub struct NotFound;

impl NotFound {
    pub fn status(&self) -> (r: u16)
        ensures
            r == 404,
    {
        404
    }
}

#[derive(Clone, Copy, Debug, PartialEq, Eq, Structural, Hash)]
pub struct Conflict;

impl Conflict {
    pub fn status(&self) -> (r: u16)
        ensures
            r == 409,
    {
        409
    }
}

#[derive(Clone, Copy, Debug, PartialEq, Eq, Structural, Hash)]
pub struct UnprocessableEntity;

impl UnprocessableEntity {
    pub fn status(&self) -> (r: u16)
        ensures
            r == 422,
    {
        422
    }
}

#[derive(Clone, Copy, Debug, PartialEq, Eq, Structural, Hash)]
pub struct BadGateway;

impl BadGateway {
    pub fn status(&self) -> (r: u16)
        ensures
            r == 502,
    {
        502
    }
}

/// Arbitrary key-value pairs.
#[derive(Clone, Copy, Debug, PartialEq, Eq, Structural, Hash)]
pub struct Object;

/// The ID of a newly published plugin version.
#[derive(Clone, Copy, Debug, PartialEq, Eq, Structural, Hash)]
pub struct CreatedPluginVersion {
    pub plugin_version_id: u16,
}

/// The ID of a newly created unban.
#[derive(Clone, Copy, Debug, PartialEq, Eq, Structural, Hash)]
pub struct CreatedUnban {
    pub unban_id: u64,
}

/// The ID of a newly created ban.
#[derive(Clone, Copy, Debug, PartialEq, Eq, Structural, Hash)]
pub struct CreatedBan {
    pub ban_id: u64,
}

pub open spec fn auth_status(e: AuthError) -> u16 {
    match e {
        AuthError::MalformedBody => 400,
        _ => 401,
    }
}

pub open spec fn ban_status(e: BanError) -> u16 {
    match e {
        BanError::Unauthorized(a) => auth_status(a),
        BanError::Conflict { .. } => 409,
        BanError::NotFound => 404,
        BanError::Exhausted => 500,
    }
}

impl AuthError {
    /// The status a refusal is answered with. An insufficient mask is
    /// answered like a missing credential; only a malformed body differs.
    pub fn status(&self) -> (r: u16)
        ensures
            r == auth_status(*self),
    {
        match self {
            AuthError::MalformedBody => 400,
            _ => 401,
        }
    }
}

impl BanError {
    /// The status a failed ban operation is answered with.
    pub fn status(&self) -> (r: u16)
        ensures
            r == ban_status(*self),
    {
        match self {
            BanError::Unauthorized(a) => a.status(),
            BanError::Conflict { .. } => 409,
            BanError::NotFound => 404,
            BanError::Exhausted => 500,
        }
    }
}

} // verus!
