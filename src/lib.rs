//! Authentication, authorization and the ban lifecycle of the CS2KZ API.
//!
//! Credentials are signed tokens of this crate's own format (see
//! `credential`), not JSON Web Tokens. Nothing here reads the clock, the
//! store or the network: the caller hands in the time as unix seconds and
//! what the store answered, and carries out what the library decides.

pub mod auth;
pub mod bans;
pub mod credential;
pub mod error;
pub mod hex;
pub mod mode;
pub mod permissions;
pub mod query;
pub mod responses;
pub mod text;
