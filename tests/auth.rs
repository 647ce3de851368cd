use cs2kz_api::auth::{
    admit_server, authenticate_bearer, authenticate_session, decode_server_token,
    AuthenticatedServer, ServerClaims,
};
use cs2kz_api::credential::{issue_at, Principal};
use cs2kz_api::error::AuthError;
use cs2kz_api::permissions::{Permissions, MANAGE_BANS, MANAGE_MAPS, MANAGE_SERVERS};

const SECRET: &[u8] = b"server-secret";
const NOW: u64 = 1_700_000_000;

fn server_token(id: u64, exp_offset: i64) -> String {
    let issued = NOW - 100;
    let ttl = (NOW as i64 + exp_offset - issued as i64) as u64;
    issue_at(Principal { subject: id, payload: 0 }, issued, ttl, SECRET)
}

#[test]
fn server_token_one_second_past_expiry_is_refused() {
    let token = server_token(12, -1);
    let claims = decode_server_token(Some(&token), SECRET).unwrap();
    assert_eq!(claims, ServerClaims { server_id: 12, exp: NOW - 1 });
    assert_eq!(admit_server(claims, true, NOW, Some(3)), Err(AuthError::Expired));
}

#[test]
fn server_token_expiring_now_is_refused() {
    let token = server_token(12, 0);
    let claims = decode_server_token(Some(&token), SECRET).unwrap();
    assert_eq!(admit_server(claims, true, NOW, Some(3)), Err(AuthError::Expired));
}

#[test]
fn valid_server_is_admitted() {
    let token = server_token(12, 60);
    let claims = decode_server_token(Some(&token), SECRET).unwrap();
    assert_eq!(
        admit_server(claims, true, NOW, Some(3)),
        Ok(AuthenticatedServer { id: 12, plugin_version: 3 })
    );
}

#[test]
fn server_refusals_in_order() {
    assert_eq!(decode_server_token(None, SECRET), Err(AuthError::MissingCredential));
    assert_eq!(decode_server_token(Some("junk"), SECRET), Err(AuthError::Malformed));
    let token = server_token(12, 60);
    assert_eq!(decode_server_token(Some(&token), b"other"), Err(AuthError::BadSignature));
    let big = server_token(70_000, 60);
    assert_eq!(decode_server_token(Some(&big), SECRET), Err(AuthError::Malformed));
    let claims = ServerClaims { server_id: 1, exp: NOW - 1 };
    assert_eq!(admit_server(claims, false, NOW, Some(1)), Err(AuthError::Revoked));
    let claims = ServerClaims { server_id: 1, exp: NOW + 1 };
    assert_eq!(admit_server(claims, true, NOW, None), Err(AuthError::MalformedBody));
}

#[test]
fn expired_reason_differs_from_signature_failure() {
    let token = server_token(5, -10);
    let claims = decode_server_token(Some(&token), SECRET).unwrap();
    let expired = admit_server(claims, true, NOW, Some(1)).unwrap_err();
    let forged = decode_server_token(Some(&token), b"wrong").unwrap_err();
    assert_eq!(expired, AuthError::Expired);
    assert_eq!(forged, AuthError::BadSignature);
    assert_ne!(expired, forged);
}

#[test]
fn bearer_expiry() {
    let token = issue_at(Principal { subject: 1, payload: 2 }, NOW - 10, 10, SECRET);
    assert_eq!(authenticate_bearer(Some(&token), SECRET, NOW), Err(AuthError::Expired));
    let fresh = authenticate_bearer(Some(&token), SECRET, NOW - 1).unwrap();
    assert_eq!(fresh.payload, Principal { subject: 1, payload: 2 });
    assert_eq!(authenticate_bearer(None, SECRET, NOW), Err(AuthError::MissingCredential));
}

fn cookie(user: u64, mask: u32, ttl: u64) -> String {
    issue_at(Principal { subject: user, payload: mask as u64 }, NOW, ttl, SECRET)
}

#[test]
fn session_without_ban_bit_is_refused() {
    let c = cookie(42, MANAGE_MAPS | MANAGE_SERVERS, 600);
    let required = Permissions { bits: MANAGE_BANS };
    let r = authenticate_session(Some(&c), SECRET, NOW + 1, required);
    assert_eq!(r, Err(AuthError::InsufficientPermissions));
    assert_eq!(r.unwrap_err().status(), 401);
}

#[test]
fn session_with_ban_bit_is_admitted() {
    let c = cookie(42, MANAGE_BANS | MANAGE_MAPS, 600);
    let s = authenticate_session(Some(&c), SECRET, NOW + 1, Permissions { bits: MANAGE_BANS })
        .unwrap();
    assert_eq!(s.user_id, 42);
    assert_eq!(s.permissions.bits, MANAGE_BANS | MANAGE_MAPS);
    assert_eq!(s.exp, NOW + 600);
}

#[test]
fn session_refusals() {
    let required = Permissions { bits: 0 };
    assert_eq!(
        authenticate_session(None, SECRET, NOW, required),
        Err(AuthError::MissingCredential)
    );
    let c = cookie(42, MANAGE_BANS, 600);
    assert_eq!(
        authenticate_session(Some(&c), SECRET, NOW + 600, required),
        Err(AuthError::Expired)
    );
    assert_eq!(
        authenticate_session(Some(&c), b"x", NOW, required),
        Err(AuthError::BadSignature)
    );
    let wide = issue_at(Principal { subject: 1, payload: 1 << 40 }, NOW, 600, SECRET);
    assert_eq!(
        authenticate_session(Some(&wide), SECRET, NOW, required),
        Err(AuthError::Malformed)
    );
}

#[test]
fn refusal_statuses() {
    assert_eq!(AuthError::Expired.status(), 401);
    assert_eq!(AuthError::BadSignature.status(), 401);
    assert_eq!(AuthError::MalformedBody.status(), 400);
}
