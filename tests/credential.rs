use cs2kz_api::credential::{
    decode, encode, issue_at, parse_claims, write_claims, Jwt, Principal,
};
use cs2kz_api::error::AuthError;

const SECRET: &[u8] = b"test-signing-secret";

#[test]
fn decode_of_encode_gives_back_subject_and_payload() {
    let p = Principal { subject: 76561198282622073, payload: 0xdead_beef };
    let token = issue_at(p, 1_700_000_000, 3600, SECRET);
    let claims = decode(&token, SECRET).unwrap();
    assert_eq!(claims.payload, p);
    assert_eq!(claims.issued_at, 1_700_000_000);
    assert_eq!(claims.exp, 1_700_003_600);
}

#[test]
fn round_trip_extreme_values() {
    let c = Jwt { payload: Principal { subject: 0, payload: u64::MAX }, issued_at: u64::MAX, exp: 0 };
    assert_eq!(decode(&encode(&c, SECRET), SECRET), Ok(c));
}

#[test]
fn claims_text_is_fixed_width_hex() {
    let c = Jwt { payload: Principal { subject: 1, payload: 255 }, issued_at: 16, exp: 0xabc };
    let token = encode(&c, SECRET);
    assert!(token.starts_with(
        "000000000000000100000000000000ff00000000000000100000000000000abc."
    ));
}

#[test]
fn token_carries_a_real_signature() {
    let c = Jwt { payload: Principal { subject: 7, payload: 1 }, issued_at: 10, exp: 20 };
    let token = encode(&c, SECRET);
    let (claims, signature) = token.split_at(64);
    let signature = &signature[1..];
    assert!(!signature.is_empty());
    assert_ne!(signature, claims);
    assert_ne!(encode(&c, b"another secret"), token);
}

#[test]
fn wrong_secret_is_a_signature_failure() {
    let token = issue_at(Principal { subject: 3, payload: 4 }, 100, 50, SECRET);
    assert_eq!(decode(&token, b"not the secret"), Err(AuthError::BadSignature));
}

#[test]
fn tampered_claims_are_a_signature_failure() {
    let token = issue_at(Principal { subject: 3, payload: 1 }, 100, 50, SECRET);
    let mut forged = String::from(&token[..31]);
    forged.push('f');
    forged.push_str(&token[32..]);
    assert_eq!(decode(&forged, SECRET), Err(AuthError::BadSignature));
}

#[test]
fn malformed_tokens() {
    assert_eq!(decode("", SECRET), Err(AuthError::Malformed));
    assert_eq!(decode("abc.def", SECRET), Err(AuthError::Malformed));
    let token = issue_at(Principal { subject: 0xabc, payload: 1 }, 100, 50, SECRET);
    assert!(token[..64].contains('a'));
    let upper = token[..64].to_uppercase() + &token[64..];
    assert_eq!(decode(&upper, SECRET), Err(AuthError::Malformed));
    let no_dot = token.replacen('.', "_", 1);
    assert_eq!(decode(&no_dot, SECRET), Err(AuthError::Malformed));
    assert_eq!(decode(&token[..64], SECRET), Err(AuthError::Malformed));
}

#[test]
fn expiry_is_strict() {
    let jwt = Jwt::new_at(5u32, 1000, 60);
    assert_eq!(jwt.exp, 1060);
    assert!(!jwt.has_expired_at(1059));
    assert!(jwt.has_expired_at(1060));
    assert!(jwt.has_expired_at(1061));
}

#[test]
fn expiry_saturates() {
    let jwt = Jwt::new_at((), u64::MAX - 5, 60);
    assert_eq!(jwt.exp, u64::MAX);
}

#[test]
fn zero_lifetime_is_expired_at_issue() {
    let jwt = Jwt::new_at(0u8, 500, 0);
    assert_eq!(jwt.exp, 500);
    assert!(jwt.has_expired_at(500));
    assert!(!jwt.has_expired_at(499));
    assert!(Jwt::new_at(0u8, 0, 0).has_expired_at(0));
}

#[test]
fn payload_accessors() {
    let jwt = Jwt::new_at(String::from("abc"), 0, 1);
    assert_eq!(jwt.payload(), "abc");
    assert_eq!(jwt.into_payload(), "abc");
}

#[test]
fn claims_text_round_trip() {
    let c = Jwt { payload: Principal { subject: 0x0123456789abcdef, payload: 42 }, issued_at: 1, exp: 2 };
    let text = write_claims(&c);
    assert_eq!(text.len(), 64);
    assert_eq!(&text[..16], "0123456789abcdef");
    assert_eq!(&text[16..32], "000000000000002a");
    assert_eq!(parse_claims(&text), Some(c));
}

#[test]
fn parse_claims_rejects_other_text() {
    assert_eq!(parse_claims(""), None);
    assert_eq!(parse_claims(&"0".repeat(63)), None);
    assert_eq!(parse_claims(&"0".repeat(65)), None);
    assert_eq!(parse_claims(&"g".repeat(64)), None);
    let all_f = parse_claims(&"f".repeat(64)).unwrap();
    assert_eq!(all_f.payload.subject, u64::MAX);
    assert_eq!(all_f.exp, u64::MAX);
}

#[test]
fn payload_changes_in_place() {
    let mut jwt = Jwt::new_at(Principal { subject: 1, payload: 2 }, 10, 5);
    jwt.payload_mut().payload = 7;
    assert_eq!(jwt.payload, Principal { subject: 1, payload: 7 });
    assert_eq!((jwt.issued_at, jwt.exp), (10, 15));
}
