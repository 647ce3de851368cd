//! Signed, time-limited credentials: the claims they carry, and their
//! encoding as an opaque token.
//!
//! A token is the claims text, a `.`, and the HS256 signature of the claims
//! text. The claims text is four fields of 16 lowercase hexadecimal digits
//! each: subject, payload, issue time and expiry time (unix seconds).
//!
//! This is a token format of this crate's own, signed with jsonwebtoken's
//! HS256 primitive: it is not a three-part JSON Web Token, and tokens issued
//! in that format are not accepted here (nor the other way round).
//!
//! The clock is not read here: every function that depends on the time takes
//! `now` in unix seconds.

use vstd::prelude::*;
use vstd::string::*;
use crate::error::AuthError;
use crate::hex::{
    all_hex, hex_val, hex_width, is_hex, is_hex_digit, lemma_hex_is_ascii, lemma_hex_round_trip,
    lemma_pow16_u64, parse_hex16, push_hex,
};

verus! {

#[verifier::external_type_specification]
#[verifier::external_body]
pub struct ExJwtError(jsonwebtoken::errors::Error);

/// The base64url HS256 signature of `message` under `secret`.
pub uninterp spec fn hs256_signature(secret: Seq<u8>, message: Seq<u8>) -> Seq<char>;

/// Relies on `jsonwebtoken::crypto::sign` with `Algorithm::HS256`, keyed by
/// `EncodingKey::from_secret` (which only copies the secret): the signature
/// depends on the secret and the message alone, and HMAC signing never
/// fails.
#[verifier::external_body]
fn sign_hs256(message: &[u8], secret: &[u8]) -> (r: Result<String, jsonwebtoken::errors::Error>)
    ensures
        r is Ok,
        r is Ok ==> r->Ok_0@ == hs256_signature(secret@, message@),
{
    let key = jsonwebtoken::EncodingKey::from_secret(secret);
    jsonwebtoken::crypto::sign(message, &key, jsonwebtoken::Algorithm::HS256)
}

/// Relies on `jsonwebtoken::crypto::verify` with `Algorithm::HS256`, keyed by
/// `DecodingKey::from_secret` (which only copies the secret): it signs
/// `message` again, never failing, and tells whether that equals
/// `signature`.
#[verifier::external_body]
fn verify_hs256(signature: &str, message: &[u8], secret: &[u8]) -> (r: Result<
    bool,
    jsonwebtoken::errors::Error,
>)
    ensures
        r is Ok,
        r is Ok ==> r->Ok_0 == (signature@ == hs256_signature(secret@, message@)),
{
    let key = jsonwebtoken::DecodingKey::from_secret(secret);
    jsonwebtoken::crypto::verify(signature, message, &key, jsonwebtoken::Algorithm::HS256)
}

/// Who a credential was issued to, and what it carries for them (a plugin
/// version for a game server, a permission mask for a web session).
#[derive(Clone, Copy, Debug, PartialEq, Eq, Structural, Hash)]
pub struct Principal {
    pub subject: u64,
    pub payload: u64,
}

/// A payload with the times it was issued and it expires, in unix seconds.
#[derive(Debug, PartialEq, Eq, Hash)]
pub struct Jwt<T> {
    pub payload: T,
    pub issued_at: u64,
    pub exp: u64,
}

/// `now + ttl`, held at the largest `u64`.
pub open spec fn expiry(now: u64, ttl: u64) -> u64 {
    if now + ttl > u64::MAX {
        u64::MAX
    } else {
        (now + ttl) as u64
    }
}

impl<T> Jwt<T> {
    pub open spec fn spec_new_at(payload: T, now: u64, expires_after: u64) -> Jwt<T> {
        Jwt { payload, issued_at: now, exp: expiry(now, expires_after) }
    }

    /// A credential issued at `now` that expires `expires_after` seconds
    /// later.
    pub fn new_at(payload: T, now: u64, expires_after: u64) -> (r: Self)
        ensures
            r == Self::spec_new_at(payload, now, expires_after),
    {
        let exp = if now > u64::MAX - expires_after {
            u64::MAX
        } else {
            now + expires_after
        };
        Jwt { payload, issued_at: now, exp }
    }

    /// Whether the credential is no longer valid at `now`: it is valid only
    /// strictly before its expiry.
    pub fn has_expired_at(&self, now: u64) -> (r: bool)
        ensures
            r == (self.exp <= now),
    {
        self.exp <= now
    }

    /// The payload, giving up the credential.
    pub fn into_payload(self) -> (r: T)
        ensures
            r == self.payload,
    {
        self.payload
    }

    /// The payload.
    pub fn payload(&self) -> (r: &T)
        ensures
            *r == self.payload,
    {
        &self.payload
    }

    /// The payload, to change in place; the times stay as they are.
    pub fn payload_mut(&mut self) -> (r: &mut T)
        ensures
            *r == old(self).payload,
            *final(self) == (Jwt { payload: *final(r), issued_at: old(self).issued_at, exp: old(self).exp }),
    {
        &mut self.payload
    }
}

/// The claims text of `c`.
pub open spec fn claims_text(c: Jwt<Principal>) -> Seq<char> {
    hex_width(c.payload.subject as nat, 16) + hex_width(c.payload.payload as nat, 16) + hex_width(
        c.issued_at as nat,
        16,
    ) + hex_width(c.exp as nat, 16)
}

/// The bytes of an ASCII text.
pub open spec fn ascii_bytes(s: Seq<char>) -> Seq<u8> {
    Seq::new(s.len(), |i: int| s[i] as u8)
}

/// The token that encodes `c` under `secret`.
pub open spec fn token_text(c: Jwt<Principal>, secret: Seq<u8>) -> Seq<char> {
    claims_text(c) + seq!['.'] + hs256_signature(secret, ascii_bytes(claims_text(c)))
}

/// The claims that a claims text of 64 digits denotes.
pub open spec fn claims_of(t: Seq<char>) -> Jwt<Principal> {
    Jwt {
        payload: Principal {
            subject: hex_val(t.subrange(0, 16)) as u64,
            payload: hex_val(t.subrange(16, 32)) as u64,
        },
        issued_at: hex_val(t.subrange(32, 48)) as u64,
        exp: hex_val(t.subrange(48, 64)) as u64,
    }
}

/// `t` is a claims text followed by a `.` and something in the place of a
/// signature.
pub open spec fn well_framed(t: Seq<char>) -> bool {
    t.len() > 64 && t[64] == '.' && all_hex(t.subrange(0, 64))
}

/// What decoding `t` under `secret` gives. Expiry is not looked at here.
pub open spec fn decoded(t: Seq<char>, secret: Seq<u8>) -> Result<Jwt<Principal>, AuthError> {
    if !well_framed(t) {
        Err(AuthError::Malformed)
    } else if t.subrange(65, t.len() as int) != hs256_signature(
        secret,
        ascii_bytes(t.subrange(0, 64)),
    ) {
        Err(AuthError::BadSignature)
    } else {
        Ok(claims_of(t.subrange(0, 64)))
    }
}

proof fn lemma_claims_text(c: Jwt<Principal>)
    ensures
        claims_text(c).len() == 64,
        all_hex(claims_text(c)),
        claims_of(claims_text(c)) == c,
{
    lemma_pow16_u64();
    lemma_hex_round_trip(c.payload.subject as nat, 16);
    lemma_hex_round_trip(c.payload.payload as nat, 16);
    lemma_hex_round_trip(c.issued_at as nat, 16);
    lemma_hex_round_trip(c.exp as nat, 16);
    let t = claims_text(c);
    assert(t.subrange(0, 16) =~= hex_width(c.payload.subject as nat, 16));
    assert(t.subrange(16, 32) =~= hex_width(c.payload.payload as nat, 16));
    assert(t.subrange(32, 48) =~= hex_width(c.issued_at as nat, 16));
    assert(t.subrange(48, 64) =~= hex_width(c.exp as nat, 16));
    assert(all_hex(t)) by {
        assert forall|i: int| 0 <= i < t.len() implies is_hex(#[trigger] t[i]) by {
            if i < 16 {
                assert(t[i] == t.subrange(0, 16)[i]);
            } else if i < 32 {
                assert(t[i] == t.subrange(16, 32)[i - 16]);
            } else if i < 48 {
                assert(t[i] == t.subrange(32, 48)[i - 32]);
            } else {
                assert(t[i] == t.subrange(48, 64)[i - 48]);
            }
        }
    }
}

/// Decoding what was encoded gives back the same claims, under any secret.
pub proof fn lemma_round_trip(c: Jwt<Principal>, secret: Seq<u8>)
    ensures
        decoded(token_text(c, secret), secret) == Ok::<Jwt<Principal>, AuthError>(c),
{
    lemma_claims_text(c);
    let t = token_text(c, secret);
    let ct = claims_text(c);
    assert(t.subrange(0, 64) =~= ct);
    assert(t.subrange(65, t.len() as int) =~= hs256_signature(secret, ascii_bytes(ct)));
    assert(t[64] == '.');
}

/// A credential issued for `principal` decodes to that same principal, with
/// the times it was issued with.
pub proof fn lemma_issue_round_trip(principal: Principal, now: u64, expires_after: u64, secret: Seq<u8>)
    ensures
        decoded(token_text(Jwt::spec_new_at(principal, now, expires_after), secret), secret)
            == Ok::<Jwt<Principal>, AuthError>(Jwt::spec_new_at(principal, now, expires_after)),
        decoded(token_text(Jwt::spec_new_at(principal, now, expires_after), secret), secret)->Ok_0.payload
            == principal,
{
    lemma_round_trip(Jwt::spec_new_at(principal, now, expires_after), secret);
}

/// The claims text of `claims`.
pub fn write_claims(claims: &Jwt<Principal>) -> (r: String)
    ensures
        r@ == claims_text(*claims),
{
    let mut text = String::new();
    push_hex(&mut text, claims.payload.subject, 16);
    push_hex(&mut text, claims.payload.payload, 16);
    push_hex(&mut text, claims.issued_at, 16);
    push_hex(&mut text, claims.exp, 16);
    assert(text@ =~= claims_text(*claims));
    text
}

/// The claims that `text` denotes, if it is a claims text: exactly 64
/// lowercase hexadecimal digits.
pub fn parse_claims(text: &str) -> (r: Option<Jwt<Principal>>)
    ensures
        r is Some <==> text@.len() == 64 && all_hex(text@),
        r is Some ==> r->Some_0 == claims_of(text@),
{
    if text.unicode_len() != 64 {
        return None;
    }
    let mut i: usize = 0;
    while i < 64
        invariant
            i <= 64,
            text@.len() == 64,
            forall|j: int| 0 <= j < i ==> is_hex(#[trigger] text@[j]),
        decreases 64 - i,
    {
        if !is_hex_digit(text.get_char(i)) {
            return None;
        }
        i = i + 1;
    }
    assert(text@.subrange(0, 64) =~= text@);
    let subject = parse_hex16(text, 0);
    let payload = parse_hex16(text, 16);
    let issued_at = parse_hex16(text, 32);
    let exp = parse_hex16(text, 48);
    Some(Jwt { payload: Principal { subject, payload }, issued_at, exp })
}

/// The token that encodes `claims` under `secret`.
pub fn encode(claims: &Jwt<Principal>, secret: &[u8]) -> (r: String)
    ensures
        r@ == token_text(*claims, secret@),
{
    let text = write_claims(claims);
    proof {
        lemma_claims_text(*claims);
        lemma_hex_is_ascii(text@);
    }
    let message = text.as_str();
    proof {
        is_ascii_spec_bytes(message);
        assert(message.spec_bytes() =~= ascii_bytes(claims_text(*claims)));
    }
    let signature = match sign_hs256(message.as_bytes(), secret) {
        Ok(s) => s,
        Err(_) => String::new(),
    };
    let token = text.concat(".").concat(signature.as_str());
    proof {
        reveal_strlit(".");
    }
    assert(token@ =~= token_text(*claims, secret@));
    token
}

/// A credential for `principal` issued at `now`, valid for `expires_after`
/// seconds, as a token under `secret`.
pub fn issue_at(principal: Principal, now: u64, expires_after: u64, secret: &[u8]) -> (r: String)
    ensures
        r@ == token_text(Jwt::spec_new_at(principal, now, expires_after), secret@),
{
    let claims = Jwt::new_at(principal, now, expires_after);
    encode(&claims, secret)
}

/// The claims of `token` if it is laid out as a token and signed under
/// `secret`. Expiry is left to the caller, so that an expired credential is
/// told apart from a malformed one.
pub fn decode(token: &str, secret: &[u8]) -> (r: Result<Jwt<Principal>, AuthError>)
    ensures
        r == decoded(token@, secret@),
{
    let len = token.unicode_len();
    if len <= 64 || token.get_char(64) != '.' {
        return Err(AuthError::Malformed);
    }
    let message = token.substring_char(0, 64);
    let claims = match parse_claims(message) {
        Some(c) => c,
        None => return Err(AuthError::Malformed),
    };
    let signature = token.substring_char(65, len);
    proof {
        lemma_hex_is_ascii(message@);
        is_ascii_spec_bytes(message);
        assert(message.spec_bytes() =~= ascii_bytes(message@));
    }
    let matches = match verify_hs256(signature, message.as_bytes(), secret) {
        Ok(b) => b,
        Err(_) => false,
    };
    if !matches {
        return Err(AuthError::BadSignature);
    }
    Ok(claims)
}

} // verus!
