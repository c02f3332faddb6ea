use vstd::prelude::*;
use crate::errors::AuthenticateError;
use crate::session::{Claims, Session};

verus! {

/// The token that jsonwebtoken signs with HS256 under `secret` for a payload holding these
/// four claims.
pub uninterp spec fn signed_token_of(user_id: i32, exp: i64, iat: i64, nbf: i64, secret: Seq<u8>) -> Seq<char>;

/// The entries of the payload of `token`, in key order, when its HS256 signature under
/// `secret` verifies and jsonwebtoken accepts its payload as a JSON object of `i64` values;
/// `None` otherwise (also for a payload that repeats a registered claim such as exp).
pub uninterp spec fn verified_payload_of(token: Seq<char>, secret: Seq<u8>) -> Option<Seq<(Seq<char>, i64)>>;

pub open spec fn entries_view(v: Seq<(String, i64)>) -> Seq<(Seq<char>, i64)> {
    v.map_values(|p: (String, i64)| (p.0@, p.1))
}

pub open spec fn key_exp() -> Seq<char> {
    seq!['e', 'x', 'p']
}

pub open spec fn key_iat() -> Seq<char> {
    seq!['i', 'a', 't']
}

pub open spec fn key_nbf() -> Seq<char> {
    seq!['n', 'b', 'f']
}

pub open spec fn key_user_id() -> Seq<char> {
    seq!['u', 's', 'e', 'r', '_', 'i', 'd']
}

/// The payload entries of a token made for these claims, in key order.
pub open spec fn claim_entries(c: Claims) -> Seq<(Seq<char>, i64)> {
    seq![(key_exp(), c.exp), (key_iat(), c.iat), (key_nbf(), c.nbf), (key_user_id(), c.user_id as i64)]
}

/// `i` is the first position of `key` in `s`.
pub open spec fn is_first_key(s: Seq<(Seq<char>, i64)>, key: Seq<char>, i: int) -> bool {
    &&& 0 <= i < s.len()
    &&& s[i].0 == key
    &&& forall|j: int| 0 <= j < i ==> s[j].0 != key
}

/// The value of the first entry under `key`.
pub open spec fn lookup(s: Seq<(Seq<char>, i64)>, key: Seq<char>) -> Option<i64> {
    if exists|i: int| is_first_key(s, key, i) {
        Some(s[choose|i: int| is_first_key(s, key, i)].1)
    } else {
        None
    }
}

/// The claims that payload entries hold: all four keys present, and a user id that fits.
pub open spec fn claims_of_entries(s: Seq<(Seq<char>, i64)>) -> Option<Claims> {
    match (lookup(s, key_user_id()), lookup(s, key_exp()), lookup(s, key_iat()), lookup(s, key_nbf())) {
        (Some(u), Some(e), Some(i), Some(n)) => if i32::MIN <= u <= i32::MAX {
            Some(Claims { user_id: u as i32, exp: e, iat: i, nbf: n })
        } else {
            None
        },
        _ => None,
    }
}

/// What checking a token whose verified payload is `payload` gives at `now`: its claims
/// when they are complete and admit the token at `now`.
pub open spec fn token_claims(payload: Option<Seq<(Seq<char>, i64)>>, now: int) -> Result<Claims, AuthenticateError> {
    match payload {
        None => Err(AuthenticateError::InvalidToken),
        Some(s) => match claims_of_entries(s) {
            None => Err(AuthenticateError::InvalidToken),
            Some(c) => if c.current_at(now) {
                Ok(c)
            } else {
                Err(AuthenticateError::InvalidToken)
            },
        },
    }
}

impl Claims {
    /// The token signed for these claims under `secret`.
    pub open spec fn signed_with(self, secret: Seq<u8>) -> Seq<char> {
        signed_token_of(self.user_id, self.exp, self.iat, self.nbf, secret)
    }
}

/// Relies on jsonwebtoken::encode, with the default header (HS256) and a key from
/// jsonwebtoken::EncodingKey::from_secret: the payload is the JSON object of the integer
/// entries exp, iat, nbf and user_id, and the token depends on them and the secret alone.
/// It succeeds: an HMAC key matches HS256, serialising this header and this map cannot
/// fail, and HMAC signing always returns a signature.
#[verifier::external_body]
fn sign_claims(claims: &Claims, secret: &[u8]) -> (r: Option<String>)
    ensures
        r is Some,
        r matches Some(t) ==> t@ == signed_token_of(claims.user_id, claims.exp, claims.iat, claims.nbf, secret@),
{
    let mut payload = std::collections::BTreeMap::new();
    payload.insert("exp", claims.exp);
    payload.insert("iat", claims.iat);
    payload.insert("nbf", claims.nbf);
    payload.insert("user_id", claims.user_id as i64);
    let key = jsonwebtoken::EncodingKey::from_secret(secret);
    jsonwebtoken::encode(&jsonwebtoken::Header::default(), &payload, &key).ok()
}

/// Relies on jsonwebtoken::decode, with a key from jsonwebtoken::DecodingKey::from_secret,
/// HS256 as the only algorithm and no claim checked by the crate (no required claim; exp,
/// nbf and aud not validated). It returns the payload's entries, in key order, exactly when
/// the signature verifies and the crate accepts the payload as a JSON object of `i64`
/// values (it refuses one that repeats a registered claim); a token that
/// jsonwebtoken::encode signed under the same secret gives back the entries it was made from.
#[verifier::external_body]
fn verify_token(token: &str, secret: &[u8]) -> (r: Option<Vec<(String, i64)>>)
    ensures
        r is None ==> verified_payload_of(token@, secret@) is None,
        r matches Some(v) ==> verified_payload_of(token@, secret@) == Some(entries_view(v@)),
        forall|c: Claims| #[trigger] c.signed_with(secret@) == token@ ==> (r is Some
            && entries_view(r.unwrap()@) == claim_entries(c)),
{
    let mut validation = jsonwebtoken::Validation::new(jsonwebtoken::Algorithm::HS256);
    validation.required_spec_claims.clear();
    validation.validate_exp = false;
    validation.validate_nbf = false;
    validation.validate_aud = false;
    let key = jsonwebtoken::DecodingKey::from_secret(secret);
    let data = jsonwebtoken::decode::<std::collections::BTreeMap<String, i64>>(token, &key, &validation).ok()?;
    Some(data.claims.into_iter().collect())
}

proof fn lemma_lookup_first(s: Seq<(Seq<char>, i64)>, key: Seq<char>, i: int)
    requires
        is_first_key(s, key, i),
    ensures
        lookup(s, key) == Some(s[i].1),
{
    let k = choose|k: int| is_first_key(s, key, k);
    assert(is_first_key(s, key, k));
    if k < i {
        assert(s[k].0 == key);
    } else if k > i {
        assert(s[i].0 != key);
    }
}

/// The entries of a token made for some claims give those claims back.
pub proof fn lemma_claim_entries_parse(c: Claims)
    ensures
        claims_of_entries(claim_entries(c)) == Some(c),
{
    let s = claim_entries(c);
    assert(s[0].0[0] == 'e' && s[1].0[0] == 'i' && s[2].0[0] == 'n' && s[3].0[0] == 'u');
    assert(is_first_key(s, key_exp(), 0));
    assert(is_first_key(s, key_iat(), 1));
    assert(is_first_key(s, key_nbf(), 2));
    assert(is_first_key(s, key_user_id(), 3));
    lemma_lookup_first(s, key_exp(), 0);
    lemma_lookup_first(s, key_iat(), 1);
    lemma_lookup_first(s, key_nbf(), 2);
    lemma_lookup_first(s, key_user_id(), 3);
}

/// The value of the first entry under `key`.
fn find_entry(entries: &Vec<(String, i64)>, key: &str) -> (r: Option<i64>)
    ensures
        r == lookup(entries_view(entries@), key@),
{
    let wanted = key.to_owned();
    let ghost s = entries_view(entries@);
    let mut i: usize = 0;
    while i < entries.len()
        invariant
            0 <= i <= entries.len(),
            wanted@ == key@,
            s == entries_view(entries@),
            forall|j: int| 0 <= j < i ==> s[j].0 != key@,
        decreases entries.len() - i,
    {
        if entries[i].0 == wanted {
            proof {
                assert(is_first_key(s, key@, i as int));
                lemma_lookup_first(s, key@, i as int);
            }
            return Some(entries[i].1);
        }
        i += 1;
    }
    None
}

/// The claims that payload entries hold, if all four are there and the user id fits.
pub fn claims_from_entries(entries: &Vec<(String, i64)>) -> (r: Option<Claims>)
    ensures
        r == claims_of_entries(entries_view(entries@)),
{
    proof {
        reveal_strlit("user_id");
        reveal_strlit("exp");
        reveal_strlit("iat");
        reveal_strlit("nbf");
        assert("user_id"@ =~= key_user_id());
        assert("exp"@ =~= key_exp());
        assert("iat"@ =~= key_iat());
        assert("nbf"@ =~= key_nbf());
    }
    let u = find_entry(entries, "user_id");
    let e = find_entry(entries, "exp");
    let i = find_entry(entries, "iat");
    let n = find_entry(entries, "nbf");
    match (u, e, i, n) {
        (Some(u), Some(e), Some(i), Some(n)) => {
            if i32::MIN as i64 <= u && u <= i32::MAX as i64 {
                Some(Claims { user_id: u as i32, exp: e, iat: i, nbf: n })
            } else {
                None
            }
        },
        _ => None,
    }
}

/// Checks a token's signature under `secret` and its claims at `now`: `nbf <= now < exp`.
/// A token that does not verify, lacks a claim, or is not current gives `InvalidToken`.
pub fn decode_claims(token: &str, secret: &[u8], now: i64) -> (r: Result<Claims, AuthenticateError>)
    ensures
        r == token_claims(verified_payload_of(token@, secret@), now as int),
        forall|c: Claims| #[trigger] c.signed_with(secret@) == token@ ==> r == (if c.current_at(now as int) {
            Ok::<Claims, AuthenticateError>(c)
        } else {
            Err::<Claims, AuthenticateError>(AuthenticateError::InvalidToken)
        }),
{
    let payload = verify_token(token, secret);
    proof {
        assert forall|c: Claims| #[trigger] c.signed_with(secret@) == token@ implies token_claims(
            verified_payload_of(token@, secret@),
            now as int,
        ) == (if c.current_at(now as int) {
            Ok::<Claims, AuthenticateError>(c)
        } else {
            Err::<Claims, AuthenticateError>(AuthenticateError::InvalidToken)
        }) by {
            lemma_claim_entries_parse(c);
            assert(verified_payload_of(token@, secret@) == Some(claim_entries(c)));
        }
    }
    match payload {
        None => Err(AuthenticateError::InvalidToken),
        Some(entries) => match claims_from_entries(&entries) {
            None => Err(AuthenticateError::InvalidToken),
            Some(c) => {
                if c.nbf <= now && now < c.exp {
                    Ok(c)
                } else {
                    Err(AuthenticateError::InvalidToken)
                }
            },
        },
    }
}

impl Session {
    /// A token for this session issued at `now` and signed under `secret`: it carries the
    /// session's user and expiry, with `now` as issue and start time. Signing with HS256
    /// always succeeds.
    pub fn token(&self, secret: &[u8], now: i64) -> (r: Result<String, AuthenticateError>)
        ensures
            r is Ok,
            r matches Ok(t) ==> t@ == Claims::of_session(*self, now as int).signed_with(secret@),
    {
        let claims = Claims::from(self, now);
        match sign_claims(&claims, secret) {
            Some(t) => Ok(t),
            None => Err(AuthenticateError::TokenCreation),
        }
    }
}

} // verus!
