//! The part of signing a caller in that needs no network: reading the bearer
//! token out of a header, picking the key that the token names, and turning
//! the key set of the identity provider into keys that can check a signature.

use vstd::prelude::*;
use crate::seqs::{lemma_filter_next, lemma_filter_none, lemma_take_all};
use crate::text::{chars_of, opt_chars, same_text};

verus! {

#[verifier::external_type_specification]
#[verifier::external_body]
pub struct ExDecodingKey(jsonwebtoken::DecodingKey);

#[verifier::external_type_specification]
#[verifier::external_body]
pub struct ExTokenError(jsonwebtoken::errors::Error);

/// The key that `jsonwebtoken::DecodingKey::from_rsa_components` makes of the
/// two texts as the modulus and the exponent of an RSA key: `None` where it
/// rejects one of them.
pub uninterp spec fn rsa_components_key(modulus: Seq<char>, exponent: Seq<char>) -> Option<
    jsonwebtoken::DecodingKey,
>;

/// What `jsonwebtoken::decode_header` reads as the key id of a token: `None`
/// where it rejects the token, `Some(None)` where the header names no key.
pub uninterp spec fn header_key_id(token: Seq<char>) -> Option<Option<Seq<char>>>;

/// Calls `jsonwebtoken::DecodingKey::from_rsa_components`, which decodes the
/// two texts from unpadded URL-safe base64, fails where one of them is not
/// such a text, and else holds the decoded bytes as an RSA key. The contract
/// only gives the outcome of that call its name.
#[verifier::external_body]
fn rsa_key(modulus: &str, exponent: &str) -> (r: Result<
    jsonwebtoken::DecodingKey,
    jsonwebtoken::errors::Error,
>)
    ensures
        match r {
            Ok(key) => rsa_components_key(modulus@, exponent@) == Some(key),
            Err(_) => rsa_components_key(modulus@, exponent@) is None,
        },
{
    jsonwebtoken::DecodingKey::from_rsa_components(modulus, exponent)
}

/// Calls `jsonwebtoken::decode_header`, which splits a token at its dots,
/// decodes the first part and reads it as a header, and hands out the `kid`
/// field of that header. The contract only gives the outcome its name.
#[verifier::external_body]
fn token_key_id(token: &str) -> (r: Result<Option<String>, jsonwebtoken::errors::Error>)
    ensures
        match r {
            Ok(kid) => header_key_id(token@) == Some(opt_chars(kid)),
            Err(_) => header_key_id(token@) is None,
        },
{
    jsonwebtoken::decode_header(token).map(|header| header.kid)
}

/// The text that `jsonwebtoken::errors::Error` displays. Nothing is claimed of
/// it.
#[verifier::external_body]
fn error_text(e: &jsonwebtoken::errors::Error) -> (text: String) {
    format!("{e}")
}

/// One key of the identity provider's key set, as published.
pub struct JwkEntry {
    pub kid: String,
    pub n: String,
    pub e: String,
}

/// A key that can check the signature of a token.
pub struct JwkKey {
    pub kid: String,
    pub decoding_key: jsonwebtoken::DecodingKey,
}

/// Why a request carries no usable token.
#[derive(Debug)]
pub enum AuthError {
    /// The request has no authorization header.
    MissingHeader,
    /// The header does not start with `Bearer `.
    BadFormat,
    /// The token's header cannot be read; the text says why.
    InvalidHeader(String),
    /// The token names no key.
    MissingKeyId,
    /// The token names a key that the provider has not published.
    UnknownKey,
}

/// The kinds of refusal.
#[derive(Clone, Copy, Debug, PartialEq, Eq, Structural)]
pub enum AuthRefusal {
    MissingHeader,
    BadFormat,
    InvalidHeader,
    MissingKeyId,
    UnknownKey,
}

impl AuthError {
    /// The kind of the refusal.
    pub open spec fn kind(self) -> AuthRefusal {
        match self {
            AuthError::MissingHeader => AuthRefusal::MissingHeader,
            AuthError::BadFormat => AuthRefusal::BadFormat,
            AuthError::InvalidHeader(_) => AuthRefusal::InvalidHeader,
            AuthError::MissingKeyId => AuthRefusal::MissingKeyId,
            AuthError::UnknownKey => AuthRefusal::UnknownKey,
        }
    }

    /// What the refusal says to the caller.
    pub open spec fn text(self) -> Seq<char> {
        match self {
            AuthError::MissingHeader => "Missing Authorization header"@,
            AuthError::BadFormat => "Invalid Authorization header format"@,
            AuthError::InvalidHeader(why) => "Invalid token header: "@ + why@,
            AuthError::MissingKeyId => "Token missing kid"@,
            AuthError::UnknownKey => "No matching JWK for kid"@,
        }
    }

    /// What the refusal says to the caller.
    pub fn message(&self) -> (r: String)
        ensures
            r@ == self.text(),
    {
        match self {
            AuthError::MissingHeader => String::from_str("Missing Authorization header"),
            AuthError::BadFormat => String::from_str("Invalid Authorization header format"),
            AuthError::InvalidHeader(why) => {
                let mut r = String::from_str("Invalid token header: ");
                r.append(why.as_str());
                r
            },
            AuthError::MissingKeyId => String::from_str("Token missing kid"),
            AuthError::UnknownKey => String::from_str("No matching JWK for kid"),
        }
    }

    /// The kind of the refusal.
    pub fn refusal(&self) -> (kind: AuthRefusal)
        ensures
            kind == self.kind(),
    {
        match self {
            AuthError::MissingHeader => AuthRefusal::MissingHeader,
            AuthError::BadFormat => AuthRefusal::BadFormat,
            AuthError::InvalidHeader(_) => AuthRefusal::InvalidHeader,
            AuthError::MissingKeyId => AuthRefusal::MissingKeyId,
            AuthError::UnknownKey => AuthRefusal::UnknownKey,
        }
    }
}

/// The token and the key that checks it.
pub struct KeyChoice {
    pub token: String,
    /// The place of the key among the published keys.
    pub key: usize,
}

/// What follows `Bearer ` in an authorization header, if the header starts
/// with it.
pub open spec fn after_bearer(header: Seq<char>) -> Option<Seq<char>> {
    if header.len() >= 7 && header.take(7) == "Bearer "@ {
        Some(header.skip(7))
    } else {
        None
    }
}

/// What follows `Bearer ` in an authorization header, if the header starts
/// with it.
pub fn bearer_token(header: &str) -> (token: Option<String>)
    ensures
        opt_chars(token) == after_bearer(header@),
{
    let n = header.unicode_len();
    if n < 7 {
        return None;
    }
    let scheme = header.substring_char(0, 7);
    assert(header@.subrange(0, 7) =~= header@.take(7));
    if !same_text(scheme, "Bearer ") {
        return None;
    }
    let rest = header.substring_char(7, n);
    assert(header@.subrange(7, n as int) =~= header@.skip(7));
    Some(String::from_str(rest))
}

/// Whether a published key names itself, its modulus and its exponent.
pub open spec fn is_complete(entry: JwkEntry) -> bool {
    entry.kid@.len() > 0 && entry.n@.len() > 0 && entry.e@.len() > 0
}

/// The published keys that become keys: those that are complete and whose
/// modulus and exponent decode.
pub open spec fn becomes_key() -> spec_fn(JwkEntry) -> bool {
    |entry: JwkEntry| is_complete(entry) && rsa_components_key(entry.n@, entry.e@) is Some
}

/// The key that a published key becomes: its id with the key that its modulus
/// and exponent decode to.
pub open spec fn key_of(entry: JwkEntry) -> JwkKey {
    JwkKey { kid: entry.kid, decoding_key: rsa_components_key(entry.n@, entry.e@)->0 }
}

/// The keys that published keys become, in their order.
pub open spec fn keys_of_entries(entries: Seq<JwkEntry>) -> Seq<JwkKey> {
    entries.filter(becomes_key()).map_values(|entry: JwkEntry| key_of(entry))
}

/// Adds to `keys` the key that a published key gave, if it gave one.
pub fn keep_key(
    keys: &mut Vec<JwkKey>,
    kid: String,
    decoded: Result<jsonwebtoken::DecodingKey, jsonwebtoken::errors::Error>,
)
    ensures
        match decoded {
            Ok(key) => final(keys)@ == old(keys)@.push(JwkKey { kid, decoding_key: key }),
            Err(_) => final(keys)@ == old(keys)@,
        },
{
    match decoded {
        Ok(decoding_key) => {
            keys.push(JwkKey { kid, decoding_key });
        },
        Err(_) => {},
    }
}

/// The keys that a published key set gives, in its order: each with the id of
/// its entry and the key that the entry's modulus and exponent decode to. A
/// key without an id, a modulus or an exponent is passed over, and so is one
/// whose modulus or exponent does not decode.
pub fn build_jwks(entries: Vec<JwkEntry>) -> (keys: Vec<JwkKey>)
    ensures
        keys@ == keys_of_entries(entries@),
{
    let ghost all = entries@;
    let mut keys: Vec<JwkKey> = Vec::new();
    proof {
        lemma_filter_none(all, becomes_key());
        assert(keys@ =~= keys_of_entries(all.take(0)));
    }
    for entry in it: entries.into_iter()
        invariant
            it.seq() == all,
            keys@ == keys_of_entries(all.take(it.index() as int)),
    {
        proof {
            lemma_filter_next(all, becomes_key(), it.index() as int);
        }
        let ghost before = keys@;
        let ghost picked = all.take(it.index() as int).filter(becomes_key());
        let ghost this = entry;
        if !entry.kid.as_str().is_empty() && !entry.n.as_str().is_empty()
            && !entry.e.as_str().is_empty() {
            let decoded = rsa_key(entry.n.as_str(), entry.e.as_str());
            let ghost accepted = decoded is Ok;
            keep_key(&mut keys, entry.kid, decoded);
            proof {
                if accepted {
                    assert(keys@ == before.push(key_of(this)));
                    assert(picked.push(this).map_values(|e: JwkEntry| key_of(e))
                        =~= picked.map_values(|e: JwkEntry| key_of(e)).push(key_of(this)));
                }
            }
        }
        assert(keys@ =~= keys_of_entries(all.take(it.index() as int + 1)));
    }
    proof {
        lemma_take_all(all);
    }
    keys
}

/// The place of the first key with the id, if there is one.
pub open spec fn has_key(keys: Seq<JwkKey>, kid: Seq<char>) -> bool {
    exists|i: int| 0 <= i < keys.len() && (#[trigger] keys[i]).kid@ == kid
}

/// The place of the first key with the id, if there is one.
pub fn find_jwk(keys: &Vec<JwkKey>, kid: &str) -> (r: Option<usize>)
    ensures
        r is Some == has_key(keys@, kid@),
        r is Some ==> r->0 < keys@.len() && keys@[r->0 as int].kid@ == kid@ && forall|j: int|
            0 <= j < r->0 ==> (#[trigger] keys@[j]).kid@ != kid@,
{
    let n = keys.len();
    let mut i: usize = 0;
    while i < n
        invariant
            0 <= i <= n,
            n == keys@.len(),
            forall|j: int| 0 <= j < i ==> (#[trigger] keys@[j]).kid@ != kid@,
        decreases n - i,
    {
        if same_text(keys[i].kid.as_str(), kid) {
            return Some(i);
        }
        i += 1;
    }
    None
}

/// What reading the key id of a token gave, and what is made of it.
///
/// `read` is what the token's header gave: an error, no key id, or a key id.
pub fn choose_key(
    token: String,
    read: Result<Option<String>, jsonwebtoken::errors::Error>,
    keys: &Vec<JwkKey>,
) -> (r: Result<KeyChoice, AuthError>)
    ensures
        match read {
            Err(_) => r is Err && r->Err_0.kind() == AuthRefusal::InvalidHeader,
            Ok(None) => r is Err && r->Err_0.kind() == AuthRefusal::MissingKeyId,
            Ok(Some(kid)) => if has_key(keys@, kid@) {
                &&& r is Ok
                &&& r->Ok_0.token == token
                &&& r->Ok_0.key < keys@.len()
                &&& keys@[r->Ok_0.key as int].kid@ == kid@
                &&& forall|j: int| 0 <= j < r->Ok_0.key ==> (#[trigger] keys@[j]).kid@ != kid@
            } else {
                r is Err && r->Err_0.kind() == AuthRefusal::UnknownKey
            },
        },
{
    match read {
        Err(e) => Err(AuthError::InvalidHeader(error_text(&e))),
        Ok(None) => Err(AuthError::MissingKeyId),
        Ok(Some(kid)) => match find_jwk(keys, kid.as_str()) {
            Some(key) => Ok(KeyChoice { token, key }),
            None => Err(AuthError::UnknownKey),
        },
    }
}

/// What the first steps of signing a caller in come to, given the
/// authorization header of the request and the published keys: the token and
/// the key id that it names, or the kind of refusal.
pub open spec fn selection(header: Option<Seq<char>>, keys: Seq<JwkKey>) -> Result<
    (Seq<char>, Seq<char>),
    AuthRefusal,
> {
    match header {
        None => Err(AuthRefusal::MissingHeader),
        Some(h) => match after_bearer(h) {
            None => Err(AuthRefusal::BadFormat),
            Some(token) => match header_key_id(token) {
                None => Err(AuthRefusal::InvalidHeader),
                Some(None) => Err(AuthRefusal::MissingKeyId),
                Some(Some(kid)) => if has_key(keys, kid) {
                    Ok((token, kid))
                } else {
                    Err(AuthRefusal::UnknownKey)
                },
            },
        },
    }
}

/// Reads the bearer token out of an authorization header and picks the key
/// that the token names: the first published key with the id in the token's
/// header.
///
/// Whether the token is genuine is not settled here: that is for whoever
/// checks its signature with the key.
pub fn select_key(header: Option<&str>, keys: &Vec<JwkKey>) -> (r: Result<KeyChoice, AuthError>)
    ensures
        match selection(chars_of(header), keys@) {
            Ok((token, kid)) => {
                &&& r is Ok
                &&& r->Ok_0.token@ == token
                &&& r->Ok_0.key < keys@.len()
                &&& keys@[r->Ok_0.key as int].kid@ == kid
                &&& forall|j: int| 0 <= j < r->Ok_0.key ==> (#[trigger] keys@[j]).kid@ != kid
            },
            Err(e) => r is Err && r->Err_0.kind() == e,
        },
{
    let header = match header {
        Some(h) => h,
        None => {
            return Err(AuthError::MissingHeader);
        },
    };
    let token = match bearer_token(header) {
        Some(t) => t,
        None => {
            return Err(AuthError::BadFormat);
        },
    };
    let read = token_key_id(token.as_str());
    choose_key(token, read, keys)
}

} // verus!
