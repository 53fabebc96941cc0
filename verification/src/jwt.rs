//! The account that an access token belongs to.
use crate::json::{parsed_bytes, Json, JsonView};
use crate::message::optional;
use crate::text::{split, split_text, texts};
use vstd::prelude::*;
use vstd::utf8::encode_utf8;

verus! {

/// The bytes that a padded base64 text in the URL-safe alphabet stands for.
pub uninterp spec fn url_safe_bytes(text: Seq<char>) -> Option<Seq<u8>>;

/// The bytes that a padded base64 text in the standard alphabet stands for.
pub uninterp spec fn standard_bytes(text: Seq<char>) -> Option<Seq<u8>>;

/// What optional bytes are.
pub open spec fn optional_bytes(bytes: Option<Vec<u8>>) -> Option<Seq<u8>> {
    match bytes {
        Some(bytes) => Some(bytes@),
        None => None,
    }
}

/// `base64::Engine::decode` of `URL_SAFE`.
#[verifier::external_body]
fn decode_url_safe(text: &str) -> (r: Option<Vec<u8>>)
    ensures
        optional_bytes(r) == url_safe_bytes(text@),
{
    base64::Engine::decode(&base64::engine::general_purpose::URL_SAFE, text).ok()
}

/// `base64::Engine::decode` of `STANDARD`.
#[verifier::external_body]
fn decode_standard(text: &str) -> (r: Option<Vec<u8>>)
    ensures
        optional_bytes(r) == standard_bytes(text@),
{
    base64::Engine::decode(&base64::engine::general_purpose::STANDARD, text).ok()
}

/// How many padding characters bring a length to a multiple of four.
pub open spec fn padding(len: nat) -> nat {
    ((4 - len % 4) % 4) as nat
}

/// A text padded to a multiple of four bytes.
pub open spec fn padded(text: Seq<char>) -> Seq<char> {
    text + Seq::new(padding(encode_utf8(text).len()), |i: int| '=')
}

/// The padded payload of a token: the middle one of three parts.
pub open spec fn token_payload(token: Seq<char>) -> Option<Seq<char>> {
    let parts = split(token, '.');
    if parts.len() == 3 {
        Some(padded(parts[1]))
    } else {
        None
    }
}

/// The bytes of a payload, in the URL-safe alphabet or else in the standard one.
pub open spec fn payload_bytes(payload: Seq<char>) -> Option<Seq<u8>> {
    match url_safe_bytes(payload) {
        Some(bytes) => Some(bytes),
        None => standard_bytes(payload),
    }
}

/// The account that a token's claims name.
pub open spec fn claimed_account(claims: JsonView) -> Option<Seq<char>> {
    claims.child("https://api.openai.com/auth"@).text_at("chatgpt_account_id"@)
}

/// The account that a token belongs to.
pub open spec fn token_account(token: Seq<char>) -> Option<Seq<char>> {
    match token_payload(token) {
        Some(payload) => match payload_bytes(payload) {
            Some(bytes) => match parsed_bytes(bytes) {
                Some(claims) => claimed_account(claims),
                None => None,
            },
            None => None,
        },
        None => None,
    }
}

/// The padded payload of a token.
pub fn read_payload(token: &str) -> (r: Option<String>)
    ensures
        optional(r) == token_payload(token@),
{
    let parts = split_text(token, '.');
    assert(texts(parts@).len() == parts@.len());
    if parts.len() != 3 {
        return None;
    }
    let mut payload = parts[1].clone();
    assert(texts(parts@)[1] == payload@);
    let ghost text = payload@;
    let size: usize = payload.as_str().as_bytes().len();
    let missing: usize = (4 - size % 4) % 4;
    let mut i: usize = 0;
    assert(text + Seq::new(0, |i: int| '=') =~= text);
    while i < missing
        invariant
            i <= missing,
            payload@ == text + Seq::new(i as nat, |i: int| '='),
        decreases missing - i,
    {
        payload.push('=');
        i += 1;
        assert(payload@ =~= text + Seq::new(i as nat, |i: int| '='));
    }
    Some(payload)
}

/// The account that a token's claims name.
pub fn read_claims(claims: &Json) -> (r: Option<String>)
    ensures
        optional(r) == claimed_account(claims@),
{
    match claims.get("https://api.openai.com/auth") {
        Some(auth) => match auth.str_at("chatgpt_account_id") {
            Some(account) => Some(account.to_owned()),
            None => None,
        },
        None => None,
    }
}

/// The account that a token belongs to.
pub fn extract_account_id_from_jwt(token: &str) -> (r: Option<String>)
    ensures
        optional(r) == token_account(token@),
{
    let payload = match read_payload(token) {
        Some(payload) => payload,
        None => return None,
    };
    let decoded = match decode_url_safe(payload.as_str()) {
        Some(bytes) => Some(bytes),
        None => decode_standard(payload.as_str()),
    };
    let bytes = match decoded {
        Some(bytes) => bytes,
        None => return None,
    };
    match Json::parse_bytes(bytes.as_slice()) {
        Some(claims) => read_claims(&claims),
        None => None,
    }
}

} // verus!
