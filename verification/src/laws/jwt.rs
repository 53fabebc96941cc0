//! Laws of access tokens.
use crate::json::{parsed_bytes, JsonView};
use crate::jwt::{
    claimed_account, padded, padding, payload_bytes, standard_bytes, token_account, token_payload,
    url_safe_bytes,
};
use crate::laws::text::{joined, law_first_and_last_place};
use crate::text::{first_index, split};
use vstd::prelude::*;
use vstd::utf8::encode_utf8;

verus! {

/// Each appended padding character takes one byte.
proof fn lemma_encode_padding(text: Seq<char>, n: nat)
    ensures
        encode_utf8(text + Seq::new(n, |i: int| '=')).len() == encode_utf8(text).len() + n,
    decreases text.len(), n,
{
    let pad = Seq::new(n, |i: int| '=');
    let all = text + pad;
    if text.len() == 0 {
        assert(all =~= pad);
        assert(vstd::utf8::is_ascii_chars(pad));
        vstd::utf8::is_ascii_chars_encode_utf8(pad);
        assert(encode_utf8(text).len() == 0);
    } else {
        assert(all.drop_first() =~= text.drop_first() + pad);
        lemma_encode_padding(text.drop_first(), n);
    }
}

/// A padded payload has a multiple of four bytes, and at most three of them are padding.
pub proof fn law_padded_to_four(text: Seq<char>)
    ensures
        encode_utf8(padded(text)).len() % 4 == 0,
        encode_utf8(padded(text)).len() - encode_utf8(text).len() <= 3,
{
    lemma_encode_padding(text, padding(encode_utf8(text).len()));
}

/// Only a token of three parts has an account.
pub proof fn law_token_has_three_parts(token: Seq<char>)
    ensures
        token_account(token) is Some ==> split(token, '.').len() == 3,
{
}

proof fn lemma_split_one(text: Seq<char>, c: char)
    requires
        forall|i: int| 0 <= i < text.len() ==> text[i] != c,
    ensures
        split(text, c) == seq![text],
{
    law_first_and_last_place(text, c);
}

proof fn lemma_split_step(part: Seq<char>, c: char, rest: Seq<char>)
    requires
        forall|i: int| 0 <= i < part.len() ==> part[i] != c,
    ensures
        split(part + seq![c] + rest, c) == seq![part] + split(rest, c),
{
    let all = part + seq![c] + rest;
    let at = part.len() as int;
    law_first_and_last_place(all, c);
    assert(all[at] == c);
    assert(forall|i: int| 0 <= i < at ==> all[i] != c);
    assert(first_index(all, c) == Some(at));
    assert(all.take(at) =~= part);
    assert(all.skip(at + 1) =~= rest);
}

/// The payload of a token is its middle part with up to three equals signs behind it, so many
/// that its length in bytes is a multiple of four.
pub proof fn law_payload_is_the_middle_part(
    head: Seq<char>,
    payload: Seq<char>,
    signature: Seq<char>,
)
    requires
        forall|i: int| 0 <= i < head.len() ==> head[i] != '.',
        forall|i: int| 0 <= i < payload.len() ==> payload[i] != '.',
        forall|i: int| 0 <= i < signature.len() ==> signature[i] != '.',
    ensures
        token_payload(head + seq!['.'] + (payload + seq!['.'] + signature)) matches Some(text) && {
            &&& text.take(payload.len() as int) == payload
            &&& payload.len() <= text.len() <= payload.len() + 3
            &&& forall|i: int| payload.len() <= i < text.len() ==> text[i] == '='
            &&& encode_utf8(text).len() % 4 == 0
        },
{
    let token = head + seq!['.'] + (payload + seq!['.'] + signature);
    lemma_split_one(signature, '.');
    lemma_split_step(payload, '.', signature);
    lemma_split_step(head, '.', payload + seq!['.'] + signature);
    assert(split(token, '.') =~= seq![head, payload, signature]);
    let text = padded(payload);
    law_padded_to_four(payload);
    assert(text.take(payload.len() as int) =~= payload);
}

/// A token that is not of three parts has no payload.
pub proof fn law_other_tokens_have_no_payload(parts: Seq<Seq<char>>)
    requires
        parts.len() != 3,
        parts.len() > 0,
        forall|i: int, j: int|
            0 <= i < parts.len() && 0 <= j < parts[i].len() ==> #[trigger] parts[i][j] != '.',
    ensures
        token_payload(joined(parts, '.')) is None,
        token_account(joined(parts, '.')) is None,
{
    lemma_split_joined(parts, '.');
}

proof fn lemma_split_joined(parts: Seq<Seq<char>>, c: char)
    requires
        parts.len() > 0,
        forall|i: int, j: int|
            0 <= i < parts.len() && 0 <= j < parts[i].len() ==> #[trigger] parts[i][j] != c,
    ensures
        split(joined(parts, c), c) == parts,
    decreases parts.len(),
{
    assert(forall|j: int| 0 <= j < parts[0].len() ==> parts[0][j] != c);
    if parts.len() == 1 {
        lemma_split_one(parts[0], c);
        assert(seq![parts[0]] =~= parts);
    } else {
        let rest = parts.skip(1);
        assert forall|i: int, j: int|
            0 <= i < rest.len() && 0 <= j < rest[i].len() implies #[trigger] rest[i][j] != c by {
            assert(rest[i] == parts[i + 1]);
            assert(parts[i + 1][j] != c);
        }
        lemma_split_joined(rest, c);
        lemma_split_step(parts[0], c, joined(rest, c));
        assert(seq![parts[0]] + rest =~= parts);
    }
}

/// The URL-safe alphabet is tried first, and the standard one only where it fails.
pub proof fn law_alphabets_in_order(payload: Seq<char>)
    ensures
        url_safe_bytes(payload) is Some ==> payload_bytes(payload) == url_safe_bytes(payload),
        url_safe_bytes(payload) is None ==> payload_bytes(payload) == standard_bytes(payload),
{
}

/// The account of claims is the text under `chatgpt_account_id` in the object under
/// `https://api.openai.com/auth`; without such a text there is none.
pub proof fn law_account_is_claimed(
    claims: Map<Seq<char>, JsonView>,
    auth: Map<Seq<char>, JsonView>,
    account: Seq<char>,
)
    requires
        claims.contains_key("https://api.openai.com/auth"@),
        claims["https://api.openai.com/auth"@] == JsonView::Object(auth),
    ensures
        auth.contains_key("chatgpt_account_id"@) && auth["chatgpt_account_id"@] == JsonView::Text(
            account,
        ) ==> claimed_account(JsonView::Object(claims)) == Some(account),
        !auth.contains_key("chatgpt_account_id"@) || auth["chatgpt_account_id"@] !is Text
            ==> claimed_account(JsonView::Object(claims)) is None,
{
}

/// Claims that are no object, or hold no object under `https://api.openai.com/auth`, name no
/// account.
pub proof fn law_no_claim_no_account(claims: JsonView)
    ensures
        claims !is Object ==> claimed_account(claims) is None,
        claims matches JsonView::Object(fields) ==> (!fields.contains_key(
            "https://api.openai.com/auth"@,
        ) || fields["https://api.openai.com/auth"@] !is Object ==> claimed_account(claims)
            is None),
{
}

/// The account of a token is the one that its decoded payload claims, and it has none where the
/// payload, its bytes or its claims cannot be read.
pub proof fn law_account_comes_from_the_payload(token: Seq<char>, payload: Seq<char>)
    ensures
        token_payload(token) == Some(payload) ==> {
            &&& payload_bytes(payload) is None ==> token_account(token) is None
            &&& payload_bytes(payload) matches Some(bytes) ==> {
                &&& parsed_bytes(bytes) is None ==> token_account(token) is None
                &&& parsed_bytes(bytes) matches Some(claims) ==> token_account(token)
                    == claimed_account(claims)
            }
        },
        token_payload(token) is None ==> token_account(token) is None,
{
}

} // verus!
