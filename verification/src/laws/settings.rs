//! Laws of settings and of error texts.
use crate::error::{can_cut, excerpt, reason_phrase, ErrorView, Service};
use crate::laws::text::law_number_round_trips;
use crate::settings::{checked_key, either, setting, token_limit};
use crate::text::{decimal, unsigned_value};
use vstd::prelude::*;
use vstd::utf8::{decode_utf8, encode_utf8, is_char_boundary};

verus! {

/// A setting that is set counts, though it be empty; the default counts only where none is set.
pub proof fn law_setting_wins_over_default(
    value: Seq<char>,
    other: Option<Seq<char>>,
    default: Seq<char>,
)
    ensures
        setting(Some(value), default) == value,
        setting(None, default) == default,
        either(Some(value), other) == Some(value),
        either(None, other) == other,
{
}

/// A limit on tokens is the number that the setting spells, for every number of 32 bits; else it
/// is 8192.
pub proof fn law_limit_is_the_number_that_is_set(n: u32, text: Seq<char>)
    ensures
        token_limit(Some(decimal(n as nat))) == n,
        token_limit(None) == 8192,
        unsigned_value(text, 0xffff_ffff) is None ==> token_limit(Some(text)) == 8192,
        unsigned_value(text, 0xffff_ffff) matches Some(limit) ==> token_limit(Some(text)) == limit,
{
    law_number_round_trips(n as nat, 0xffff_ffff);
}

/// A key that is set and not empty is taken as it is. A missing and an empty one are refused, each
/// with its own text, which names the variable.
pub proof fn law_key_is_taken_or_refused(key: Seq<char>, variable: Seq<char>)
    ensures
        key.len() > 0 ==> checked_key(Some(key), variable) == Ok::<Seq<char>, Seq<char>>(key),
        key.len() == 0 ==> checked_key(Some(key), variable) == Err::<Seq<char>, Seq<char>>(
            variable + " is empty"@,
        ),
        checked_key(None, variable) == Err::<Seq<char>, Seq<char>>(variable + " not set"@),
{
}

/// A text of up to 500 bytes is quoted whole, and of a longer one the first 500 bytes, which is
/// possible exactly where no character lies across their end.
pub proof fn law_quotation_is_the_beginning(text: Seq<char>)
    ensures
        encode_utf8(text).len() <= 500 ==> can_cut(text) && excerpt(text) == text,
        encode_utf8(text).len() > 500 ==> {
            &&& can_cut(text) <==> is_char_boundary(encode_utf8(text), 500)
            &&& excerpt(text) == decode_utf8(encode_utf8(text).take(500))
        },
{
    if encode_utf8(text).len() > 500 {
        assert(encode_utf8(text).subrange(0, 500) =~= encode_utf8(text).take(500));
    }
}

/// A refusal's text names the service, then the status in digits with its reason phrase, then
/// quotes the body.
pub proof fn law_refusal_text(status: u16, body: Seq<char>)
    ensures
        (ErrorView::Refused { service: Service::Anthropic, status, body }).message()
            == "Anthropic API error "@ + decimal(status as nat) + " "@ + reason_phrase(status)
            + ": "@ + body,
        (ErrorView::Refused { service: Service::OpenAi, status, body }).message()
            == "OpenAI API error "@ + decimal(status as nat) + " "@ + reason_phrase(status)
            + ": "@ + body,
        (ErrorView::Refused { service: Service::Gemini, status, body }).message()
            == "Gemini API error "@ + decimal(status as nat) + " "@ + reason_phrase(status)
            + ": "@ + body,
{
    reveal_strlit("Anthropic");
    reveal_strlit("OpenAI");
    reveal_strlit("Gemini");
    reveal_strlit(" API error ");
    reveal_strlit("Anthropic API error ");
    reveal_strlit("OpenAI API error ");
    reveal_strlit("Gemini API error ");
    assert("Anthropic"@ + " API error "@ =~= "Anthropic API error "@);
    assert("OpenAI"@ + " API error "@ =~= "OpenAI API error "@);
    assert("Gemini"@ + " API error "@ =~= "Gemini API error "@);
    lemma_message_parts("Anthropic API error "@, status, body);
    lemma_message_parts("OpenAI API error "@, status, body);
    lemma_message_parts("Gemini API error "@, status, body);
}

proof fn lemma_message_parts(front: Seq<char>, status: u16, body: Seq<char>)
    ensures
        front + (decimal(status as nat) + " "@ + reason_phrase(status)) + ": "@ + body == front
            + decimal(status as nat) + " "@ + reason_phrase(status) + ": "@ + body,
{
    assert(front + (decimal(status as nat) + " "@ + reason_phrase(status)) =~= front + decimal(
        status as nat,
    ) + " "@ + reason_phrase(status));
}

/// Every other error has a text of its own, in which what the error holds stands at the end.
pub proof fn law_error_texts(held: Seq<char>)
    ensures
        ErrorView::MissingContent.message() == "missing content in response"@,
        ErrorView::NoChoices.message() == "No choices in response"@,
        ErrorView::NoMessage.message() == "No message"@,
        ErrorView::MissingCandidates.message() == "missing candidates in response"@,
        ErrorView::GeminiError(held).message() == "Gemini API error: "@ + held,
        ErrorView::Unanswered(held).message() == "HTTP request failed: "@ + held,
        ErrorView::Unreadable(held).message() == "Failed to read response: "@ + held,
        ErrorView::Unparsed(held).message() == "Failed to parse response: "@ + held,
        encode_utf8(held).len() <= 500 ==> ErrorView::NoOutputItems(held).message()
            == "No output items in SSE stream. Raw: "@ + held,
        encode_utf8(held).len() > 500 ==> ErrorView::NoOutputItems(held).message()
            == "No output items in SSE stream. Raw: "@ + decode_utf8(encode_utf8(held).take(500)),
{
    law_quotation_is_the_beginning(held);
}

/// An error has a text unless its status is not one of three digits, or what it quotes cannot be
/// cut.
pub proof fn law_which_errors_have_a_text(error: ErrorView)
    ensures
        error matches ErrorView::Refused { status, .. } ==> (error.printable() <==> 100 <= status
            <= 999),
        error matches ErrorView::NoOutputItems(raw) ==> (error.printable() <==> encode_utf8(
            raw,
        ).len() <= 500 || is_char_boundary(encode_utf8(raw), 500)),
        error !is Refused && error !is NoOutputItems ==> error.printable(),
{
}

} // verus!
