//! Why no events came out of a request.
use crate::message::{events, EventView, LlmEvent};
use crate::text::decimal;
use vstd::prelude::*;
use vstd::string::{StringExecFns, StringSliceAdditionalSpecFns};
use vstd::utf8::{decode_utf8, encode_utf8, is_char_boundary};

verus! {

/// The services that a model is reached through.
#[derive(Debug, Clone, Copy, PartialEq, Eq, Structural)]
pub enum Service {
    Anthropic,
    OpenAi,
    Gemini,
}

/// The name of a service in error texts.
pub open spec fn service_name(service: Service) -> Seq<char> {
    match service {
        Service::Anthropic => "Anthropic"@,
        Service::OpenAi => "OpenAI"@,
        Service::Gemini => "Gemini"@,
    }
}

/// Why no events came out of a request.
#[derive(Debug)]
pub enum LlmError {
    /// An Anthropic reply has no content array.
    MissingContent,
    /// A chat completion has no choice.
    NoChoices,
    /// The choice of a chat completion has no message.
    NoMessage,
    /// A Gemini reply has no candidate.
    MissingCandidates,
    /// A Gemini reply is an error envelope with this message.
    GeminiError(String),
    /// An event stream, which is this text, has no output item.
    NoOutputItems(String),
    /// The request was not answered, for this reason.
    Unanswered(String),
    /// The answer could not be read, for this reason.
    Unreadable(String),
    /// The answer is no JSON value, for this reason.
    Unparsed(String),
    /// The service answered with an error status and this body.
    Refused { service: Service, status: u16, body: String },
}

/// What an error is.
pub enum ErrorView {
    MissingContent,
    NoChoices,
    NoMessage,
    MissingCandidates,
    GeminiError(Seq<char>),
    NoOutputItems(Seq<char>),
    Unanswered(Seq<char>),
    Unreadable(Seq<char>),
    Unparsed(Seq<char>),
    Refused { service: Service, status: u16, body: Seq<char> },
}

impl View for LlmError {
    type V = ErrorView;

    open spec fn view(&self) -> ErrorView {
        match *self {
            LlmError::MissingContent => ErrorView::MissingContent,
            LlmError::NoChoices => ErrorView::NoChoices,
            LlmError::NoMessage => ErrorView::NoMessage,
            LlmError::MissingCandidates => ErrorView::MissingCandidates,
            LlmError::GeminiError(text) => ErrorView::GeminiError(text@),
            LlmError::NoOutputItems(text) => ErrorView::NoOutputItems(text@),
            LlmError::Unanswered(text) => ErrorView::Unanswered(text@),
            LlmError::Unreadable(text) => ErrorView::Unreadable(text@),
            LlmError::Unparsed(text) => ErrorView::Unparsed(text@),
            LlmError::Refused { service, status, body } => ErrorView::Refused {
                service,
                status,
                body: body@,
            },
        }
    }
}

/// What the outcome of reading a reply is.
pub open spec fn outcome(r: Result<Vec<LlmEvent>, LlmError>) -> Result<Seq<EventView>, ErrorView> {
    match r {
        Ok(list) => Ok(events(list@)),
        Err(error) => Err(error@),
    }
}

/// How many bytes of an event stream an error text quotes at most.
pub const EXCERPT_LIMIT: usize = 500;

/// The text can be cut behind its first `EXCERPT_LIMIT` bytes, if it has more.
pub open spec fn can_cut(text: Seq<char>) -> bool {
    encode_utf8(text).len() > EXCERPT_LIMIT ==> is_char_boundary(
        encode_utf8(text),
        EXCERPT_LIMIT as int,
    )
}

/// The first `EXCERPT_LIMIT` bytes of a text.
pub open spec fn excerpt(text: Seq<char>) -> Seq<char> {
    if encode_utf8(text).len() > EXCERPT_LIMIT {
        decode_utf8(encode_utf8(text).subrange(0, EXCERPT_LIMIT as int))
    } else {
        text
    }
}

/// Whether a text can be cut behind its first `EXCERPT_LIMIT` bytes, if it has more.
pub fn is_quotable(text: &str) -> (r: bool)
    ensures
        r == can_cut(text@),
{
    text.as_bytes().len() <= EXCERPT_LIMIT || text.is_char_boundary(EXCERPT_LIMIT)
}

/// The first `EXCERPT_LIMIT` bytes of a text.
fn quote(text: &str) -> (r: String)
    requires
        can_cut(text@),
    ensures
        r@ == excerpt(text@),
{
    if text.as_bytes().len() <= EXCERPT_LIMIT {
        return text.to_owned();
    }
    let (head, _) = text.split_at(EXCERPT_LIMIT);
    proof {
        vstd::utf8::encode_utf8_decode_utf8(head@);
        assert(head.spec_bytes() == encode_utf8(text@).subrange(0, EXCERPT_LIMIT as int));
    }
    head.to_owned()
}

/// The reason phrase of a status code.
pub uninterp spec fn reason_phrase(code: u16) -> Seq<char>;

/// `to_string` of a `reqwest::StatusCode`: the code, a space and the reason phrase.
#[verifier::external_body]
fn status_line(code: u16) -> (r: String)
    requires
        100 <= code <= 999,
    ensures
        r@ == decimal(code as nat) + " "@ + reason_phrase(code),
{
    reqwest::StatusCode::from_u16(code).unwrap().to_string()
}

impl ErrorView {
    /// The error has a text: a status code has three digits, and what is quoted can be cut.
    pub open spec fn printable(self) -> bool {
        match self {
            ErrorView::NoOutputItems(raw) => can_cut(raw),
            ErrorView::Refused { status, .. } => 100 <= status <= 999,
            _ => true,
        }
    }

    /// The text of the error.
    pub open spec fn message(self) -> Seq<char> {
        match self {
            ErrorView::MissingContent => "missing content in response"@,
            ErrorView::NoChoices => "No choices in response"@,
            ErrorView::NoMessage => "No message"@,
            ErrorView::MissingCandidates => "missing candidates in response"@,
            ErrorView::GeminiError(text) => "Gemini API error: "@ + text,
            ErrorView::NoOutputItems(raw) => "No output items in SSE stream. Raw: "@ + excerpt(raw),
            ErrorView::Unanswered(reason) => "HTTP request failed: "@ + reason,
            ErrorView::Unreadable(reason) => "Failed to read response: "@ + reason,
            ErrorView::Unparsed(reason) => "Failed to parse response: "@ + reason,
            ErrorView::Refused { service, status, body } => service_name(service) + " API error "@
                + (decimal(status as nat) + " "@ + reason_phrase(status)) + ": "@ + body,
        }
    }
}

impl LlmError {
    /// The text of the error.
    pub fn message(&self) -> (r: String)
        requires
            self@.printable(),
        ensures
            r@ == self@.message(),
    {
        match self {
            LlmError::MissingContent => "missing content in response".to_owned(),
            LlmError::NoChoices => "No choices in response".to_owned(),
            LlmError::NoMessage => "No message".to_owned(),
            LlmError::MissingCandidates => "missing candidates in response".to_owned(),
            LlmError::GeminiError(text) => "Gemini API error: ".to_owned().concat(text.as_str()),
            LlmError::NoOutputItems(raw) => {
                "No output items in SSE stream. Raw: ".to_owned().concat(
                    quote(raw.as_str()).as_str(),
                )
            },
            LlmError::Unanswered(reason) => {
                "HTTP request failed: ".to_owned().concat(reason.as_str())
            },
            LlmError::Unreadable(reason) => {
                "Failed to read response: ".to_owned().concat(reason.as_str())
            },
            LlmError::Unparsed(reason) => {
                "Failed to parse response: ".to_owned().concat(reason.as_str())
            },
            LlmError::Refused { service, status, body } => {
                let name = match service {
                    Service::Anthropic => "Anthropic",
                    Service::OpenAi => "OpenAI",
                    Service::Gemini => "Gemini",
                };
                name.to_owned().concat(" API error ").concat(status_line(*status).as_str()).concat(
                    ": ",
                ).concat(body.as_str())
            },
        }
    }
}

} // verus!
