//! Laws of what the contracts speak of: nothing of a value is left out of its view.
use crate::error::{outcome, ErrorView, LlmError};
use crate::json::{optional_model, optional_text, Json};
use crate::jwt::optional_bytes;
use crate::message::{events, optional, LlmEvent};
use crate::proxy::{address, value_texts, ConnectError, ConnectStep, ConnectView};
use crate::settings::header_texts;
use crate::text::texts;
use vstd::prelude::*;

verus! {

/// What is there is taken as it is, and what is not there as nothing.
pub proof fn law_optional_values(
    text: String,
    slice: &str,
    value: &Json,
    bytes: Vec<u8>,
    host: String,
    port: u16,
)
    ensures
        optional(Some(text)) == Some(text@),
        optional(None) is None,
        optional_text(Some(slice)) == Some(slice@),
        optional_text(None) is None,
        optional_model(Some(value)) == Some(value@),
        optional_model(None) is None,
        optional_bytes(Some(bytes)) == Some(bytes@),
        optional_bytes(None) is None,
        address(Some((host, port))) == Some((host@, port)),
        address(None) is None,
{
}

/// Each text of a list is taken in its place.
pub proof fn law_texts_keep_their_places(
    list: Seq<String>,
    headers: Seq<(String, String)>,
    values: Seq<Option<String>>,
)
    ensures
        texts(list).len() == list.len(),
        forall|i: int| 0 <= i < list.len() ==> (#[trigger] texts(list)[i]) == list[i]@,
        header_texts(headers).len() == headers.len(),
        forall|i: int|
            0 <= i < headers.len() ==> (#[trigger] header_texts(headers)[i]).0 == headers[i].0@
                && header_texts(headers)[i].1 == headers[i].1@,
        value_texts(values).len() == values.len(),
        forall|i: int|
            0 <= i < values.len() ==> ((#[trigger] value_texts(values)[i]) is Some <==> values[i]
                is Some) && (values[i] matches Some(text) ==> value_texts(values)[i] == Some(
                text@,
            )),
{
}

/// An outcome is its events in their order, or its error with all that the error holds.
pub proof fn law_outcome_is_events_or_error(list: Vec<LlmEvent>, error: LlmError)
    ensures
        outcome(Ok(list)) == Ok::<_, ErrorView>(events(list@)),
        outcome(Err(error)) == Err::<Seq<crate::message::EventView>, _>(error@),
{
}

/// An error is its variant with what it holds.
pub proof fn law_error_is_what_it_holds(error: LlmError)
    ensures
        error is MissingContent <==> error@ is MissingContent,
        error is NoChoices <==> error@ is NoChoices,
        error is NoMessage <==> error@ is NoMessage,
        error is MissingCandidates <==> error@ is MissingCandidates,
        error matches LlmError::GeminiError(text) ==> error@ == ErrorView::GeminiError(text@),
        error matches LlmError::NoOutputItems(text) ==> error@ == ErrorView::NoOutputItems(text@),
        error matches LlmError::Unanswered(text) ==> error@ == ErrorView::Unanswered(text@),
        error matches LlmError::Unreadable(text) ==> error@ == ErrorView::Unreadable(text@),
        error matches LlmError::Unparsed(text) ==> error@ == ErrorView::Unparsed(text@),
        error matches LlmError::Refused { service, status, body } ==> {
            &&& error@ matches ErrorView::Refused {
                service: service_view,
                status: status_view,
                body: body_view,
            }
            &&& service_view == service
            &&& status_view == status
            &&& body_view == body@
        },
{
}

/// A step of a handshake is its variant; a refusal holds the proxy's line.
pub proof fn law_step_is_what_it_holds(step: ConnectStep, line: String)
    ensures
        step is ReadMore <==> step@ is ReadMore,
        step is Established <==> step@ is Established,
        ConnectStep::Failed(ConnectError::Closed)@ is Closed,
        ConnectStep::Failed(ConnectError::TooLarge)@ is TooLarge,
        ConnectStep::Failed(ConnectError::Rejected(line))@ == ConnectView::Rejected(line@),
{
}

/// A signal is its variant with what it holds, and so is a next step.
pub proof fn law_signal_is_what_it_holds(
    status: u16,
    text: String,
    value: Json,
    delay: u64,
    end: Result<Vec<LlmEvent>, LlmError>,
)
    ensures
        crate::exchange::Signal::Status(status)@ == crate::exchange::SignalView::Status(status),
        crate::exchange::Signal::Unanswered(text)@ == crate::exchange::SignalView::Unanswered(
            text@,
        ),
        crate::exchange::Signal::ErrorBody(text)@ == crate::exchange::SignalView::ErrorBody(text@),
        crate::exchange::Signal::Json(value)@ == crate::exchange::SignalView::Json(value@),
        crate::exchange::Signal::NotJson(text)@ == crate::exchange::SignalView::NotJson(text@),
        crate::exchange::Signal::Text(text)@ == crate::exchange::SignalView::Text(text@),
        crate::exchange::Signal::NotText(text)@ == crate::exchange::SignalView::NotText(text@),
        crate::exchange::Next::Wait(delay)@ == crate::exchange::NextView::Wait(delay),
        crate::exchange::Next::Refresh@ is Refresh,
        crate::exchange::Next::ReadError@ is ReadError,
        crate::exchange::Next::ReadReply@ is ReadReply,
        crate::exchange::Next::Done(end)@ == crate::exchange::NextView::Done(outcome(end)),
{
}

} // verus!
