//! Laws of a request's course: which answers repeat it, and what it ends with.
use crate::error::{ErrorView, Service};
use crate::exchange::{
    awaits, backoff, start, transition, ExchangeView, NextView, Phase, SignalView,
};
use vstd::arithmetic::power2::{lemma2_to64, pow2};
use vstd::prelude::*;

verus! {

/// A request awaits the status of its first answer, without a repetition.
pub proof fn law_request_starts_fresh(service: Service)
    ensures
        start(service).service == service,
        start(service).attempt == 0,
        start(service).phase == Phase::Status,
{
}

/// Every answer that reports a busy service is waited out as long as the request has been
/// repeated less than three times: 429 from all services, 529 from Anthropic and OpenAI, 503 from
/// Gemini. The time doubles from one second on, and then the status of the next answer is
/// awaited.
pub proof fn law_busy_service_is_waited_out(state: ExchangeView, status: u16)
    requires
        state.phase == Phase::Status,
        state.attempt < 3,
        status == 429 || (status == 529 && state.service != Service::Gemini) || (status == 503
            && state.service == Service::Gemini),
    ensures
        ({
            let (next, step) = transition(state, SignalView::Status(status));
            &&& step matches NextView::Wait(delay) && delay == 1000 * pow2(state.attempt)
            &&& next.service == state.service
            &&& next.attempt == state.attempt + 1
            &&& next.phase == Phase::Status
        }),
{
    lemma2_to64();
    reveal_with_fuel(backoff, 4);
}

/// A stale token of OpenAI is refreshed as long as the request has been repeated less than three
/// times, and then the status of the next answer is awaited.
pub proof fn law_stale_token_is_refreshed(state: ExchangeView)
    requires
        state.phase == Phase::Status,
        state.service == Service::OpenAi,
        state.attempt < 3,
    ensures
        ({
            let (next, step) = transition(state, SignalView::Status(401));
            &&& step == NextView::Refresh
            &&& next.service == state.service
            &&& next.attempt == state.attempt + 1
            &&& next.phase == Phase::Status
        }),
{
}

/// A status between 200 and 299 is accepted whatever the service and the attempt: the body is
/// read as a reply.
pub proof fn law_success_is_read(state: ExchangeView, status: u16)
    requires
        200 <= status <= 299,
    ensures
        ({
            let (next, step) = transition(state, SignalView::Status(status));
            &&& step == NextView::ReadReply
            &&& next.service == state.service
            &&& next.attempt == state.attempt
            &&& next.phase == Phase::Reply
        }),
{
}

/// Every other answer is an error, at once: its status is kept, and its body is read. That is any
/// status outside 200 to 299, unless it is one that is still waited out or refreshed.
pub proof fn law_every_other_answer_fails(state: ExchangeView, status: u16)
    requires
        status < 200 || 299 < status,
        state.attempt < 3 ==> {
            &&& status != 429
            &&& status == 529 ==> state.service == Service::Gemini
            &&& status == 503 ==> state.service != Service::Gemini
            &&& status == 401 ==> state.service != Service::OpenAi
        },
    ensures
        ({
            let (next, step) = transition(state, SignalView::Status(status));
            &&& step == NextView::ReadError
            &&& next.service == state.service
            &&& next.attempt == state.attempt
            &&& next.phase == Phase::ErrorBody(status)
        }),
{
}

/// The body of an error answer ends the request with that body, the status that came before it,
/// and the service.
pub proof fn law_error_body_ends(service: Service, attempt: nat, status: u16, body: Seq<char>)
    ensures
        transition(
            ExchangeView { service, attempt, phase: Phase::ErrorBody(status) },
            SignalView::ErrorBody(body),
        ).1 == NextView::Done(Err(ErrorView::Refused { service, status, body })),
{
}

/// A failure of transport ends the request with its own reason, whatever the state.
pub proof fn law_transport_failure_ends(state: ExchangeView, reason: Seq<char>)
    ensures
        transition(state, SignalView::Unanswered(reason)).1 == NextView::Done(
            Err(ErrorView::Unanswered(reason)),
        ),
        transition(state, SignalView::NotJson(reason)).1 == NextView::Done(
            Err(ErrorView::Unparsed(reason)),
        ),
        transition(state, SignalView::NotText(reason)).1 == NextView::Done(
            Err(ErrorView::Unreadable(reason)),
        ),
{
}

/// A reply ends the request with what the parser of its service gives, and with nothing else.
pub proof fn law_reply_ends(state: ExchangeView, reply: crate::json::JsonView, text: Seq<char>)
    ensures
        state.service == Service::Anthropic ==> transition(state, SignalView::Json(reply)).1
            == NextView::Done(crate::anthropic::reply_events(reply)),
        state.service == Service::OpenAi ==> transition(state, SignalView::Json(reply)).1
            == NextView::Done(crate::openai::reply_events(reply)),
        state.service == Service::Gemini ==> transition(state, SignalView::Json(reply)).1
            == NextView::Done(crate::gemini::reply_events(reply)),
        transition(state, SignalView::Text(text)).1 == NextView::Done(
            crate::openai::stream_events(text),
        ),
{
}

/// What a step asks for is awaited after it: after a pause, a refresh and at the start, any
/// answer of three digits or none; after an error, its body; after a success, the reply as the
/// service sends it, JSON or, from OpenAI, text.
pub proof fn law_what_is_asked_for_is_awaited(
    state: ExchangeView,
    status: u16,
    answer: u16,
    body: Seq<char>,
    reply: crate::json::JsonView,
)
    requires
        state.phase == Phase::Status,
        100 <= answer <= 999,
    ensures
        ({
            let (next, step) = transition(state, SignalView::Status(status));
            &&& awaits(state, SignalView::Status(answer))
            &&& awaits(state, SignalView::Unanswered(body))
            &&& (step is Wait || step is Refresh) ==> awaits(next, SignalView::Status(answer))
                && awaits(next, SignalView::Unanswered(body))
            &&& step is ReadError ==> awaits(next, SignalView::ErrorBody(body))
            &&& step is ReadReply && state.service != Service::OpenAi ==> awaits(
                next,
                SignalView::Json(reply),
            ) && awaits(next, SignalView::NotJson(body))
            &&& step is ReadReply && state.service == Service::OpenAi ==> awaits(
                next,
                SignalView::Text(body),
            ) && awaits(next, SignalView::NotText(body))
        }),
{
}

/// Nothing is awaited but what was asked for: a status or its absence while an answer is due, the
/// body of an error after an error, and after a success a reply of the service's own kind.
pub proof fn law_nothing_else_is_awaited(state: ExchangeView, signal: SignalView)
    requires
        awaits(state, signal),
    ensures
        signal is Unanswered ==> state.phase == Phase::Status,
        signal matches SignalView::Status(status) ==> state.phase == Phase::Status && 100 <= status
            <= 999,
        signal is ErrorBody ==> state.phase is ErrorBody,
        signal is Json || signal is NotJson ==> state.phase == Phase::Reply && state.service
            != Service::OpenAi,
        signal is Text || signal is NotText ==> state.phase == Phase::Reply && state.service
            == Service::OpenAi,
{
}

} // verus!
