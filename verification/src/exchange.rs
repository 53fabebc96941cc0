//! The course of a request to a model: when it is repeated, and what comes of it.
use crate::anthropic;
use crate::anthropic::parse_anthropic_response;
use crate::error::{outcome, ErrorView, LlmError, Service};
use crate::gemini;
use crate::gemini::parse_gemini_response;
use crate::json::{Json, JsonView};
use crate::message::{EventView, LlmEvent};
use crate::openai;
use crate::openai::{parse_openai_response, read_stream};
use vstd::prelude::*;

verus! {

/// How often a request is repeated at most.
pub const MAX_RETRIES: u32 = 3;

/// What an answer's status calls for.
#[derive(Debug, Clone, Copy, PartialEq, Eq, Structural)]
pub enum Verdict {
    /// Wait this many milliseconds, then repeat the request.
    Wait(u64),
    /// Refresh the access token, then repeat the request.
    Refresh,
    /// The body is the text of an error.
    Fail,
    /// The body is a reply.
    Accept,
}

/// The service is overloaded or limits the rate of requests.
pub open spec fn is_busy(service: Service, status: u16) -> bool {
    status == 429 || status == match service {
        Service::Anthropic => 529u16,
        Service::OpenAi => 529u16,
        Service::Gemini => 503u16,
    }
}

/// How many milliseconds to wait after an attempt: one second after the first, then twice as long
/// each time.
pub open spec fn backoff(attempt: nat) -> nat
    decreases attempt,
{
    if attempt == 0 {
        1000
    } else {
        2 * backoff((attempt - 1) as nat)
    }
}

/// What a status calls for after a number of repetitions.
pub open spec fn verdict(service: Service, attempt: nat, status: u16) -> Verdict {
    if is_busy(service, status) && attempt < MAX_RETRIES {
        Verdict::Wait(backoff(attempt) as u64)
    } else if service == Service::OpenAi && status == 401 && attempt < MAX_RETRIES {
        Verdict::Refresh
    } else if 200 <= status < 300 {
        Verdict::Accept
    } else {
        Verdict::Fail
    }
}

/// The request is repeated.
pub open spec fn repeats(verdict: Verdict) -> bool {
    verdict is Wait || verdict is Refresh
}

/// What is awaited.
#[derive(Debug, Clone, Copy, PartialEq, Eq, Structural)]
pub enum Phase {
    /// The status of an answer.
    Status,
    /// The body of an answer with this error status.
    ErrorBody(u16),
    /// The body of a reply.
    Reply,
    /// Nothing any more.
    Nothing,
}

/// What happened outside.
#[derive(Debug)]
pub enum Signal {
    /// The request could not be sent, or was not answered, for this reason.
    Unanswered(String),
    /// An answer with this status came.
    Status(u16),
    /// The body of an error answer is this text.
    ErrorBody(String),
    /// The body of a reply is this JSON value.
    Json(Json),
    /// The body of a reply is no JSON value, for this reason.
    NotJson(String),
    /// The body of a reply is this text.
    Text(String),
    /// The body of a reply could not be read as text, for this reason.
    NotText(String),
}

/// What to do next.
#[derive(Debug)]
pub enum Next {
    /// Wait this many milliseconds, then send the request again.
    Wait(u64),
    /// Refresh the access token, then send the request again.
    Refresh,
    /// Read the body of the error answer.
    ReadError,
    /// Read the body of the reply: as text for OpenAI, as JSON for the others.
    ReadReply,
    /// The request has come to this end.
    Done(Result<Vec<LlmEvent>, LlmError>),
}

/// What a signal is.
pub enum SignalView {
    Unanswered(Seq<char>),
    Status(u16),
    ErrorBody(Seq<char>),
    Json(JsonView),
    NotJson(Seq<char>),
    Text(Seq<char>),
    NotText(Seq<char>),
}

/// What the next thing to do is.
pub enum NextView {
    Wait(u64),
    Refresh,
    ReadError,
    ReadReply,
    Done(Result<Seq<EventView>, ErrorView>),
}

/// How far a request has come.
pub struct ExchangeView {
    pub service: Service,
    /// How often it has been repeated.
    pub attempt: nat,
    pub phase: Phase,
}

impl View for Signal {
    type V = SignalView;

    open spec fn view(&self) -> SignalView {
        match *self {
            Signal::Unanswered(reason) => SignalView::Unanswered(reason@),
            Signal::Status(status) => SignalView::Status(status),
            Signal::ErrorBody(text) => SignalView::ErrorBody(text@),
            Signal::Json(value) => SignalView::Json(value@),
            Signal::NotJson(reason) => SignalView::NotJson(reason@),
            Signal::Text(text) => SignalView::Text(text@),
            Signal::NotText(reason) => SignalView::NotText(reason@),
        }
    }
}

impl View for Next {
    type V = NextView;

    open spec fn view(&self) -> NextView {
        match *self {
            Next::Wait(delay) => NextView::Wait(delay),
            Next::Refresh => NextView::Refresh,
            Next::ReadError => NextView::ReadError,
            Next::ReadReply => NextView::ReadReply,
            Next::Done(end) => NextView::Done(outcome(end)),
        }
    }
}

/// A request that has been sent once.
pub open spec fn start(service: Service) -> ExchangeView {
    ExchangeView { service, attempt: 0, phase: Phase::Status }
}

/// The signal is one that can come in this state. A status code has three digits.
pub open spec fn awaits(state: ExchangeView, signal: SignalView) -> bool {
    match signal {
        SignalView::Unanswered(_) => state.phase == Phase::Status,
        SignalView::Status(status) => state.phase == Phase::Status && 100 <= status <= 999,
        SignalView::ErrorBody(_) => state.phase is ErrorBody,
        SignalView::Json(_) => state.phase == Phase::Reply && state.service != Service::OpenAi,
        SignalView::NotJson(_) => state.phase == Phase::Reply && state.service != Service::OpenAi,
        SignalView::Text(_) => state.phase == Phase::Reply && state.service == Service::OpenAi,
        SignalView::NotText(_) => state.phase == Phase::Reply && state.service == Service::OpenAi,
    }
}

/// The events of a JSON reply.
pub open spec fn json_events(service: Service, reply: JsonView) -> Result<
    Seq<EventView>,
    ErrorView,
> {
    match service {
        Service::Anthropic => anthropic::reply_events(reply),
        Service::OpenAi => openai::reply_events(reply),
        Service::Gemini => gemini::reply_events(reply),
    }
}

/// The end of a request.
pub open spec fn ended(
    state: ExchangeView,
    end: Result<Seq<EventView>, ErrorView>,
) -> (ExchangeView, NextView) {
    (ExchangeView { phase: Phase::Nothing, ..state }, NextView::Done(end))
}

/// What a signal leads to.
pub open spec fn transition(state: ExchangeView, signal: SignalView) -> (ExchangeView, NextView) {
    match signal {
        SignalView::Unanswered(reason) => ended(state, Err(ErrorView::Unanswered(reason))),
        SignalView::Status(status) => match verdict(state.service, state.attempt, status) {
            Verdict::Wait(delay) => (
                ExchangeView { attempt: state.attempt + 1, ..state },
                NextView::Wait(delay),
            ),
            Verdict::Refresh => (
                ExchangeView { attempt: state.attempt + 1, ..state },
                NextView::Refresh,
            ),
            Verdict::Fail => (
                ExchangeView { phase: Phase::ErrorBody(status), ..state },
                NextView::ReadError,
            ),
            Verdict::Accept => (
                ExchangeView { phase: Phase::Reply, ..state },
                NextView::ReadReply,
            ),
        },
        SignalView::ErrorBody(body) => ended(
            state,
            Err(
                ErrorView::Refused {
                    service: state.service,
                    status: state.phase->ErrorBody_0,
                    body,
                },
            ),
        ),
        SignalView::Json(reply) => ended(state, json_events(state.service, reply)),
        SignalView::NotJson(reason) => ended(state, Err(ErrorView::Unparsed(reason))),
        SignalView::Text(text) => ended(state, openai::stream_events(text)),
        SignalView::NotText(reason) => ended(state, Err(ErrorView::Unreadable(reason))),
    }
}

/// What a status calls for after a number of repetitions.
pub fn judge_status(service: Service, attempt: u32, status: u16) -> (r: Verdict)
    ensures
        r == verdict(service, attempt as nat, status),
{
    let busy: u16 = match service {
        Service::Gemini => 503,
        _ => 529,
    };
    if (status == 429 || status == busy) && attempt < MAX_RETRIES {
        let mut delay: u64 = 1000;
        let mut i: u32 = 0;
        while i < attempt
            invariant
                i <= attempt < MAX_RETRIES,
                delay == backoff(i as nat),
                i == 0 ==> delay == 1000,
                i == 1 ==> delay == 2000,
                i == 2 ==> delay == 4000,
            decreases attempt - i,
        {
            delay = delay * 2;
            i += 1;
        }
        return Verdict::Wait(delay);
    }
    if service == Service::OpenAi && status == 401 && attempt < MAX_RETRIES {
        return Verdict::Refresh;
    }
    if 200 <= status && status < 300 {
        Verdict::Accept
    } else {
        Verdict::Fail
    }
}

/// A request with its repetitions.
pub struct Exchange {
    service: Service,
    attempt: u32,
    phase: Phase,
}

impl View for Exchange {
    type V = ExchangeView;

    closed spec fn view(&self) -> ExchangeView {
        ExchangeView { service: self.service, attempt: self.attempt as nat, phase: self.phase }
    }
}

impl Exchange {
    #[verifier::type_invariant]
    spec fn within_limit(self) -> bool {
        self.attempt <= MAX_RETRIES
    }

    /// A request that has been sent once.
    pub fn new(service: Service) -> (r: Exchange)
        ensures
            r@ == start(service),
    {
        Exchange { service, attempt: 0, phase: Phase::Status }
    }

    /// Whether the signal is one that can come now.
    pub fn expects(&self, signal: &Signal) -> (r: bool)
        ensures
            r == awaits(self@, signal@),
    {
        let sent = match self.phase {
            Phase::Status => true,
            _ => false,
        };
        let refused = match self.phase {
            Phase::ErrorBody(_) => true,
            _ => false,
        };
        let accepted = match self.phase {
            Phase::Reply => true,
            _ => false,
        };
        let streams = self.service == Service::OpenAi;
        match signal {
            Signal::Unanswered(_) => sent,
            Signal::Status(status) => sent && 100 <= *status && *status <= 999,
            Signal::ErrorBody(_) => refused,
            Signal::Json(_) => accepted && !streams,
            Signal::NotJson(_) => accepted && !streams,
            Signal::Text(_) => accepted && streams,
            Signal::NotText(_) => accepted && streams,
        }
    }

    /// Takes in a signal.
    pub fn advance(&mut self, signal: Signal) -> (r: Next)
        requires
            awaits(old(self)@, signal@),
        ensures
            (final(self)@, r@) == transition(old(self)@, signal@),
            final(self)@.attempt <= MAX_RETRIES,
    {
        proof {
            use_type_invariant(&*self);
        }
        match signal {
            Signal::Status(status) => match judge_status(self.service, self.attempt, status) {
                Verdict::Wait(delay) => {
                    self.attempt = self.attempt + 1;
                    Next::Wait(delay)
                },
                Verdict::Refresh => {
                    self.attempt = self.attempt + 1;
                    Next::Refresh
                },
                Verdict::Fail => {
                    self.phase = Phase::ErrorBody(status);
                    Next::ReadError
                },
                Verdict::Accept => {
                    self.phase = Phase::Reply;
                    Next::ReadReply
                },
            },
            Signal::ErrorBody(body) => {
                let status: u16 = match self.phase {
                    Phase::ErrorBody(status) => status,
                    _ => 0,
                };
                self.phase = Phase::Nothing;
                Next::Done(Err(LlmError::Refused { service: self.service, status, body }))
            },
            Signal::Json(reply) => {
                self.phase = Phase::Nothing;
                Next::Done(
                    match self.service {
                        Service::Anthropic => parse_anthropic_response(&reply),
                        Service::OpenAi => parse_openai_response(&reply),
                        Service::Gemini => parse_gemini_response(&reply),
                    },
                )
            },
            Signal::Text(text) => {
                self.phase = Phase::Nothing;
                Next::Done(read_stream(text.as_str()))
            },
            Signal::Unanswered(reason) => {
                self.phase = Phase::Nothing;
                Next::Done(Err(LlmError::Unanswered(reason)))
            },
            Signal::NotJson(reason) => {
                self.phase = Phase::Nothing;
                Next::Done(Err(LlmError::Unparsed(reason)))
            },
            Signal::NotText(reason) => {
                self.phase = Phase::Nothing;
                Next::Done(Err(LlmError::Unreadable(reason)))
            },
        }
    }
}

/// A refused request is answered with its own status and body, under the service's name.
pub proof fn law_refusal_reports_its_status(state: ExchangeView, status: u16, body: Seq<char>)
    requires
        awaits(state, SignalView::Status(status)),
        verdict(state.service, state.attempt, status) == Verdict::Fail,
    ensures
        ({
            let (next, step) = transition(state, SignalView::Status(status));
            &&& step == NextView::ReadError
            &&& awaits(next, SignalView::ErrorBody(body))
            &&& transition(next, SignalView::ErrorBody(body)).1 == NextView::Done(
                Err(ErrorView::Refused { service: state.service, status, body }),
            )
        }),
{
}

/// After the end of a request nothing is awaited any more.
pub proof fn law_end_is_final(state: ExchangeView, signal: SignalView, later: SignalView)
    requires
        transition(state, signal).1 is Done,
    ensures
        !awaits(transition(state, signal).0, later),
{
}

/// How many requests are sent from a state on, where the answers to them would have these
/// statuses.
pub open spec fn requests_sent(state: ExchangeView, statuses: Seq<u16>) -> nat
    decreases statuses.len(),
{
    if statuses.len() == 0 {
        0
    } else {
        let (next, step) = transition(state, SignalView::Status(statuses[0]));
        match step {
            NextView::Wait(_) => 1 + requests_sent(next, statuses.skip(1)),
            NextView::Refresh => 1 + requests_sent(next, statuses.skip(1)),
            _ => 1,
        }
    }
}

/// How many milliseconds are waited in all from a state on, where the answers would have these
/// statuses.
pub open spec fn time_waited(state: ExchangeView, statuses: Seq<u16>) -> nat
    decreases statuses.len(),
{
    if statuses.len() == 0 {
        0
    } else {
        let (next, step) = transition(state, SignalView::Status(statuses[0]));
        match step {
            NextView::Wait(delay) => delay as nat + time_waited(next, statuses.skip(1)),
            NextView::Refresh => time_waited(next, statuses.skip(1)),
            _ => 0,
        }
    }
}

/// The last allowed attempt is never repeated: its answer is a reply or an error, so retries
/// never run out without an end.
pub proof fn law_last_attempt_settles(service: Service, status: u16)
    ensures
        !repeats(verdict(service, MAX_RETRIES as nat, status)),
{
}

/// Whatever the answers, a request is sent at most four times, and seven seconds are waited at
/// most.
pub proof fn law_exchange_is_bounded(service: Service, statuses: Seq<u16>)
    ensures
        ({
            &&& requests_sent(start(service), statuses) <= 4
            &&& time_waited(start(service), statuses) <= 7000
        }),
{
    reveal_with_fuel(requests_sent, 5);
    reveal_with_fuel(time_waited, 5);
    reveal_with_fuel(backoff, 4);
}

/// An answer that reports neither a busy service nor a stale token settles the request, whatever
/// the attempt.
pub proof fn law_other_answers_settle(service: Service, attempt: nat, status: u16)
    requires
        !is_busy(service, status),
        !(service == Service::OpenAi && status == 401),
    ensures
        verdict(service, attempt, status) == (if 200 <= status < 300 {
            Verdict::Accept
        } else {
            Verdict::Fail
        }),
{
}

} // verus!
