use openab_agent::error::{is_quotable, LlmError, Service};
use openab_agent::exchange::{judge_status, Exchange, Next, Signal, Verdict};
use openab_agent::json::Json;
use openab_agent::message::LlmEvent;

const SERVICES: [Service; 3] = [Service::Anthropic, Service::OpenAi, Service::Gemini];

fn send(exchange: &mut Exchange, signal: Signal) -> Next {
    assert!(exchange.expects(&signal));
    exchange.advance(signal)
}

fn error_of(next: Next) -> String {
    match next {
        Next::Done(Err(error)) => error.message(),
        other => panic!("expected an error, got {other:?}"),
    }
}

#[test]
fn statuses_are_judged() {
    assert_eq!(judge_status(Service::Anthropic, 0, 429), Verdict::Wait(1000));
    assert_eq!(judge_status(Service::Anthropic, 1, 529), Verdict::Wait(2000));
    assert_eq!(judge_status(Service::Anthropic, 2, 529), Verdict::Wait(4000));
    assert_eq!(judge_status(Service::Anthropic, 3, 529), Verdict::Fail);
    assert_eq!(judge_status(Service::Anthropic, 0, 503), Verdict::Fail);
    assert_eq!(judge_status(Service::Anthropic, 0, 401), Verdict::Fail);
    assert_eq!(judge_status(Service::Gemini, 2, 503), Verdict::Wait(4000));
    assert_eq!(judge_status(Service::Gemini, 0, 529), Verdict::Fail);
    assert_eq!(judge_status(Service::Gemini, 0, 401), Verdict::Fail);
    assert_eq!(judge_status(Service::OpenAi, 0, 529), Verdict::Wait(1000));
    assert_eq!(judge_status(Service::OpenAi, 2, 401), Verdict::Refresh);
    assert_eq!(judge_status(Service::OpenAi, 3, 401), Verdict::Fail);
    for service in SERVICES {
        assert_eq!(judge_status(service, 3, 200), Verdict::Accept);
        assert_eq!(judge_status(service, 0, 299), Verdict::Accept);
        assert_eq!(judge_status(service, 0, 199), Verdict::Fail);
        assert_eq!(judge_status(service, 0, 300), Verdict::Fail);
    }
}

#[test]
fn busy_service_is_asked_four_times() {
    for service in SERVICES {
        let mut exchange = Exchange::new(service);
        let mut waited = 0;
        for _ in 0..3 {
            match send(&mut exchange, Signal::Status(429)) {
                Next::Wait(delay) => waited += delay,
                other => panic!("expected a delay, got {other:?}"),
            }
        }
        assert_eq!(waited, 7000);
        let next = send(&mut exchange, Signal::Status(429));
        assert!(matches!(next, Next::ReadError));
        let error = error_of(send(&mut exchange, Signal::ErrorBody("slow down".to_string())));
        assert!(error.ends_with(" API error 429 Too Many Requests: slow down"));
    }
}

#[test]
fn stale_token_is_refreshed() {
    let mut exchange = Exchange::new(Service::OpenAi);
    for _ in 0..3 {
        assert!(matches!(send(&mut exchange, Signal::Status(401)), Next::Refresh));
    }
    assert!(matches!(send(&mut exchange, Signal::Status(401)), Next::ReadError));
    assert_eq!(
        error_of(send(&mut exchange, Signal::ErrorBody(String::new()))),
        "OpenAI API error 401 Unauthorized: "
    );
    let mut exchange = Exchange::new(Service::OpenAi);
    assert!(matches!(send(&mut exchange, Signal::Status(401)), Next::Refresh));
    assert!(matches!(send(&mut exchange, Signal::Status(429)), Next::Wait(2000)));
}

#[test]
fn refusals_name_the_service() {
    let refusal = |service: Service, status: u16| {
        let mut exchange = Exchange::new(service);
        assert!(matches!(send(&mut exchange, Signal::Status(status)), Next::ReadError));
        error_of(send(&mut exchange, Signal::ErrorBody("no".to_string())))
    };
    assert_eq!(refusal(Service::Anthropic, 400), "Anthropic API error 400 Bad Request: no");
    assert_eq!(refusal(Service::OpenAi, 500), "OpenAI API error 500 Internal Server Error: no");
    assert_eq!(refusal(Service::Gemini, 404), "Gemini API error 404 Not Found: no");
    assert_eq!(
        refusal(Service::Gemini, 599),
        "Gemini API error 599 <unknown status code>: no"
    );
}

#[test]
fn failures_of_transport() {
    let mut exchange = Exchange::new(Service::Gemini);
    let next = send(&mut exchange, Signal::Unanswered("timed out".to_string()));
    assert_eq!(error_of(next), "HTTP request failed: timed out");

    let mut exchange = Exchange::new(Service::Gemini);
    assert!(matches!(send(&mut exchange, Signal::Status(200)), Next::ReadReply));
    let next = send(&mut exchange, Signal::NotJson("eof".to_string()));
    assert_eq!(error_of(next), "Failed to parse response: eof");

    let mut exchange = Exchange::new(Service::OpenAi);
    assert!(matches!(send(&mut exchange, Signal::Status(200)), Next::ReadReply));
    let next = send(&mut exchange, Signal::NotText("reset".to_string()));
    assert_eq!(error_of(next), "Failed to read response: reset");
}

#[test]
fn replies_become_events() {
    let replies = [
        (Service::Anthropic, r#"{"content": [{"type": "text", "text": "hi"}]}"#),
        (Service::Gemini, r#"{"candidates": [{"content": {"parts": [{"text": "hi"}]}}]}"#),
    ];
    for (service, reply) in replies {
        let mut exchange = Exchange::new(service);
        assert!(matches!(send(&mut exchange, Signal::Status(200)), Next::ReadReply));
        match send(&mut exchange, Signal::Json(Json::parse(reply).unwrap())) {
            Next::Done(Ok(events)) => {
                assert_eq!(events.len(), 2);
                assert!(matches!(&events[0], LlmEvent::Text(t) if t == "hi"));
            }
            other => panic!("expected events, got {other:?}"),
        }
    }
    let mut exchange = Exchange::new(Service::OpenAi);
    assert!(matches!(send(&mut exchange, Signal::Status(200)), Next::ReadReply));
    let stream = "data: {\"type\":\"response.output_item.done\",\"item\":{}}\n";
    match send(&mut exchange, Signal::Text(stream.to_string())) {
        Next::Done(Ok(events)) => {
            assert_eq!(events.len(), 1);
            assert!(matches!(events[0], LlmEvent::Stop));
        }
        other => panic!("expected events, got {other:?}"),
    }
}

#[test]
fn signals_come_in_order() {
    let mut exchange = Exchange::new(Service::OpenAi);
    assert!(!exchange.expects(&Signal::ErrorBody(String::new())));
    assert!(!exchange.expects(&Signal::Text(String::new())));
    assert!(!exchange.expects(&Signal::Status(99)));
    assert!(!exchange.expects(&Signal::Status(1000)));
    exchange.advance(Signal::Status(200));
    assert!(!exchange.expects(&Signal::Json(Json::Null)));
    assert!(exchange.expects(&Signal::Text(String::new())));
    exchange.advance(Signal::NotText(String::new()));
    for signal in [
        Signal::Status(200),
        Signal::Unanswered(String::new()),
        Signal::Text(String::new()),
        Signal::NotText(String::new()),
        Signal::ErrorBody(String::new()),
    ] {
        assert!(!exchange.expects(&signal));
    }
}

#[test]
fn quotations_are_cut_at_characters() {
    assert!(is_quotable(&"é".repeat(250)));
    assert!(is_quotable(&"é".repeat(300)));
    let odd = format!("a{}", "é".repeat(300));
    assert!(!is_quotable(&odd));
    assert!(is_quotable(&odd[..499]));
    let error = LlmError::NoOutputItems("é".repeat(300));
    assert_eq!(
        error.message(),
        format!("No output items in SSE stream. Raw: {}", "é".repeat(250))
    );
}
