use gen_data::fetch::user_agent;
use gen_data::fetch::Attempt;
use gen_data::fetch::Backoff;
use gen_data::fetch::FetchError;
use gen_data::fetch::FetchStep;
use gen_data::fetch::WaitReason;
use gen_data::fetch::CONNECT_TIMEOUT_SECONDS;
use gen_data::fetch::MAX_BACKOFF_SECONDS;
use gen_data::fetch::REQUEST_TIMEOUT_SECONDS;

fn status(code: u16) -> Attempt {
    Attempt::Response { status: code, body: None }
}

fn wait_of(step: FetchStep) -> (u64, WaitReason) {
    match step {
        FetchStep::Wait { seconds, reason } => (seconds, reason),
        _ => panic!("the policy did not ask to wait"),
    }
}

fn error_of(step: FetchStep) -> FetchError {
    match step {
        FetchStep::Fail(error) => error,
        _ => panic!("the policy did not give up"),
    }
}

#[test]
fn fixed_configuration() {
    assert_eq!(REQUEST_TIMEOUT_SECONDS, 20);
    assert_eq!(CONNECT_TIMEOUT_SECONDS, 20);
    assert_eq!(MAX_BACKOFF_SECONDS, 300);
    assert_eq!(
        user_agent(),
        "Mozilla/5.0 (Windows NT 10.0; rv:109.0) Gecko/20100101 Firefox/115.0"
    );
}

#[test]
fn a_delivered_page_ends_the_fetch() {
    let mut backoff = Backoff::new();
    let step = backoff.on_attempt(Attempt::Response {
        status: 200,
        body: Some("<html></html>".to_string()),
    });
    match step {
        FetchStep::Done(text) => assert_eq!(text, "<html></html>"),
        _ => panic!("the page was not handed out"),
    }
}

#[test]
fn a_body_that_cannot_be_decoded_is_a_response_error() {
    let mut backoff = Backoff::new();
    assert_eq!(error_of(backoff.on_attempt(status(200))), FetchError::ResponseError);
}

#[test]
fn server_errors_end_the_fetch_at_once() {
    for code in [500, 502, 503, 599] {
        let mut backoff = Backoff::new();
        assert_eq!(error_of(backoff.on_attempt(status(code))), FetchError::ServerError);
    }
}

#[test]
fn other_statuses_are_response_errors() {
    for code in [100, 201, 204, 301, 302, 400, 403, 404, 418, 428, 430, 499, 600, 999, 0] {
        let mut backoff = Backoff::new();
        assert_eq!(error_of(backoff.on_attempt(status(code))), FetchError::ResponseError);
    }
    let mut backoff = Backoff::new();
    let step = backoff.on_attempt(Attempt::Response { status: 404, body: Some("x".to_string()) });
    assert_eq!(error_of(step), FetchError::ResponseError);
}

#[test]
fn rate_limits_wait_a_minute_more_each_time_up_to_five() {
    let mut backoff = Backoff::new();
    let mut waits = Vec::new();
    for _ in 0..8 {
        let (seconds, reason) = wait_of(backoff.on_attempt(status(429)));
        assert_eq!(reason, WaitReason::RateLimited);
        waits.push(seconds);
    }
    assert_eq!(waits, vec![60, 120, 180, 240, 300, 300, 300, 300]);
}

#[test]
fn connection_failures_wait_by_the_rate_limits_met() {
    let mut backoff = Backoff::new();
    assert_eq!(
        wait_of(backoff.on_attempt(Attempt::ConnectionFailed)),
        (0, WaitReason::ConnectionFailed)
    );
    assert_eq!(
        wait_of(backoff.on_attempt(Attempt::ConnectionFailed)),
        (0, WaitReason::ConnectionFailed)
    );
    wait_of(backoff.on_attempt(status(429)));
    assert_eq!(
        wait_of(backoff.on_attempt(Attempt::ConnectionFailed)),
        (10, WaitReason::ConnectionFailed)
    );
    wait_of(backoff.on_attempt(status(429)));
    wait_of(backoff.on_attempt(status(429)));
    assert_eq!(
        wait_of(backoff.on_attempt(Attempt::ConnectionFailed)),
        (30, WaitReason::ConnectionFailed)
    );
    for _ in 0..26 {
        wait_of(backoff.on_attempt(status(429)));
    }
    assert_eq!(
        wait_of(backoff.on_attempt(Attempt::ConnectionFailed)),
        (290, WaitReason::ConnectionFailed)
    );
    wait_of(backoff.on_attempt(status(429)));
    assert_eq!(
        wait_of(backoff.on_attempt(Attempt::ConnectionFailed)),
        (300, WaitReason::ConnectionFailed)
    );
    wait_of(backoff.on_attempt(status(429)));
    assert_eq!(
        wait_of(backoff.on_attempt(Attempt::ConnectionFailed)),
        (300, WaitReason::ConnectionFailed)
    );
}

#[test]
fn a_page_after_retries_is_still_handed_out() {
    let mut backoff = Backoff::new();
    wait_of(backoff.on_attempt(status(429)));
    wait_of(backoff.on_attempt(Attempt::ConnectionFailed));
    let step = backoff.on_attempt(Attempt::Response { status: 200, body: Some("ok".to_string()) });
    assert!(matches!(step, FetchStep::Done(text) if text == "ok"));
    assert_eq!(wait_of(backoff.on_attempt(status(429))), (120, WaitReason::RateLimited));
}
