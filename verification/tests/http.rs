use lemon_colonies_client::http::RequestState;
use quad_net::http_request::RequestBuilder;

fn request() -> quad_net::http_request::Request {
    RequestBuilder::new("/api/me").send()
}

#[test]
fn a_request_that_is_answered() {
    let mut s: RequestState<u32> = RequestState::default();
    assert!(matches!(s, RequestState::Idle));
    assert!(s.can_start());

    s.start(request());
    assert!(matches!(s, RequestState::Loading(_)));
    assert!(!s.can_start());

    s.finish(Ok(5));
    assert!(matches!(s, RequestState::Success(5)));
    assert!(!s.can_start());

    s.finish(Err("late".to_string()));
    assert!(matches!(s, RequestState::Success(5)));
}

#[test]
fn a_request_that_fails_may_be_sent_again() {
    let mut s: RequestState<u32> = RequestState::default();
    s.start(request());
    s.finish(Err("refused".to_string()));
    assert!(matches!(&s, RequestState::Error(m) if m == "refused"));
    assert!(s.can_start());
    s.start(request());
    assert!(matches!(s, RequestState::Loading(_)));
}

#[test]
fn nothing_to_finish_when_idle() {
    let mut s: RequestState<u32> = RequestState::default();
    s.finish(Ok(1));
    assert!(matches!(s, RequestState::Idle));
}

#[test]
fn taking_a_success() {
    let mut s: RequestState<()> = RequestState::default();
    assert!(!s.take_success());
    assert!(matches!(s, RequestState::Idle));
    s.start(request());
    assert!(!s.take_success());
    assert!(matches!(s, RequestState::Loading(_)));
    s.finish(Ok(()));
    assert!(s.take_success());
    assert!(matches!(s, RequestState::Idle));
    assert!(!s.take_success());
}
