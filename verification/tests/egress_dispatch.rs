use fidius::egress_dispatch::{begin, retry_available, step, DispatchAction, DispatchEvent, DispatchState};
use fidius::sandbox::ResponseDirective;

fn responded(directive: ResponseDirective, replayable: bool) -> DispatchEvent {
    DispatchEvent::Responded { directive, replayable }
}

#[test]
fn no_policy_refuses_everything() {
    assert_eq!(begin(false, true), (DispatchState::Finished, Some(DispatchAction::RefuseRequest)));
}

#[test]
fn retry_once_reauthorizes_and_forwards_the_second_response() {
    let (s, first) = begin(true, true);
    assert_eq!(first, None);
    let (s, a) = step(s, DispatchEvent::Authorized);
    assert_eq!(a, DispatchAction::Dispatch);
    assert!(retry_available(s, true));
    let (s, a) = step(s, responded(ResponseDirective::RetryOnce, true));
    assert_eq!(a, DispatchAction::Retry);
    let (s, a) = step(s, DispatchEvent::Authorized);
    assert_eq!(a, DispatchAction::Dispatch);
    assert!(!retry_available(s, true));
    // The policy asks again: the second response forwards regardless.
    let (s, a) = step(s, responded(ResponseDirective::RetryOnce, true));
    assert_eq!(a, DispatchAction::Forward);
    assert_eq!(s, DispatchState::Finished);
}

#[test]
fn denial_on_retry_refuses_the_request() {
    let (s, _) = begin(true, true);
    let (s, _) = step(s, DispatchEvent::Authorized);
    let (s, _) = step(s, responded(ResponseDirective::RetryOnce, true));
    let (s, a) = step(s, DispatchEvent::Denied);
    assert_eq!(a, DispatchAction::RefuseRequest);
    assert_eq!(s, DispatchState::Finished);
}

#[test]
fn unreplayable_body_is_forwarded() {
    let (s, _) = begin(true, true);
    let (s, _) = step(s, DispatchEvent::Authorized);
    assert!(!retry_available(s, false));
    let (_, a) = step(s, responded(ResponseDirective::RetryOnce, false));
    assert_eq!(a, DispatchAction::Forward);
}

#[test]
fn non_observing_policy_never_retries() {
    let (s, _) = begin(true, false);
    let (s, _) = step(s, DispatchEvent::Authorized);
    let (_, a) = step(s, responded(ResponseDirective::RetryOnce, true));
    assert_eq!(a, DispatchAction::Forward);
}

#[test]
fn transport_errors_reach_the_guest() {
    let (s, _) = begin(true, true);
    let (s, _) = step(s, DispatchEvent::Authorized);
    assert_eq!(step(s, DispatchEvent::TransportFailed), (DispatchState::Finished, DispatchAction::FailTransport));
    let (s, _) = begin(true, true);
    assert_eq!(step(s, DispatchEvent::Denied), (DispatchState::Finished, DispatchAction::RefuseRequest));
}
