use fidius::status::{STATUS_BUFFER_TOO_SMALL, STATUS_OK, STATUS_PLUGIN_ERROR, STATUS_STREAM_END};
use fidius::stream_ffi::{delivery_status, pull_step, NextStatus, PullStep, StreamState};
use fidius::stream_marker::Stream;

#[test]
fn producer_outcomes() {
    assert_eq!(delivery_status(None, 16, true), NextStatus::SerErr);
    assert_eq!(delivery_status(Some(20), 16, true), NextStatus::TooSmall(20));
    assert_eq!(delivery_status(Some(16), 16, false), NextStatus::SerErr);
    assert_eq!(delivery_status(Some(16), 16, true), NextStatus::Item(16));
}

#[test]
fn consumer_reactions() {
    assert_eq!(pull_step(STATUS_OK, 9, 256), PullStep::Decode(9));
    assert_eq!(pull_step(STATUS_BUFFER_TOO_SMALL, 300, 256), PullStep::Retry(512));
    assert_eq!(pull_step(STATUS_BUFFER_TOO_SMALL, 2000, 256), PullStep::Retry(2000));
    assert_eq!(pull_step(STATUS_STREAM_END, 0, 256), PullStep::Finish);
    assert_eq!(pull_step(STATUS_PLUGIN_ERROR, 4, 256), PullStep::Finish);
}

#[test]
fn a_refused_delivery_keeps_the_item() {
    let mut state = StreamState::new(Stream::from_iter(vec![1u64, 2].into_iter()));
    assert!(state.pending().is_none());
    assert!(state.fill());
    assert_eq!(state.pending(), Some(&1));
    state.settle(NextStatus::TooSmall(64));
    assert_eq!(state.pending(), Some(&1));
    state.settle(NextStatus::SerErr);
    assert!(state.fill());
    assert_eq!(state.pending(), Some(&1));
    state.settle(NextStatus::Item(8));
    assert!(state.pending().is_none());
    assert!(state.fill());
    assert_eq!(state.pending(), Some(&2));
    state.settle(NextStatus::Item(8));
    assert!(!state.fill());
    assert!(state.pending().is_none());
}

#[test]
fn the_marker_stream_has_nothing_to_deliver() {
    let mut state = StreamState::new(Stream::<u64>::new());
    assert!(!state.fill());
    assert!(state.pending().is_none());
}
