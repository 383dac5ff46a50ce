use fidius::body_tee::{BodyEvent, Capture, CaptureState, REPLAY_CAP};

#[test]
fn small_body_completes_and_replays() {
    let mut c = Capture::new();
    c.record(&BodyEvent::Data(b"hello ".to_vec()));
    c.record(&BodyEvent::Data(b"world".to_vec()));
    assert_eq!(c.state(), CaptureState::Incomplete);
    assert_eq!(c.replayable(), None);
    c.record(&BodyEvent::End);
    assert_eq!(c.state(), CaptureState::Complete);
    assert_eq!(c.replayable(), Some(b"hello world".to_vec()));
}

#[test]
fn oversized_body_overflows() {
    let mut c = Capture::new();
    c.record_data(&vec![1u8; REPLAY_CAP]);
    assert_eq!(c.state(), CaptureState::Incomplete);
    c.record_data(&[2u8]);
    assert_eq!(c.state(), CaptureState::Overflowed);
    c.record_end();
    assert_eq!(c.state(), CaptureState::Overflowed);
    assert_eq!(c.replayable(), None);
}

#[test]
fn trailers_make_the_body_unreplayable() {
    let mut c = Capture::new();
    c.record_data(b"abc");
    c.record_trailers();
    c.record_end();
    assert_eq!(c.state(), CaptureState::Trailers);
    assert_eq!(c.replayable(), None);
}

#[test]
fn empty_body_is_replayable_as_empty() {
    let mut c = Capture::new();
    c.record_end();
    assert_eq!(c.replayable(), Some(Vec::new()));
}

#[test]
fn unfinished_body_stays_incomplete() {
    let mut c = Capture::new();
    c.record_data(b"partial");
    assert_eq!(c.state(), CaptureState::Incomplete);
    assert_eq!(c.replayable(), None);
}
