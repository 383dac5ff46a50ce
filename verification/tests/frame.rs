use fidius::error::PluginError;
use fidius::frame::{Frame, FrameError, FRAME_END, FRAME_ERROR, FRAME_HEADER_LEN, FRAME_ITEM};

fn item(payload: &[u8]) -> Frame {
    Frame::Item(payload.to_vec())
}

#[test]
fn item_round_trip() {
    let f = item(&[1, 2, 3, 4]);
    let bytes = f.encode().unwrap();
    assert_eq!(bytes[0], FRAME_ITEM);
    assert_eq!(Frame::decode(&bytes).unwrap(), f);
}

#[test]
fn end_round_trip() {
    let bytes = Frame::End.encode().unwrap();
    assert_eq!(bytes[0], FRAME_END);
    assert_eq!(bytes.len(), FRAME_HEADER_LEN);
    assert_eq!(Frame::decode(&bytes).unwrap(), Frame::End);
}

#[test]
fn error_round_trip() {
    let err = PluginError::new("BOOM", "it broke");
    let f = Frame::Error(err.clone());
    let bytes = f.encode().unwrap();
    assert_eq!(bytes[0], FRAME_ERROR);
    assert_eq!(Frame::decode(&bytes).unwrap(), Frame::Error(err));
}

#[test]
fn empty_item_is_valid() {
    let f = item(&[]);
    let bytes = f.encode().unwrap();
    assert_eq!(Frame::decode(&bytes).unwrap(), f);
}

#[test]
fn read_walks_concatenated_frames() {
    let mut buf = Vec::new();
    buf.extend_from_slice(&item(&[9]).encode().unwrap());
    buf.extend_from_slice(&item(&[8, 7]).encode().unwrap());
    buf.extend_from_slice(&Frame::End.encode().unwrap());

    let (f1, n1) = Frame::read(&buf).unwrap();
    assert_eq!(f1, item(&[9]));
    let (f2, n2) = Frame::read(&buf[n1..]).unwrap();
    assert_eq!(f2, item(&[8, 7]));
    let (f3, n3) = Frame::read(&buf[n1 + n2..]).unwrap();
    assert_eq!(f3, Frame::End);
    assert_eq!(n1 + n2 + n3, buf.len());
}

#[test]
fn truncated_header_is_rejected() {
    let err = Frame::read(&[FRAME_ITEM, 0, 0]).unwrap_err();
    assert!(matches!(err, FrameError::Truncated { .. }));
}

#[test]
fn truncated_payload_is_rejected() {
    // Declares 8 payload bytes but only supplies 2.
    let mut bytes = vec![FRAME_ITEM];
    bytes.extend_from_slice(&8u32.to_le_bytes());
    bytes.extend_from_slice(&[1, 2]);
    let err = Frame::decode(&bytes).unwrap_err();
    assert!(matches!(err, FrameError::Truncated { needed: 13, had: 7 }));
}

#[test]
fn unknown_tag_is_rejected() {
    let mut bytes = vec![99u8];
    bytes.extend_from_slice(&0u32.to_le_bytes());
    assert!(matches!(
        Frame::decode(&bytes).unwrap_err(),
        FrameError::UnknownTag(99)
    ));
}

#[test]
fn end_with_payload_is_rejected() {
    let mut bytes = vec![FRAME_END];
    bytes.extend_from_slice(&3u32.to_le_bytes());
    bytes.extend_from_slice(&[1, 2, 3]);
    assert!(matches!(
        Frame::decode(&bytes).unwrap_err(),
        FrameError::Malformed(_)
    ));
}

#[test]
fn trailing_bytes_after_single_decode_rejected() {
    let mut bytes = item(&[1]).encode().unwrap();
    bytes.push(0xFF);
    assert!(matches!(
        Frame::decode(&bytes).unwrap_err(),
        FrameError::Malformed(_)
    ));
}

#[test]
fn garbage_is_rejected_not_panicking() {
    for g in [vec![], vec![0u8], vec![2u8, 0, 0, 0, 1]] {
        let _ = Frame::read(&g); // must return Err/Ok, never panic
    }
}

// A frame followed by unrelated bytes reads back as itself, consuming exactly
// its own encoding.
#[test]
fn frame_read_consumes_exactly_its_encoding() {
    let f = Frame::Error(PluginError::new("E", "m"));
    let mut bytes = f.encode().unwrap();
    let own = bytes.len();
    bytes.extend_from_slice(&[7, 7, 7]);
    let (back, used) = Frame::read(&bytes).unwrap();
    assert_eq!(back, f);
    assert_eq!(used, own);
}

#[test]
fn item_encoding_is_tag_length_payload() {
    let bytes = item(&[5, 6]).encode().unwrap();
    assert_eq!(bytes, vec![FRAME_ITEM, 2, 0, 0, 0, 5, 6]);
}

#[test]
fn error_frame_with_undecodable_payload_is_a_payload_error() {
    let mut bytes = vec![FRAME_ERROR];
    bytes.extend_from_slice(&1u32.to_le_bytes());
    bytes.push(0xFF);
    assert!(matches!(Frame::decode(&bytes).unwrap_err(), FrameError::Payload(_)));
}
