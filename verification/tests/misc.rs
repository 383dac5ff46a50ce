use fidius::arena::{acquire_arena, grow_arena, release_arena, DEFAULT_ARENA_CAPACITY};
use fidius::call_error::CallError;
use fidius::chunk_stream::{frame_step, FrameCursor, FrameStep};
use fidius::descriptor::{abi_version_for, buffer_strategy_kind, has_capability, parse_u32_const, BufferStrategyKind};
use fidius::error::PluginError;
use fidius::frame::{Frame, FrameError};
use fidius::naming::{kebab_to_pascal, kebab_to_snake, to_kebab};
use fidius::text::decimal;

#[test]
fn naming_conversions() {
    assert_eq!(to_kebab("HelloWorld"), "hello-world");
    assert_eq!(to_kebab("snake_case_name"), "snake-case-name");
    assert_eq!(to_kebab("already-kebab"), "already-kebab");
    assert_eq!(kebab_to_snake("a-b-c"), "a_b_c");
    assert_eq!(kebab_to_pascal("hello-world"), "HelloWorld");
    assert_eq!(kebab_to_pascal("a--b"), "AB");
}

#[test]
fn descriptor_helpers() {
    assert_eq!(buffer_strategy_kind(1), Ok(BufferStrategyKind::PluginAllocated));
    assert_eq!(buffer_strategy_kind(2), Ok(BufferStrategyKind::Arena));
    assert_eq!(buffer_strategy_kind(0), Err(0));
    assert_eq!(BufferStrategyKind::Arena.discriminant(), 2);
    assert_eq!(BufferStrategyKind::PluginAllocated.name(), "PluginAllocated");
    assert!(has_capability(0b101, 2));
    assert!(!has_capability(0b101, 1));
    assert!(!has_capability(u64::MAX, 64));
    assert_eq!(parse_u32_const("42"), 42);
    assert_eq!(abi_version_for(0, 1), 100);
    assert_eq!(abi_version_for(2, 5), 20000);
}

#[test]
fn naming_keeps_digits() {
    assert_eq!(to_kebab("Http2Client"), "http2-client");
    assert_eq!(kebab_to_pascal("http2-client"), "Http2Client");
    assert_eq!(kebab_to_pascal("v2"), "V2");
    assert_eq!(kebab_to_pascal("2d-point"), "2dPoint");
}

#[test]
fn frame_steps() {
    assert!(matches!(frame_step(None), FrameStep::Fail(CallError::StreamAborted)));
    let item = Frame::Item(vec![4, 2]).encode().unwrap();
    assert!(matches!(frame_step(Some(item)), FrameStep::Item(p) if p == vec![4, 2]));
    let end = Frame::End.encode().unwrap();
    assert!(matches!(frame_step(Some(end)), FrameStep::End));
    let err = Frame::Error(PluginError::new("E", "m")).encode().unwrap();
    assert!(matches!(frame_step(Some(err)), FrameStep::Fail(CallError::Plugin(e)) if e == PluginError::new("E", "m")));
    assert!(matches!(frame_step(Some(vec![9, 0, 0, 0, 0])), FrameStep::Fail(CallError::MalformedFrame(m)) if m == "unknown frame tag: 9"));
}

#[test]
fn a_stream_stops_reading_at_its_first_terminal_frame() {
    let frames = vec![
        Some(Frame::Item(vec![1]).encode().unwrap()),
        Some(Frame::Error(PluginError::new("E", "m")).encode().unwrap()),
        Some(Frame::Item(vec![2]).encode().unwrap()),
        None,
    ];
    let mut yielded = Vec::new();
    for next in frames {
        match frame_step(next) {
            FrameStep::Item(p) => yielded.push(Ok(p)),
            FrameStep::End => break,
            FrameStep::Fail(e) => {
                yielded.push(Err(e));
                break;
            }
        }
    }
    assert_eq!(yielded.len(), 2);
    assert!(matches!(&yielded[0], Ok(p) if *p == vec![1]));
    assert!(matches!(&yielded[1], Err(CallError::Plugin(e)) if *e == PluginError::new("E", "m")));
}

#[test]
fn frame_error_messages() {
    assert_eq!(FrameError::Truncated { needed: 13, had: 7 }.message(), "truncated frame: needed 13 bytes, had 7");
    assert_eq!(FrameError::UnknownTag(99).message(), "unknown frame tag: 99");
    assert_eq!(FrameError::Malformed("x".to_string()).message(), "malformed frame: x");
}

#[test]
fn arena_pool_reuses_buffers() {
    let mut pool: Vec<Vec<u8>> = Vec::new();
    let a = acquire_arena(&mut pool, 10);
    assert_eq!(a.len(), DEFAULT_ARENA_CAPACITY);
    assert!(a.iter().all(|b| *b == 0));
    let big = acquire_arena(&mut pool, 10_000);
    assert_eq!(big.len(), 10_000);
    let mut dirty = a;
    dirty[0] = 7;
    release_arena(&mut pool, dirty);
    assert_eq!(pool.len(), 1);
    let again = acquire_arena(&mut pool, 10);
    assert!(pool.is_empty());
    assert!(again.len() >= DEFAULT_ARENA_CAPACITY);
    assert!(again.iter().all(|b| *b == 0));
    let mut small = Vec::with_capacity(8);
    small.push(1u8);
    release_arena(&mut pool, small);
    let big_again = acquire_arena(&mut pool, 6000);
    assert!(big_again.len() >= 6000);
    assert!(big_again.iter().all(|b| *b == 0));
    let mut short = Vec::with_capacity(100);
    short.push(5u8);
    grow_arena(&mut short, 300);
    assert!(short.len() >= 300);
    let mut g = vec![1u8; 3];
    grow_arena(&mut g, 64);
    assert!(g.len() >= 64);
    assert!(g.iter().all(|b| *b == 0));
}

#[test]
fn decimal_rendering() {
    assert_eq!(decimal(0), "0");
    assert_eq!(decimal(1234567890), "1234567890");
    assert_eq!(decimal(u64::MAX), "18446744073709551615");
}

#[test]
fn the_cursor_stops_pulling_after_a_terminal_frame() {
    let mut source = vec![
        Some(Frame::Item(vec![1]).encode().unwrap()),
        Some(Frame::Item(vec![2]).encode().unwrap()),
        Some(Frame::End.encode().unwrap()),
        Some(Frame::Item(vec![3]).encode().unwrap()),
    ]
    .into_iter();
    let mut cursor = FrameCursor::new();
    let mut items = Vec::new();
    let mut pulls = 0;
    while cursor.accepts_more() {
        pulls += 1;
        match cursor.advance(source.next().unwrap_or(None)) {
            FrameStep::Item(p) => items.push(p),
            FrameStep::End => {}
            FrameStep::Fail(_) => panic!("no failure expected"),
        }
    }
    assert_eq!(items, vec![vec![1], vec![2]]);
    assert_eq!(pulls, 3);

    let mut cursor = FrameCursor::new();
    assert!(matches!(cursor.advance(Some(Frame::Item(vec![9]).encode().unwrap())), FrameStep::Item(_)));
    cursor.item_failed();
    assert!(!cursor.accepts_more());
    let mut dry = FrameCursor::new();
    assert!(matches!(dry.advance(None), FrameStep::Fail(CallError::StreamAborted)));
    assert!(!dry.accepts_more());
}

#[test]
fn error_frames_carry_the_fixed_width_record() {
    let bytes = Frame::Error(PluginError::new("E", "m")).encode().unwrap();
    let mut expected = vec![2u8, 19, 0, 0, 0];
    expected.extend_from_slice(&[1, 0, 0, 0, 0, 0, 0, 0, b'E']);
    expected.extend_from_slice(&[1, 0, 0, 0, 0, 0, 0, 0, b'm']);
    expected.push(0);
    assert_eq!(bytes, expected);
}
