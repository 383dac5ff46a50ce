//! Length-delimited stream frames: `[tag: u8][len: u32 LE][payload]`.
//!
//! Every streamed item, the clean end of a stream, and a mid-stream failure
//! cross the plugin boundary as one frame.
use vstd::prelude::*;
use crate::error::{PluginError, PluginErrorView};
use crate::text::{decimal, decimal_spec};
use crate::wire::{bincode_error_bytes, bincode_error_from_bytes, byte_bound, deserialize_plugin_error,
    lemma_error_round_trip, serialize_plugin_error, WireError};
use vstd::utf8::encode_utf8;

verus! {

/// Tag of an item frame.
pub const FRAME_ITEM: u8 = 0;

/// Tag of the end-of-stream frame.
pub const FRAME_END: u8 = 1;

/// Tag of an error frame.
pub const FRAME_ERROR: u8 = 2;

/// Bytes before the payload: one tag byte and a little-endian `u32` length.
pub const FRAME_HEADER_LEN: usize = 5;

/// One frame of a stream.
#[derive(Debug, Clone, PartialEq)]
pub enum Frame {
    /// One streamed item; bytes are the encoded payload.
    Item(Vec<u8>),
    /// Clean end of stream.
    End,
    /// Producer failed mid-stream; the stream terminates here.
    Error(PluginError),
}

/// The value of a frame.
pub enum FrameView {
    Item(Seq<u8>),
    End,
    Error(PluginErrorView),
}

impl View for Frame {
    type V = FrameView;

    open spec fn view(&self) -> FrameView {
        match self {
            Frame::Item(b) => FrameView::Item(b@),
            Frame::End => FrameView::End,
            Frame::Error(e) => FrameView::Error(e@),
        }
    }
}

/// Why a frame could not be read.
#[derive(Debug)]
pub enum FrameError {
    /// Buffer ended before a full header or the declared payload was read.
    Truncated { needed: usize, had: usize },
    /// The tag byte was not one of the known frame tags.
    UnknownTag(u8),
    /// The `ERROR` frame payload failed to decode as a plugin error.
    Payload(WireError),
    /// An `END` frame declared a payload, or bytes followed a frame that had to
    /// stand alone.
    Malformed(String),
}

/// The little-endian bytes of a `u32`.
pub open spec fn le32(x: u32) -> Seq<u8> {
    seq![
        (x % 256) as u8,
        ((x / 256) % 256) as u8,
        ((x / 65536) % 256) as u8,
        (x / 16777216) as u8
    ]
}

/// The `u32` whose little-endian bytes are `b0..b3`.
pub open spec fn from_le32(b0: u8, b1: u8, b2: u8, b3: u8) -> u32 {
    (b0 as int + 256 * (b1 as int) + 65536 * (b2 as int) + 16777216 * (b3 as int)) as u32
}

proof fn lemma_le32_roundtrip(x: u32)
    ensures
        from_le32(le32(x)[0], le32(x)[1], le32(x)[2], le32(x)[3]) == x,
{
    assert(((x % 256) as u8) as int + 256 * (((x / 256) % 256) as u8) as int + 65536 * (((x
        / 65536) % 256) as u8) as int + 16777216 * ((x / 16777216) as u8) as int == x as int)
        by (nonlinear_arith);
}

/// The tag byte of a frame.
pub open spec fn frame_tag(f: FrameView) -> u8 {
    match f {
        FrameView::Item(_) => FRAME_ITEM,
        FrameView::End => FRAME_END,
        FrameView::Error(_) => FRAME_ERROR,
    }
}

/// The payload bytes of a frame (an error's payload is its bincode encoding).
pub open spec fn frame_payload(f: FrameView) -> Seq<u8> {
    match f {
        FrameView::Item(b) => b,
        FrameView::End => Seq::empty(),
        FrameView::Error(e) => bincode_error_bytes(e),
    }
}

/// The bytes of a frame: tag, payload length as `u32` (little-endian), payload.
pub open spec fn frame_bytes(f: FrameView) -> Seq<u8> {
    seq![frame_tag(f)] + le32(frame_payload(f).len() as u32) + frame_payload(f)
}

/// The outcome of reading one frame from the front of a buffer.
pub enum ReadSpec {
    /// A frame and the number of bytes it took.
    Read(FrameView, nat),
    Truncated { needed: nat, had: nat },
    UnknownTag(u8),
    BadPayload,
    Malformed(Seq<char>),
}

/// The payload length a buffer's header declares (requires a full header).
pub open spec fn declared_len(bytes: Seq<u8>) -> nat {
    from_le32(bytes[1], bytes[2], bytes[3], bytes[4]) as nat
}

/// `"END frame carries {len} payload byte(s)"`.
pub open spec fn end_payload_message(len: nat) -> Seq<char> {
    seq!['E', 'N', 'D', ' ', 'f', 'r', 'a', 'm', 'e', ' ', 'c', 'a', 'r', 'r', 'i', 'e', 's', ' ']
        + decimal_spec(len) + seq![
        ' ', 'p', 'a', 'y', 'l', 'o', 'a', 'd', ' ', 'b', 'y', 't', 'e', '(', 's', ')',
    ]
}

/// `"{n} trailing byte(s) after frame"`.
pub open spec fn trailing_message(n: nat) -> Seq<char> {
    decimal_spec(n) + seq![
        ' ', 't', 'r', 'a', 'i', 'l', 'i', 'n', 'g', ' ', 'b', 'y', 't', 'e', '(', 's', ')', ' ',
        'a', 'f', 't', 'e', 'r', ' ', 'f', 'r', 'a', 'm', 'e',
    ]
}

/// What reading one frame from the front of `bytes` yields.
pub open spec fn read_spec(bytes: Seq<u8>) -> ReadSpec {
    if bytes.len() < 5 {
        ReadSpec::Truncated { needed: 5, had: bytes.len() }
    } else {
        let len = declared_len(bytes);
        let end = 5 + len;
        let payload = bytes.subrange(5, end as int);
        if bytes.len() < end {
            ReadSpec::Truncated { needed: end, had: bytes.len() }
        } else if bytes[0] == FRAME_ITEM {
            ReadSpec::Read(FrameView::Item(payload), end)
        } else if bytes[0] == FRAME_END {
            if len != 0 {
                ReadSpec::Malformed(end_payload_message(len))
            } else {
                ReadSpec::Read(FrameView::End, end)
            }
        } else if bytes[0] == FRAME_ERROR {
            match bincode_error_from_bytes(payload) {
                Some(e) => ReadSpec::Read(FrameView::Error(e), end),
                None => ReadSpec::BadPayload,
            }
        } else {
            ReadSpec::UnknownTag(bytes[0])
        }
    }
}

/// What decoding a buffer that must hold exactly one frame yields.
pub open spec fn decode_spec(bytes: Seq<u8>) -> ReadSpec {
    match read_spec(bytes) {
        ReadSpec::Read(f, n) => if n == bytes.len() {
            ReadSpec::Read(f, n)
        } else {
            ReadSpec::Malformed(trailing_message((bytes.len() - n) as nat))
        },
        other => other,
    }
}

/// A frame-read result agrees with its specification.
pub open spec fn read_result_matches(r: Result<(Frame, usize), FrameError>, s: ReadSpec) -> bool {
    match r {
        Ok((f, n)) => s == ReadSpec::Read(f@, n as nat),
        Err(FrameError::Truncated { needed, had }) => {
            // `needed` saturates where `5 + len` does not fit a `usize`.
            s matches ReadSpec::Truncated { needed: sn, had: sh } && had == sh && (needed == sn || (
            needed == usize::MAX && sn > usize::MAX))
        },
        Err(FrameError::UnknownTag(t)) => s == ReadSpec::UnknownTag(t),
        Err(FrameError::Payload(_)) => s == ReadSpec::BadPayload,
        Err(FrameError::Malformed(m)) => s == ReadSpec::Malformed(m@),
    }
}

impl Frame {
    /// Encode this frame as `[tag][len][payload]`.
    pub fn encode(&self) -> (r: Result<Vec<u8>, WireError>)
        ensures
            r matches Ok(b) ==> b@ == frame_bytes(self@),
            r matches Ok(_) ==> (self@ matches FrameView::Error(e) ==> bincode_error_from_bytes(
                bincode_error_bytes(e),
            ) == Some(e)),
            r is Ok,
    {
        let (tag, payload): (u8, Vec<u8>) = match self {
            Frame::Item(bytes) => (FRAME_ITEM, bytes.clone()),
            Frame::End => (FRAME_END, Vec::new()),
            Frame::Error(err) => match serialize_plugin_error(err) {
                Ok(b) => (FRAME_ERROR, b),
                Err(e) => return Err(e),
            },
        };
        assert(payload@ == frame_payload(self@));
        let len: u32 = payload.len() as u32;
        let mut out: Vec<u8> = Vec::new();
        out.push(tag);
        out.push((len % 256) as u8);
        out.push(((len / 256) % 256) as u8);
        out.push(((len / 65536) % 256) as u8);
        out.push((len / 16777216) as u8);
        out.extend_from_slice(payload.as_slice());
        assert(out@ =~= frame_bytes(self@));
        Ok(out)
    }

    /// Read one frame from the front of `bytes`, returning the frame and the
    /// number of bytes consumed.
    pub fn read(bytes: &[u8]) -> (r: Result<(Frame, usize), FrameError>)
        ensures
            read_result_matches(r, read_spec(bytes@)),
    {
        if bytes.len() < FRAME_HEADER_LEN {
            return Err(FrameError::Truncated { needed: FRAME_HEADER_LEN, had: bytes.len() });
        }
        let tag = bytes[0];
        let len: usize = (bytes[1] as u32 + 256 * (bytes[2] as u32) + 65536 * (bytes[3] as u32)
            + 16777216 * (bytes[4] as u32)) as usize;
        assert(len == declared_len(bytes@));
        if bytes.len() - FRAME_HEADER_LEN < len {
            return Err(
                FrameError::Truncated { needed: FRAME_HEADER_LEN.saturating_add(len), had: bytes.len() },
            );
        }
        let end = FRAME_HEADER_LEN + len;
        let payload = vstd::slice::slice_subrange(bytes, FRAME_HEADER_LEN, end);
        let frame = if tag == FRAME_ITEM {
            Frame::Item(vstd::slice::slice_to_vec(payload))
        } else if tag == FRAME_END {
            if len != 0 {
                let mut msg = String::from_str("END frame carries ");
                msg.append(decimal(len as u64).as_str());
                msg.append(" payload byte(s)");
                proof {
                    reveal_strlit("END frame carries ");
                    reveal_strlit(" payload byte(s)");
                }
                assert(msg@ =~= end_payload_message(len as nat));
                return Err(FrameError::Malformed(msg));
            }
            Frame::End
        } else if tag == FRAME_ERROR {
            match deserialize_plugin_error(payload) {
                Ok(e) => Frame::Error(e),
                Err(w) => return Err(FrameError::Payload(w)),
            }
        } else {
            return Err(FrameError::UnknownTag(tag));
        };
        Ok((frame, end))
    }

    /// Decode exactly one frame from `bytes`, which must hold a single frame and
    /// nothing more.
    pub fn decode(bytes: &[u8]) -> (r: Result<Frame, FrameError>)
        ensures
            read_result_matches(
                match r {
                    Ok(f) => Ok((f, bytes@.len() as usize)),
                    Err(e) => Err(e),
                },
                decode_spec(bytes@),
            ),
    {
        let (frame, consumed) = Frame::read(bytes)?;
        if consumed != bytes.len() {
            let mut msg = decimal((bytes.len() - consumed) as u64);
            msg.append(" trailing byte(s) after frame");
            proof {
                reveal_strlit(" trailing byte(s) after frame");
            }
            assert(msg@ =~= trailing_message((bytes@.len() - consumed) as nat));
            return Err(FrameError::Malformed(msg));
        }
        Ok(frame)
    }
}

/// Reading an encoded frame off the front of a buffer gives the frame back and
/// consumes exactly its bytes, whatever follows it; decoding it alone gives the
/// frame. (An error frame's strings must each be shorter than a `u64` can
/// count, as every string in memory is.)
pub proof fn lemma_frame_roundtrip(f: FrameView, rest: Seq<u8>)
    requires
        frame_payload(f).len() <= u32::MAX,
        f matches FrameView::Error(e) ==> {
            &&& encode_utf8(e.0).len() < byte_bound(8)
            &&& encode_utf8(e.1).len() < byte_bound(8)
            &&& e.2 matches Some(d) ==> encode_utf8(d).len() < byte_bound(8)
        },
    ensures
        read_spec(frame_bytes(f) + rest) == ReadSpec::Read(f, frame_bytes(f).len()),
        decode_spec(frame_bytes(f)) == ReadSpec::Read(f, frame_bytes(f).len()),
{
    let p = frame_payload(f);
    let b = frame_bytes(f) + rest;
    lemma_le32_roundtrip(p.len() as u32);
    assert(declared_len(b) == p.len());
    assert(b.subrange(5, 5 + p.len() as int) =~= p);
    assert(frame_bytes(f).subrange(5, 5 + p.len() as int) =~= p);
    match f {
        FrameView::Item(x) => {
            assert(p =~= x);
        },
        FrameView::End => {},
        FrameView::Error(e) => {
            lemma_error_round_trip(e);
        },
    }
}

} // verus!
