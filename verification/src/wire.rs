//! The bincode wire encoding shared by host and plugin, for the plain values
//! that cross the boundary inside frames and status payloads.
use vstd::prelude::*;
use crate::error::{opt_string_view, PluginError, PluginErrorView};
use vstd::utf8::{decode_utf8, encode_utf8, encode_utf8_decode_utf8, encode_utf8_valid_utf8, valid_utf8};

verus! {

#[verifier::external_type_specification]
#[verifier::external_body]
pub struct ExBincodeErrorKind(bincode::ErrorKind);

/// An error from the bincode wire codec.
#[derive(Debug)]
pub enum WireError {
    /// Bincode serialization/deserialization error.
    Bincode(bincode::Error),
}


/// The unsigned number whose little-endian encoding is `b[at..at + n]`.
pub open spec fn le_value(b: Seq<u8>, at: int, n: nat) -> nat
    decreases n,
{
    if n == 0 {
        0
    } else {
        b[at] as nat + 256 * le_value(b, at + 1, (n - 1) as nat)
    }
}

/// The `n`-byte little-endian encoding of `x`.
pub open spec fn le_bytes(x: nat, n: nat) -> Seq<u8>
    decreases n,
{
    if n == 0 {
        Seq::empty()
    } else {
        seq![(x % 256) as u8] + le_bytes(x / 256, (n - 1) as nat)
    }
}

/// The numbers that `n` bytes can hold are those below `byte_bound(n)`.
pub open spec fn byte_bound(n: nat) -> nat
    decreases n,
{
    if n == 0 {
        1
    } else {
        256 * byte_bound((n - 1) as nat)
    }
}

/// Reading back `n` little-endian bytes of `x` gives `x`, wherever they stand.
pub proof fn lemma_le_round_trip(x: nat, n: nat, pre: Seq<u8>, post: Seq<u8>)
    requires
        x < byte_bound(n),
    ensures
        le_bytes(x, n).len() == n,
        le_value(pre + le_bytes(x, n) + post, pre.len() as int, n) == x,
    decreases n,
{
    if n > 0 {
        let m = (n - 1) as nat;
        let s = pre + le_bytes(x, n) + post;
        let pre2 = pre.push((x % 256) as u8);
        assert(x / 256 < byte_bound(m)) by (nonlinear_arith)
            requires
                x < 256 * byte_bound(m),
        ;
        lemma_le_round_trip(x / 256, m, pre2, post);
        assert(pre2 + le_bytes(x / 256, m) + post =~= s);
        assert(s[pre.len() as int] == (x % 256) as u8);
    }
}

/// What bincode decodes from `bytes` as a string: an eight-byte
/// little-endian length, then that many bytes of UTF-8 (bytes after them are
/// left unread).
pub open spec fn bincode_string_from_bytes(bytes: Seq<u8>) -> Option<Seq<char>> {
    if bytes.len() < 8 {
        None
    } else {
        let n = le_value(bytes, 0, 8);
        if bytes.len() < 8 + n {
            None
        } else if valid_utf8(bytes.subrange(8, 8 + n as int)) {
            Some(decode_utf8(bytes.subrange(8, 8 + n as int)))
        } else {
            None
        }
    }
}

/// The bincode encoding of a string: its UTF-8 length as eight
/// little-endian bytes, then its UTF-8 bytes.
pub open spec fn bincode_string_bytes(s: Seq<char>) -> Seq<u8> {
    le_bytes(encode_utf8(s).len(), 8) + encode_utf8(s)
}

/// The string bincode reads at offset `at` of `bytes`, and where it ends.
pub open spec fn bincode_string_at(bytes: Seq<u8>, at: int) -> Option<(Seq<char>, int)> {
    let rest = bytes.skip(at);
    match bincode_string_from_bytes(rest) {
        Some(s) => Some((s, at + 8 + le_value(rest, 0, 8))),
        None => None,
    }
}

/// The bincode encoding of a plugin error's fields `(code, message,
/// details)`: the two strings, then `0` for no details or `1` and the
/// details string.
pub open spec fn bincode_error_bytes(e: PluginErrorView) -> Seq<u8> {
    bincode_string_bytes(e.0) + bincode_string_bytes(e.1) + match e.2 {
        None => seq![0u8],
        Some(d) => seq![1u8] + bincode_string_bytes(d),
    }
}

/// What bincode decodes from `bytes` as a plugin error's fields: two
/// strings, then an option tag (`0` none, `1` some and a string; any other
/// tag is refused). Bytes after them are left unread.
pub open spec fn bincode_error_from_bytes(bytes: Seq<u8>) -> Option<PluginErrorView> {
    match bincode_string_at(bytes, 0) {
        None => None,
        Some((code, i)) => match bincode_string_at(bytes, i) {
            None => None,
            Some((message, j)) => if j >= bytes.len() {
                None
            } else if bytes[j] == 0 {
                Some((code, message, None))
            } else if bytes[j] == 1 {
                match bincode_string_at(bytes, j + 1) {
                    Some((d, _)) => Some((code, message, Some(d))),
                    None => None,
                }
            } else {
                None
            },
        },
    }
}

/// A string's encoding reads back as the string, wherever it stands.
pub proof fn lemma_string_round_trip(s: Seq<char>, pre: Seq<u8>, post: Seq<u8>)
    requires
        encode_utf8(s).len() < byte_bound(8),
    ensures
        bincode_string_at(pre + bincode_string_bytes(s) + post, pre.len() as int) == Some(
            (s, (pre.len() + bincode_string_bytes(s).len()) as int),
        ),
{
    let enc = encode_utf8(s);
    let n = enc.len();
    let b = pre + bincode_string_bytes(s) + post;
    let rest = b.skip(pre.len() as int);
    lemma_le_round_trip(n, 8, Seq::empty(), enc + post);
    assert(rest =~= Seq::<u8>::empty() + le_bytes(n, 8) + (enc + post));
    assert(rest.subrange(8, 8 + n as int) =~= enc);
    encode_utf8_valid_utf8(s);
    encode_utf8_decode_utf8(s);
}

/// Decoding a plugin error's encoding gives the error back, when each of its
/// strings is shorter than a `u64` can count.
pub proof fn lemma_error_round_trip(e: PluginErrorView)
    requires
        encode_utf8(e.0).len() < byte_bound(8),
        encode_utf8(e.1).len() < byte_bound(8),
        e.2 matches Some(d) ==> encode_utf8(d).len() < byte_bound(8),
    ensures
        bincode_error_from_bytes(bincode_error_bytes(e)) == Some(e),
{
    let sc = bincode_string_bytes(e.0);
    let sm = bincode_string_bytes(e.1);
    let tail = match e.2 {
        None => seq![0u8],
        Some(d) => seq![1u8] + bincode_string_bytes(d),
    };
    let b = bincode_error_bytes(e);
    let e0 = Seq::<u8>::empty();
    lemma_string_round_trip(e.0, e0, sm + tail);
    assert(e0 + sc + (sm + tail) =~= b);
    lemma_string_round_trip(e.1, sc, tail);
    assert(sc + sm + tail =~= b);
    let j = (sc.len() + sm.len()) as int;
    assert(b[j] == tail[0]);
    match e.2 {
        None => {},
        Some(d) => {
            lemma_string_round_trip(d, sc + sm + seq![1u8], e0);
            assert(sc + sm + seq![1u8] + bincode_string_bytes(d) + e0 =~= b);
        },
    }
}

/// What bincode decodes from `bytes` as a pair of `u32`: two four-byte
/// little-endian numbers (bytes after them are left unread).
pub open spec fn bincode_u32_pair_from_bytes(bytes: Seq<u8>) -> Option<(u32, u32)> {
    if bytes.len() < 8 {
        None
    } else {
        Some((le_value(bytes, 0, 4) as u32, le_value(bytes, 4, 4) as u32))
    }
}

/// What bincode decodes from `bytes` as a pair of `u64`: two eight-byte
/// little-endian numbers (bytes after them are left unread).
pub open spec fn bincode_u64_pair_from_bytes(bytes: Seq<u8>) -> Option<(u64, u64)> {
    if bytes.len() < 16 {
        None
    } else {
        Some((le_value(bytes, 0, 8) as u64, le_value(bytes, 8, 8) as u64))
    }
}

/// Calls `bincode::serialize` on the error's fields `(code, message, details)`,
/// which is the encoding of the error record. Claims: it succeeds (with the
/// default, unlimited size bound, two strings and an optional string always
/// encode and a `Vec` write never fails), the bytes are the record's bincode
/// encoding, and `bincode::deserialize` of those bytes gives the same fields
/// back.
#[verifier::external_body]
pub(crate) fn serialize_plugin_error(err: &PluginError) -> (r: Result<Vec<u8>, WireError>)
    ensures
        r is Ok,
        r matches Ok(b) ==> b@ == bincode_error_bytes(err@) && bincode_error_from_bytes(b@)
            == Some(err@),
{
    bincode::serialize(&(&err.code, &err.message, &err.details)).map_err(WireError::Bincode)
}

/// Calls `bincode::deserialize` for the fields `(code, message, details)` of an
/// error record. Claims: it succeeds exactly when the bytes decode, and then
/// gives the decoded fields.
#[verifier::external_body]
pub(crate) fn deserialize_plugin_error(bytes: &[u8]) -> (r: Result<PluginError, WireError>)
    ensures
        match r {
            Ok(e) => bincode_error_from_bytes(bytes@) == Some(e@),
            Err(_) => bincode_error_from_bytes(bytes@) is None,
        },
{
    bincode::deserialize::<(String, String, Option<String>)>(bytes)
        .map(|(code, message, details)| PluginError { code, message, details })
        .map_err(WireError::Bincode)
}

/// Calls `bincode::deserialize::<String>`. Claims: it succeeds exactly when the
/// bytes decode, and then gives the decoded string.
#[verifier::external_body]
pub(crate) fn deserialize_string(bytes: &[u8]) -> (r: Result<String, WireError>)
    ensures
        match r {
            Ok(s) => bincode_string_from_bytes(bytes@) == Some(s@),
            Err(_) => bincode_string_from_bytes(bytes@) is None,
        },
{
    bincode::deserialize::<String>(bytes).map_err(WireError::Bincode)
}

/// Calls `bincode::deserialize::<(u32, u32)>`. Claims: it succeeds exactly when
/// the bytes decode, and then gives the decoded pair.
#[verifier::external_body]
pub(crate) fn deserialize_u32_pair(bytes: &[u8]) -> (r: Result<(u32, u32), WireError>)
    ensures
        match r {
            Ok(p) => bincode_u32_pair_from_bytes(bytes@) == Some(p),
            Err(_) => bincode_u32_pair_from_bytes(bytes@) is None,
        },
{
    bincode::deserialize::<(u32, u32)>(bytes).map_err(WireError::Bincode)
}

/// Calls `bincode::deserialize::<(u64, u64)>`. Claims: it succeeds exactly when
/// the bytes decode, and then gives the decoded pair.
#[verifier::external_body]
pub(crate) fn deserialize_u64_pair(bytes: &[u8]) -> (r: Result<(u64, u64), WireError>)
    ensures
        match r {
            Ok(p) => bincode_u64_pair_from_bytes(bytes@) == Some(p),
            Err(_) => bincode_u64_pair_from_bytes(bytes@) is None,
        },
{
    bincode::deserialize::<(u64, u64)>(bytes).map_err(WireError::Bincode)
}

/// The bincode encoding of a pair of `u32`: each as four little-endian bytes.
pub open spec fn bincode_u32_pair_bytes(p: (u32, u32)) -> Seq<u8> {
    le_bytes(p.0 as nat, 4) + le_bytes(p.1 as nat, 4)
}

/// The bincode encoding of a pair of `u64`: each as eight little-endian bytes.
pub open spec fn bincode_u64_pair_bytes(p: (u64, u64)) -> Seq<u8> {
    le_bytes(p.0 as nat, 8) + le_bytes(p.1 as nat, 8)
}

/// Decoding the encoding of a pair gives the pair back.
pub proof fn lemma_pair_round_trips(a: (u32, u32), b: (u64, u64))
    ensures
        bincode_u32_pair_from_bytes(bincode_u32_pair_bytes(a)) == Some(a),
        bincode_u64_pair_from_bytes(bincode_u64_pair_bytes(b)) == Some(b),
{
    reveal_with_fuel(byte_bound, 9);
    assert(byte_bound(4) == 0x1_0000_0000);
    assert(byte_bound(8) == 0x1_0000_0000_0000_0000);
    let e = Seq::<u8>::empty();
    lemma_le_round_trip(a.0 as nat, 4, e, le_bytes(a.1 as nat, 4));
    lemma_le_round_trip(a.1 as nat, 4, le_bytes(a.0 as nat, 4), e);
    assert(e + le_bytes(a.0 as nat, 4) + le_bytes(a.1 as nat, 4) =~= bincode_u32_pair_bytes(a));
    assert(le_bytes(a.0 as nat, 4) + le_bytes(a.1 as nat, 4) + e =~= bincode_u32_pair_bytes(a));
    lemma_le_round_trip(b.0 as nat, 8, e, le_bytes(b.1 as nat, 8));
    lemma_le_round_trip(b.1 as nat, 8, le_bytes(b.0 as nat, 8), e);
    assert(e + le_bytes(b.0 as nat, 8) + le_bytes(b.1 as nat, 8) =~= bincode_u64_pair_bytes(b));
    assert(le_bytes(b.0 as nat, 8) + le_bytes(b.1 as nat, 8) + e =~= bincode_u64_pair_bytes(b));
}

/// Calls `bincode::serialize::<(u32, u32)>`. Claims: it succeeds (two
/// fixed-width integers under the default, unlimited size bound into a
/// `Vec`), and the bytes are the pair's encoding.
#[verifier::external_body]
pub(crate) fn serialize_u32_pair(p: (u32, u32)) -> (r: Result<Vec<u8>, WireError>)
    ensures
        r is Ok,
        r matches Ok(b) ==> b@ == bincode_u32_pair_bytes(p),
{
    bincode::serialize(&p).map_err(WireError::Bincode)
}

/// Calls `bincode::serialize::<(u64, u64)>`. Claims: it succeeds, and the
/// bytes are the pair's encoding.
#[verifier::external_body]
pub(crate) fn serialize_u64_pair(p: (u64, u64)) -> (r: Result<Vec<u8>, WireError>)
    ensures
        r is Ok,
        r matches Ok(b) ==> b@ == bincode_u64_pair_bytes(p),
{
    bincode::serialize(&p).map_err(WireError::Bincode)
}

} // verus!
