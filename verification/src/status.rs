//! Status codes returned by plugin method shims and host dispatch.
use vstd::prelude::*;

verus! {

/// Method executed successfully; the output buffer holds the encoded result.
pub const STATUS_OK: i32 = 0;

/// Output buffer too small; `out_len` holds the required size. Retry larger.
pub const STATUS_BUFFER_TOO_SMALL: i32 = -1;

/// Serialization or deserialization failed at the FFI boundary.
pub const STATUS_SERIALIZATION_ERROR: i32 = -2;

/// The method returned an error; the output buffer holds an encoded plugin error.
pub const STATUS_PLUGIN_ERROR: i32 = -3;

/// A panic was caught at the boundary; the buffer may hold a panic message.
pub const STATUS_PANIC: i32 = -4;

/// Clean end of a server stream (distinct from a zero-byte item).
pub const STATUS_STREAM_END: i32 = -5;

/// The dispatch index was out of range for the table it addressed.
pub const STATUS_INVALID_INDEX: i32 = -6;

} // verus!
