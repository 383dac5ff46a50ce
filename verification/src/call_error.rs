//! Errors a host sees when calling into a plugin.
use vstd::prelude::*;
use crate::error::PluginError;

verus! {

/// Why a plugin call failed.
#[derive(Debug)]
pub enum CallError {
    /// Encoding the input (or an output on the plugin side) failed.
    Serialization(String),
    /// Decoding the result failed.
    Deserialization(String),
    /// The plugin returned a typed error.
    Plugin(PluginError),
    /// The plugin panicked.
    Panic(String),
    /// The output buffer was too small.
    BufferTooSmall,
    /// An optional method is not implemented (its capability bit is unset).
    NotImplemented { bit: u32 },
    /// The method index is out of range.
    InvalidMethodIndex { index: usize, count: u32 },
    /// The plugin returned an unknown status code.
    UnknownStatus { code: i32 },
    /// A method was dispatched through the wrong wire path (raw vs typed).
    WireModeMismatch { method: String, declared: bool, attempted: bool },
    /// A runtime-level fault inside an execution backend.
    Backend { runtime: String, message: String },
    /// A stream ended without a terminal frame.
    StreamAborted,
    /// A stream frame could not be decoded.
    MalformedFrame(String),
}

} // verus!
