//! Host-side metadata describing a loaded plugin.
use vstd::prelude::*;
use crate::call_error::CallError;
use crate::descriptor::BufferStrategyKind;

verus! {

/// Which execution backend a plugin runs on.
#[derive(Debug, Clone, Copy, PartialEq, Eq)]
pub enum PluginRuntimeKind {
    /// Cdylib exposing a plugin registry.
    Cdylib,
    /// Python package run by an embedded interpreter.
    Python,
}

/// Owned metadata about a loaded plugin.
#[derive(Debug, Clone)]
pub struct PluginInfo {
    /// Human-readable plugin name (e.g. "BlurFilter").
    pub name: String,
    /// Interface trait name (e.g. "ImageFilter").
    pub interface_name: String,
    /// FNV-1a hash of required method signatures.
    pub interface_hash: u64,
    /// User-specified interface version.
    pub interface_version: u32,
    /// Capability bitfield (optional method support). Cdylib only.
    pub capabilities: u64,
    /// Buffer management strategy. Cdylib only.
    pub buffer_strategy: BufferStrategyKind,
    /// Runtime kind.
    pub runtime: PluginRuntimeKind,
}

impl PluginInfo {
    /// True if this is a cdylib-backed plugin.
    pub fn is_cdylib(&self) -> (r: bool)
        ensures
            r == (self.runtime == PluginRuntimeKind::Cdylib),
    {
        matches!(self.runtime, PluginRuntimeKind::Cdylib)
    }

    /// True if this is a Python plugin.
    pub fn is_python(&self) -> (r: bool)
        ensures
            r == (self.runtime == PluginRuntimeKind::Python),
    {
        matches!(self.runtime, PluginRuntimeKind::Python)
    }
}

/// How strictly loading validates plugins.
#[derive(Debug, Clone, Copy, PartialEq, Eq)]
pub enum LoadPolicy {
    /// Reject any validation failure, require signatures if configured.
    Strict,
    /// Warn on unsigned plugins but allow loading.
    Lenient,
}

impl Default for LoadPolicy {
    /// `Strict`.
    fn default() -> (p: Self)
        ensures
            p == LoadPolicy::Strict,
    {
        LoadPolicy::Strict
    }
}

/// The surface every execution backend shares: metadata, and the raw
/// bytes-in / bytes-out dispatch. Backends must be shareable across threads.
pub trait PluginExecutor: Send + Sync {
    /// Metadata describing the loaded plugin.
    fn info(&self) -> &PluginInfo;

    /// How many methods the plugin exposes, in interface order.
    fn method_count(&self) -> u32;

    /// Raw dispatch for raw-wire methods: opaque bytes in, opaque bytes out.
    fn call_raw(&self, method: usize, input: &[u8]) -> Result<Vec<u8>, CallError>;
}

} // verus!
