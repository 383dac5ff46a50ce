//! The static description of an interface that a WASM component exports.
use vstd::prelude::*;

verus! {

/// Interface metadata the WASM executor needs to dispatch by method index.
#[derive(Debug, Clone, Copy)]
pub struct WasmInterfaceDescriptor {
    /// Trait name, for diagnostics.
    pub interface_name: &'static str,
    /// Fully-qualified exported interface, e.g. `"fidius:greeter/greeter@1.0.0"`.
    pub interface_export: &'static str,
    /// The hash the component's interface-hash export must return.
    pub interface_hash: u64,
    /// Methods in declaration (vtable) order.
    pub methods: &'static [WasmMethodDesc],
}

/// One method of a WASM-exported interface.
#[derive(Debug, Clone, Copy)]
pub struct WasmMethodDesc {
    /// Export name within the interface.
    pub name: &'static str,
    /// Whether this method passes raw bytes both ways.
    pub wire_raw: bool,
    /// Whether this method is server-streaming.
    pub streaming: bool,
}

} // verus!
