//! The static description of an interface that a Python plugin implements.
use vstd::prelude::*;

verus! {

/// Interface metadata the Python loader needs to map methods to indices and
/// to check the interface hash.
#[derive(Debug, Clone, Copy)]
pub struct PythonInterfaceDescriptor {
    /// Trait name, used for diagnostics only.
    pub interface_name: &'static str,
    /// The hash the plugin's `__interface_hash__` constant must match.
    pub interface_hash: u64,
    /// Methods in declaration (vtable) order.
    pub methods: &'static [PythonMethodDesc],
}

/// One method of a Python-implemented interface.
#[derive(Debug, Clone, Copy)]
pub struct PythonMethodDesc {
    /// Function name to look up in the Python plugin module.
    pub name: &'static str,
    /// Whether this method passes raw bytes both ways.
    pub wire_raw: bool,
}

} // verus!
