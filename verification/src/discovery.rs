//! What plugin discovery makes of a package directory's manifest header.
use vstd::prelude::*;
use crate::descriptor::BufferStrategyKind;
use crate::package::{opt_view, runtime_of, PackageHeader, PackageRuntime};
use crate::text::str_eq;
use crate::types::{PluginInfo, PluginRuntimeKind};

verus! {

/// Whether a manifest header declares the Python runtime.
pub open spec fn is_python_header(header: PackageHeader) -> bool {
    runtime_of(opt_view(header.runtime)) == PackageRuntime::Python
}

/// What discovery reports for a package directory: for a Python package, its
/// name, interface and interface version, with the hash and capabilities 0
/// (they are unknown until loading validates the package); nothing for any
/// other runtime.
pub fn python_package_info(header: &PackageHeader) -> (r: Option<PluginInfo>)
    ensures
        r is Some <==> is_python_header(*header),
        r matches Some(i) ==> {
            &&& i.name@ == header.name@
            &&& i.interface_name@ == header.interface@
            &&& i.interface_hash == 0
            &&& i.interface_version == header.interface_version
            &&& i.capabilities == 0
            &&& i.buffer_strategy == BufferStrategyKind::PluginAllocated
            &&& i.runtime == PluginRuntimeKind::Python
        },
{
    match header.runtime() {
        PackageRuntime::Python => Some(
            PluginInfo {
                name: header.name.clone(),
                interface_name: header.interface.clone(),
                interface_hash: 0,
                interface_version: header.interface_version,
                capabilities: 0,
                buffer_strategy: BufferStrategyKind::PluginAllocated,
                runtime: PluginRuntimeKind::Python,
            },
        ),
        PackageRuntime::Rust => None,
    }
}

/// Whether a package directory with this manifest header is the Python
/// plugin named `name`.
pub fn is_python_package_named(header: &PackageHeader, name: &str) -> (r: bool)
    ensures
        r == (is_python_header(*header) && header.name@ == name@),
{
    match header.runtime() {
        PackageRuntime::Python => str_eq(header.name.as_str(), name),
        PackageRuntime::Rust => false,
    }
}

} // verus!
