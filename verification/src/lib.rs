//! Verified core of the fidius plugin framework: the wire formats, hashing,
//! status decoding, package-manifest and archive rules, the WASM sandbox's
//! capability and egress policy, streaming protocols, and Python stub
//! generation that host, plugin and tooling share.

pub mod hash;
pub mod error;
pub mod text;
pub mod wire;
pub mod frame;
pub mod host_ffi;
pub mod status;
pub mod descriptor;
pub mod python_descriptor;
pub mod wasm_descriptor;
pub mod package;
pub mod arena;
pub mod call_error;
pub mod types;
pub mod chunk_stream;
pub mod sandbox;
pub mod naming;
pub mod netaddr;
pub mod assoc;
pub mod name_lookup;
pub mod stream_marker;
pub mod stream_ffi;
pub mod python_stub;
pub mod http;
pub mod body_tee;
pub mod discovery;
pub mod egress_dispatch;
pub mod stub_source;
