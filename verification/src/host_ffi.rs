//! The plugin → host call channel: bind status codes and the decoding of host
//! dispatch results into typed errors.
use vstd::prelude::*;
use crate::error::{PluginError, PluginErrorView};
use crate::status::{STATUS_INVALID_INDEX, STATUS_OK, STATUS_PANIC, STATUS_PLUGIN_ERROR, STATUS_SERIALIZATION_ERROR};
use crate::wire::{bincode_error_from_bytes, bincode_string_from_bytes, bincode_u32_pair_from_bytes,
    bincode_u64_pair_from_bytes, deserialize_plugin_error, deserialize_string, deserialize_u32_pair,
    deserialize_u64_pair, serialize_u32_pair, serialize_u64_pair, bincode_u32_pair_bytes,
    bincode_u64_pair_bytes, lemma_pair_round_trips};

verus! {

/// Version of the host-import registry layout.
pub const HOST_IMPORTS_VERSION: u32 = 1;

/// Symbol a plugin exports to hand the host its host-import registry.
pub const HOST_IMPORTS_SYMBOL: &'static str = "fidius_get_host_imports";

/// Binding succeeded.
pub const BIND_OK: i32 = 0;
/// The table pointer was null.
pub const BIND_ERR_NULL: i32 = -1;
/// A table was already bound for this interface.
pub const BIND_ERR_ALREADY_BOUND: i32 = -2;
/// Interface hash mismatch between plugin and host table.
pub const BIND_ERR_HASH_MISMATCH: i32 = -3;
/// Interface version mismatch between plugin and host table.
pub const BIND_ERR_VERSION_MISMATCH: i32 = -4;
/// Fidius ABI version mismatch.
pub const BIND_ERR_ABI: i32 = -5;
/// The host table's function count does not match the interface.
pub const BIND_ERR_FN_COUNT: i32 = -6;
/// The plugin's bind shim panicked.
pub const BIND_ERR_PANIC: i32 = -7;
/// The plugin was bound through the wrong backend.
pub const BIND_ERR_WRONG_BACKEND: i32 = -8;

/// Dispatch index reserved for a version/hash probe of a host interface.
pub const HOST_CALL_PROBE_INDEX: u32 = 0xffff_ffff;

/// The host never bound this interface.
pub const HOST_CALL_STATUS_NOT_BOUND: i32 = -7;
/// The host provides a different version of the interface.
pub const HOST_CALL_STATUS_VERSION_MISMATCH: i32 = -8;
/// The host provides a different signature hash of the interface.
pub const HOST_CALL_STATUS_HASH_MISMATCH: i32 = -9;

/// Why a host function call failed.
#[derive(Debug)]
pub enum HostCallError {
    /// The host never bound this interface for this plugin.
    NotBound { interface: &'static str },
    /// The host function returned a typed error.
    Host(PluginError),
    /// The host function panicked; the panic was caught at the boundary.
    HostPanic(String),
    /// Argument or result encoding failed.
    Serialization(String),
    /// The host's response bytes did not decode as the expected type.
    Deserialization(String),
    /// The dispatch index was out of range for the host's table.
    InvalidIndex { index: u32 },
    /// The host returned a status code this plugin doesn't know.
    UnknownStatus { code: i32 },
    /// The host provides a different version of this interface.
    VersionMismatch { interface: &'static str, plugin_expects: u32, host_provides: u32 },
    /// The host provides a different signature hash of this interface.
    HashMismatch { interface: &'static str, plugin_expects: u64, host_provides: u64 },
}

/// The error reported when a host error payload does not decode.
pub open spec fn undecodable_host_error() -> PluginErrorView {
    (
        "UNKNOWN"@,
        "host returned an error but no decodable error data"@,
        None::<Seq<char>>,
    )
}

/// The panic message carried by a `STATUS_PANIC` payload.
pub open spec fn host_panic_message(payload: Seq<u8>) -> Seq<char> {
    if payload.len() == 0 {
        "unknown panic"@
    } else {
        match bincode_string_from_bytes(payload) {
            Some(s) => s,
            None => "unknown panic"@,
        }
    }
}

/// What a host dispatch result decodes to.
pub open spec fn decoded_host_call(
    interface: &'static str,
    index: u32,
    status: i32,
    payload: Seq<u8>,
    r: Result<Vec<u8>, HostCallError>,
) -> bool {
    if status == STATUS_OK {
        r matches Ok(p) && p@ == payload
    } else if status == STATUS_PLUGIN_ERROR {
        r matches Err(HostCallError::Host(e)) && e@ == match bincode_error_from_bytes(payload) {
            Some(v) => v,
            None => undecodable_host_error(),
        }
    } else if status == STATUS_PANIC {
        r matches Err(HostCallError::HostPanic(m)) && m@ == host_panic_message(payload)
    } else if status == STATUS_SERIALIZATION_ERROR {
        r matches Err(HostCallError::Serialization(m)) && m@
            == "host could not decode arguments or encode the result"@
    } else if status == STATUS_INVALID_INDEX {
        r matches Err(HostCallError::InvalidIndex { index: i }) && i == index
    } else if status == HOST_CALL_STATUS_NOT_BOUND {
        r matches Err(HostCallError::NotBound { interface: n }) && n == interface
    } else if status == HOST_CALL_STATUS_VERSION_MISMATCH {
        r matches Err(HostCallError::VersionMismatch { interface: n, plugin_expects, host_provides })
            && n == interface && (plugin_expects, host_provides) == match bincode_u32_pair_from_bytes(
            payload,
        ) {
            Some(p) => p,
            None => (0u32, 0u32),
        }
    } else if status == HOST_CALL_STATUS_HASH_MISMATCH {
        r matches Err(HostCallError::HashMismatch { interface: n, plugin_expects, host_provides })
            && n == interface && (plugin_expects, host_provides) == match bincode_u64_pair_from_bytes(
            payload,
        ) {
            Some(p) => p,
            None => (0u64, 0u64),
        }
    } else {
        r matches Err(HostCallError::UnknownStatus { code }) && code == status
    }
}

/// Decode a host-call `(status, payload)` result into the payload or a typed
/// error.
pub fn decode_host_call_status(
    interface: &'static str,
    index: u32,
    status: i32,
    payload: Vec<u8>,
) -> (r: Result<Vec<u8>, HostCallError>)
    ensures
        decoded_host_call(interface, index, status, payload@, r),
{
    if status == STATUS_OK {
        Ok(payload)
    } else if status == STATUS_PLUGIN_ERROR {
        let err = match deserialize_plugin_error(payload.as_slice()) {
            Ok(e) => e,
            Err(_) => PluginError::new(
                "UNKNOWN",
                "host returned an error but no decodable error data",
            ),
        };
        Err(HostCallError::Host(err))
    } else if status == STATUS_PANIC {
        let msg = if payload.len() == 0 {
            String::from_str("unknown panic")
        } else {
            match deserialize_string(payload.as_slice()) {
                Ok(s) => s,
                Err(_) => String::from_str("unknown panic"),
            }
        };
        Err(HostCallError::HostPanic(msg))
    } else if status == STATUS_SERIALIZATION_ERROR {
        Err(
            HostCallError::Serialization(
                String::from_str("host could not decode arguments or encode the result"),
            ),
        )
    } else if status == STATUS_INVALID_INDEX {
        Err(HostCallError::InvalidIndex { index })
    } else if status == HOST_CALL_STATUS_NOT_BOUND {
        Err(HostCallError::NotBound { interface })
    } else if status == HOST_CALL_STATUS_VERSION_MISMATCH {
        let (plugin_expects, host_provides) = match deserialize_u32_pair(payload.as_slice()) {
            Ok(p) => p,
            Err(_) => (0u32, 0u32),
        };
        Err(HostCallError::VersionMismatch { interface, plugin_expects, host_provides })
    } else if status == HOST_CALL_STATUS_HASH_MISMATCH {
        let (plugin_expects, host_provides) = match deserialize_u64_pair(payload.as_slice()) {
            Ok(p) => p,
            Err(_) => (0u64, 0u64),
        };
        Err(HostCallError::HashMismatch { interface, plugin_expects, host_provides })
    } else {
        Err(HostCallError::UnknownStatus { code: status })
    }
}

/// A failed attempt to bind a host interface.
#[derive(Debug)]
pub struct HostBindError {
    /// The host interface (trait) name.
    pub interface: &'static str,
    /// The raw `BIND_*` status code.
    pub code: i32,
    /// Human-readable description of the status.
    pub message: &'static str,
}

/// The description of a `BIND_*` status.
pub open spec fn bind_status_message_spec(code: i32) -> Seq<char> {
    if code == BIND_OK {
        "ok"@
    } else if code == BIND_ERR_NULL {
        "null table pointer"@
    } else if code == BIND_ERR_ALREADY_BOUND {
        "a host table is already bound for this interface"@
    } else if code == BIND_ERR_HASH_MISMATCH {
        "interface hash mismatch between plugin and host table"@
    } else if code == BIND_ERR_VERSION_MISMATCH {
        "interface version mismatch between plugin and host table"@
    } else if code == BIND_ERR_ABI {
        "fidius ABI version mismatch"@
    } else if code == BIND_ERR_FN_COUNT {
        "host table fn_count does not match the interface"@
    } else if code == BIND_ERR_PANIC {
        "plugin bind shim panicked"@
    } else if code == BIND_ERR_WRONG_BACKEND {
        "the plugin's backend cannot accept this host table"@
    } else {
        "unknown bind status"@
    }
}

/// What a probe of a host interface (a call on the reserved probe index, which
/// runs the name/version/hash check without dispatching) reports, given the
/// `(status, payload)` the host answered: `Ok` exactly when the host bound a
/// matching table, and otherwise the typed error a real call would surface.
pub fn probe_result(interface: &'static str, status: i32, payload: Vec<u8>) -> (r: Result<(), HostCallError>)
    ensures
        (r is Ok) == (status == STATUS_OK),
        r matches Err(e) ==> decoded_host_call(interface, HOST_CALL_PROBE_INDEX, status, payload@, Err(e)),
{
    match decode_host_call_status(interface, HOST_CALL_PROBE_INDEX, status, payload) {
        Ok(_) => Ok(()),
        Err(e) => Err(e),
    }
}

/// Human-readable description of a `BIND_*` status code.
pub fn bind_status_message(code: i32) -> (m: &'static str)
    ensures
        m@ == bind_status_message_spec(code),
{
    if code == BIND_OK {
        "ok"
    } else if code == BIND_ERR_NULL {
        "null table pointer"
    } else if code == BIND_ERR_ALREADY_BOUND {
        "a host table is already bound for this interface"
    } else if code == BIND_ERR_HASH_MISMATCH {
        "interface hash mismatch between plugin and host table"
    } else if code == BIND_ERR_VERSION_MISMATCH {
        "interface version mismatch between plugin and host table"
    } else if code == BIND_ERR_ABI {
        "fidius ABI version mismatch"
    } else if code == BIND_ERR_FN_COUNT {
        "host table fn_count does not match the interface"
    } else if code == BIND_ERR_PANIC {
        "plugin bind shim panicked"
    } else if code == BIND_ERR_WRONG_BACKEND {
        "the plugin's backend cannot accept this host table"
    } else {
        "unknown bind status"
    }
}

/// `Ok(())` for `BIND_OK`, otherwise the bind error with its description.
pub fn bind_status_to_result(interface: &'static str, code: i32) -> (r: Result<(), HostBindError>)
    ensures
        code == BIND_OK <==> r is Ok,
        r matches Err(e) ==> e.interface == interface && e.code == code && e.message@
            == bind_status_message_spec(code),
{
    if code == BIND_OK {
        Ok(())
    } else {
        Err(HostBindError { interface, code, message: bind_status_message(code) })
    }
}

/// What the host side of a WASM host call does before dispatching: the
/// identity gate on the interface the plugin was built against.
#[derive(Debug)]
pub enum HostCallGate {
    /// Answer the guest with this status and payload, without dispatching.
    Answer(i32, Vec<u8>),
    /// The call clears the identity check: dispatch function `index` through the bound table.
    Dispatch,
}

/// Runs the identity gate for a host call on an interface that is bound with
/// `bound` = (version, hash), or not bound at all: an unbound interface, then
/// a version mismatch, then a hash mismatch are answered (a mismatch with the
/// bincode pair of what the plugin expects and what the host provides); a
/// call that clears the check on the probe index is answered `STATUS_OK` with
/// no payload; any other call is dispatched.
pub fn host_call_gate(bound: Option<(u32, u64)>, expected_version: u32, expected_hash: u64, index: u32) -> (g: HostCallGate)
    ensures
        bound is None ==> (g matches HostCallGate::Answer(s, p) && s == HOST_CALL_STATUS_NOT_BOUND
            && p@.len() == 0),
        bound matches Some((v, h)) ==> {
            if v != expected_version {
                g matches HostCallGate::Answer(s, p) && s == HOST_CALL_STATUS_VERSION_MISMATCH && p@
                    == bincode_u32_pair_bytes((expected_version, v)) && bincode_u32_pair_from_bytes(p@)
                    == Some((expected_version, v))
            } else if h != expected_hash {
                g matches HostCallGate::Answer(s, p) && s == HOST_CALL_STATUS_HASH_MISMATCH && p@
                    == bincode_u64_pair_bytes((expected_hash, h)) && bincode_u64_pair_from_bytes(p@)
                    == Some((expected_hash, h))
            } else if index == HOST_CALL_PROBE_INDEX {
                g matches HostCallGate::Answer(s, p) && s == STATUS_OK && p@.len() == 0
            } else {
                g is Dispatch
            }
        },
{
    match bound {
        None => HostCallGate::Answer(HOST_CALL_STATUS_NOT_BOUND, Vec::new()),
        Some((v, h)) => {
            proof {
                lemma_pair_round_trips((expected_version, v), (expected_hash, h));
            }
            if v != expected_version {
                match serialize_u32_pair((expected_version, v)) {
                    Ok(b) => HostCallGate::Answer(HOST_CALL_STATUS_VERSION_MISMATCH, b),
                    Err(_) => HostCallGate::Answer(HOST_CALL_STATUS_VERSION_MISMATCH, Vec::new()),
                }
            } else if h != expected_hash {
                match serialize_u64_pair((expected_hash, h)) {
                    Ok(b) => HostCallGate::Answer(HOST_CALL_STATUS_HASH_MISMATCH, b),
                    Err(_) => HostCallGate::Answer(HOST_CALL_STATUS_HASH_MISMATCH, Vec::new()),
                }
            } else if index == HOST_CALL_PROBE_INDEX {
                HostCallGate::Answer(STATUS_OK, Vec::new())
            } else {
                HostCallGate::Dispatch
            }
        },
    }
}

/// What the host's gate answers, the plugin decodes to the matching typed
/// error: an unbound interface reads as not bound, and a mismatch reports
/// exactly what the plugin expects and what the host provides.
pub proof fn lemma_gate_answers_decode(
    interface: &'static str,
    index: u32,
    bound: Option<(u32, u64)>,
    expected_version: u32,
    expected_hash: u64,
    status: i32,
    payload: Seq<u8>,
    r: Result<Vec<u8>, HostCallError>,
)
    requires
        decoded_host_call(interface, index, status, payload, r),
        bound is None ==> status == HOST_CALL_STATUS_NOT_BOUND,
        bound matches Some((v, h)) ==> (v != expected_version ==> status
            == HOST_CALL_STATUS_VERSION_MISMATCH && bincode_u32_pair_from_bytes(payload) == Some(
            (expected_version, v),
        )),
        bound matches Some((v, h)) ==> (v == expected_version && h != expected_hash ==> status
            == HOST_CALL_STATUS_HASH_MISMATCH && bincode_u64_pair_from_bytes(payload) == Some(
            (expected_hash, h),
        )),
    ensures
        bound is None ==> (r matches Err(HostCallError::NotBound { interface: n }) && n
            == interface),
        bound matches Some((v, h)) ==> (v != expected_version ==> (r matches Err(
            HostCallError::VersionMismatch { interface: n, plugin_expects, host_provides },
        ) && n == interface && plugin_expects == expected_version && host_provides == v)),
        bound matches Some((v, h)) ==> (v == expected_version && h != expected_hash ==> (r matches Err(
            HostCallError::HashMismatch { interface: n, plugin_expects, host_provides },
        ) && n == interface && plugin_expects == expected_hash && host_provides == h)),
{
}

/// The slot in which a plugin keeps the function table its host bound for
/// one host interface. A table is installed once: later binds are refused
/// with [`BIND_ERR_ALREADY_BOUND`] and leave the installed table in place, so
/// calls in flight never see it swapped. (Sharing the slot between threads,
/// which the plugin does with an atomic compare-and-swap, is not modelled.)
pub struct HostTableCell<T> {
    table: Option<T>,
}

impl<T> HostTableCell<T> {
    /// The installed table, if any.
    pub closed spec fn bound(self) -> Option<T> {
        self.table
    }

    /// An empty slot.
    pub fn new() -> (c: Self)
        ensures
            c.bound() is None,
    {
        HostTableCell { table: None }
    }

    /// Installs `table` if the slot is empty: [`BIND_OK`] then, and
    /// [`BIND_ERR_ALREADY_BOUND`] (with the slot unchanged) otherwise.
    pub fn bind(&mut self, table: T) -> (code: i32)
        ensures
            old(self).bound() is None ==> code == BIND_OK && final(self).bound() == Some(table),
            old(self).bound() is Some ==> code == BIND_ERR_ALREADY_BOUND && final(self).bound()
                == old(self).bound(),
    {
        if self.table.is_some() {
            BIND_ERR_ALREADY_BOUND
        } else {
            self.table = Some(table);
            BIND_OK
        }
    }

    /// The installed table, or `None` if the host never bound this interface.
    pub fn get(&self) -> (r: Option<&T>)
        ensures
            r matches Some(t) ==> self.bound() == Some(*t),
            r is None <==> self.bound() is None,
    {
        self.table.as_ref()
    }
}

} // verus!
