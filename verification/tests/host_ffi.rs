use fidius::error::PluginError;
use fidius::host_ffi::{
    bind_status_message, bind_status_to_result, decode_host_call_status, HostCallError, BIND_ERR_HASH_MISMATCH,
    BIND_ERR_WRONG_BACKEND, host_call_gate, probe_result, HostCallGate, HostTableCell, HOST_CALL_PROBE_INDEX,
    BIND_OK, HOST_CALL_STATUS_HASH_MISMATCH, HOST_CALL_STATUS_NOT_BOUND,
    HOST_CALL_STATUS_VERSION_MISMATCH,
};
use fidius::status::{STATUS_INVALID_INDEX, STATUS_OK, STATUS_PANIC, STATUS_PLUGIN_ERROR, STATUS_SERIALIZATION_ERROR};

#[test]
fn ok_status_hands_back_the_payload() {
    let r = decode_host_call_status("Api", 0, STATUS_OK, vec![1, 2, 3]);
    assert_eq!(r.unwrap(), vec![1, 2, 3]);
}

#[test]
fn plugin_error_payload_decodes() {
    let payload = bincode::serialize(&("E_BAD".to_string(), "bad input".to_string(), None::<String>)).unwrap();
    match decode_host_call_status("Api", 1, STATUS_PLUGIN_ERROR, payload) {
        Err(HostCallError::Host(e)) => assert_eq!(e, PluginError::new("E_BAD", "bad input")),
        other => panic!("expected Host error, got {other:?}"),
    }
    match decode_host_call_status("Api", 1, STATUS_PLUGIN_ERROR, vec![0xFF]) {
        Err(HostCallError::Host(e)) => {
            assert_eq!(e.code, "UNKNOWN");
            assert_eq!(e.message, "host returned an error but no decodable error data");
        }
        other => panic!("expected Host error, got {other:?}"),
    }
}

#[test]
fn panic_and_serialization_statuses() {
    let msg = bincode::serialize(&"boom".to_string()).unwrap();
    assert!(matches!(decode_host_call_status("Api", 0, STATUS_PANIC, msg), Err(HostCallError::HostPanic(m)) if m == "boom"));
    assert!(matches!(decode_host_call_status("Api", 0, STATUS_PANIC, vec![]), Err(HostCallError::HostPanic(m)) if m == "unknown panic"));
    assert!(matches!(
        decode_host_call_status("Api", 0, STATUS_SERIALIZATION_ERROR, vec![]),
        Err(HostCallError::Serialization(_))
    ));
}

#[test]
fn gate_statuses_name_the_interface_and_versions() {
    assert!(matches!(decode_host_call_status("Api", 7, STATUS_INVALID_INDEX, vec![]), Err(HostCallError::InvalidIndex { index: 7 })));
    assert!(matches!(
        decode_host_call_status("Api", 0, HOST_CALL_STATUS_NOT_BOUND, vec![]),
        Err(HostCallError::NotBound { interface: "Api" })
    ));
    let pair = bincode::serialize(&(1u32, 2u32)).unwrap();
    assert!(matches!(
        decode_host_call_status("Api", 0, HOST_CALL_STATUS_VERSION_MISMATCH, pair),
        Err(HostCallError::VersionMismatch { interface: "Api", plugin_expects: 1, host_provides: 2 })
    ));
    let hashes = bincode::serialize(&(10u64, 20u64)).unwrap();
    assert!(matches!(
        decode_host_call_status("Api", 0, HOST_CALL_STATUS_HASH_MISMATCH, hashes),
        Err(HostCallError::HashMismatch { interface: "Api", plugin_expects: 10, host_provides: 20 })
    ));
    assert!(matches!(decode_host_call_status("Api", 0, 42, vec![]), Err(HostCallError::UnknownStatus { code: 42 })));
}

#[test]
fn bind_statuses_describe_themselves() {
    assert!(bind_status_to_result("Api", BIND_OK).is_ok());
    let e = bind_status_to_result("Api", BIND_ERR_HASH_MISMATCH).unwrap_err();
    assert_eq!(e.interface, "Api");
    assert_eq!(e.code, BIND_ERR_HASH_MISMATCH);
    assert_eq!(e.message, "interface hash mismatch between plugin and host table");
    assert_eq!(bind_status_message(-99), "unknown bind status");
    assert_eq!(bind_status_message(BIND_ERR_WRONG_BACKEND), "the plugin's backend cannot accept this host table");
}

fn answer(g: HostCallGate) -> (i32, Vec<u8>) {
    match g {
        HostCallGate::Answer(s, p) => (s, p),
        HostCallGate::Dispatch => panic!("expected an answer"),
    }
}

#[test]
fn host_gate_answers_decode_on_the_plugin_side() {
    let (s, p) = answer(host_call_gate(None, 1, 10, 0));
    assert!(matches!(decode_host_call_status("Api", 0, s, p), Err(HostCallError::NotBound { interface: "Api" })));
    let (s, p) = answer(host_call_gate(Some((2, 10)), 1, 10, 0));
    assert!(matches!(
        decode_host_call_status("Api", 0, s, p),
        Err(HostCallError::VersionMismatch { interface: "Api", plugin_expects: 1, host_provides: 2 })
    ));
    let (s, p) = answer(host_call_gate(Some((1, 99)), 1, 10, 0));
    assert!(matches!(
        decode_host_call_status("Api", 0, s, p),
        Err(HostCallError::HashMismatch { interface: "Api", plugin_expects: 10, host_provides: 99 })
    ));
    let (s, p) = answer(host_call_gate(Some((1, 10)), 1, 10, HOST_CALL_PROBE_INDEX));
    assert_eq!(decode_host_call_status("Api", HOST_CALL_PROBE_INDEX, s, p).unwrap(), Vec::<u8>::new());
    assert!(matches!(host_call_gate(Some((1, 10)), 1, 10, 3), HostCallGate::Dispatch));
}

#[test]
fn a_probe_reports_the_gate() {
    assert!(probe_result("Api", STATUS_OK, vec![]).is_ok());
    assert!(matches!(
        probe_result("Api", HOST_CALL_STATUS_NOT_BOUND, vec![]),
        Err(HostCallError::NotBound { interface: "Api" })
    ));
    let answer = match host_call_gate(Some((2, 9)), 1, 9, HOST_CALL_PROBE_INDEX) {
        HostCallGate::Answer(s, p) => (s, p),
        HostCallGate::Dispatch => panic!("a probe is never dispatched"),
    };
    assert!(matches!(
        probe_result("Api", answer.0, answer.1),
        Err(HostCallError::VersionMismatch { interface: "Api", plugin_expects: 1, host_provides: 2 })
    ));
}

#[test]
fn short_or_odd_payloads_decode_to_their_fallbacks() {
    assert!(matches!(
        decode_host_call_status("Api", 1, HOST_CALL_STATUS_VERSION_MISMATCH, vec![1, 2, 3]),
        Err(HostCallError::VersionMismatch { plugin_expects: 0, host_provides: 0, .. })
    ));
    assert!(matches!(
        decode_host_call_status("Api", 1, HOST_CALL_STATUS_VERSION_MISMATCH, vec![1, 0, 0, 0, 2, 0, 0, 0, 9]),
        Err(HostCallError::VersionMismatch { plugin_expects: 1, host_provides: 2, .. })
    ));
    let mut hash_payload = vec![7u8, 0, 0, 0, 0, 0, 0, 0];
    hash_payload.extend_from_slice(&[1, 1, 0, 0, 0, 0, 0, 0]);
    assert!(matches!(
        decode_host_call_status("Api", 1, HOST_CALL_STATUS_HASH_MISMATCH, hash_payload),
        Err(HostCallError::HashMismatch { plugin_expects: 7, host_provides: 257, .. })
    ));
    let mut panic_payload = vec![2u8, 0, 0, 0, 0, 0, 0, 0];
    panic_payload.extend_from_slice(b"hi");
    assert!(matches!(
        decode_host_call_status("Api", 1, STATUS_PANIC, panic_payload),
        Err(HostCallError::HostPanic(m)) if m == "hi"
    ));
    assert!(matches!(
        decode_host_call_status("Api", 1, STATUS_PANIC, vec![5, 0, 0, 0, 0, 0, 0, 0, b'x']),
        Err(HostCallError::HostPanic(m)) if m == "unknown panic"
    ));
}

#[test]
fn a_host_table_binds_once() {
    let mut cell: HostTableCell<u32> = HostTableCell::new();
    assert!(cell.get().is_none());
    assert_eq!(cell.bind(7), BIND_OK);
    assert_eq!(cell.get(), Some(&7));
    assert_eq!(cell.bind(9), -2);
    assert_eq!(cell.get(), Some(&7));
}
