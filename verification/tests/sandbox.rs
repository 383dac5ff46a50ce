use fidius::call_error::CallError;
use fidius::sandbox::{
    is_known_capability, link_plan, parse_u32, pump_continues, pump_step, select_streaming_method, select_method, should_retry, socket_check,
    validate_capabilities, wasi_grants, wasi_http_incompatibility, EgressDenied,
    LinkPlan, PollShape, PumpStep, ResponseDirective, SocketCheck, SocketUse, WasmMethod,
};

fn msg(r: Result<(), CallError>) -> String {
    match r {
        Err(CallError::Backend { message, .. }) => message,
        other => panic!("expected Backend error, got {other:?}"),
    }
}

fn caps(v: &[&str]) -> Vec<String> {
    v.iter().map(|s| s.to_string()).collect()
}

#[test]
fn path_scoped_fs_grants_are_accepted() {
    assert!(validate_capabilities(&["fs:ro:/data".into()]).is_ok());
    assert!(validate_capabilities(&["fs:rw:/var/out".into()]).is_ok());
    // Composes with other caps.
    assert!(validate_capabilities(&["stdout".into(), "fs:rw:/tmp/x".into()]).is_ok());
}

#[test]
fn bare_filesystem_is_rejected() {
    // Whole-FS grants are a footgun — must fail loud, like bare `env`.
    assert!(msg(validate_capabilities(&["fs".into()])).contains("path-scoped"));
    assert!(msg(validate_capabilities(&["filesystem".into()])).contains("path-scoped"));
}

#[test]
fn fs_grant_without_a_path_is_rejected() {
    assert!(msg(validate_capabilities(&["fs:ro:".into()])).contains("requires a path"));
    assert!(msg(validate_capabilities(&["fs:rw:".into()])).contains("requires a path"));
}

#[test]
fn tcp_is_a_known_capability() {
    assert!(validate_capabilities(&["tcp".into()]).is_ok());
    assert!(validate_capabilities(&["tcp".into(), "stdout".into()]).is_ok());
}

#[test]
fn udp_is_a_known_capability() {
    assert!(validate_capabilities(&["udp".into()]).is_ok());
    // `tcp` and `udp` are the same policy-gated tier — they compose.
    assert!(validate_capabilities(&["tcp".into(), "udp".into()]).is_ok());
}

#[test]
fn policy_egress_and_network_are_mutually_exclusive() {
    for combo in [
        vec!["tcp".to_string(), "network".to_string()],
        vec!["network".to_string(), "tcp".to_string()],
        vec!["tcp".to_string(), "sockets".to_string()],
        vec!["udp".to_string(), "network".to_string()],
        vec!["sockets".to_string(), "udp".to_string()],
        vec![
            "sockets".to_string(),
            "stdout".to_string(),
            "tcp".to_string(),
        ],
    ] {
        assert!(
            validate_capabilities(&combo).is_err(),
            "expected {combo:?} to be rejected as a conflicting grant"
        );
    }
    // Each tier alone (and `tcp`+`udp` together) is still fine.
    assert!(validate_capabilities(&["network".into()]).is_ok());
    assert!(validate_capabilities(&["sockets".into()]).is_ok());
    assert!(validate_capabilities(&["tcp".into(), "udp".into()]).is_ok());
}

#[test]
fn host_matched_version_is_compatible() {
    for ok in [
        "wasi:http/types@0.2.12",
        "wasi:http/types@0.2.9",
        "wasi:http/types@0.2.6",
        "wasi:http/outgoing-handler@0.2.0",
    ] {
        assert!(
            wasi_http_incompatibility(&[ok]).is_none(),
            "{ok} should be compatible with the 0.2.12 host"
        );
    }
}

#[test]
fn newer_minor_or_patch_is_rejected_with_a_clear_message() {
    for bad in ["wasi:http/types@0.2.13", "wasi:http/types@0.3.0"] {
        let msg = wasi_http_incompatibility(&[bad])
            .unwrap_or_else(|| panic!("{bad} should be rejected"));
        assert!(msg.contains("plugin requires wasi:http"), "{msg}");
        assert!(
            msg.contains("0.2.12"),
            "message names the host version: {msg}"
        );
    }
}

#[test]
fn no_wasi_http_import_is_fine() {
    assert!(wasi_http_incompatibility(&["wasi:cli/environment@0.2.6", "wasi:io/streams@0.2.6"]).is_none());
}

#[test]
fn unknown_and_bare_env_capabilities_are_rejected() {
    assert!(!is_known_capability("teleport"));
    assert!(is_known_capability("stdout"));
    assert!(validate_capabilities(&caps(&["teleport"])).is_err());
    assert!(validate_capabilities(&caps(&["env"])).is_err());
    assert!(validate_capabilities(&caps(&["env:HOME"])).is_ok());
    assert!(validate_capabilities(&[]).is_ok());
}

#[test]
fn grants_collect_scoped_capabilities_in_order() {
    let g = wasi_grants(&caps(&["stdout", "env:A", "fs:ro:/data", "env:B", "fs:rw:/out", "tcp"]));
    assert!(g.stdout);
    assert!(!g.stderr);
    assert!(g.tcp);
    assert!(!g.udp);
    assert!(!g.network);
    assert_eq!(g.env_vars, vec!["A", "B"]);
    assert_eq!(g.fs_read_only, vec!["/data"]);
    assert_eq!(g.fs_read_write, vec!["/out"]);
}

#[test]
fn socket_decisions_follow_the_grants() {
    assert_eq!(socket_check(SocketUse::TcpBind, true, true, true), SocketCheck::Deny);
    assert_eq!(socket_check(SocketUse::TcpConnect, true, false, true), SocketCheck::AskTcpPolicy);
    assert_eq!(socket_check(SocketUse::TcpConnect, false, true, true), SocketCheck::Deny);
    assert_eq!(socket_check(SocketUse::UdpBind, false, true, true), SocketCheck::Allow);
    assert_eq!(socket_check(SocketUse::UdpBind, true, false, true), SocketCheck::Deny);
    assert_eq!(socket_check(SocketUse::UdpOutgoingDatagram, false, true, true), SocketCheck::AskUdpPolicy);
    // No embedder policy: every socket use is refused.
    assert_eq!(socket_check(SocketUse::TcpConnect, true, true, false), SocketCheck::Deny);
    assert_eq!(socket_check(SocketUse::UdpBind, true, true, false), SocketCheck::Deny);
}

#[test]
fn retry_only_when_asked_and_available() {
    assert!(should_retry(ResponseDirective::RetryOnce, true));
    assert!(!should_retry(ResponseDirective::RetryOnce, false));
    assert!(!should_retry(ResponseDirective::Forward, true));
}

#[test]
fn egress_denied_carries_its_reason() {
    assert_eq!(EgressDenied::new("nope").reason, "nope");
}

#[test]
fn parse_u32_reads_decimal_digits_only() {
    assert_eq!(parse_u32("12"), Some(12));
    assert_eq!(parse_u32("4294967295"), Some(4294967295));
    assert_eq!(parse_u32("4294967296"), None);
    assert_eq!(parse_u32(""), None);
    assert_eq!(parse_u32("1a"), None);
}

#[test]
fn method_selection_checks_index_and_wire_mode() {
    let methods = vec![
        WasmMethod { name: "greet".to_string(), wire_raw: false, streaming: false },
        WasmMethod { name: "pipe".to_string(), wire_raw: true, streaming: false },
    ];
    assert_eq!(select_method(&methods, 1, true).unwrap().name, "pipe");
    match select_method(&methods, 2, false) {
        Err(CallError::InvalidMethodIndex { index, count }) => {
            assert_eq!(index, 2);
            assert_eq!(count, 2);
        }
        other => panic!("expected InvalidMethodIndex, got {other:?}"),
    }
    match select_method(&methods, 0, true) {
        Err(CallError::WireModeMismatch { method, declared, attempted }) => {
            assert_eq!(method, "greet");
            assert!(!declared);
            assert!(attempted);
        }
        other => panic!("expected WireModeMismatch, got {other:?}"),
    }
}

#[test]
fn an_incompatible_import_anywhere_is_reported() {
    let msg = wasi_http_incompatibility(&["wasi:http/types@0.2.6", "wasi:http/outgoing-handler@0.3.0"])
        .expect("the later incompatible import must be reported");
    assert!(msg.contains("plugin requires wasi:http 0.3.0"), "{msg}");
    assert!(wasi_http_incompatibility(&["wasi:http/types@0.2.6", "wasi:http/outgoing-handler@0.2.12"]).is_none());
}

#[test]
fn capability_verdict_ignores_order() {
    for combo in [caps(&["stdout", "tcp", "network"]), caps(&["network", "stdout", "tcp"])] {
        assert!(validate_capabilities(&combo).is_err());
    }
    for combo in [caps(&["stdout", "env:HOME", "udp"]), caps(&["udp", "stdout", "env:HOME"])] {
        assert!(validate_capabilities(&combo).is_ok());
    }
}

#[test]
fn gated_interfaces_need_both_keys() {
    let caps = |xs: &[&str]| xs.iter().map(|s| s.to_string()).collect::<Vec<String>>();
    assert_eq!(link_plan(&caps(&["http"]), true), LinkPlan { http: true, name_lookup: false });
    assert_eq!(link_plan(&caps(&["http"]), false), LinkPlan { http: false, name_lookup: false });
    assert_eq!(link_plan(&caps(&["stdout", "udp"]), true), LinkPlan { http: false, name_lookup: true });
    assert_eq!(link_plan(&caps(&["tcp", "http"]), false), LinkPlan { http: false, name_lookup: false });
    assert_eq!(link_plan(&caps(&[]), true), LinkPlan { http: false, name_lookup: false });
}

#[test]
fn streams_start_only_on_streaming_methods() {
    let methods = vec![
        WasmMethod { name: "greet".to_string(), wire_raw: false, streaming: false },
        WasmMethod { name: "pipe".to_string(), wire_raw: true, streaming: true },
        WasmMethod { name: "ticks".to_string(), wire_raw: false, streaming: true },
    ];
    assert_eq!(select_streaming_method(&methods, 2).unwrap().name, "ticks");
    match select_streaming_method(&methods, 0) {
        Err(CallError::Backend { runtime, message }) => {
            assert_eq!(runtime, "wasm");
            assert_eq!(message, "method 'greet' is not a server-streaming method");
        }
        other => panic!("unexpected {other:?}"),
    }
    assert!(matches!(select_streaming_method(&methods, 1), Err(CallError::WireModeMismatch { declared: true, attempted: false, .. })));
    assert!(matches!(select_streaming_method(&methods, 3), Err(CallError::InvalidMethodIndex { index: 3, count: 3 })));
}

#[test]
fn the_pump_stops_after_an_error_or_the_end() {
    assert_eq!(pump_step(PollShape::OkValue), PumpStep::Forward { error: false });
    assert_eq!(pump_step(PollShape::Bare), PumpStep::Forward { error: false });
    assert_eq!(pump_step(PollShape::PluginErr), PumpStep::Forward { error: true });
    assert_eq!(pump_step(PollShape::Trapped), PumpStep::Forward { error: true });
    assert_eq!(pump_step(PollShape::OkEnd), PumpStep::Finish);
    assert!(pump_continues(PumpStep::Forward { error: false }, true));
    assert!(!pump_continues(PumpStep::Forward { error: false }, false));
    assert!(!pump_continues(PumpStep::Forward { error: true }, true));
    assert!(!pump_continues(PumpStep::Finish, true));
}
