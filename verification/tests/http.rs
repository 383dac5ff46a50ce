use fidius::http::{
    clamp_nanos, method_of, prepare_request, request_target, HttpError, HttpMethod, Request,
    RequestTimeout, Response, Scheme,
};

#[test]
fn builders_fill_the_request() {
    let r = Request::get("http://example.com/x").header("Accept", "text/plain").timeout(RequestTimeout { secs: 2, subsec_nanos: 0 });
    assert_eq!(r.method, "GET");
    assert_eq!(r.url, "http://example.com/x");
    assert_eq!(r.headers, vec![("Accept".to_string(), "text/plain".to_string())]);
    assert!(r.body.is_empty());
    assert_eq!(r.timeout, Some(RequestTimeout { secs: 2, subsec_nanos: 0 }));
    let p = Request::post("https://api.test/v1", b"{}".to_vec());
    assert_eq!(p.method, "POST");
    assert_eq!(p.body, b"{}".to_vec());
    assert_eq!(p.timeout, None);
}

#[test]
fn success_is_2xx() {
    let mk = |status| Response { status, headers: Vec::new(), body: Vec::new() };
    assert!(mk(200).is_success());
    assert!(mk(299).is_success());
    assert!(!mk(199).is_success());
    assert!(!mk(300).is_success());
    assert!(!mk(404).is_success());
}

#[test]
fn text_decodes_lossily() {
    let ok = Response { status: 200, headers: Vec::new(), body: "héllo".as_bytes().to_vec() };
    assert_eq!(ok.text(), "héllo");
    let bad = Response { status: 200, headers: Vec::new(), body: vec![b'a', 0xFF, b'b'] };
    assert_eq!(bad.text(), "a\u{FFFD}b");
}

#[test]
fn errors_display_with_prefix() {
    assert_eq!(HttpError::new("dispatch denied").to_string(), "http: dispatch denied");
}

#[test]
fn url_targets_split_authority_and_path() {
    let t = request_target("http://example.com:8080/a/b?q=1").unwrap();
    assert_eq!(t.scheme, Scheme::Http);
    assert_eq!(t.authority, "example.com:8080");
    assert_eq!(t.path, "/a/b?q=1");
    let t = request_target("https://example.com").unwrap();
    assert_eq!(t.scheme, Scheme::Https);
    assert_eq!(t.authority, "example.com");
    assert_eq!(t.path, "/");
    let e = request_target("ftp://example.com/").unwrap_err();
    assert_eq!(e.message, "unsupported url scheme: ftp://example.com/");
}

#[test]
fn methods_map_by_name() {
    assert_eq!(method_of("GET"), HttpMethod::Get);
    assert_eq!(method_of("PATCH"), HttpMethod::Patch);
    assert_eq!(method_of("get"), HttpMethod::Other("get".to_string()));
    assert_eq!(method_of("OPTIONS"), HttpMethod::Other("OPTIONS".to_string()));
}

#[test]
fn timeouts_clamp_to_u64() {
    assert_eq!(clamp_nanos(5), 5);
    assert_eq!(clamp_nanos(u128::from(u64::MAX) + 1), u64::MAX);
    let r = Request::get("http://h/").timeout(RequestTimeout { secs: 0, subsec_nanos: 3_000_000 });
    let p = prepare_request(&r).unwrap();
    assert_eq!(p.timeout_nanos, Some(3_000_000));
    assert_eq!(p.method, HttpMethod::Get);
    assert_eq!(p.target.path, "/");
    assert!(prepare_request(&Request::get("h/")).is_err());
    let slow = Request::get("http://h/").timeout(RequestTimeout { secs: 1, subsec_nanos: 250 });
    assert_eq!(prepare_request(&slow).unwrap().timeout_nanos, Some(1_000_000_250));
    let forever = Request::get("http://h/").timeout(RequestTimeout { secs: u64::MAX, subsec_nanos: 0 });
    assert_eq!(prepare_request(&forever).unwrap().timeout_nanos, Some(u64::MAX));
    assert_eq!(prepare_request(&Request::get("http://h/")).unwrap().timeout_nanos, None);
}
