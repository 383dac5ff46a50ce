use fidius::name_lookup::{pin_resolution, plan_lookup, LookupPlan, PinState};
use fidius::netaddr::IpAddress;
use fidius::text::ascii_lowercase;

fn ip(a: u8, b: u8, c: u8, d: u8) -> IpAddress {
    IpAddress::V4(a, b, c, d)
}

#[test]
fn record_and_lookup() {
    let mut pins = PinState::default();
    pins.record("db.internal", &[ip(10, 0, 0, 5), ip(10, 0, 0, 6)]);
    assert_eq!(pins.host_for(&ip(10, 0, 0, 5)).as_deref(), Some("db.internal"));
    assert_eq!(pins.host_for(&ip(10, 0, 0, 6)).as_deref(), Some("db.internal"));
    assert_eq!(pins.host_for(&ip(10, 0, 0, 7)), None);
}

#[test]
fn re_resolve_replaces_wholesale() {
    // Rotation: the stale IP must no longer resolve to the name.
    let mut pins = PinState::default();
    pins.record("db.internal", &[ip(10, 0, 0, 5)]);
    pins.record("db.internal", &[ip(10, 0, 0, 9)]);
    assert_eq!(pins.host_for(&ip(10, 0, 0, 5)), None);
    assert_eq!(pins.host_for(&ip(10, 0, 0, 9)).as_deref(), Some("db.internal"));
}

#[test]
fn ip_collision_most_recent_wins_without_clobbering_on_stale_removal() {
    let mut pins = PinState::default();
    pins.record("a.internal", &[ip(10, 0, 0, 5)]);
    pins.record("b.internal", &[ip(10, 0, 0, 5)]);
    // Most recent name wins the reverse mapping.
    assert_eq!(pins.host_for(&ip(10, 0, 0, 5)).as_deref(), Some("b.internal"));
    // `a` re-resolving away must NOT unpin `b`'s claim on the shared IP.
    pins.record("a.internal", &[ip(10, 0, 0, 6)]);
    assert_eq!(pins.host_for(&ip(10, 0, 0, 5)).as_deref(), Some("b.internal"));
    assert_eq!(pins.host_for(&ip(10, 0, 0, 6)).as_deref(), Some("a.internal"));
}

#[test]
fn lookups_are_planned_in_order() {
    assert!(matches!(plan_lookup("db".to_string(), true, Some(ip(1, 1, 1, 1))), LookupPlan::Denied));
    let mapped = IpAddress::V6(0, 0, 0, 0, 0, 0xffff, 0x0a00, 0x0001);
    assert!(matches!(plan_lookup("x".to_string(), false, Some(mapped)), LookupPlan::Literal(a) if a == ip(10, 0, 0, 1)));
    assert!(matches!(plan_lookup("db".to_string(), false, None), LookupPlan::Resolve(n) if n == "db"));
}

#[test]
fn resolutions_are_canonicalised_before_pinning() {
    let mut pins = PinState::new();
    let mapped = IpAddress::V6(0, 0, 0, 0, 0, 0xffff, 0x0a00, 0x0007);
    let got = pin_resolution(&mut pins, "svc", &[mapped, ip(10, 0, 0, 8)]);
    assert_eq!(got, vec![ip(10, 0, 0, 7), ip(10, 0, 0, 8)]);
    assert_eq!(pins.host_for(&ip(10, 0, 0, 7)).as_deref(), Some("svc"));
    assert_eq!(pins.host_for(&mapped), None);
}

#[test]
fn names_are_lowercased_ascii_only() {
    assert_eq!(ascii_lowercase("DB.Internal"), "db.internal");
    assert_eq!(ascii_lowercase("ÄB"), "Äb");
}
