use fidius::netaddr::{is_blocked_ip, IpAddress};

fn v4(a: u8, b: u8, c: u8, d: u8) -> IpAddress {
    IpAddress::V4(a, b, c, d)
}

fn v6(s: [u16; 8]) -> IpAddress {
    IpAddress::V6(s[0], s[1], s[2], s[3], s[4], s[5], s[6], s[7])
}

#[test]
fn blocks_internal_and_metadata_targets() {
    // Cloud metadata, loopback, link-local, RFC-1918, ULA, unspecified.
    for (s, ip) in [
        ("169.254.169.254", v4(169, 254, 169, 254)),
        ("127.0.0.1", v4(127, 0, 0, 1)),
        ("::1", v6([0, 0, 0, 0, 0, 0, 0, 1])),
        ("10.1.2.3", v4(10, 1, 2, 3)),
        ("172.16.5.5", v4(172, 16, 5, 5)),
        ("192.168.1.1", v4(192, 168, 1, 1)),
        ("0.0.0.0", v4(0, 0, 0, 0)),
        ("fe80::1", v6([0xfe80, 0, 0, 0, 0, 0, 0, 1])),
        ("fc00::1", v6([0xfc00, 0, 0, 0, 0, 0, 0, 1])),
        ("::ffff:127.0.0.1", v6([0, 0, 0, 0, 0, 0xffff, 0x7f00, 0x0001])),
    ] {
        assert!(is_blocked_ip(&ip), "{s} must be blocked");
    }
}

#[test]
fn allows_public_targets() {
    for (s, ip) in [
        ("1.1.1.1", v4(1, 1, 1, 1)),
        ("93.184.216.34", v4(93, 184, 216, 34)),
        ("8.8.8.8", v4(8, 8, 8, 8)),
        ("2606:4700:4700::1111", v6([0x2606, 0x4700, 0x4700, 0, 0, 0, 0, 0x1111])),
    ] {
        assert!(!is_blocked_ip(&ip), "{s} must be allowed");
    }
}

#[test]
fn private_range_edges() {
    assert!(is_blocked_ip(&v4(172, 31, 255, 255)));
    assert!(!is_blocked_ip(&v4(172, 32, 0, 1)));
    assert!(!is_blocked_ip(&v4(172, 15, 0, 1)));
    assert!(is_blocked_ip(&v4(255, 255, 255, 255)));
    assert!(!is_blocked_ip(&v4(255, 255, 255, 254)));
    // fe80::/10 ends at febf; fec0 is outside it.
    assert!(is_blocked_ip(&v6([0xfebf, 0, 0, 0, 0, 0, 0, 1])));
    assert!(!is_blocked_ip(&v6([0xfec0, 0, 0, 0, 0, 0, 0, 1])));
    assert!(is_blocked_ip(&v6([0xfdff, 0, 0, 0, 0, 0, 0, 1])));
    assert!(!is_blocked_ip(&v6([0, 0, 0, 0, 0, 0xffff, 0x0808, 0x0808])));
}

#[test]
fn canonical_form_unwraps_mapped_v4() {
    let mapped = v6([0, 0, 0, 0, 0, 0xffff, 0x0a00, 0x0005]);
    assert_eq!(mapped.to_canonical(), v4(10, 0, 0, 5));
    let plain = v6([0x2606, 0, 0, 0, 0, 0, 0, 1]);
    assert_eq!(plain.to_canonical(), plain);
    assert_eq!(v4(1, 2, 3, 4).to_canonical(), v4(1, 2, 3, 4));
}
