use orb8::aggregator::{format_direction, format_protocol};
use orb8::decimal::u64_to_dec;
use orb8::ipv4::{format_ipv4, parse_ipv4};

#[test]
fn test_parse_ipv4_known_values() {
    assert_eq!(parse_ipv4("10.0.0.5"), Some(0x0500000A));
    assert_eq!(parse_ipv4("192.168.1.100"), Some(0x6401A8C0));
    assert_eq!(parse_ipv4("127.0.0.1"), Some(0x0100007F));
}

#[test]
fn test_parse_ipv4_rejects_invalid() {
    assert_eq!(parse_ipv4(""), None);
    assert_eq!(parse_ipv4("10.0.0"), None);
    assert_eq!(parse_ipv4("10.0.0.5.6"), None);
    assert_eq!(parse_ipv4("256.0.0.1"), None);
    assert_eq!(parse_ipv4("01.2.3.4"), None);
    assert_eq!(parse_ipv4("1..2.3"), None);
    assert_eq!(parse_ipv4("a.b.c.d"), None);
    assert_eq!(parse_ipv4("10.0.0.5 "), None);
}

#[test]
fn test_format_parse_round_trip() {
    for s in ["10.0.0.5", "192.168.1.100", "127.0.0.1", "0.0.0.0", "255.255.255.255"] {
        let ip = parse_ipv4(s).expect("valid quad");
        assert_eq!(format_ipv4(ip).as_str(), s);
    }
}

#[test]
fn test_parse_format_round_trip() {
    for ip in [0u32, 1, 0x0500000A, 0xFFFFFFFF, 0x6401A8C0] {
        let text = format_ipv4(ip);
        assert_eq!(parse_ipv4(text.as_str()), Some(ip));
    }
}

#[test]
fn test_format_ipv4_text() {
    assert_eq!(format_ipv4(0x0500000A).as_str(), "10.0.0.5");
    assert_eq!(format_ipv4(0).as_str(), "0.0.0.0");
}

#[test]
fn test_format_protocol() {
    assert_eq!(format_protocol(1), "ICMP");
    assert_eq!(format_protocol(6), "TCP");
    assert_eq!(format_protocol(17), "UDP");
    assert_eq!(format_protocol(89), "OTHER");
}

#[test]
fn test_format_direction() {
    assert_eq!(format_direction(0), "ingress");
    assert_eq!(format_direction(1), "egress");
    assert_eq!(format_direction(7), "unknown");
}

#[test]
fn test_u64_to_dec() {
    assert_eq!(u64_to_dec(0).as_str(), "0");
    assert_eq!(u64_to_dec(42).as_str(), "42");
    assert_eq!(u64_to_dec(u64::MAX).as_str(), "18446744073709551615");
}
