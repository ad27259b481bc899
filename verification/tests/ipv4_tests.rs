use xdp_guard::ipv4::parse_ipv4;

#[test]
fn parses_dotted_quads() {
    assert_eq!(parse_ipv4("10.0.0.1"), Some(0x0A00_0001));
    assert_eq!(parse_ipv4("192.168.1.254"), Some(0xC0A8_01FE));
    assert_eq!(parse_ipv4("0.0.0.0"), Some(0));
    assert_eq!(parse_ipv4("255.255.255.255"), Some(u32::MAX));
    assert_eq!(parse_ipv4("255.255.255.0"), Some(0xFFFF_FF00));
}

#[test]
fn rejects_malformed_addresses() {
    for s in [
        "", "1.2.3", "1.2.3.4.5", "256.0.0.1", "1.2.3.256", "01.2.3.4", "1.02.3.4", "00.0.0.0",
        "1000.1.1.1", "1..3.4", ".1.2.3", "1.2.3.", "a.b.c.d", " 1.2.3.4", "1.2.3.4 ",
        "1.2.3.-4", "+1.2.3.4", "1.2.3.4/24", "\u{663}.1.1.1",
    ] {
        assert_eq!(parse_ipv4(s), None, "{s:?}");
    }
}
