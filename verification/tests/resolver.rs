use keyflow::net::{parse_ip, resolve_client_ip, IpAddress};
use keyflow::text::to_chars;

fn v4(a: u32, b: u32, c: u32, d: u32) -> IpAddress {
    IpAddress::V4((a << 24) | (b << 16) | (c << 8) | d)
}

fn parse(s: &str) -> Option<IpAddress> {
    parse_ip(&to_chars(s))
}

#[test]
fn forwarded_for_first_entry_wins() {
    let peer = v4(10, 0, 0, 5);
    let xff = String::from("203.0.113.7, 10.0.0.1");
    let got = resolve_client_ip(peer, Some(&xff), None);
    assert_eq!(got, v4(203, 0, 113, 7));
}

#[test]
fn no_forwarding_headers_yields_peer() {
    let peer = v4(10, 0, 0, 5);
    assert_eq!(resolve_client_ip(peer, None, None), peer);
}

#[test]
fn unparseable_first_entry_falls_through() {
    let peer = v4(10, 0, 0, 5);
    let xff = String::from("not-an-address, 203.0.113.7");
    // only the first comma-separated entry is consulted
    assert_eq!(resolve_client_ip(peer, Some(&xff), None), peer);
}

#[test]
fn forwarded_header_for_parameter() {
    let peer = v4(10, 0, 0, 5);
    let fwd = String::from("for=192.0.2.60;proto=http;by=203.0.113.43");
    assert_eq!(resolve_client_ip(peer, None, Some(&fwd)), v4(192, 0, 2, 60));
}

#[test]
fn forwarded_header_quoted_and_bracketed() {
    let peer = v4(10, 0, 0, 5);
    let fwd = String::from("for=\"[2001:db8::1]\"");
    let expect = parse("2001:db8::1").unwrap();
    assert_eq!(resolve_client_ip(peer, None, Some(&fwd)), expect);

    let mapped = String::from("for=\"[::ffff:203.0.113.7]\"");
    let expect = parse("::ffff:203.0.113.7").unwrap();
    assert_eq!(resolve_client_ip(peer, None, Some(&mapped)), expect);
}

#[test]
fn forwarded_skips_unparseable_entries() {
    let peer = v4(10, 0, 0, 5);
    let fwd = String::from("for=unknown, for=198.51.100.17");
    assert_eq!(resolve_client_ip(peer, None, Some(&fwd)), v4(198, 51, 100, 17));
}

#[test]
fn forwarded_for_takes_precedence_over_forwarded() {
    let peer = v4(10, 0, 0, 5);
    let xff = String::from("203.0.113.7");
    let fwd = String::from("for=198.51.100.17");
    assert_eq!(resolve_client_ip(peer, Some(&xff), Some(&fwd)), v4(203, 0, 113, 7));
}

#[test]
fn dotted_quad_grammar_is_strict() {
    assert_eq!(parse("0.0.0.0"), Some(v4(0, 0, 0, 0)));
    assert_eq!(parse("255.255.255.255"), Some(v4(255, 255, 255, 255)));
    assert_eq!(parse("256.0.0.1"), None);
    assert_eq!(parse("01.2.3.4"), None);
    assert_eq!(parse("1.2.3"), None);
    assert_eq!(parse("1.2.3.4.5"), None);
    assert_eq!(parse(" 1.2.3.4"), None);
    assert_eq!(parse(""), None);
}

#[test]
fn ipv6_grammar() {
    assert_eq!(parse("::1"), Some(IpAddress::V6(1)));
    assert_eq!(parse("::"), Some(IpAddress::V6(0)));
    assert_eq!(
        parse("2001:db8:0:0:0:0:2:1"),
        Some(IpAddress::V6(0x2001_0db8_0000_0000_0000_0000_0002_0001))
    );
    assert_eq!(
        parse("2001:db8::2:1"),
        Some(IpAddress::V6(0x2001_0db8_0000_0000_0000_0000_0002_0001))
    );
    assert_eq!(parse("fe80::"), Some(IpAddress::V6(0xfe80_0000_0000_0000_0000_0000_0000_0000)));
    assert_eq!(parse("1:2:3:4:5:6:7:8"), Some(IpAddress::V6(
        0x0001_0002_0003_0004_0005_0006_0007_0008
    )));
    // the embedded dotted-quad tail carries the final two groups
    assert_eq!(
        parse("::ffff:203.0.113.7"),
        Some(IpAddress::V6(0x0000_0000_0000_0000_0000_ffff_cb00_7107))
    );
    assert_eq!(
        parse("64:ff9b::192.0.2.33"),
        Some(IpAddress::V6(0x0064_ff9b_0000_0000_0000_0000_c000_0221))
    );
    assert_eq!(
        parse("1:2:3:4:5:6:7.8.9.10"),
        Some(IpAddress::V6(0x0001_0002_0003_0004_0005_0006_0708_090a))
    );
    // the dotted quad is only valid as the final part
    assert_eq!(parse("1.2.3.4::"), None);
    assert_eq!(parse("::1.2.3.4:5"), None);
    assert_eq!(parse("::1.2.3.4.5"), None);
    assert_eq!(parse("1:2:3:4:5:6:7:7.8.9.10"), None);
    // two compressions, bare colon, or nine groups are rejected
    assert_eq!(parse("1::2::3"), None);
    assert_eq!(parse(":"), None);
    assert_eq!(parse(":::"), None);
    assert_eq!(parse("1:2:3:4:5:6:7:8:9"), None);
    assert_eq!(parse("1:2:3:4:5:6:7"), None);
    assert_eq!(parse("12345::"), None);
    assert_eq!(parse("g::1"), None);
}
