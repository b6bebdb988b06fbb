use dynasty::addr::{format_ip, parse_ip, IpAddress};

#[test]
fn parses_dotted_quad() {
    assert_eq!(parse_ip("203.0.113.5"), Some(IpAddress::V4(203, 0, 113, 5)));
}

#[test]
fn parses_v4_extremes() {
    assert_eq!(parse_ip("0.0.0.0"), Some(IpAddress::V4(0, 0, 0, 0)));
    assert_eq!(parse_ip("255.255.255.255"), Some(IpAddress::V4(255, 255, 255, 255)));
}

#[test]
fn rejects_plain_text() {
    assert_eq!(parse_ip("not-an-ip"), None);
    assert_eq!(parse_ip(""), None);
}

#[test]
fn rejects_v4_out_of_range() {
    assert_eq!(parse_ip("256.0.0.1"), None);
    assert_eq!(parse_ip("1.2.3.4.5"), None);
    assert_eq!(parse_ip("1.2.3"), None);
}

#[test]
fn rejects_v4_leading_zero() {
    assert_eq!(parse_ip("01.2.3.4"), None);
    assert_eq!(parse_ip("1.2.3.04"), None);
    assert_eq!(parse_ip("0.2.3.4"), Some(IpAddress::V4(0, 2, 3, 4)));
}

#[test]
fn parses_v6_loopback() {
    assert_eq!(parse_ip("::1"), Some(IpAddress::V6(0, 0, 0, 0, 0, 0, 0, 1)));
}

#[test]
fn parses_v6_unspecified() {
    assert_eq!(parse_ip("::"), Some(IpAddress::V6(0, 0, 0, 0, 0, 0, 0, 0)));
}

#[test]
fn parses_v6_compressed() {
    assert_eq!(
        parse_ip("2001:db8::1"),
        Some(IpAddress::V6(0x2001, 0xdb8, 0, 0, 0, 0, 0, 1))
    );
    assert_eq!(
        parse_ip("1:2:3:4:5:6:7::"),
        Some(IpAddress::V6(1, 2, 3, 4, 5, 6, 7, 0))
    );
}

#[test]
fn parses_v6_full_form() {
    assert_eq!(
        parse_ip("1:2:3:4:5:6:7:8"),
        Some(IpAddress::V6(1, 2, 3, 4, 5, 6, 7, 8))
    );
    assert_eq!(
        parse_ip("2001:0DB8:0:0:0:0:0:1"),
        Some(IpAddress::V6(0x2001, 0xdb8, 0, 0, 0, 0, 0, 1))
    );
}

#[test]
fn parses_v6_embedded_v4() {
    assert_eq!(
        parse_ip("::ffff:192.0.2.128"),
        Some(IpAddress::V6(0, 0, 0, 0, 0, 0xffff, 0xc000, 0x0280))
    );
    assert_eq!(
        parse_ip("1:2:3:4:5:6:192.0.2.128"),
        Some(IpAddress::V6(1, 2, 3, 4, 5, 6, 0xc000, 0x0280))
    );
}

#[test]
fn rejects_malformed_v6() {
    assert_eq!(parse_ip("1::2::3"), None);
    assert_eq!(parse_ip(":::"), None);
    assert_eq!(parse_ip(":1:2:3:4:5:6:7"), None);
    assert_eq!(parse_ip("1:2:3:4:5:6:7:8:9"), None);
    assert_eq!(parse_ip("1:2:3:4:5:6:7:8::"), None);
    assert_eq!(parse_ip("12345::"), None);
    assert_eq!(parse_ip("g::1"), None);
    assert_eq!(parse_ip("1:2:3:4:5:6:7"), None);
    assert_eq!(parse_ip("::1.2.3.4.5"), None);
    assert_eq!(parse_ip("1.2.3.4::"), None);
}

#[test]
fn formats_v4() {
    assert_eq!(format_ip(&IpAddress::V4(203, 0, 113, 5)), "203.0.113.5");
    assert_eq!(format_ip(&IpAddress::V4(0, 10, 100, 255)), "0.10.100.255");
}

#[test]
fn formats_v6_compressed() {
    assert_eq!(
        format_ip(&IpAddress::V6(0x2001, 0xdb8, 0, 0, 0, 0, 0, 1)),
        "2001:db8::1"
    );
    assert_eq!(format_ip(&IpAddress::V6(0, 0, 0, 0, 0, 0, 0, 0)), "::");
    assert_eq!(format_ip(&IpAddress::V6(0, 0, 0, 0, 0, 0, 0, 1)), "::1");
    assert_eq!(
        format_ip(&IpAddress::V6(1, 2, 3, 4, 5, 6, 7, 0)),
        "1:2:3:4:5:6:7:0"
    );
    assert_eq!(
        format_ip(&IpAddress::V6(0xffff, 0xabc, 0xab, 0xf, 1, 16, 256, 4096)),
        "ffff:abc:ab:f:1:10:100:1000"
    );
}

#[test]
fn compression_elides_the_leftmost_longest_zero_run() {
    // Two runs of two: the leftmost is elided.
    assert_eq!(
        format_ip(&IpAddress::V6(1, 0, 0, 2, 0, 0, 3, 4)),
        "1::2:0:0:3:4"
    );
    // A longer run later wins over a shorter one earlier.
    assert_eq!(
        format_ip(&IpAddress::V6(0, 0, 1, 0, 0, 0, 2, 0)),
        "0:0:1::2:0"
    );
    // A single zero group is never elided.
    assert_eq!(
        format_ip(&IpAddress::V6(1, 0, 2, 3, 4, 5, 6, 7)),
        "1:0:2:3:4:5:6:7"
    );
}

#[test]
fn formats_v4_mapped_with_dotted_tail() {
    assert_eq!(
        format_ip(&IpAddress::V6(0, 0, 0, 0, 0, 0xffff, 0xc000, 0x0280)),
        "::ffff:192.0.2.128"
    );
}

#[test]
fn format_then_parse_round_trips() {
    let samples = [
        IpAddress::V4(203, 0, 113, 5),
        IpAddress::V4(0, 0, 0, 0),
        IpAddress::V6(0x2001, 0xdb8, 0, 0, 0, 0, 0, 1),
        IpAddress::V6(0, 0, 0, 0, 0, 0, 0, 0),
        IpAddress::V6(0, 0, 0, 0, 0, 0xffff, 0xc000, 0x0280),
        IpAddress::V6(1, 0, 0, 2, 0, 0, 3, 4),
        IpAddress::V6(1, 2, 3, 4, 5, 6, 7, 0),
    ];
    for a in samples {
        assert_eq!(parse_ip(&format_ip(&a)), Some(a));
    }
}
