use arti_proxy::text::{decimal_text, parse_number};
use arti_proxy::{SocketAddr, Target};
use fast_socks5::util::target_addr::TargetAddr;

fn v6(segments: [u16; 8], scope_id: u32, port: u16) -> Option<SocketAddr> {
    Some(SocketAddr::V6 { segments, flow_info: 0, scope_id, port })
}

#[test]
fn ipv4_addresses_are_read() {
    assert_eq!(
        SocketAddr::parse("127.0.0.1:9050"),
        Some(SocketAddr::V4 { octets: [127, 0, 0, 1], port: 9050 })
    );
    assert_eq!(
        SocketAddr::parse("255.10.0.9:00080"),
        Some(SocketAddr::V4 { octets: [255, 10, 0, 9], port: 80 })
    );
}

#[test]
fn ipv6_addresses_are_read() {
    assert_eq!(SocketAddr::parse("[::1]:9050"), v6([0, 0, 0, 0, 0, 0, 0, 1], 0, 9050));
    assert_eq!(SocketAddr::parse("[::]:0"), v6([0; 8], 0, 0));
    assert_eq!(
        SocketAddr::parse("[2001:DB8::a:0]:65535"),
        v6([0x2001, 0xdb8, 0, 0, 0, 0, 10, 0], 0, 65535)
    );
    assert_eq!(SocketAddr::parse("[1:2:3:4:5:6:7:8]:1"), v6([1, 2, 3, 4, 5, 6, 7, 8], 0, 1));
    assert_eq!(SocketAddr::parse("[1:2:3:4:5:6:7::]:1"), v6([1, 2, 3, 4, 5, 6, 7, 0], 0, 1));
    assert_eq!(
        SocketAddr::parse("[::ffff:192.0.2.33]:80"),
        v6([0, 0, 0, 0, 0, 0xffff, 0xc000, 0x221], 0, 80)
    );
    assert_eq!(
        SocketAddr::parse("[fe80::1%7]:80"),
        v6([0xfe80, 0, 0, 0, 0, 0, 0, 1], 7, 80)
    );
}

#[test]
fn the_standard_library_reads_the_same_addresses() {
    for text in [
        "", ":", "1.2.3.4", "1.2.3.4:", "1.2.3.4:65536", "1.2.3.4:65535", "1.2.3.4:+1",
        "1.2.3.4:0000000080", "01.2.3.4:5", "0.0.0.0:0", "00.0.0.0:0", "256.1.1.1:1", "1.2.3:4",
        "1.2.3.4.5:6", "1.2.3.4:5:6", " 1.2.3.4:5", "1.2.3.4:5 ", "a.b.c.d:1", "localhost:80",
        "1.2.3.4:99999999999999999999", "0001.2.3.4:5", "::1:80", "[]:80", "[::1]", "[::1]:",
        "[::1]80", "[::1:80", "::1]:80", "[::1]:80x", "[:::]:80", "[1::2::3]:80", "[12345::]:80",
        "[g::]:80", "[::%]:80", "[::%1%2]:80", "[::%4294967295]:80", "[::%4294967296]:80",
        "[::%eth0]:80", "[::%007]:80", "[%1::]:80", "[1:2:3:4:5:6:7]:80", "[1:2:3:4:5:6:7:8:9]:80",
        "[1:2:3:4:5:6:7:8::]:80", "[::1:2:3:4:5:6:7:8]:80", "[1:2:3:4:5:6:7::8]:80",
        "[1:2:3:4::5:6:7]:80", "[1:2:3:4:5:6:1.2.3.4]:80", "[1:2:3:4:5:6:7:1.2.3.4]:80",
        "[1:2:3:4:5::1.2.3.4]:80", "[1:2:3:4:5:6::1.2.3.4]:80", "[1.2.3.4::]:80",
        "[1.2.3.4::1]:80", "[::1.2.3.4:5]:80", "[::1.2.3.4]:80", "[::01.2.3.4]:80", "[::1.2.3]:80",
        "[1:2:3:4:5:6:7:]:80", "[:1:2:3:4:5:6:7]:80", "[::FfFf:0a]:80", "[::1]]:80", "[[::1]:80",
        "[::00001]:80", "[::1%]:80", "\u{ff11}.2.3.4:5", "[::\u{0661}]:80",
    ] {
        let expected = text.parse().map(TargetAddr::Ip).ok();
        let actual = SocketAddr::parse(text);
        assert_eq!(actual.is_some(), expected.is_some(), "{text}");
        if let (Some(actual), Some(expected)) = (actual, expected) {
            assert_eq!(actual.display(), expected.to_string(), "{text}");
        }
    }
}

#[test]
fn addresses_are_displayed() {
    for text in ["127.0.0.1:9050", "[::1]:80", "[fe80::1%3]:443", "[1:2:3:4:5:6:7:8]:9"] {
        assert_eq!(SocketAddr::parse(text).unwrap().display(), text);
    }
}

#[test]
fn targets_are_displayed_and_taken_apart() {
    let domain = Target::Domain { name: "example.com".to_owned(), port: 80 };
    assert_eq!(domain.display(), "example.com:80");
    assert_eq!(domain.into_string_and_port(), ("example.com".to_owned(), 80));

    let v4 = Target::V4 { octets: [10, 0, 200, 9], port: 65535 };
    assert_eq!(v4.display(), "10.0.200.9:65535");
    assert_eq!(v4.into_string_and_port(), ("10.0.200.9".to_owned(), 65535));

    let v6 = Target::V6 { segments: [0x2001, 0xdb8, 0, 0, 0, 0, 0, 1], port: 443 };
    assert_eq!(v6.display(), "[2001:db8::1]:443");
    assert_eq!(v6.into_string_and_port(), ("2001:db8::1".to_owned(), 443));
}

#[test]
fn decimal_notation_reads_back() {
    for n in [0u32, 7, 10, 99, 100, 65535, u32::MAX] {
        let text = decimal_text(n as u64);
        assert_eq!(text, format!("{n}"));
        assert_eq!(parse_number(&text.chars().collect(), 10, u32::MAX), Some(n));
    }
    assert_eq!(decimal_text(u64::MAX), "18446744073709551615");
}
