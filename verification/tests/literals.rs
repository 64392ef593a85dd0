use dnsaur::ip::{
    parse_group, parse_ip, parse_ipv4, parse_ipv6, parse_number, parse_octet, split_bytes,
};
use dnsaur::{IpAddr, SocketAddr};

#[test]
fn ipv4_literal_is_four_octets() {
    assert_eq!(parse_ip(b"93.184.216.34"), Some(IpAddr::V4(93, 184, 216, 34)));
    assert_eq!(parse_ip(b"0.0.0.0"), Some(IpAddr::V4(0, 0, 0, 0)));
    assert_eq!(parse_ip(b"255.255.255.255"), Some(IpAddr::V4(255, 255, 255, 255)));
    assert_eq!(parse_ipv4(b"127.0.0.1"), Some((127, 0, 0, 1)));
}

#[test]
fn ipv4_literal_rejects_what_is_no_dotted_quad() {
    assert_eq!(parse_ip(b""), None);
    assert_eq!(parse_ip(b"1.2.3"), None);
    assert_eq!(parse_ip(b"1.2.3.4.5"), None);
    assert_eq!(parse_ip(b"1.2.3.256"), None);
    assert_eq!(parse_ip(b"1.2.3.04"), None);
    assert_eq!(parse_ip(b"01.2.3.4"), None);
    assert_eq!(parse_ip(b"1..3.4"), None);
    assert_eq!(parse_ip(b"1.2.3.4."), None);
    assert_eq!(parse_ip(b".1.2.3.4"), None);
    assert_eq!(parse_ip(b"1.2.3.4 "), None);
    assert_eq!(parse_ip(b"1.2.3.a"), None);
    assert_eq!(parse_ip(b"1.2.3.1000"), None);
    assert_eq!(parse_ip(b"example.com"), None);
    assert_eq!(parse_ip(b"localhost"), None);
}

#[test]
fn ipv6_literal_in_full() {
    assert_eq!(
        parse_ip(b"2001:db8:0:1:2:3:4:5"),
        Some(IpAddr::V6(0x2001, 0xdb8, 0, 1, 2, 3, 4, 5))
    );
    assert_eq!(
        parse_ip(b"FFFF:ffff:AbCd:0001:0:00:000:0000"),
        Some(IpAddr::V6(0xffff, 0xffff, 0xabcd, 1, 0, 0, 0, 0))
    );
    assert_eq!(
        parse_ip(b"1:2:3:4:5:6:1.2.3.4"),
        Some(IpAddr::V6(1, 2, 3, 4, 5, 6, 0x0102, 0x0304))
    );
}

#[test]
fn ipv6_literal_with_double_colon() {
    assert_eq!(parse_ip(b"::"), Some(IpAddr::V6(0, 0, 0, 0, 0, 0, 0, 0)));
    assert_eq!(parse_ip(b"::1"), Some(IpAddr::V6(0, 0, 0, 0, 0, 0, 0, 1)));
    assert_eq!(parse_ip(b"1::"), Some(IpAddr::V6(1, 0, 0, 0, 0, 0, 0, 0)));
    assert_eq!(parse_ip(b"fe80::1:2"), Some(IpAddr::V6(0xfe80, 0, 0, 0, 0, 0, 1, 2)));
    assert_eq!(parse_ip(b"1:2:3:4:5:6:7::"), Some(IpAddr::V6(1, 2, 3, 4, 5, 6, 7, 0)));
    assert_eq!(parse_ip(b"::2:3:4:5:6:7:8"), Some(IpAddr::V6(0, 2, 3, 4, 5, 6, 7, 8)));
    assert_eq!(
        parse_ip(b"::ffff:93.184.216.34"),
        Some(IpAddr::V6(0, 0, 0, 0, 0, 0xffff, 0x5db8, 0xd822))
    );
    assert_eq!(parse_ip(b"::1.2.3.4"), Some(IpAddr::V6(0, 0, 0, 0, 0, 0, 0x0102, 0x0304)));
    assert_eq!(parse_ip(b"1:2:3:4:5::1.2.3.4"), Some(IpAddr::V6(1, 2, 3, 4, 5, 0, 0x0102, 0x0304)));
}

#[test]
fn ipv6_literal_rejects_what_is_malformed() {
    assert_eq!(parse_ip(b":"), None);
    assert_eq!(parse_ip(b":::"), None);
    assert_eq!(parse_ip(b"1:2:3:4:5:6:7"), None);
    assert_eq!(parse_ip(b"1:2:3:4:5:6:7:8:9"), None);
    assert_eq!(parse_ip(b"1:2:3:4:5:6:7:8::"), None);
    assert_eq!(parse_ip(b"::1:2:3:4:5:6:7:8"), None);
    assert_eq!(parse_ip(b"1::2::3"), None);
    assert_eq!(parse_ip(b"1:::2"), None);
    assert_eq!(parse_ip(b":1::2"), None);
    assert_eq!(parse_ip(b"12345::"), None);
    assert_eq!(parse_ip(b"g::"), None);
    assert_eq!(parse_ip(b"1:2:3:4:5:6:7:"), None);
    assert_eq!(parse_ip(b":1:2:3:4:5:6:7"), None);
    assert_eq!(parse_ip(b"1.2.3.4::"), None);
    assert_eq!(parse_ip(b"1:2:3:4:5:6:7:1.2.3.4"), None);
    assert_eq!(parse_ip(b"1:2:3:4:5:6::1.2.3.4"), None);
    assert_eq!(parse_ip(b"::1.2.3.4:5"), None);
    assert_eq!(parse_ip(b"::1.2.3"), None);
    assert_eq!(parse_ip(b"fe80::1%eth0"), None);
    assert_eq!(parse_ipv6(b"1.2.3.4"), None);
}

#[test]
fn ipv6_groups_come_out_as_eight() {
    assert_eq!(parse_ipv6(b"a:b::c"), Some(vec![0xa, 0xb, 0, 0, 0, 0, 0, 0xc]));
}

#[test]
fn numbers_octets_and_groups() {
    assert_eq!(parse_number(b"0"), Some(0));
    assert_eq!(parse_number(b"255"), Some(255));
    assert_eq!(parse_number(b"007"), Some(7));
    assert_eq!(parse_number(b"0000255"), Some(255));
    assert_eq!(parse_number(b"256"), None);
    assert_eq!(parse_number(b"99999999999999999999"), None);
    assert_eq!(parse_number(b""), None);
    assert_eq!(parse_number(b"1a"), None);
    assert_eq!(parse_number(b"-1"), None);
    assert_eq!(parse_octet(b"0"), Some(0));
    assert_eq!(parse_octet(b"10"), Some(10));
    assert_eq!(parse_octet(b"00"), None);
    assert_eq!(parse_octet(b"0255"), None);
    assert_eq!(parse_group(b"0"), Some(0));
    assert_eq!(parse_group(b"ffff"), Some(0xffff));
    assert_eq!(parse_group(b"FfFf"), Some(0xffff));
    assert_eq!(parse_group(b"0001"), Some(1));
    assert_eq!(parse_group(b"00001"), None);
    assert_eq!(parse_group(b""), None);
    assert_eq!(parse_group(b"12g"), None);
}

#[test]
fn split_keeps_empty_pieces() {
    assert_eq!(split_bytes(b"", b'.'), vec![Vec::<u8>::new()]);
    assert_eq!(split_bytes(b"a", b'.'), vec![b"a".to_vec()]);
    assert_eq!(
        split_bytes(b"a..b.", b'.'),
        vec![b"a".to_vec(), Vec::new(), b"b".to_vec(), Vec::new()]
    );
}

#[test]
fn socket_address_holds_its_parts() {
    let addr = SocketAddr::new(IpAddr::V4(10, 0, 0, 1), 53);
    assert_eq!(addr.ip, IpAddr::V4(10, 0, 0, 1));
    assert_eq!(addr.port, 53);
    assert!(addr.ip.is_ipv4());
    assert!(!IpAddr::V6(0, 0, 0, 0, 0, 0, 0, 1).is_ipv4());
}
