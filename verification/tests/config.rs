use dnsaur::parser::{
    find_comment, hosts_from_fields, nameservers_or_default, parse_hosts_line, parse_resolv_line,
    parse_token, resolv_from_fields, tokenize, ResolvConf,
};
use dnsaur::{DnsResolver, Error, HostEntry, IpAddr, SocketAddr, StubResolver};

fn names(list: &[&str]) -> Vec<String> {
    list.iter().map(|name| name.to_string()).collect()
}

fn fields(list: &[&str]) -> Vec<Vec<u8>> {
    list.iter().map(|field| field.as_bytes().to_vec()).collect()
}

fn plain_conf() -> ResolvConf {
    ResolvConf {
        search: Vec::new(),
        nameservers: Vec::new(),
        timeout: 5,
        ndots: 1,
        attempts: 2,
        rotate: false,
        udp_payload_size: 512,
    }
}

#[test]
fn host_entry_keeps_each_name_once() {
    let entry = HostEntry::new(IpAddr::V4(127, 0, 0, 1), names(&["b", "a", "b", "c", "a"]));
    assert_eq!(entry.ip, IpAddr::V4(127, 0, 0, 1));
    assert_eq!(entry.hosts, names(&["b", "a", "c"]));
    assert!(entry.has_name("a"));
    assert!(!entry.has_name("d"));
}

#[test]
fn empty_sources_give_the_defaults() {
    let resolver = DnsResolver::parse(b"", b"").unwrap();
    assert!(resolver.entries().is_empty());
    assert!(resolver.search().is_empty());
    assert_eq!(
        resolver.nameservers(),
        &vec![
            SocketAddr::new(IpAddr::V4(127, 0, 0, 1), 53),
            SocketAddr::new(IpAddr::V6(0, 0, 0, 0, 0, 0, 0, 1), 53),
        ]
    );
    assert_eq!(resolver.timeout(), 5);
    assert_eq!(resolver.ndots(), 1);
    assert_eq!(resolver.attempts(), 2);
    assert!(!resolver.rotate());
    assert_eq!(resolver.udp_payload_size(), 512);
}

#[test]
fn hosts_table_is_read_line_by_line() {
    let content = b"# the local table\n127.0.0.1 localhost loopback # trailing\n\n::1\tlocalhost ip6-localhost\r\n10.1.2.3 build build   #x y\n   \n";
    let entries = StubResolver::parse_hosts(content).unwrap();
    assert_eq!(
        entries,
        vec![
            HostEntry::new(IpAddr::V4(127, 0, 0, 1), names(&["localhost", "loopback"])),
            HostEntry::new(
                IpAddr::V6(0, 0, 0, 0, 0, 0, 0, 1),
                names(&["localhost", "ip6-localhost"])
            ),
            HostEntry::new(IpAddr::V4(10, 1, 2, 3), names(&["build"])),
        ]
    );
}

#[test]
fn hosts_table_fails_on_a_bad_address() {
    assert_eq!(
        StubResolver::parse_hosts(b"127.0.0.1 a\nnot-an-address b\n"),
        Err(Error::IpAddrParseError)
    );
    assert_eq!(
        StubResolver::parse_hosts(b"\xff\xfe a\n127.0.0.1 b\n"),
        Err(Error::Utf8ByteStringError)
    );
    assert_eq!(
        DnsResolver::parse(b"300.1.1.1 a\n", b"nameserver also-bad\n").err(),
        Some(Error::IpAddrParseError)
    );
}

#[test]
fn hosts_names_that_are_no_text_are_left_out() {
    let entries = StubResolver::parse_hosts(b"10.0.0.1 good \xff\xff fine\n").unwrap();
    assert_eq!(entries, vec![HostEntry::new(IpAddr::V4(10, 0, 0, 1), names(&["good", "fine"]))]);
}

#[test]
fn hosts_line_by_its_fields() {
    assert_eq!(parse_hosts_line(&fields(&[])), None);
    assert_eq!(parse_hosts_line(&fields(&["#127.0.0.1", "a"])), None);
    assert_eq!(
        parse_hosts_line(&fields(&["1.2.3.4", "a", "#", "b"])),
        Some(Ok(HostEntry::new(IpAddr::V4(1, 2, 3, 4), names(&["a"]))))
    );
    assert_eq!(parse_hosts_line(&fields(&["x", "a"])), Some(Err(Error::IpAddrParseError)));
    assert_eq!(
        hosts_from_fields(&vec![fields(&["1.2.3.4"]), fields(&[]), fields(&["::1", "six"])]),
        Ok(vec![
            HostEntry::new(IpAddr::V4(1, 2, 3, 4), names(&[])),
            HostEntry::new(IpAddr::V6(0, 0, 0, 0, 0, 0, 0, 1), names(&["six"])),
        ])
    );
}

#[test]
fn comment_begins_at_the_first_hash_field() {
    assert_eq!(find_comment(&fields(&["a", "b"])), 2);
    assert_eq!(find_comment(&fields(&["a", "#b", "#c"])), 1);
    assert_eq!(find_comment(&fields(&["a#", "b"])), 2);
    assert_eq!(find_comment(&fields(&[])), 0);
}

#[test]
fn token_is_an_address_or_an_error() {
    assert_eq!(parse_token(b"8.8.8.8"), Ok(IpAddr::V4(8, 8, 8, 8)));
    assert_eq!(parse_token(b"8.8.8"), Err(Error::IpAddrParseError));
    assert_eq!(parse_token(b"caf\xc3\xa9"), Err(Error::IpAddrParseError));
    assert_eq!(parse_token(b"\xc3"), Err(Error::Utf8ByteStringError));
}

#[test]
fn tokenize_splits_lines_and_fields() {
    assert_eq!(
        tokenize(b"a b\r\n\n  c\td  \nlast"),
        vec![fields(&["a", "b"]), fields(&[]), fields(&["c", "d"]), fields(&["last"])]
    );
    assert_eq!(tokenize(b""), Vec::<Vec<Vec<u8>>>::new());
}

#[test]
fn resolver_options_are_read() {
    let content = b"# resolv\nsearch one.example .two.example\nnameserver 192.0.2.1\nnameserver 2001:db8::53 ignored\noptions ndots:3 timeout:9 attempts:4 rotate edns0 unknown:1 debug\nsortlist 1.2.3.4\n";
    let conf = StubResolver::parse_resolv(content, None).unwrap();
    assert_eq!(conf.search, fields(&["one.example", ".two.example"]));
    assert_eq!(
        conf.nameservers,
        vec![
            SocketAddr::new(IpAddr::V4(192, 0, 2, 1), 53),
            SocketAddr::new(IpAddr::V6(0x2001, 0xdb8, 0, 0, 0, 0, 0, 0x53), 53),
        ]
    );
    assert_eq!(conf.ndots, 3);
    assert_eq!(conf.timeout, 9);
    assert_eq!(conf.attempts, 4);
    assert!(conf.rotate);
    assert_eq!(conf.udp_payload_size, 1232);
}

#[test]
fn search_line_replaces_the_list() {
    let conf = StubResolver::parse_resolv(b"search a b\nsearch c\n", None).unwrap();
    assert_eq!(conf.search, fields(&["c"]));
    let conf = StubResolver::parse_resolv(b"search a b\nsearch # none\n", None).unwrap();
    assert!(conf.search.is_empty());
}

#[test]
fn edns0_takes_the_size_asked_for() {
    let conf = StubResolver::parse_resolv(b"options edns0\n", Some(4096)).unwrap();
    assert_eq!(conf.udp_payload_size, 4096);
    let conf = StubResolver::parse_resolv(b"options rotate\n", Some(4096)).unwrap();
    assert_eq!(conf.udp_payload_size, 512);
}

#[test]
fn option_values_that_are_no_number_change_nothing() {
    let conf =
        StubResolver::parse_resolv(b"options ndots: timeout:abc attempts:256 ndots:2:3\n", None)
            .unwrap();
    assert_eq!(conf.ndots, 1);
    assert_eq!(conf.timeout, 5);
    assert_eq!(conf.attempts, 2);
    let conf = StubResolver::parse_resolv(b"options ndots:0 attempts:0 timeout:255\n", None).unwrap();
    assert_eq!(conf.ndots, 0);
    assert_eq!(conf.attempts, 0);
    assert_eq!(conf.timeout, 255);
    let conf = StubResolver::parse_resolv(b"options rotate:yes\n", None).unwrap();
    assert!(conf.rotate);
}

#[test]
fn nameserver_line_needs_an_address() {
    assert_eq!(
        StubResolver::parse_resolv(b"nameserver dns.example\n", None),
        Err(Error::IpAddrParseError)
    );
    assert_eq!(
        StubResolver::parse_resolv(b"nameserver \xf0\x28\n", None),
        Err(Error::Utf8ByteStringError)
    );
    let conf = StubResolver::parse_resolv(b"nameserver\nnameserver # 1.1.1.1\n", None).unwrap();
    assert_eq!(conf.nameservers, nameservers_or_default(Vec::new()));
    assert_eq!(conf.nameservers.len(), 2);
}

#[test]
fn resolv_line_by_its_fields() {
    let conf = parse_resolv_line(plain_conf(), &fields(&["nameserver", "9.9.9.9"]), None).unwrap();
    assert_eq!(conf.nameservers, vec![SocketAddr::new(IpAddr::V4(9, 9, 9, 9), 53)]);
    let conf = parse_resolv_line(conf, &fields(&["options", "#", "ndots:7"]), None).unwrap();
    assert_eq!(conf.ndots, 1);
    let conf = parse_resolv_line(conf, &fields(&["options", "ndots:7", "ndots:8"]), None).unwrap();
    assert_eq!(conf.ndots, 8);
    assert_eq!(
        resolv_from_fields(&vec![fields(&["options", "attempts:1"])], None),
        Ok(ResolvConf {
            attempts: 1,
            nameservers: nameservers_or_default(Vec::new()),
            ..plain_conf()
        })
    );
}

#[test]
fn resolver_is_made_of_table_and_options() {
    let entries = vec![HostEntry::new(IpAddr::V4(1, 1, 1, 1), names(&["one"]))];
    let resolver = StubResolver::new(entries.clone(), plain_conf());
    assert_eq!(resolver.entries(), &entries);
    assert_eq!(resolver.nameservers().len(), 2);
    let conf = ResolvConf {
        nameservers: vec![SocketAddr::new(IpAddr::V4(4, 4, 4, 4), 5353)],
        ..plain_conf()
    };
    let resolver = StubResolver::new(entries, conf);
    assert_eq!(resolver.nameservers(), &vec![SocketAddr::new(IpAddr::V4(4, 4, 4, 4), 5353)]);
}
