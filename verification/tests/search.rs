use dnsaur::lookups::{Action, Outcome};
use dnsaur::resolvers::resolv::{query_name_and_nameserver, Step};
use dnsaur::resolvers::Lookup;
use dnsaur::wire::RTYPE_A;
use dnsaur::{DnsResolver, Error, IpAddr, SocketAddr, StubResolver};

const V4: IpAddr = IpAddr::V4(93, 184, 216, 34);
const V6: IpAddr = IpAddr::V6(0x2606, 0x2800, 0x220, 1, 0x248, 0x1893, 0x25c8, 0x1946);

fn resolver(resolv: &str) -> StubResolver {
    let hosts = b"127.0.0.1 localhost\n10.0.0.7 build localhost\n::1 localhost\n";
    DnsResolver::parse(hosts, resolv.as_bytes()).unwrap()
}

fn wire(labels: &[&str]) -> Vec<u8> {
    let mut out = Vec::new();
    for label in labels {
        out.push(label.len() as u8);
        out.extend_from_slice(label.as_bytes());
    }
    out.push(0);
    out
}

fn ok(addrs: Vec<(IpAddr, u32)>) -> Outcome {
    Ok(Some(addrs))
}

#[test]
fn literal_address_is_its_own_answer() {
    let r = resolver("nameserver 192.0.2.1\n");
    assert_eq!(r.lookup("93.184.216.34"), Lookup::Local(vec![(V4, 0)]));
    assert_eq!(r.lookup("::1"), Lookup::Local(vec![(IpAddr::V6(0, 0, 0, 0, 0, 0, 0, 1), 0)]));
    assert_eq!(
        r.lookup("2606:2800:220:1:248:1893:25c8:1946"),
        Lookup::Local(vec![(V6, 0)])
    );
}

#[test]
fn hosts_table_answers_before_any_nameserver() {
    let r = resolver("nameserver 192.0.2.1\n");
    assert_eq!(
        r.lookup("localhost"),
        Lookup::Local(vec![
            (IpAddr::V4(127, 0, 0, 1), 0),
            (IpAddr::V4(10, 0, 0, 7), 0),
            (IpAddr::V6(0, 0, 0, 0, 0, 0, 0, 1), 0),
        ])
    );
    assert_eq!(r.lookup("build"), Lookup::Local(vec![(IpAddr::V4(10, 0, 0, 7), 0)]));
    assert_eq!(r.query_hosts("build"), vec![(IpAddr::V4(10, 0, 0, 7), 0)]);
    assert_eq!(r.query_hosts("Build"), vec![]);
}

#[test]
fn unqualified_name_is_tried_bare_only() {
    let r = resolver("search corp.example\nnameserver 192.0.2.1\noptions ndots:2\n");
    let (search, step) = match r.lookup("www.example") {
        Lookup::Remote(search, step) => (search, step),
        other => panic!("{:?}", other),
    };
    assert_eq!(step, Step::Ask);
    assert_eq!(search.name(), &wire(&["www", "example"]));
    assert_eq!(search.nameserver(), SocketAddr::new(IpAddr::V4(192, 0, 2, 1), 53));
    let (_, step) = search.step(&r, ok(vec![]), ok(vec![]));
    assert_eq!(step, Step::Done(Ok(vec![])));
}

#[test]
fn qualified_name_is_tried_with_each_suffix_then_bare() {
    let r = resolver("search one.example ..two.example.\nnameserver 192.0.2.1\noptions ndots:2\n");
    let (search, step) = r.query_resolv("a.b.c");
    assert_eq!(step, Step::Ask);
    assert_eq!(search.name(), &wire(&["a", "b", "c", "one", "example"]));
    let (search, step) = search.step(&r, ok(vec![]), ok(vec![]));
    assert_eq!(step, Step::Ask);
    assert_eq!(search.name(), &wire(&["a", "b", "c", "two", "example"]));
    let (search, step) = search.step(&r, Err(Error::FileSystemError), ok(vec![(V6, 1)]));
    assert_eq!(step, Step::Ask);
    assert_eq!(search.name(), &wire(&["a", "b", "c"]));
    let (_, step) = search.step(&r, Err(Error::ShortMessage), ok(vec![(V6, 1)]));
    assert_eq!(step, Step::Done(Err(Error::ShortMessage)));
}

#[test]
fn suffix_that_yields_an_address_wins() {
    let r = resolver("search one.example two.example\nnameserver 192.0.2.1\n");
    let (search, _) = r.query_resolv("www.site");
    assert_eq!(search.name(), &wire(&["www", "site", "one", "example"]));
    let (_, step) = search.step(&r, ok(vec![(V4, 300)]), Ok(None));
    assert_eq!(step, Step::Done(Ok(vec![(V4, 300)])));
}

#[test]
fn trailing_dot_makes_a_name_qualified() {
    let r = resolver("search one.example\nnameserver 192.0.2.1\noptions ndots:5\n");
    let (search, _) = r.query_resolv("host.");
    assert_eq!(search.name(), &wire(&["host", "one", "example"]));
    let (search, _) = r.query_resolv("host...");
    assert_eq!(search.name(), &wire(&["host", "one", "example"]));
    let (search, _) = r.query_resolv("host");
    assert_eq!(search.name(), &wire(&["host"]));
    let (search, _) = r.dns_with_search(b"a.b.c.d.e.f");
    assert_eq!(search.name(), &wire(&["a", "b", "c", "d", "e", "f", "one", "example"]));
    let (search, _) = r.dns_with_search(b"a.b.c.d.e");
    assert_eq!(search.name(), &wire(&["a", "b", "c", "d", "e"]));
}

#[test]
fn qualified_name_without_search_list_is_tried_bare() {
    let r = resolver("nameserver 192.0.2.1\n");
    let (search, step) = r.query_resolv("www.example.com");
    assert_eq!(step, Step::Ask);
    assert_eq!(search.name(), &wire(&["www", "example", "com"]));
}

#[test]
fn name_that_is_no_domain_name_ends_the_lookup() {
    let r = resolver("search one.example\nnameserver 192.0.2.1\n");
    let (_, step) = r.query_resolv("bad..name");
    assert_eq!(step, Step::Done(Err(Error::DomainNameParseError)));
    let label = "x".repeat(64);
    assert_eq!(r.query_resolv(&label).1, Step::Done(Err(Error::DomainNameParseError)));
    let r = resolver("search ok.example bad..suffix\nnameserver 192.0.2.1\n");
    let (search, step) = r.query_resolv("www.site");
    assert_eq!(step, Step::Ask);
    let (_, step) = search.step(&r, ok(vec![]), ok(vec![]));
    assert_eq!(step, Step::Done(Err(Error::DomainNameParseError)));
}

#[test]
fn failing_nameserver_is_followed_by_the_next() {
    let r = resolver("nameserver 192.0.2.1\nnameserver 192.0.2.2\nnameserver 2001:db8::3\n");
    let (search, step) = r.query_resolv("host");
    assert_eq!(step, Step::Ask);
    assert_eq!(search.nameserver(), SocketAddr::new(IpAddr::V4(192, 0, 2, 1), 53));
    let (search, step) = search.step(&r, Err(Error::FileSystemError), ok(vec![(V6, 5)]));
    assert_eq!(step, Step::Ask);
    assert_eq!(search.nameserver(), SocketAddr::new(IpAddr::V4(192, 0, 2, 2), 53));
    assert_eq!(search.name(), &wire(&["host"]));
    let (_, step) = search.step(&r, ok(vec![(V4, 300)]), ok(vec![(V6, 60)]));
    assert_eq!(step, Step::Done(Ok(vec![(V4, 300), (V6, 60)])));
}

#[test]
fn last_error_is_returned_when_every_nameserver_fails() {
    let r = resolver("nameserver 192.0.2.1\nnameserver 192.0.2.2\n");
    let (search, _) = r.query_resolv("host");
    let (search, step) = search.step(&r, Err(Error::FileSystemError), Err(Error::ShortMessage));
    assert_eq!(step, Step::Ask);
    let (_, step) = search.step(&r, ok(vec![]), Err(Error::QueryTooLarge));
    assert_eq!(step, Step::Done(Err(Error::QueryTooLarge)));
}

#[test]
fn empty_answer_of_a_nameserver_ends_the_bare_name() {
    let r = resolver("nameserver 192.0.2.1\nnameserver 192.0.2.2\n");
    let (search, _) = r.query_resolv("host");
    let (_, step) = search.step(&r, Ok(None), ok(vec![]));
    assert_eq!(step, Step::Done(Ok(vec![])));
}

#[test]
fn each_suffix_starts_with_the_first_nameserver() {
    let r = resolver("search s.example\nnameserver 192.0.2.1\nnameserver 192.0.2.2\n");
    let (search, _) = r.query_resolv("a.b");
    let (search, step) = search.step(&r, Err(Error::FileSystemError), ok(vec![]));
    assert_eq!(step, Step::Ask);
    assert_eq!(search.nameserver(), SocketAddr::new(IpAddr::V4(192, 0, 2, 2), 53));
    let (search, step) = search.step(&r, Err(Error::FileSystemError), ok(vec![]));
    assert_eq!(step, Step::Ask);
    assert_eq!(search.name(), &wire(&["a", "b"]));
    assert_eq!(search.nameserver(), SocketAddr::new(IpAddr::V4(192, 0, 2, 1), 53));
}

#[test]
fn a_addresses_come_before_aaaa_addresses() {
    assert_eq!(
        query_name_and_nameserver(ok(vec![(V4, 300)]), ok(vec![(V6, 60)])),
        Ok(vec![(V4, 300), (V6, 60)])
    );
    assert_eq!(
        query_name_and_nameserver(ok(vec![(V4, 1), (V4, 1)]), Ok(None)),
        Ok(vec![(V4, 1), (V4, 1)])
    );
    assert_eq!(query_name_and_nameserver(Ok(None), ok(vec![(V6, 2)])), Ok(vec![(V6, 2)]));
    assert_eq!(query_name_and_nameserver(Ok(None), Ok(None)), Ok(vec![]));
}

#[test]
fn either_error_fails_the_nameserver() {
    assert_eq!(
        query_name_and_nameserver(Err(Error::FileSystemError), ok(vec![(V6, 2)])),
        Err(Error::FileSystemError)
    );
    assert_eq!(
        query_name_and_nameserver(ok(vec![(V4, 2)]), Err(Error::ShortMessage)),
        Err(Error::ShortMessage)
    );
    assert_eq!(
        query_name_and_nameserver(Err(Error::QueryTooLarge), Err(Error::ShortMessage)),
        Err(Error::QueryTooLarge)
    );
}

#[test]
fn question_is_put_with_the_limits_of_the_resolver() {
    let r = resolver("nameserver 2001:db8::3\noptions attempts:1 timeout:3 edns0\n");
    let (search, _) = r.query_resolv("host");
    let (mut x, action) = r.query_question_and_nameserver(&search, RTYPE_A);
    assert_eq!(action, Action::Bind { ipv6: true });
    assert_eq!(x.nameserver(), search.nameserver());
    assert_eq!(x.step(dnsaur::lookups::Event::Done), Action::Send);
    assert_eq!(
        x.step(dnsaur::lookups::Event::Done),
        Action::Receive { capacity: 1232, timeout: 3 }
    );
    assert_eq!(x.step(dnsaur::lookups::Event::Failed), Action::Finish);
    assert_eq!(&x.query()[12..18], b"\x04host\x00");
}

#[test]
fn advance_takes_the_result_of_one_nameserver() {
    let r = resolver("nameserver 192.0.2.1\n");
    let (search, _) = r.query_resolv("host");
    let (_, step) = search.advance(&r, Ok(vec![(V4, 9)]));
    assert_eq!(step, Step::Done(Ok(vec![(V4, 9)])));
    let (search, step) = r.dns_lookup(b"host".to_vec(), 0, Err(Error::DomainNamePushError));
    assert_eq!(step, Step::Done(Err(Error::DomainNamePushError)));
    assert_eq!(search.name(), &Vec::<u8>::new());
}
