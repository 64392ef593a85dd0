//! Reading the hosts table and the resolver options.
//!
//! Both sources are text: lines of fields between white space, where a field
//! that begins with `#` ends the line. The caller reads the files; what is
//! here turns their bytes into a resolver.

use vstd::prelude::*;
use vstd::utf8::{decode_utf8, valid_utf8};

use crate::errors::Error;
use crate::ip::{ip_literal, number_of, parse_ip, parse_number, IpAddr, SocketAddr};
use crate::text::{
    bytes_eq, copy_range, fields_of, lines_of, split_fields, split_lines, split_once,
    split_once_at, to_text, COLON, HASH,
};
use crate::{distinct, entries_view, HostEntry, HostEntryView, ResolverView, StubResolver};

verus! {

/// The port on which nameservers listen.
pub const DNS_PORT: u16 = 53;

/// The payload size that is advertised unless the options say otherwise.
pub const PLAIN_PAYLOAD: u16 = 512;

/// The payload size that `edns0` asks for.
pub const EDNS_PAYLOAD: u16 = 1232;

/// The word `nameserver`.
pub open spec fn word_nameserver() -> Seq<u8> {
    seq![0x6eu8, 0x61, 0x6d, 0x65, 0x73, 0x65, 0x72, 0x76, 0x65, 0x72]
}

/// The word `options`.
pub open spec fn word_options() -> Seq<u8> {
    seq![0x6fu8, 0x70, 0x74, 0x69, 0x6f, 0x6e, 0x73]
}

/// The word `search`.
pub open spec fn word_search() -> Seq<u8> {
    seq![0x73u8, 0x65, 0x61, 0x72, 0x63, 0x68]
}

/// The word `ndots`.
pub open spec fn word_ndots() -> Seq<u8> {
    seq![0x6eu8, 0x64, 0x6f, 0x74, 0x73]
}

/// The word `timeout`.
pub open spec fn word_timeout() -> Seq<u8> {
    seq![0x74u8, 0x69, 0x6d, 0x65, 0x6f, 0x75, 0x74]
}

/// The word `attempts`.
pub open spec fn word_attempts() -> Seq<u8> {
    seq![0x61u8, 0x74, 0x74, 0x65, 0x6d, 0x70, 0x74, 0x73]
}

/// The word `rotate`.
pub open spec fn word_rotate() -> Seq<u8> {
    seq![0x72u8, 0x6f, 0x74, 0x61, 0x74, 0x65]
}

/// The word `edns0`.
pub open spec fn word_edns0() -> Seq<u8> {
    seq![0x65u8, 0x64, 0x6e, 0x73, 0x30]
}

/// The loopback address of IPv4, `127.0.0.1`.
pub open spec fn localhost_v4() -> IpAddr {
    IpAddr::V4(127, 0, 0, 1)
}

/// The loopback address of IPv6, `::1`.
pub open spec fn localhost_v6() -> IpAddr {
    IpAddr::V6(0, 0, 0, 0, 0, 0, 0, 1)
}

/// The nameservers of a resolver for which none was configured: the loopback
/// addresses of both families.
pub open spec fn default_nameservers() -> Seq<SocketAddr> {
    seq![
        SocketAddr { ip: localhost_v4(), port: DNS_PORT },
        SocketAddr { ip: localhost_v6(), port: DNS_PORT },
    ]
}

/// `nameservers`, or the defaults where there are none.
pub open spec fn or_default(nameservers: Seq<SocketAddr>) -> Seq<SocketAddr> {
    if nameservers.len() == 0 {
        default_nameservers()
    } else {
        nameservers
    }
}

/// Whether `field` begins a comment.
pub open spec fn is_comment(field: Seq<u8>) -> bool {
    field.len() > 0 && field[0] == HASH
}

/// Whether field `i` of `fields` is the first that begins a comment.
pub open spec fn is_comment_start(fields: Seq<Seq<u8>>, i: int) -> bool {
    &&& 0 <= i < fields.len()
    &&& is_comment(fields[i])
    &&& forall|j: int| 0 <= j < i ==> !is_comment(#[trigger] fields[j])
}

/// How many fields stand before the comment: all where there is none.
pub open spec fn comment_start(fields: Seq<Seq<u8>>) -> int {
    if exists|i: int| is_comment_start(fields, i) {
        choose|i: int| is_comment_start(fields, i)
    } else {
        fields.len() as int
    }
}

/// The fields of a line that stand before its comment.
pub open spec fn uncommented(fields: Seq<Seq<u8>>) -> Seq<Seq<u8>> {
    fields.take(comment_start(fields))
}

/// The texts of those of `fields` that are valid UTF-8, in their order.
pub open spec fn texts(fields: Seq<Seq<u8>>) -> Seq<Seq<char>>
    decreases fields.len(),
{
    if fields.len() == 0 {
        Seq::empty()
    } else if valid_utf8(fields.last()) {
        texts(fields.drop_last()).push(decode_utf8(fields.last()))
    } else {
        texts(fields.drop_last())
    }
}

/// Those of `fields` that are valid UTF-8, in their order.
pub open spec fn valid_only(fields: Seq<Seq<u8>>) -> Seq<Seq<u8>>
    decreases fields.len(),
{
    if fields.len() == 0 {
        Seq::empty()
    } else if valid_utf8(fields.last()) {
        valid_only(fields.drop_last()).push(fields.last())
    } else {
        valid_only(fields.drop_last())
    }
}

/// The address that `token` spells: it has to be valid UTF-8 and an IP
/// literal.
pub open spec fn token_address(token: Seq<u8>) -> Result<IpAddr, Error> {
    if !valid_utf8(token) {
        Err(Error::Utf8ByteStringError)
    } else {
        match ip_literal(token) {
            Some(ip) => Ok(ip),
            None => Err(Error::IpAddrParseError),
        }
    }
}

/// What one line of the hosts table says: nothing where no field stands
/// before the comment; else a record with the address that the first field
/// spells and the names that the other fields spell.
pub open spec fn hosts_line(fields: Seq<Seq<u8>>) -> Option<Result<HostEntryView, Error>> {
    let f = uncommented(fields);
    if f.len() == 0 {
        None
    } else {
        Some(
            match token_address(f[0]) {
                Err(e) => Err(e),
                Ok(ip) => Ok(HostEntryView { ip, hosts: distinct(texts(f.skip(1))) }),
            },
        )
    }
}

/// The hosts table that `lines` spell, each line given by its fields: the
/// records in the order of the lines, or the error of the first line that
/// has one.
pub open spec fn hosts_table(lines: Seq<Seq<Seq<u8>>>) -> Result<Seq<HostEntryView>, Error>
    decreases lines.len(),
{
    if lines.len() == 0 {
        Ok(Seq::empty())
    } else {
        match hosts_table(lines.drop_last()) {
            Err(e) => Err(e),
            Ok(entries) => match hosts_line(lines.last()) {
                None => Ok(entries),
                Some(Err(e)) => Err(e),
                Some(Ok(entry)) => Ok(entries.push(entry)),
            },
        }
    }
}

/// The lines of `content`, each by its fields.
pub open spec fn tokenized(content: Seq<u8>) -> Seq<Seq<Seq<u8>>> {
    Seq::new(lines_of(content).len(), |i: int| fields_of(lines_of(content)[i]))
}

/// What the resolver options say.
#[derive(Debug, Clone, PartialEq, Eq)]
pub struct ResolvConf {
    pub search: Vec<Vec<u8>>,
    pub nameservers: Vec<SocketAddr>,
    pub timeout: u64,
    pub ndots: u8,
    pub attempts: u8,
    pub rotate: bool,
    pub udp_payload_size: u16,
}

/// The resolver options as a mathematical value.
pub struct ResolvConfView {
    pub search: Seq<Seq<u8>>,
    pub nameservers: Seq<SocketAddr>,
    pub timeout: u64,
    pub ndots: u8,
    pub attempts: u8,
    pub rotate: bool,
    pub udp_payload_size: u16,
}

impl View for ResolvConf {
    type V = ResolvConfView;

    open spec fn view(&self) -> ResolvConfView {
        ResolvConfView {
            search: self.search.deep_view(),
            nameservers: self.nameservers@,
            timeout: self.timeout,
            ndots: self.ndots,
            attempts: self.attempts,
            rotate: self.rotate,
            udp_payload_size: self.udp_payload_size,
        }
    }
}

/// The options of a resolver for which nothing was configured: no search
/// list, no nameserver yet, five seconds for each of two attempts, one dot,
/// no rotation, and the plain payload size.
pub open spec fn default_conf() -> ResolvConfView {
    ResolvConfView {
        search: Seq::empty(),
        nameservers: Seq::empty(),
        timeout: 5,
        ndots: 1,
        attempts: 2,
        rotate: false,
        udp_payload_size: PLAIN_PAYLOAD,
    }
}

/// The payload size that `edns0` sets: the size asked for, or 1232.
pub open spec fn edns_size(wanted: Option<u16>) -> u16 {
    match wanted {
        Some(size) => size,
        None => EDNS_PAYLOAD,
    }
}

/// What a `key:value` option changes. `ndots`, `timeout` and `attempts` take
/// a decimal number from 0 to 255; a value that is none leaves the options as
/// they are, and so does any other key but `rotate`.
pub open spec fn with_value(conf: ResolvConfView, key: Seq<u8>, value: Seq<u8>) -> ResolvConfView {
    if key == word_ndots() {
        match number_of(value) {
            Some(n) => ResolvConfView { ndots: n, ..conf },
            None => conf,
        }
    } else if key == word_timeout() {
        match number_of(value) {
            Some(n) => ResolvConfView { timeout: n as u64, ..conf },
            None => conf,
        }
    } else if key == word_attempts() {
        match number_of(value) {
            Some(n) => ResolvConfView { attempts: n, ..conf },
            None => conf,
        }
    } else if key == word_rotate() {
        ResolvConfView { rotate: true, ..conf }
    } else {
        conf
    }
}

/// What one field of an `options` line changes: the flags `edns0` and
/// `rotate`, or a `key:value` option. Any other field changes nothing.
pub open spec fn with_option(
    conf: ResolvConfView,
    field: Seq<u8>,
    wanted: Option<u16>,
) -> ResolvConfView {
    if field == word_edns0() {
        ResolvConfView { udp_payload_size: edns_size(wanted), ..conf }
    } else if field == word_rotate() {
        ResolvConfView { rotate: true, ..conf }
    } else {
        match split_once_at(field, COLON) {
            Some((key, value)) => with_value(conf, key, value),
            None => conf,
        }
    }
}

/// What the fields of an `options` line change, one after the other.
pub open spec fn with_options(
    conf: ResolvConfView,
    fields: Seq<Seq<u8>>,
    wanted: Option<u16>,
) -> ResolvConfView
    decreases fields.len(),
{
    if fields.len() == 0 {
        conf
    } else {
        with_option(with_options(conf, fields.drop_last(), wanted), fields.last(), wanted)
    }
}

/// What one line of the resolver options changes. `search` replaces the
/// search list by the fields that follow it; `nameserver` adds the address
/// that the next field spells, with port 53; `options` sets options. Any
/// other line changes nothing.
pub open spec fn resolv_line(
    conf: ResolvConfView,
    fields: Seq<Seq<u8>>,
    wanted: Option<u16>,
) -> Result<ResolvConfView, Error> {
    let f = uncommented(fields);
    if f.len() == 0 {
        Ok(conf)
    } else if f[0] == word_search() {
        Ok(ResolvConfView { search: valid_only(f.skip(1)), ..conf })
    } else if f[0] == word_nameserver() {
        if f.len() < 2 {
            Ok(conf)
        } else {
            match token_address(f[1]) {
                Err(e) => Err(e),
                Ok(ip) => Ok(
                    ResolvConfView {
                        nameservers: conf.nameservers.push(SocketAddr { ip, port: DNS_PORT }),
                        ..conf
                    },
                ),
            }
        }
    } else if f[0] == word_options() {
        Ok(with_options(conf, f.skip(1), wanted))
    } else {
        Ok(conf)
    }
}

/// What `lines` change, one after the other, each line given by its fields;
/// or the error of the first line that has one.
pub open spec fn resolv_lines(
    conf: ResolvConfView,
    lines: Seq<Seq<Seq<u8>>>,
    wanted: Option<u16>,
) -> Result<ResolvConfView, Error>
    decreases lines.len(),
{
    if lines.len() == 0 {
        Ok(conf)
    } else {
        match resolv_lines(conf, lines.drop_last(), wanted) {
            Err(e) => Err(e),
            Ok(before) => resolv_line(before, lines.last(), wanted),
        }
    }
}

/// The resolver options that `lines` spell: the defaults as changed by the
/// lines, with the default nameservers where the lines name none.
pub open spec fn resolv_conf(lines: Seq<Seq<Seq<u8>>>, wanted: Option<u16>) -> Result<
    ResolvConfView,
    Error,
> {
    match resolv_lines(default_conf(), lines, wanted) {
        Err(e) => Err(e),
        Ok(conf) => Ok(ResolvConfView { nameservers: or_default(conf.nameservers), ..conf }),
    }
}

/// The resolver with the hosts table `entries` and the options `conf`.
pub open spec fn resolver_of(entries: Seq<HostEntryView>, conf: ResolvConfView) -> ResolverView {
    ResolverView {
        entries,
        search: conf.search,
        nameservers: or_default(conf.nameservers),
        timeout: conf.timeout,
        ndots: conf.ndots,
        attempts: conf.attempts,
        rotate: conf.rotate,
        udp_payload_size: conf.udp_payload_size,
    }
}

/// The resolver that the two sources spell, each given by its lines of
/// fields: the error of the hosts table if it has one, else that of the
/// options if they have one.
pub open spec fn parsed(hosts: Seq<Seq<Seq<u8>>>, resolv: Seq<Seq<Seq<u8>>>) -> Result<
    ResolverView,
    Error,
> {
    match hosts_table(hosts) {
        Err(e) => Err(e),
        Ok(entries) => match resolv_conf(resolv, None) {
            Err(e) => Err(e),
            Ok(conf) => Ok(resolver_of(entries, conf)),
        },
    }
}

/// A fallible hosts table as a mathematical value.
pub open spec fn table_view(r: Result<Vec<HostEntry>, Error>) -> Result<Seq<HostEntryView>, Error> {
    match r {
        Ok(entries) => Ok(entries_view(entries@)),
        Err(e) => Err(e),
    }
}

/// Fallible resolver options as a mathematical value.
pub open spec fn conf_view(r: Result<ResolvConf, Error>) -> Result<ResolvConfView, Error> {
    match r {
        Ok(conf) => Ok(conf@),
        Err(e) => Err(e),
    }
}

/// A fallible resolver as a mathematical value.
pub open spec fn resolver_view(r: Result<StubResolver, Error>) -> Result<ResolverView, Error> {
    match r {
        Ok(resolver) => Ok(resolver@),
        Err(e) => Err(e),
    }
}

/// Whatever the two sources hold, a resolver that is loaded from them has a
/// nameserver: those that the options name, or the two defaults.
pub proof fn lemma_parsed_has_nameserver(hosts: Seq<Seq<Seq<u8>>>, resolv: Seq<Seq<Seq<u8>>>)
    ensures
        parsed(hosts, resolv) matches Ok(cfg) ==> cfg.well_formed(),
{
}

/// Sources without a line give the defaults: no search list, the two
/// loopback nameservers, five seconds for each of two attempts, one dot, no
/// rotation, and a payload size of 512.
pub proof fn lemma_empty_sources_give_defaults()
    ensures
        parsed(Seq::empty(), Seq::empty()) == Ok::<ResolverView, Error>(
            ResolverView {
                entries: Seq::empty(),
                search: Seq::empty(),
                nameservers: default_nameservers(),
                timeout: 5,
                ndots: 1,
                attempts: 2,
                rotate: false,
                udp_payload_size: 512,
            },
        ),
{
}

proof fn lemma_hosts_table_error(lines: Seq<Seq<Seq<u8>>>, i: int)
    requires
        0 <= i <= lines.len(),
        hosts_table(lines.take(i)) is Err,
    ensures
        hosts_table(lines) == hosts_table(lines.take(i)),
    decreases lines.len() - i,
{
    if i < lines.len() {
        assert(lines.take(i + 1).drop_last() == lines.take(i));
        lemma_hosts_table_error(lines, i + 1);
    } else {
        assert(lines.take(i) == lines);
    }
}

proof fn lemma_resolv_lines_error(
    conf: ResolvConfView,
    lines: Seq<Seq<Seq<u8>>>,
    wanted: Option<u16>,
    i: int,
)
    requires
        0 <= i <= lines.len(),
        resolv_lines(conf, lines.take(i), wanted) is Err,
    ensures
        resolv_lines(conf, lines, wanted) == resolv_lines(conf, lines.take(i), wanted),
    decreases lines.len() - i,
{
    if i < lines.len() {
        assert(lines.take(i + 1).drop_last() == lines.take(i));
        lemma_resolv_lines_error(conf, lines, wanted, i + 1);
    } else {
        assert(lines.take(i) == lines);
    }
}

/// How many fields stand before the comment.
pub fn find_comment(fields: &Vec<Vec<u8>>) -> (n: usize)
    ensures
        n == comment_start(fields.deep_view()),
        n <= fields.len(),
{
    let mut i: usize = 0;
    while i < fields.len()
        invariant
            i <= fields.len(),
            forall|j: int| 0 <= j < i ==> !is_comment(#[trigger] fields.deep_view()[j]),
        decreases fields.len() - i,
    {
        assert(fields.deep_view()[i as int] == fields[i as int]@);
        if fields[i].len() > 0 && fields[i][0] == HASH {
            proof {
                let f = fields.deep_view();
                assert(is_comment_start(f, i as int));
                let c = comment_start(f);
                assert(is_comment_start(f, c));
                assert(c == i);
            }
            return i;
        }
        i = i + 1;
    }
    proof {
        let f = fields.deep_view();
        assert(!exists|k: int| is_comment_start(f, k));
    }
    fields.len()
}

/// The address that `token` spells.
pub fn parse_token(token: &[u8]) -> (r: Result<IpAddr, Error>)
    ensures
        r == token_address(token@),
{
    if to_text(token).is_none() {
        return Err(Error::Utf8ByteStringError);
    }
    match parse_ip(token) {
        Some(ip) => Ok(ip),
        None => Err(Error::IpAddrParseError),
    }
}

/// The texts of those fields from `from` up to `to` that are valid UTF-8.
fn field_texts(fields: &Vec<Vec<u8>>, from: usize, to: usize) -> (out: Vec<String>)
    requires
        from <= to <= fields.len(),
    ensures
        out.deep_view() == texts(fields.deep_view().subrange(from as int, to as int)),
{
    let ghost all = fields.deep_view().subrange(from as int, to as int);
    let mut out: Vec<String> = Vec::new();
    let mut i: usize = from;
    assert(all.take(0) =~= Seq::<Seq<u8>>::empty());
    while i < to
        invariant
            from <= i <= to <= fields.len(),
            all == fields.deep_view().subrange(from as int, to as int),
            out.deep_view() == texts(all.take(i - from)),
        decreases to - i,
    {
        assert(all.take(i - from + 1).drop_last() == all.take(i - from));
        assert(all.take(i - from + 1).last() == fields[i as int]@);
        match to_text(fields[i].as_slice()) {
            Some(text) => {
                let ghost before = out.deep_view();
                out.push(text);
                assert(out.deep_view() =~= before.push(text@));
            },
            None => {},
        }
        i = i + 1;
    }
    assert(all.take(to - from) == all);
    out
}

/// Those fields from `from` up to `to` that are valid UTF-8.
fn valid_fields(fields: &Vec<Vec<u8>>, from: usize, to: usize) -> (out: Vec<Vec<u8>>)
    requires
        from <= to <= fields.len(),
    ensures
        out.deep_view() == valid_only(fields.deep_view().subrange(from as int, to as int)),
{
    let ghost all = fields.deep_view().subrange(from as int, to as int);
    let mut out: Vec<Vec<u8>> = Vec::new();
    let mut i: usize = from;
    assert(all.take(0) =~= Seq::<Seq<u8>>::empty());
    while i < to
        invariant
            from <= i <= to <= fields.len(),
            all == fields.deep_view().subrange(from as int, to as int),
            out.deep_view() == valid_only(all.take(i - from)),
        decreases to - i,
    {
        assert(all.take(i - from + 1).drop_last() == all.take(i - from));
        assert(all.take(i - from + 1).last() == fields[i as int]@);
        if to_text(fields[i].as_slice()).is_some() {
            let ghost before = out.deep_view();
            let copy = copy_range(fields[i].as_slice(), 0, fields[i].len());
            assert(copy@ =~= fields[i as int]@);
            out.push(copy);
            assert(out.deep_view() =~~= before.push(fields[i as int]@));
        }
        i = i + 1;
    }
    assert(all.take(to - from) == all);
    out
}

/// What one line of the hosts table says.
pub fn parse_hosts_line(fields: &Vec<Vec<u8>>) -> (r: Option<Result<HostEntry, Error>>)
    ensures
        r is None <==> hosts_line(fields.deep_view()) is None,
        r matches Some(Err(e)) ==> hosts_line(fields.deep_view()) == Some(
            Err::<HostEntryView, Error>(e),
        ),
        r matches Some(Ok(entry)) ==> hosts_line(fields.deep_view()) == Some(
            Ok::<HostEntryView, Error>(entry@),
        ),
{
    let n = find_comment(fields);
    if n == 0 {
        return None;
    }
    let ghost f = uncommented(fields.deep_view());
    assert(f[0] == fields[0]@);
    assert(f.skip(1) == fields.deep_view().subrange(1, n as int));
    match parse_token(fields[0].as_slice()) {
        Err(e) => Some(Err(e)),
        Ok(ip) => {
            let names = field_texts(fields, 1, n);
            Some(Ok(HostEntry::new(ip, names)))
        },
    }
}

/// The hosts table that `lines` spell, each line given by its fields.
pub fn hosts_from_fields(lines: &Vec<Vec<Vec<u8>>>) -> (r: Result<Vec<HostEntry>, Error>)
    ensures
        table_view(r) == hosts_table(lines.deep_view()),
{
    let ghost all = lines.deep_view();
    let mut entries: Vec<HostEntry> = Vec::new();
    let mut i: usize = 0;
    assert(all.take(0) =~= Seq::<Seq<Seq<u8>>>::empty());
    assert(entries_view(entries@) =~= Seq::<HostEntryView>::empty());
    while i < lines.len()
        invariant
            i <= lines.len(),
            all == lines.deep_view(),
            Ok::<Seq<HostEntryView>, Error>(entries_view(entries@)) == hosts_table(
                all.take(i as int),
            ),
        decreases lines.len() - i,
    {
        assert(all.take(i as int + 1).drop_last() == all.take(i as int));
        assert(all.take(i as int + 1).last() == lines[i as int].deep_view());
        match parse_hosts_line(&lines[i]) {
            None => {},
            Some(Err(e)) => {
                proof {
                    lemma_hosts_table_error(all, i as int + 1);
                }
                return Err(e);
            },
            Some(Ok(entry)) => {
                let ghost before = entries_view(entries@);
                entries.push(entry);
                assert(entries_view(entries@) =~= before.push(entry@));
            },
        }
        i = i + 1;
    }
    assert(all.take(lines.len() as int) == all);
    Ok(entries)
}

/// The lines of `content`, each by its fields.
pub fn tokenize(content: &[u8]) -> (rows: Vec<Vec<Vec<u8>>>)
    ensures
        rows.deep_view() == tokenized(content@),
{
    let lines = split_lines(content);
    let mut rows: Vec<Vec<Vec<u8>>> = Vec::new();
    let mut i: usize = 0;
    while i < lines.len()
        invariant
            i <= lines.len(),
            lines.deep_view() == lines_of(content@),
            rows.len() == i,
            forall|j: int|
                0 <= j < i ==> #[trigger] rows[j].deep_view() == fields_of(
                    lines_of(content@)[j],
                ),
        decreases lines.len() - i,
    {
        assert(lines.deep_view()[i as int] == lines[i as int]@);
        rows.push(split_fields(lines[i].as_slice()));
        i = i + 1;
    }
    assert(rows.deep_view() =~= tokenized(content@));
    rows
}

/// What a `key:value` option changes.
fn set_value(conf: &mut ResolvConf, key: &Vec<u8>, value: &Vec<u8>)
    ensures
        final(conf)@ == with_value(old(conf)@, key@, value@),
{
    let ndots: Vec<u8> = vec![0x6eu8, 0x64, 0x6f, 0x74, 0x73];
    let timeout: Vec<u8> = vec![0x74u8, 0x69, 0x6d, 0x65, 0x6f, 0x75, 0x74];
    let attempts: Vec<u8> = vec![0x61u8, 0x74, 0x74, 0x65, 0x6d, 0x70, 0x74, 0x73];
    let rotate: Vec<u8> = vec![0x72u8, 0x6f, 0x74, 0x61, 0x74, 0x65];
    assert(ndots@ =~= word_ndots());
    assert(timeout@ =~= word_timeout());
    assert(attempts@ =~= word_attempts());
    assert(rotate@ =~= word_rotate());
    if bytes_eq(key.as_slice(), ndots.as_slice()) {
        match parse_number(value.as_slice()) {
            Some(n) => {
                conf.ndots = n;
            },
            None => {},
        }
    } else if bytes_eq(key.as_slice(), timeout.as_slice()) {
        match parse_number(value.as_slice()) {
            Some(n) => {
                conf.timeout = n as u64;
            },
            None => {},
        }
    } else if bytes_eq(key.as_slice(), attempts.as_slice()) {
        match parse_number(value.as_slice()) {
            Some(n) => {
                conf.attempts = n;
            },
            None => {},
        }
    } else if bytes_eq(key.as_slice(), rotate.as_slice()) {
        conf.rotate = true;
    }
}

/// What one field of an `options` line changes.
fn set_option(conf: &mut ResolvConf, field: &Vec<u8>, wanted: Option<u16>)
    ensures
        final(conf)@ == with_option(old(conf)@, field@, wanted),
{
    let edns0: Vec<u8> = vec![0x65u8, 0x64, 0x6e, 0x73, 0x30];
    let rotate: Vec<u8> = vec![0x72u8, 0x6f, 0x74, 0x61, 0x74, 0x65];
    assert(edns0@ =~= word_edns0());
    assert(rotate@ =~= word_rotate());
    if bytes_eq(field.as_slice(), edns0.as_slice()) {
        conf.udp_payload_size = match wanted {
            Some(size) => size,
            None => EDNS_PAYLOAD,
        };
    } else if bytes_eq(field.as_slice(), rotate.as_slice()) {
        conf.rotate = true;
    } else {
        match split_once(field.as_slice(), COLON) {
            Some((key, value)) => {
                set_value(conf, &key, &value);
            },
            None => {},
        }
    }
}

/// What one line of the resolver options changes.
pub fn parse_resolv_line(conf: ResolvConf, fields: &Vec<Vec<u8>>, wanted: Option<u16>) -> (r: Result<
    ResolvConf,
    Error,
>)
    ensures
        conf_view(r) == resolv_line(conf@, fields.deep_view(), wanted),
{
    let mut conf = conf;
    let n = find_comment(fields);
    if n == 0 {
        return Ok(conf);
    }
    let ghost f = uncommented(fields.deep_view());
    assert(f[0] == fields[0]@);
    assert(f.skip(1) == fields.deep_view().subrange(1, n as int));
    let search: Vec<u8> = vec![0x73u8, 0x65, 0x61, 0x72, 0x63, 0x68];
    let nameserver: Vec<u8> = vec![0x6eu8, 0x61, 0x6d, 0x65, 0x73, 0x65, 0x72, 0x76, 0x65, 0x72];
    let options: Vec<u8> = vec![0x6fu8, 0x70, 0x74, 0x69, 0x6f, 0x6e, 0x73];
    assert(search@ =~= word_search());
    assert(nameserver@ =~= word_nameserver());
    assert(options@ =~= word_options());
    if bytes_eq(fields[0].as_slice(), search.as_slice()) {
        conf.search = valid_fields(fields, 1, n);
        Ok(conf)
    } else if bytes_eq(fields[0].as_slice(), nameserver.as_slice()) {
        if n < 2 {
            return Ok(conf);
        }
        assert(f[1] == fields[1]@);
        match parse_token(fields[1].as_slice()) {
            Err(e) => Err(e),
            Ok(ip) => {
                conf.nameservers.push(SocketAddr { ip, port: DNS_PORT });
                Ok(conf)
            },
        }
    } else if bytes_eq(fields[0].as_slice(), options.as_slice()) {
        let ghost start = conf@;
        let ghost opts = f.skip(1);
        let mut i: usize = 1;
        assert(opts.take(0) =~= Seq::<Seq<u8>>::empty());
        while i < n
            invariant
                1 <= i <= n <= fields.len(),
                opts == fields.deep_view().subrange(1, n as int),
                conf@ == with_options(start, opts.take(i - 1), wanted),
            decreases n - i,
        {
            assert(opts.take(i - 1 + 1).drop_last() == opts.take(i - 1));
            assert(opts.take(i - 1 + 1).last() == fields[i as int]@);
            set_option(&mut conf, &fields[i], wanted);
            i = i + 1;
        }
        assert(opts.take(n - 1) == opts);
        Ok(conf)
    } else {
        Ok(conf)
    }
}

/// `nameservers`, or the loopback addresses of both families where there
/// are none.
pub fn nameservers_or_default(nameservers: Vec<SocketAddr>) -> (out: Vec<SocketAddr>)
    ensures
        out@ == or_default(nameservers@),
        out.len() > 0,
{
    if nameservers.len() == 0 {
        let mut out: Vec<SocketAddr> = Vec::new();
        out.push(SocketAddr { ip: IpAddr::V4(127, 0, 0, 1), port: DNS_PORT });
        out.push(SocketAddr { ip: IpAddr::V6(0, 0, 0, 0, 0, 0, 0, 1), port: DNS_PORT });
        assert(out@ =~= default_nameservers());
        out
    } else {
        nameservers
    }
}

/// The resolver options that `lines` spell, each line given by its fields.
/// `udp_payload_size` is the payload size that the flag `edns0` sets; 1232
/// where none is given.
pub fn resolv_from_fields(lines: &Vec<Vec<Vec<u8>>>, udp_payload_size: Option<u16>) -> (r: Result<
    ResolvConf,
    Error,
>)
    ensures
        conf_view(r) == resolv_conf(lines.deep_view(), udp_payload_size),
{
    let ghost all = lines.deep_view();
    let mut conf = ResolvConf {
        search: Vec::new(),
        nameservers: Vec::new(),
        timeout: 5,
        ndots: 1,
        attempts: 2,
        rotate: false,
        udp_payload_size: PLAIN_PAYLOAD,
    };
    assert(conf@.search =~= Seq::<Seq<u8>>::empty());
    assert(conf@ == default_conf());
    let mut i: usize = 0;
    assert(all.take(0) =~= Seq::<Seq<Seq<u8>>>::empty());
    while i < lines.len()
        invariant
            i <= lines.len(),
            all == lines.deep_view(),
            Ok::<ResolvConfView, Error>(conf@) == resolv_lines(
                default_conf(),
                all.take(i as int),
                udp_payload_size,
            ),
        decreases lines.len() - i,
    {
        assert(all.take(i as int + 1).drop_last() == all.take(i as int));
        assert(all.take(i as int + 1).last() == lines[i as int].deep_view());
        match parse_resolv_line(conf, &lines[i], udp_payload_size) {
            Err(e) => {
                proof {
                    lemma_resolv_lines_error(default_conf(), all, udp_payload_size, i as int + 1);
                }
                return Err(e);
            },
            Ok(next) => {
                conf = next;
            },
        }
        i = i + 1;
    }
    assert(all.take(lines.len() as int) == all);
    let ResolvConf { search, nameservers, timeout, ndots, attempts, rotate, udp_payload_size } =
        conf;
    Ok(
        ResolvConf {
            search,
            nameservers: nameservers_or_default(nameservers),
            timeout,
            ndots,
            attempts,
            rotate,
            udp_payload_size,
        },
    )
}

impl StubResolver {
    /// The resolver with the hosts table `entries` and the options `conf`,
    /// and with the default nameservers where `conf` names none.
    pub fn new(entries: Vec<HostEntry>, conf: ResolvConf) -> (resolver: StubResolver)
        ensures
            resolver@ == resolver_of(entries_view(entries@), conf@),
            resolver@.well_formed(),
    {
        let ResolvConf { search, nameservers, timeout, ndots, attempts, rotate, udp_payload_size } =
            conf;
        StubResolver {
            entries,
            search,
            nameservers: nameservers_or_default(nameservers),
            timeout,
            ndots,
            attempts,
            rotate,
            udp_payload_size,
        }
    }

    /// Reads the hosts table from the bytes of its file.
    pub fn parse_hosts(content: &[u8]) -> (r: Result<Vec<HostEntry>, Error>)
        ensures
            table_view(r) == hosts_table(tokenized(content@)),
    {
        let rows = tokenize(content);
        hosts_from_fields(&rows)
    }

    /// Reads the resolver options from the bytes of their file.
    /// `udp_payload_size` is the payload size that the flag `edns0` sets; 1232
    /// where none is given.
    pub fn parse_resolv(content: &[u8], udp_payload_size: Option<u16>) -> (r: Result<
        ResolvConf,
        Error,
    >)
        ensures
            conf_view(r) == resolv_conf(tokenized(content@), udp_payload_size),
    {
        let rows = tokenize(content);
        resolv_from_fields(&rows, udp_payload_size)
    }

    /// The resolver that the hosts table and the resolver options spell, each
    /// given by the bytes of its file. A line that names no address where
    /// one is due makes the whole load fail.
    pub fn parse(hosts: &[u8], resolv: &[u8]) -> (r: Result<StubResolver, Error>)
        ensures
            resolver_view(r) == parsed(tokenized(hosts@), tokenized(resolv@)),
            r matches Ok(resolver) ==> resolver@.well_formed(),
    {
        let entries = match StubResolver::parse_hosts(hosts) {
            Ok(entries) => entries,
            Err(e) => {
                return Err(e);
            },
        };
        let conf = match StubResolver::parse_resolv(resolv, None) {
            Ok(conf) => conf,
            Err(e) => {
                return Err(e);
            },
        };
        let resolver = StubResolver::new(entries, conf);
        Ok(resolver)
    }
}

} // verus!
