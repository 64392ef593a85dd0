//! A stub DNS resolver: hosts-table override, search-domain expansion and
//! per-nameserver query exchange, written as pure decision functions that an
//! I/O driver runs.

pub mod addr;
pub mod errors;
pub mod ip;
pub mod license;
pub mod lookups;
pub mod parser;
pub mod resolvers;
pub mod text;
pub mod wire;

use vstd::prelude::*;

pub use errors::Error;
pub use ip::{IpAddr, SocketAddr};

verus! {

/// One record of the hosts table: an address and the names that stand for
/// it. As [`HostEntry::new`] builds it, no name occurs twice.
#[derive(Debug, Clone, PartialEq)]
pub struct HostEntry {
    pub ip: IpAddr,
    pub hosts: Vec<String>,
}

/// A record of the hosts table as a mathematical value.
pub struct HostEntryView {
    pub ip: IpAddr,
    pub hosts: Seq<Seq<char>>,
}

impl View for HostEntry {
    type V = HostEntryView;

    open spec fn view(&self) -> HostEntryView {
        HostEntryView { ip: self.ip, hosts: self.hosts.deep_view() }
    }
}

/// `names` with every name kept where it first occurs and dropped where it
/// occurs again.
pub open spec fn distinct(names: Seq<Seq<char>>) -> Seq<Seq<char>>
    decreases names.len(),
{
    if names.len() == 0 {
        Seq::empty()
    } else {
        let before = distinct(names.drop_last());
        if before.contains(names.last()) {
            before
        } else {
            before.push(names.last())
        }
    }
}

/// No name occurs twice in `distinct(names)`, and it holds the names of
/// `names`, no more and no fewer.
pub proof fn lemma_distinct_is_a_set(names: Seq<Seq<char>>)
    ensures
        distinct(names).no_duplicates(),
        forall|name: Seq<char>| distinct(names).contains(name) <==> names.contains(name),
    decreases names.len(),
{
    if names.len() > 0 {
        let init = names.drop_last();
        let before = distinct(init);
        lemma_distinct_is_a_set(init);
        assert forall|name: Seq<char>| distinct(names).contains(name) <==> names.contains(
            name,
        ) by {
            if names.contains(name) {
                let i = choose|i: int| 0 <= i < names.len() && names[i] == name;
                if i < names.len() - 1 {
                    assert(init[i] == name);
                    assert(init.contains(name));
                    assert(before.contains(name));
                    let j = choose|j: int| 0 <= j < before.len() && before[j] == name;
                    assert(distinct(names)[j] == name);
                } else {
                    if !before.contains(name) {
                        assert(distinct(names)[before.len() as int] == name);
                    }
                }
            }
            if distinct(names).contains(name) {
                let j = choose|j: int| 0 <= j < distinct(names).len() && distinct(names)[j] == name;
                if j < before.len() {
                    assert(before[j] == name);
                    assert(before.contains(name));
                    assert(init.contains(name));
                    let i = choose|i: int| 0 <= i < init.len() && init[i] == name;
                    assert(names[i] == name);
                } else {
                    assert(names[names.len() - 1] == name);
                }
            }
        }
    }
}

impl HostEntry {
    /// The record for `ip` with the names of `hosts`, each once.
    pub fn new(ip: IpAddr, hosts: Vec<String>) -> (entry: HostEntry)
        ensures
            entry@.ip == ip,
            entry@.hosts == distinct(hosts.deep_view()),
            entry@.hosts.no_duplicates(),
    {
        proof {
            lemma_distinct_is_a_set(hosts.deep_view());
        }
        let mut kept: Vec<String> = Vec::new();
        let mut i: usize = 0;
        while i < hosts.len()
            invariant
                i <= hosts.len(),
                kept.deep_view() == distinct(hosts.deep_view().take(i as int)),
            decreases hosts.len() - i,
        {
            let ghost names = hosts.deep_view();
            assert(names.take(i as int + 1).drop_last() == names.take(i as int));
            assert(names.take(i as int + 1).last() == hosts[i as int]@);
            if !contains_name(&kept, hosts[i].as_str()) {
                let ghost before = kept.deep_view();
                kept.push(hosts[i].clone());
                assert(kept.deep_view() == before.push(hosts[i as int]@));
            }
            i = i + 1;
        }
        assert(hosts.deep_view().take(hosts.len() as int) == hosts.deep_view());
        HostEntry { ip, hosts: kept }
    }

    /// Whether `host` is one of the names of this record.
    pub fn has_name(&self, host: &str) -> (found: bool)
        ensures
            found == self@.hosts.contains(host@),
    {
        contains_name(&self.hosts, host)
    }
}

/// Whether `name` is one of `names`.
pub fn contains_name(names: &Vec<String>, name: &str) -> (found: bool)
    ensures
        found == names.deep_view().contains(name@),
{
    let wanted = name.to_owned();
    let mut i: usize = 0;
    while i < names.len()
        invariant
            i <= names.len(),
            wanted@ == name@,
            forall|j: int| 0 <= j < i ==> names.deep_view()[j] != name@,
        decreases names.len() - i,
    {
        if names[i] == wanted {
            assert(names.deep_view()[i as int] == name@);
            return true;
        }
        i = i + 1;
    }
    false
}

/// The resolver: the hosts table, the search list, the nameservers and the
/// limits, as loaded once. There is always at least one nameserver.
#[derive(Debug, PartialEq)]
pub struct StubResolver {
    entries: Vec<HostEntry>,
    search: Vec<Vec<u8>>,
    nameservers: Vec<SocketAddr>,
    timeout: u64,
    ndots: u8,
    attempts: u8,
    rotate: bool,
    udp_payload_size: u16,
}

/// The resolver under the name that the configuration loader uses.
pub type DnsResolver = StubResolver;

/// A resolver as a mathematical value.
pub struct ResolverView {
    /// The hosts table, in file order.
    pub entries: Seq<HostEntryView>,
    /// The search suffixes, in the order in which they are tried.
    pub search: Seq<Seq<u8>>,
    /// The nameservers, in the order in which they are asked.
    pub nameservers: Seq<SocketAddr>,
    /// Seconds to wait for each datagram.
    pub timeout: u64,
    /// From how many dots on a name counts as qualified.
    pub ndots: u8,
    /// How many datagrams each nameserver gets.
    pub attempts: u8,
    /// Read from the configuration; changes nothing.
    pub rotate: bool,
    /// The advertised size of a datagram.
    pub udp_payload_size: u16,
}

impl ResolverView {
    /// What holds of every resolver: it has a nameserver.
    pub open spec fn well_formed(self) -> bool {
        self.nameservers.len() > 0
    }
}

/// The hosts table as a mathematical value.
pub open spec fn entries_view(entries: Seq<HostEntry>) -> Seq<HostEntryView> {
    Seq::new(entries.len(), |i: int| entries[i]@)
}

impl View for StubResolver {
    type V = ResolverView;

    closed spec fn view(&self) -> ResolverView {
        ResolverView {
            entries: entries_view(self.entries@),
            search: self.search.deep_view(),
            nameservers: self.nameservers@,
            timeout: self.timeout,
            ndots: self.ndots,
            attempts: self.attempts,
            rotate: self.rotate,
            udp_payload_size: self.udp_payload_size,
        }
    }
}

impl StubResolver {
    #[verifier::type_invariant]
    spec fn has_nameserver(self) -> bool {
        self.nameservers@.len() > 0
    }

    /// The hosts table, in file order.
    pub fn entries(&self) -> (entries: &Vec<HostEntry>)
        ensures
            entries_view(entries@) == self@.entries,
    {
        &self.entries
    }

    /// The search suffixes, in the order in which they are tried.
    pub fn search(&self) -> (search: &Vec<Vec<u8>>)
        ensures
            search.deep_view() == self@.search,
    {
        &self.search
    }

    /// The nameservers, in the order in which they are asked: at least one.
    pub fn nameservers(&self) -> (nameservers: &Vec<SocketAddr>)
        ensures
            nameservers@ == self@.nameservers,
            nameservers@.len() > 0,
            self@.well_formed(),
    {
        proof {
            use_type_invariant(self);
        }
        &self.nameservers
    }

    /// Seconds to wait for each datagram.
    pub fn timeout(&self) -> (timeout: u64)
        ensures
            timeout == self@.timeout,
    {
        self.timeout
    }

    /// From how many dots on a name counts as qualified.
    pub fn ndots(&self) -> (ndots: u8)
        ensures
            ndots == self@.ndots,
    {
        self.ndots
    }

    /// How many datagrams each nameserver gets.
    pub fn attempts(&self) -> (attempts: u8)
        ensures
            attempts == self@.attempts,
    {
        self.attempts
    }

    /// Whether the configuration asked for rotation. Nothing depends on it.
    pub fn rotate(&self) -> (rotate: bool)
        ensures
            rotate == self@.rotate,
    {
        self.rotate
    }

    /// The advertised size of a datagram.
    pub fn udp_payload_size(&self) -> (size: u16)
        ensures
            size == self@.udp_payload_size,
    {
        self.udp_payload_size
    }
}

} // verus!
