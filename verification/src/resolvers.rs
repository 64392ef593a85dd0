//! From a host name to its addresses: a literal address is its own answer,
//! the hosts table comes next, and the nameservers last.

pub mod hosts;
pub mod resolv;

use vstd::prelude::*;
use vstd::string::StringSliceAdditionalSpecFns;

use crate::errors::Error;
use crate::ip::{ip_literal, parse_ip, IpAddr};
use crate::resolvers::hosts::hosts_matches;
use crate::resolvers::resolv::{begin_search, search_step, Search, SearchView, Step, StepView};
use crate::{HostEntryView, ResolverView, StubResolver};

verus! {

/// How a lookup begins.
#[derive(Debug, PartialEq, Eq)]
pub enum Lookup {
    /// The name was answered at once, with these addresses, and no
    /// nameserver is asked.
    Local(Vec<(IpAddr, u32)>),
    /// The nameservers are to be asked: the search, and its first step.
    Remote(Search, Step),
}

/// The beginning of a lookup as a mathematical value.
pub enum LookupView {
    Local(Seq<(IpAddr, u32)>),
    Remote(SearchView, StepView),
}

impl View for Lookup {
    type V = LookupView;

    open spec fn view(&self) -> LookupView {
        match self {
            Lookup::Local(addrs) => LookupView::Local(addrs@),
            Lookup::Remote(search, step) => LookupView::Remote(search@, step@),
        }
    }
}

/// How the lookup of `host` begins, given the name as text and as the bytes
/// of that text. A literal address is returned as it is, the hosts table is
/// not looked at. Else, if the hosts table names the host, its addresses
/// are returned. Else the search at the nameservers begins.
pub open spec fn lookup_spec(cfg: ResolverView, host: Seq<char>, bytes: Seq<u8>) -> LookupView {
    match ip_literal(bytes) {
        Some(ip) => LookupView::Local(seq![(ip, 0u32)]),
        None => {
            let found = hosts_matches(cfg.entries, host);
            if found.len() > 0 {
                LookupView::Local(found)
            } else {
                let (search, step) = begin_search(cfg, bytes);
                LookupView::Remote(search, step)
            }
        },
    }
}

impl StubResolver {
    /// Begins the lookup of `host`: answers it at once if it is a literal
    /// address or a name of the hosts table, with a time to live of zero;
    /// else hands out the search at the nameservers.
    pub fn lookup(&self, host: &str) -> (r: Lookup)
        ensures
            r@ == lookup_spec(self@, host@, host.spec_bytes()),
    {
        match parse_ip(host.as_bytes()) {
            Some(ip) => {
                let mut addrs: Vec<(IpAddr, u32)> = Vec::new();
                addrs.push((ip, 0));
                assert(addrs@ =~= seq![(ip, 0u32)]);
                return Lookup::Local(addrs);
            },
            None => {},
        }
        let found = self.query_hosts(host);
        if found.len() != 0 {
            return Lookup::Local(found);
        }
        let (search, step) = self.query_resolv(host);
        Lookup::Remote(search, step)
    }
}

/// The rotation flag changes nothing: two resolvers that differ in it alone
/// begin every lookup alike and take every step alike.
pub proof fn lemma_rotate_changes_nothing(
    cfg: ResolverView,
    host: Seq<char>,
    bytes: Seq<u8>,
    s: SearchView,
    result: Result<Seq<(IpAddr, u32)>, Error>,
)
    ensures
        lookup_spec(ResolverView { rotate: !cfg.rotate, ..cfg }, host, bytes) == lookup_spec(
            cfg,
            host,
            bytes,
        ),
        search_step(ResolverView { rotate: !cfg.rotate, ..cfg }, s, result) == search_step(
            cfg,
            s,
            result,
        ),
{
}

/// A literal address is answered by itself, with a time to live of zero,
/// whatever the hosts table and the options hold: nothing is asked of any
/// nameserver.
pub proof fn lemma_literal_answers_itself(
    cfg: ResolverView,
    host: Seq<char>,
    bytes: Seq<u8>,
    ip: IpAddr,
)
    requires
        ip_literal(bytes) == Some(ip),
    ensures
        lookup_spec(cfg, host, bytes) == LookupView::Local(seq![(ip, 0u32)]),
{
}

/// A name of the hosts table that is no literal address is answered from the
/// table, and nothing is asked of any nameserver: the answer holds the
/// address of each record that names it, in table order and with a time to
/// live of zero, and nothing else.
pub proof fn lemma_hosts_table_wins(cfg: ResolverView, host: Seq<char>, bytes: Seq<u8>, i: int)
    requires
        ip_literal(bytes) is None,
        0 <= i < cfg.entries.len(),
        cfg.entries[i].hosts.contains(host),
    ensures
        lookup_spec(cfg, host, bytes) == LookupView::Local(hosts_matches(cfg.entries, host)),
        hosts_matches(cfg.entries, host).contains((cfg.entries[i].ip, 0u32)),
        forall|pair: (IpAddr, u32)| #[trigger]
            hosts_matches(cfg.entries, host).contains(pair) ==> pair.1 == 0 && exists|j: int|
                0 <= j < cfg.entries.len() && #[trigger] cfg.entries[j].hosts.contains(host)
                    && cfg.entries[j].ip == pair.0,
{
    lemma_hosts_matches(cfg.entries, host);
}

/// The answer of the hosts table holds the address of every record that
/// names the host, and of no other.
pub proof fn lemma_hosts_matches(entries: Seq<HostEntryView>, host: Seq<char>)
    ensures
        forall|i: int|
            0 <= i < entries.len() && #[trigger] entries[i].hosts.contains(host)
                ==> hosts_matches(entries, host).contains((entries[i].ip, 0u32)),
        forall|pair: (IpAddr, u32)| #[trigger]
            hosts_matches(entries, host).contains(pair) ==> pair.1 == 0 && exists|j: int|
                0 <= j < entries.len() && #[trigger] entries[j].hosts.contains(host)
                    && entries[j].ip == pair.0,
    decreases entries.len(),
{
    if entries.len() > 0 {
        let init = entries.drop_last();
        let last = entries.last();
        let before = hosts_matches(init, host);
        let all = hosts_matches(entries, host);
        lemma_hosts_matches(init, host);
        assert forall|i: int|
            0 <= i < entries.len() && #[trigger] entries[i].hosts.contains(host) implies all.contains(
            (entries[i].ip, 0u32),
        ) by {
            if i < entries.len() - 1 {
                assert(init[i] == entries[i]);
                assert(before.contains((entries[i].ip, 0u32)));
                let k = choose|k: int| 0 <= k < before.len() && before[k] == (entries[i].ip, 0u32);
                assert(all[k] == (entries[i].ip, 0u32));
            } else {
                assert(all[before.len() as int] == (last.ip, 0u32));
            }
        }
        assert forall|pair: (IpAddr, u32)| #[trigger] all.contains(pair) implies pair.1 == 0
            && exists|j: int|
            0 <= j < entries.len() && #[trigger] entries[j].hosts.contains(host) && entries[j].ip
                == pair.0 by {
            let k = choose|k: int| 0 <= k < all.len() && all[k] == pair;
            if k < before.len() {
                assert(before[k] == pair);
                assert(before.contains(pair));
                let j = choose|j: int|
                    0 <= j < init.len() && #[trigger] init[j].hosts.contains(host) && init[j].ip
                        == pair.0;
                assert(entries[j] == init[j]);
            } else {
                assert(entries[entries.len() - 1].hosts.contains(host));
            }
        }
    }
}

} // verus!
