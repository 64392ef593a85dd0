//! Asking the nameservers: which names to try for a host name, and which
//! nameserver to ask next.
//!
//! A [`Search`] goes through the candidate names, and for each through the
//! nameservers. It asks the driver to put the A and the AAAA question for a
//! name to a nameserver, takes the two outcomes, and decides how to go on.

use vstd::prelude::*;
use vstd::string::StringSliceAdditionalSpecFns;

use crate::errors::Error;
use crate::ip::{IpAddr, SocketAddr};
use crate::lookups::{outcome_view, start_spec, Action, Exchange, Outcome, OutcomeView};
use crate::text::{
    append_bytes, count_byte, count_of, trim_end, trim_start, trimmed_end, trimmed_start, DOT,
};
use crate::wire::{absolute_name, bytes_result_view, query_message, to_absolute_name, CLASS_IN};
use crate::{ResolverView, StubResolver};

verus! {

/// What a search wants next.
#[derive(Debug, PartialEq, Eq)]
pub enum Step {
    /// Put the A and the AAAA question for the name at hand to the
    /// nameserver at hand, and come back with both outcomes.
    Ask,
    /// The lookup is over, with these addresses or this error.
    Done(Result<Vec<(IpAddr, u32)>, Error>),
}

/// A step as a mathematical value.
pub enum StepView {
    Ask,
    Done(Result<Seq<(IpAddr, u32)>, Error>),
}

impl View for Step {
    type V = StepView;

    open spec fn view(&self) -> StepView {
        match self {
            Step::Ask => StepView::Ask,
            Step::Done(Ok(addrs)) => StepView::Done(Ok(addrs@)),
            Step::Done(Err(e)) => StepView::Done(Err(*e)),
        }
    }
}

/// Where a lookup stands among the candidate names and the nameservers.
#[derive(Debug, Clone, PartialEq, Eq)]
pub struct Search {
    base: Vec<u8>,
    candidate: usize,
    name: Vec<u8>,
    server: usize,
    nameserver: SocketAddr,
}

/// A search as a mathematical value.
pub struct SearchView {
    /// The host name without the dots at its end.
    pub base: Seq<u8>,
    /// The candidate at hand: the index of its search suffix, or the length
    /// of the search list for the bare name.
    pub candidate: int,
    /// The candidate at hand as an absolute name in wire format.
    pub name: Seq<u8>,
    /// The index of the nameserver at hand.
    pub server: int,
    /// The nameserver at hand.
    pub nameserver: SocketAddr,
}

impl View for Search {
    type V = SearchView;

    closed spec fn view(&self) -> SearchView {
        SearchView {
            base: self.base@,
            candidate: self.candidate as int,
            name: self.name@,
            server: self.server as int,
            nameserver: self.nameserver,
        }
    }
}

/// Whether `host` counts as qualified: it has at least `ndots` dots, or it
/// ends with a dot.
pub open spec fn is_global(host: Seq<u8>, ndots: u8) -> bool {
    count_of(host, DOT) >= ndots || (host.len() > 0 && host.last() == DOT)
}

/// The candidate to begin with: the first search suffix for a qualified
/// name, the bare name for any other.
pub open spec fn first_candidate(cfg: ResolverView, host: Seq<u8>) -> int {
    if is_global(host, cfg.ndots) {
        0
    } else {
        cfg.search.len() as int
    }
}

/// The text of candidate `k` for the host name `base`: the name, a dot and
/// search suffix `k` without the dots at its start; or, behind the last
/// suffix, the bare name.
pub open spec fn candidate_text(cfg: ResolverView, base: Seq<u8>, k: int) -> Seq<u8> {
    if 0 <= k < cfg.search.len() {
        base + seq![DOT] + trim_start(cfg.search[k], DOT)
    } else {
        base
    }
}

/// The addresses of the two outcomes for one nameserver: those of the A
/// question, then those of the AAAA question. If either failed, its error;
/// that of the A question first.
pub open spec fn merged(a: OutcomeView, aaaa: OutcomeView) -> Result<Seq<(IpAddr, u32)>, Error> {
    match a {
        Err(e) => Err(e),
        Ok(first) => match aaaa {
            Err(e) => Err(e),
            Ok(second) => Ok(addresses(first) + addresses(second)),
        },
    }
}

/// The addresses of a response, none where there was no usable response.
pub open spec fn addresses(response: Option<Seq<(IpAddr, u32)>>) -> Seq<(IpAddr, u32)> {
    match response {
        Some(addrs) => addrs,
        None => Seq::empty(),
    }
}

/// The search at candidate `k`, given its name as converted or the reason
/// why it could not be converted. A name that cannot be converted ends the
/// lookup with that reason. Otherwise the first nameserver is asked.
pub open spec fn at_candidate(
    cfg: ResolverView,
    base: Seq<u8>,
    k: int,
    name: Result<Seq<u8>, Error>,
) -> (SearchView, StepView) {
    let nameserver = cfg.nameservers[0];
    match name {
        Err(e) => (
            SearchView { base, candidate: k, name: Seq::empty(), server: 0, nameserver },
            StepView::Done(Err(e)),
        ),
        Ok(octets) => (
            SearchView { base, candidate: k, name: octets, server: 0, nameserver },
            StepView::Ask,
        ),
    }
}

/// The search turned to candidate `k`.
pub open spec fn try_candidate(cfg: ResolverView, base: Seq<u8>, k: int) -> (
    SearchView,
    StepView,
) {
    at_candidate(cfg, base, k, absolute_name(candidate_text(cfg, base, k)))
}

/// How the lookup of `host` begins.
pub open spec fn begin_search(cfg: ResolverView, host: Seq<u8>) -> (SearchView, StepView) {
    try_candidate(cfg, trim_end(host, DOT), first_candidate(cfg, host))
}

/// Whether the nameservers' result for a search-suffix candidate ends the
/// lookup: it does if it holds an address.
pub open spec fn satisfies(result: Result<Seq<(IpAddr, u32)>, Error>) -> bool {
    result matches Ok(addrs) && addrs.len() > 0
}

/// What a search in state `s` does with the result `result` of the
/// nameserver at hand.
///
/// After an error the next nameserver is asked for the same name, if there is
/// one. Otherwise `result` is what the nameservers gave for the candidate:
/// the first result without error, or the last error. For a search-suffix
/// candidate it ends the lookup only if it holds an address; if not, the
/// next candidate is tried. For the bare name it ends the lookup, whatever it
/// is.
pub open spec fn search_step(
    cfg: ResolverView,
    s: SearchView,
    result: Result<Seq<(IpAddr, u32)>, Error>,
) -> (SearchView, StepView) {
    if result is Err && s.server + 1 < cfg.nameservers.len() {
        (
            SearchView { server: s.server + 1, nameserver: cfg.nameservers[s.server + 1], ..s },
            StepView::Ask,
        )
    } else if s.candidate < cfg.search.len() && !satisfies(result) {
        try_candidate(cfg, s.base, s.candidate + 1)
    } else {
        (s, StepView::Done(result))
    }
}

/// The addresses for one nameserver from the outcomes of its two questions:
/// those of the A question, then those of the AAAA question. If either
/// failed, its error; that of the A question first.
pub fn query_name_and_nameserver(a: Outcome, aaaa: Outcome) -> (r: Result<
    Vec<(IpAddr, u32)>,
    Error,
>)
    ensures
        (Step::Done(r))@ == StepView::Done(merged(outcome_view(a), outcome_view(aaaa))),
{
    let first = match a {
        Err(e) => {
            return Err(e);
        },
        Ok(first) => first,
    };
    let second = match aaaa {
        Err(e) => {
            return Err(e);
        },
        Ok(second) => second,
    };
    let mut out: Vec<(IpAddr, u32)> = match first {
        Some(addrs) => addrs,
        None => Vec::new(),
    };
    match second {
        Some(addrs) => {
            let mut addrs = addrs;
            out.append(&mut addrs);
        },
        None => {},
    }
    Ok(out)
}

impl StubResolver {
    /// Begins the lookup of `name` at the nameservers.
    pub fn query_resolv(&self, name: &str) -> (r: (Search, Step))
        ensures
            (r.0@, r.1@) == begin_search(self@, name.spec_bytes()),
    {
        self.dns_with_search(name.as_bytes())
    }

    /// Begins the lookup of `name`: counts its dots, takes the dots off its
    /// end, and turns to the first candidate.
    pub fn dns_with_search(&self, name: &[u8]) -> (r: (Search, Step))
        ensures
            (r.0@, r.1@) == begin_search(self@, name@),
    {
        proof {
            use_type_invariant(self);
        }
        let num_dots = count_byte(DOT, name);
        let global_scope = num_dots >= self.ndots as usize || (name.len() > 0 && name[name.len()
            - 1] == DOT);
        let base = trimmed_end(name, DOT);
        let first = if global_scope {
            0
        } else {
            self.search.len()
        };
        self.candidate(base, first)
    }

    /// Turns to candidate `k` for the host name `base`.
    fn candidate(&self, base: Vec<u8>, k: usize) -> (r: (Search, Step))
        requires
            k <= self@.search.len(),
        ensures
            (r.0@, r.1@) == try_candidate(self@, base@, k as int),
    {
        let mut text: Vec<u8> = Vec::new();
        append_bytes(&mut text, base.as_slice());
        if k < self.search.len() {
            text.push(DOT);
            let suffix = trimmed_start(self.search[k].as_slice(), DOT);
            append_bytes(&mut text, suffix.as_slice());
            assert(self.search.deep_view()[k as int] == self.search[k as int]@);
        }
        assert(text@ == candidate_text(self@, base@, k as int));
        let name = to_absolute_name(&text);
        self.dns_lookup(base, k, name)
    }

    /// Begins with the nameservers for candidate `k`, given its name as
    /// converted or the reason why it could not be converted.
    pub fn dns_lookup(&self, base: Vec<u8>, k: usize, name: Result<Vec<u8>, Error>) -> (r: (
        Search,
        Step,
    ))
        ensures
            (r.0@, r.1@) == at_candidate(self@, base@, k as int, bytes_result_view(name)),
    {
        proof {
            use_type_invariant(self);
        }
        let nameserver = self.nameservers[0];
        match name {
            Err(e) => (
                Search { base, candidate: k, name: Vec::new(), server: 0, nameserver },
                Step::Done(Err(e)),
            ),
            Ok(octets) => (
                Search { base, candidate: k, name: octets, server: 0, nameserver },
                Step::Ask,
            ),
        }
    }

    /// Begins the exchange of one question of the search at hand: for its
    /// name and its nameserver, with this resolver's limits and a fresh
    /// random identifier.
    pub fn query_question_and_nameserver(&self, search: &Search, qtype: u16) -> (r: (
        Exchange,
        Action,
    ))
        ensures
            (r.0@, r.1) == start_spec(
                r.0@.id,
                query_message(r.0@.id, true, search@.name, qtype, CLASS_IN, self@.udp_payload_size),
                search@.nameserver,
                self@.attempts,
                self@.timeout,
                self@.udp_payload_size,
            ),
    {
        Exchange::new(
            &search.name,
            qtype,
            search.nameserver,
            self.attempts,
            self.timeout,
            self.udp_payload_size,
        )
    }
}

impl Search {
    /// The candidate at hand as an absolute name in wire format.
    pub fn name(&self) -> (name: &Vec<u8>)
        ensures
            name@ == self@.name,
    {
        &self.name
    }

    /// The nameserver at hand.
    pub fn nameserver(&self) -> (nameserver: SocketAddr)
        ensures
            nameserver == self@.nameserver,
    {
        self.nameserver
    }

    /// Takes in the outcomes of the A and the AAAA question for the name and
    /// the nameserver at hand, and says how to go on.
    pub fn step(self, resolver: &StubResolver, a: Outcome, aaaa: Outcome) -> (r: (Search, Step))
        ensures
            (r.0@, r.1@) == search_step(
                resolver@,
                self@,
                merged(outcome_view(a), outcome_view(aaaa)),
            ),
    {
        let result = query_name_and_nameserver(a, aaaa);
        self.advance(resolver, result)
    }

    /// Takes in the result of the nameserver at hand, and says how to go on.
    pub fn advance(self, resolver: &StubResolver, result: Result<Vec<(IpAddr, u32)>, Error>) -> (r:
        (Search, Step))
        ensures
            (r.0@, r.1@) == search_step(resolver@, self@, (Step::Done(result))@->Done_0),
    {
        let failed = result.is_err();
        let satisfied = match &result {
            Ok(addrs) => addrs.len() > 0,
            Err(_) => false,
        };
        proof {
            use_type_invariant(resolver);
        }
        if failed && self.server < resolver.nameservers.len() - 1 {
            let server = self.server + 1;
            let nameserver = resolver.nameservers[server];
            (
                Search {
                    base: self.base,
                    candidate: self.candidate,
                    name: self.name,
                    server,
                    nameserver,
                },
                Step::Ask,
            )
        } else if self.candidate < resolver.search.len() && !satisfied {
            let k = self.candidate + 1;
            resolver.candidate(self.base, k)
        } else {
            (self, Step::Done(result))
        }
    }
}

impl SearchView {
    /// What holds of every search that was begun and stepped for the resolver
    /// `cfg`: its candidate and its nameserver are among those of `cfg`.
    pub open spec fn well_formed(self, cfg: ResolverView) -> bool {
        &&& 0 <= self.candidate <= cfg.search.len()
        &&& 0 <= self.server < cfg.nameservers.len()
        &&& self.nameserver == cfg.nameservers[self.server]
    }

    /// An upper bound on how often the nameservers are still asked, the
    /// question at hand included.
    pub open spec fn asks_left(self, cfg: ResolverView) -> int {
        (cfg.search.len() - self.candidate) * cfg.nameservers.len() + (cfg.nameservers.len()
            - self.server)
    }
}

/// A search begins well formed.
pub proof fn lemma_search_begins_well_formed(cfg: ResolverView, host: Seq<u8>)
    requires
        cfg.well_formed(),
    ensures
        begin_search(cfg, host).0.well_formed(cfg),
{
}

/// A step keeps a search well formed, and every further question brings it
/// nearer to its end: each candidate is put to each nameserver once at most,
/// one after the other, so a lookup asks no more often than there are
/// candidates times nameservers.
pub proof fn lemma_search_progress(
    cfg: ResolverView,
    s: SearchView,
    result: Result<Seq<(IpAddr, u32)>, Error>,
)
    requires
        cfg.well_formed(),
        s.well_formed(cfg),
    ensures
        search_step(cfg, s, result).0.well_formed(cfg),
        search_step(cfg, s, result).0.base == s.base,
        search_step(cfg, s, result).1 is Ask ==> 0 < search_step(cfg, s, result).0.asks_left(cfg)
            < s.asks_left(cfg),
        s.asks_left(cfg) <= (cfg.search.len() + 1) * cfg.nameservers.len(),
{
    let n = cfg.nameservers.len() as int;
    let k = cfg.search.len() as int;
    let t = search_step(cfg, s, result).0;
    assert((k - s.candidate) * n + n == (k - s.candidate + 1) * n) by (nonlinear_arith);
    assert((k - s.candidate + 1) * n <= (k + 1) * n) by (nonlinear_arith)
        requires
            0 <= s.candidate,
            n > 0,
    ;
    if !(result is Err && s.server + 1 < n) && s.candidate < k && !satisfies(result) {
        assert((k - (s.candidate + 1)) * n + n == (k - s.candidate) * n) by (nonlinear_arith);
        assert((k - (s.candidate + 1)) * n >= 0) by (nonlinear_arith)
            requires
                s.candidate + 1 <= k,
                n > 0,
        ;
    } else {
        assert((k - s.candidate) * n >= 0) by (nonlinear_arith)
            requires
                s.candidate <= k,
                n > 0,
        ;
    }
}

/// A name that counts as qualified is first tried with the first search
/// suffix behind it; any other name is tried bare, and with no suffix at all.
pub proof fn lemma_first_candidate(cfg: ResolverView, host: Seq<u8>)
    ensures
        is_global(host, cfg.ndots) && cfg.search.len() > 0 ==> begin_search(cfg, host)
            == try_candidate(cfg, trim_end(host, DOT), 0) && candidate_text(
            cfg,
            trim_end(host, DOT),
            0,
        ) == trim_end(host, DOT) + seq![DOT] + trim_start(cfg.search[0], DOT),
        !is_global(host, cfg.ndots) || cfg.search.len() == 0 ==> begin_search(cfg, host)
            == at_candidate(
            cfg,
            trim_end(host, DOT),
            cfg.search.len() as int,
            absolute_name(trim_end(host, DOT)),
        ),
{
}

/// A search-suffix candidate whose nameservers gave no address, or only
/// errors, is followed by the next candidate: the next suffix, and behind the
/// last suffix the bare name. Its error is not reported.
pub proof fn lemma_suffixes_in_order(
    cfg: ResolverView,
    s: SearchView,
    result: Result<Seq<(IpAddr, u32)>, Error>,
)
    requires
        0 <= s.candidate < cfg.search.len(),
        !satisfies(result),
        result is Ok || s.server + 1 >= cfg.nameservers.len(),
    ensures
        search_step(cfg, s, result) == try_candidate(cfg, s.base, s.candidate + 1),
        s.candidate + 1 == cfg.search.len() ==> candidate_text(cfg, s.base, s.candidate + 1)
            == s.base,
{
}

/// A search-suffix candidate for which a nameserver gave an address ends the
/// lookup with that nameserver's addresses.
pub proof fn lemma_suffix_with_address_wins(
    cfg: ResolverView,
    s: SearchView,
    addrs: Seq<(IpAddr, u32)>,
)
    requires
        addrs.len() > 0,
    ensures
        search_step(cfg, s, Ok(addrs)) == (s, StepView::Done(Ok(addrs))),
{
}

/// Once the bare name is the candidate no other name is tried: a step asks
/// the next nameserver for the same name, or ends the lookup with what the
/// nameservers gave, be it no address at all.
pub proof fn lemma_bare_name_is_last(
    cfg: ResolverView,
    s: SearchView,
    result: Result<Seq<(IpAddr, u32)>, Error>,
)
    requires
        s.candidate >= cfg.search.len(),
    ensures
        search_step(cfg, s, result).0.name == s.name,
        search_step(cfg, s, result).0.candidate == s.candidate,
        search_step(cfg, s, result).1 is Ask || search_step(cfg, s, result).1
            == StepView::Done(result),
        result is Ok ==> search_step(cfg, s, result).1 == StepView::Done(result),
{
}

/// When a nameserver fails and another is configured behind it, that one is
/// asked next, for the same name. When the last one fails, its error is what
/// the nameservers gave for the name.
pub proof fn lemma_nameserver_fallback(cfg: ResolverView, s: SearchView, e: Error)
    requires
        0 <= s.server,
    ensures
        s.server + 1 < cfg.nameservers.len() ==> search_step(cfg, s, Err(e)) == (
            SearchView { server: s.server + 1, nameserver: cfg.nameservers[s.server + 1], ..s },
            StepView::Ask,
        ),
        s.server + 1 >= cfg.nameservers.len() && s.candidate >= cfg.search.len() ==> search_step(
            cfg,
            s,
            Err(e),
        ) == (s, StepView::Done(Err(e))),
{
}

/// The first nameserver that answers without error settles the name: for the
/// bare name its addresses are the result of the lookup, even if there are
/// none, and no further nameserver is asked.
pub proof fn lemma_first_answer_settles(cfg: ResolverView, s: SearchView, addrs: Seq<(IpAddr, u32)>)
    requires
        s.candidate >= cfg.search.len(),
    ensures
        search_step(cfg, s, Ok(addrs)) == (s, StepView::Done(Ok(addrs))),
{
}

/// A nameserver that answers both questions yields the addresses of the A
/// response followed by those of the AAAA response, none of them dropped.
pub proof fn lemma_a_before_aaaa(a: Seq<(IpAddr, u32)>, aaaa: Seq<(IpAddr, u32)>)
    ensures
        merged(Ok(Some(a)), Ok(Some(aaaa))) == Ok::<Seq<(IpAddr, u32)>, Error>(a + aaaa),
        merged(Ok(Some(a)), Ok(None)) == Ok::<Seq<(IpAddr, u32)>, Error>(a),
        merged(Ok(None), Ok(Some(aaaa))) == Ok::<Seq<(IpAddr, u32)>, Error>(aaaa),
{
    assert(a + Seq::<(IpAddr, u32)>::empty() == a);
    assert(Seq::<(IpAddr, u32)>::empty() + aaaa == aaaa);
}

/// If either question failed, the nameserver failed: with the error of the A
/// question if that one failed, else with the error of the AAAA question.
pub proof fn lemma_either_error_fails(a: OutcomeView, aaaa: OutcomeView)
    ensures
        a matches Err(e) ==> merged(a, aaaa) == Err::<Seq<(IpAddr, u32)>, Error>(e),
        a is Ok && aaaa is Err ==> merged(a, aaaa) == Err::<Seq<(IpAddr, u32)>, Error>(
            aaaa->Err_0,
        ),
{
}

} // verus!
