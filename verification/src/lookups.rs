//! One question put to one nameserver.
//!
//! An [`Exchange`] decides what to do next; a driver does it and reports back.
//! The exchange says which socket operation it wants as an [`Action`], the
//! driver performs it on the exchange's nameserver and hands the result in as
//! an [`Event`]. UDP is tried first where the query fits the advertised
//! payload size; a stream takes over when the datagrams are used up, when a
//! response is truncated, or when the query is too long for a datagram.

pub mod tcp;
pub mod udp;

use vstd::prelude::*;

use crate::errors::Error;
use crate::ip::{IpAddr, SocketAddr};
use crate::wire::{create_message, bytes_result_view, header_of, query_message, CLASS_IN};

verus! {

/// The socket operation that an exchange asks for.
#[derive(Debug, Clone, Copy, PartialEq, Eq, Structural)]
pub enum Action {
    /// Bind a datagram socket to the wildcard address and an ephemeral port,
    /// in the IPv6 family if `ipv6`, else in the IPv4 family.
    Bind { ipv6: bool },
    /// Send the query as one datagram to the nameserver.
    Send,
    /// Receive one datagram of at most `capacity` bytes, and give up after
    /// `timeout` seconds.
    Receive { capacity: u16, timeout: u64 },
    /// Open a stream to the nameserver.
    Connect,
    /// Write the whole frame to the stream.
    Write,
    /// Read exactly `len` bytes from the stream.
    Read { len: u16 },
    /// Nothing more: the outcome is known.
    Finish,
}

/// What became of the operation that an exchange asked for.
#[derive(Debug, Clone, PartialEq, Eq)]
pub enum Event {
    /// It succeeded and carries no data.
    Done,
    /// It failed, or was cancelled by its timer.
    Failed,
    /// It succeeded with these bytes.
    Data(Vec<u8>),
}

/// An event as a mathematical value.
pub enum EventView {
    Done,
    Failed,
    Data(Seq<u8>),
}

impl View for Event {
    type V = EventView;

    open spec fn view(&self) -> EventView {
        match self {
            Event::Done => EventView::Done,
            Event::Failed => EventView::Failed,
            Event::Data(bytes) => EventView::Data(bytes@),
        }
    }
}

/// Where an exchange stands: the operation whose result it waits for.
#[derive(Debug, Clone, Copy, PartialEq, Eq, Structural)]
pub enum Phase {
    Binding,
    /// The datagram of attempt `attempt`, counted from 1, is being sent.
    Sending { attempt: u8 },
    /// The response to attempt `attempt` is awaited.
    Receiving { attempt: u8 },
    Connecting,
    Writing,
    ReadingLength,
    ReadingBody,
    Finished,
}

/// The addresses of a response, each with its time to live in seconds;
/// `None` where the nameserver gave no usable response.
pub type Outcome = Result<Option<Vec<(IpAddr, u32)>>, Error>;

/// An outcome as a mathematical value.
pub type OutcomeView = Result<Option<Seq<(IpAddr, u32)>>, Error>;

/// The mathematical value of an outcome.
pub open spec fn outcome_view(outcome: Outcome) -> OutcomeView {
    match outcome {
        Ok(Some(addrs)) => Ok(Some(addrs@)),
        Ok(None) => Ok(None),
        Err(e) => Err(e),
    }
}

/// One question put to one nameserver: the query, the limits, and the phase.
#[derive(Debug, PartialEq, Eq)]
pub struct Exchange {
    id: u16,
    query: Vec<u8>,
    nameserver: SocketAddr,
    attempts: u8,
    timeout: u64,
    payload: u16,
    phase: Phase,
    outcome: Outcome,
}

/// An exchange as a mathematical value.
pub struct ExchangeView {
    /// The transaction identifier of the query.
    pub id: u16,
    /// The encoded query.
    pub query: Seq<u8>,
    pub nameserver: SocketAddr,
    /// How many datagrams may be sent.
    pub attempts: u8,
    /// Seconds to wait for each datagram.
    pub timeout: u64,
    /// The advertised size of a datagram.
    pub payload: u16,
    pub phase: Phase,
    /// The result, once the phase is `Finished`.
    pub outcome: OutcomeView,
}

impl View for Exchange {
    type V = ExchangeView;

    closed spec fn view(&self) -> ExchangeView {
        ExchangeView {
            id: self.id,
            query: self.query@,
            nameserver: self.nameserver,
            attempts: self.attempts,
            timeout: self.timeout,
            payload: self.payload,
            phase: self.phase,
            outcome: outcome_view(self.outcome),
        }
    }
}

impl ExchangeView {
    /// Whether the exchange works on its datagram socket.
    pub open spec fn on_datagrams(self) -> bool {
        self.phase is Binding || self.phase is Sending || self.phase is Receiving
    }

    /// Whether the exchange works on its stream.
    pub open spec fn on_stream(self) -> bool {
        self.phase is Connecting || self.phase is Writing || self.phase is ReadingLength
            || self.phase is ReadingBody
    }

    /// What holds of every exchange that was begun and stepped: datagrams are
    /// only used for a query that fits the payload size, and the attempt at
    /// hand is one of the attempts allowed.
    pub open spec fn well_formed(self) -> bool {
        &&& self.on_datagrams() ==> self.query.len() <= self.payload
        &&& self.phase matches Phase::Sending { attempt } ==> 1 <= attempt <= self.attempts
        &&& self.phase matches Phase::Receiving { attempt } ==> 1 <= attempt <= self.attempts
    }

    /// An upper bound on the number of steps that are left before the
    /// exchange is finished.
    pub open spec fn steps_left(self) -> nat {
        match self.phase {
            Phase::Binding => (2 * self.attempts + 7) as nat,
            Phase::Sending { attempt } => (2 * (self.attempts - attempt) + 6) as nat,
            Phase::Receiving { attempt } => (2 * (self.attempts - attempt) + 5) as nat,
            Phase::Connecting => 4,
            Phase::Writing => 3,
            Phase::ReadingLength => 2,
            Phase::ReadingBody => 1,
            Phase::Finished => 0,
        }
    }
}

/// The exchange `s` moved to `phase`, asking for `action`.
pub open spec fn enter(s: ExchangeView, phase: Phase, action: Action) -> (ExchangeView, Action) {
    (ExchangeView { phase, ..s }, action)
}

/// The exchange `s` ended with `outcome`.
pub open spec fn finish(s: ExchangeView, outcome: OutcomeView) -> (ExchangeView, Action) {
    (ExchangeView { phase: Phase::Finished, outcome, ..s }, Action::Finish)
}

/// How an exchange with the identifier `id` begins, given the encoded query or
/// the reason why it could not be encoded. A query that could not be encoded
/// ends the exchange at once. One that fits the payload size goes out by UDP
/// first; a longer one goes to the stream directly.
pub open spec fn start_spec(
    id: u16,
    query: Result<Seq<u8>, Error>,
    nameserver: SocketAddr,
    attempts: u8,
    timeout: u64,
    payload: u16,
) -> (ExchangeView, Action) {
    let blank = ExchangeView {
        id,
        query: Seq::empty(),
        nameserver,
        attempts,
        timeout,
        payload,
        phase: Phase::Finished,
        outcome: Ok(None),
    };
    match query {
        Err(e) => finish(blank, Err(e)),
        Ok(bytes) => {
            let s = ExchangeView { query: bytes, ..blank };
            if bytes.len() <= payload {
                udp::udp_start(s)
            } else {
                tcp::tcp_start(s)
            }
        },
    }
}

/// What an exchange in state `s` does when `e` comes in.
pub open spec fn step_spec(s: ExchangeView, e: EventView) -> (ExchangeView, Action) {
    match s.phase {
        Phase::Binding => udp::on_bound(s, e),
        Phase::Sending { attempt } => udp::on_sent(s, attempt, e),
        Phase::Receiving { attempt } => udp::on_received(s, attempt, e),
        Phase::Connecting => tcp::on_connected(s, e),
        Phase::Writing => tcp::on_written(s, e),
        Phase::ReadingLength => tcp::on_length(s, e),
        Phase::ReadingBody => tcp::on_body(s, e),
        Phase::Finished => (s, Action::Finish),
    }
}

/// Draws a transaction identifier with `fastrand::u16` over the full range.
/// Trusted: nothing is promised of the number.
#[verifier::external_body]
fn random_id() -> u16 {
    fastrand::u16(..)
}

impl Exchange {
    /// Begins an exchange with a fresh random identifier: the question for
    /// `name`, an absolute name in wire format, with record type `qtype`, put
    /// to `nameserver`. Whatever identifier was drawn, the exchange begins as
    /// [`Exchange::with_id`] says for it.
    pub fn new(
        name: &Vec<u8>,
        qtype: u16,
        nameserver: SocketAddr,
        attempts: u8,
        timeout: u64,
        payload: u16,
    ) -> (r: (Exchange, Action))
        ensures
            (r.0@, r.1) == start_spec(
                r.0@.id,
                query_message(r.0@.id, true, name@, qtype, CLASS_IN, payload),
                nameserver,
                attempts,
                timeout,
                payload,
            ),
    {
        let id = random_id();
        Exchange::with_id(id, name, qtype, nameserver, attempts, timeout, payload)
    }

    /// Begins an exchange with the identifier `id`: encodes the query with the
    /// recursion-desired flag, the Internet class and an OPT record that
    /// advertises `payload`, and takes the first step.
    pub fn with_id(
        id: u16,
        name: &Vec<u8>,
        qtype: u16,
        nameserver: SocketAddr,
        attempts: u8,
        timeout: u64,
        payload: u16,
    ) -> (r: (Exchange, Action))
        ensures
            (r.0@, r.1) == start_spec(
                id,
                query_message(id, true, name@, qtype, CLASS_IN, payload),
                nameserver,
                attempts,
                timeout,
                payload,
            ),
    {
        let query = create_message(id, true, name, qtype, CLASS_IN, payload);
        Exchange::begin(id, query, nameserver, attempts, timeout, payload)
    }

    /// Begins an exchange with the identifier `id` and the query as encoded,
    /// or with the reason why it could not be encoded.
    pub fn begin(
        id: u16,
        query: Result<Vec<u8>, Error>,
        nameserver: SocketAddr,
        attempts: u8,
        timeout: u64,
        payload: u16,
    ) -> (r: (Exchange, Action))
        ensures
            (r.0@, r.1) == start_spec(
                id,
                bytes_result_view(query),
                nameserver,
                attempts,
                timeout,
                payload,
            ),
    {
        match query {
            Err(e) => {
                let exchange = Exchange {
                    id,
                    query: Vec::new(),
                    nameserver,
                    attempts,
                    timeout,
                    payload,
                    phase: Phase::Finished,
                    outcome: Err(e),
                };
                (exchange, Action::Finish)
            },
            Ok(bytes) => {
                let fits = bytes.len() <= payload as usize;
                let mut exchange = Exchange {
                    id,
                    query: bytes,
                    nameserver,
                    attempts,
                    timeout,
                    payload,
                    phase: Phase::Finished,
                    outcome: Ok(None),
                };
                let action = if fits {
                    udp::start(&mut exchange)
                } else {
                    tcp::start(&mut exchange)
                };
                (exchange, action)
            },
        }
    }

    /// Takes in the result of the operation that was asked for last, and says
    /// what to do next. A finished exchange stays finished.
    pub fn step(&mut self, event: Event) -> (action: Action)
        ensures
            (final(self)@, action) == step_spec(old(self)@, event@),
    {
        match self.phase {
            Phase::Binding => udp::bound(self, event),
            Phase::Sending { attempt } => udp::sent(self, attempt, event),
            Phase::Receiving { attempt } => udp::received(self, attempt, event),
            Phase::Connecting => tcp::connected(self, event),
            Phase::Writing => tcp::written(self, event),
            Phase::ReadingLength => tcp::length(self, event),
            Phase::ReadingBody => tcp::body(self, event),
            Phase::Finished => Action::Finish,
        }
    }

    /// The transaction identifier of the query.
    pub fn id(&self) -> (id: u16)
        ensures
            id == self@.id,
    {
        self.id
    }

    /// The encoded query: the datagram to send.
    pub fn query(&self) -> (query: &Vec<u8>)
        ensures
            query@ == self@.query,
    {
        &self.query
    }

    /// The nameserver that every operation of this exchange addresses.
    pub fn nameserver(&self) -> (nameserver: SocketAddr)
        ensures
            nameserver == self@.nameserver,
    {
        self.nameserver
    }

    /// The operation whose result the exchange waits for.
    pub fn phase(&self) -> (phase: Phase)
        ensures
            phase == self@.phase,
    {
        self.phase
    }

    /// Whether the outcome is known.
    pub fn is_finished(&self) -> (b: bool)
        ensures
            b == (self@.phase == Phase::Finished),
    {
        match self.phase {
            Phase::Finished => true,
            _ => false,
        }
    }

    /// The outcome of the exchange; it means something once the exchange is
    /// finished.
    pub fn into_outcome(self) -> (outcome: Outcome)
        ensures
            outcome_view(outcome) == self@.outcome,
    {
        self.outcome
    }
}

/// An exchange begins well formed, whatever it is begun with.
pub proof fn lemma_start_well_formed(
    id: u16,
    query: Result<Seq<u8>, Error>,
    nameserver: SocketAddr,
    attempts: u8,
    timeout: u64,
    payload: u16,
)
    ensures
        start_spec(id, query, nameserver, attempts, timeout, payload).0.well_formed(),
{
}

/// A step keeps an exchange well formed and changes nothing but its phase
/// and its outcome; unless the exchange is finished, the step brings it
/// nearer to its end. So every exchange ends, after at most `attempts`
/// datagrams.
pub proof fn lemma_step_progress(s: ExchangeView, e: EventView)
    requires
        s.well_formed(),
    ensures
        step_spec(s, e).0.well_formed(),
        step_spec(s, e).0 == (ExchangeView {
            phase: step_spec(s, e).0.phase,
            outcome: step_spec(s, e).0.outcome,
            ..s
        }),
        !(s.phase is Finished) ==> step_spec(s, e).0.steps_left() < s.steps_left(),
        (step_spec(s, e).1 is Finish) == (step_spec(s, e).0.phase is Finished),
{
}

/// Once an exchange is on its stream it stays there until it is finished: it
/// never connects a second time and never goes back to datagrams.
pub proof fn lemma_stream_is_final(s: ExchangeView, e: EventView)
    requires
        s.on_stream(),
    ensures
        step_spec(s, e).0.on_stream() || step_spec(s, e).0.phase is Finished,
        step_spec(s, e).1 is Write || step_spec(s, e).1 is Read || step_spec(s, e).1 is Finish,
{
}

/// A datagram with the truncation flag and the identifier of the query ends
/// the datagram part at once, whatever attempts are left: the next operation
/// is to connect a stream, for the same query and to the same nameserver.
pub proof fn lemma_truncated_response_goes_to_stream(
    s: ExchangeView,
    attempt: u8,
    message: Seq<u8>,
)
    requires
        s.well_formed(),
        s.phase == (Phase::Receiving { attempt }),
        header_of(message) == Some((s.id, true)),
    ensures
        step_spec(s, EventView::Data(message)) == enter(s, Phase::Connecting, Action::Connect),
{
}

/// A datagram with another identifier than the query's is never taken for the
/// answer, whatever it holds: the exchange sends again if an attempt is left,
/// and otherwise turns to the stream.
pub proof fn lemma_foreign_identifier_is_dropped(s: ExchangeView, attempt: u8, message: Seq<u8>)
    requires
        s.well_formed(),
        s.phase == (Phase::Receiving { attempt }),
        header_of(message) matches Some((id, _)) && id != s.id,
    ensures
        step_spec(s, EventView::Data(message)) == if attempt < s.attempts {
            enter(s, Phase::Sending { attempt: (attempt + 1) as u8 }, Action::Send)
        } else {
            enter(s, Phase::Connecting, Action::Connect)
        },
{
}

/// A query of more than 65535 bytes fails as too large before any socket
/// operation is asked for.
pub proof fn lemma_oversized_query_fails_unsent(
    id: u16,
    query: Seq<u8>,
    nameserver: SocketAddr,
    attempts: u8,
    timeout: u64,
    payload: u16,
)
    requires
        query.len() > tcp::MAX_FRAMED,
    ensures
        start_spec(id, Ok(query), nameserver, attempts, timeout, payload).1 == Action::Finish,
        start_spec(id, Ok(query), nameserver, attempts, timeout, payload).0.phase
            == Phase::Finished,
        start_spec(id, Ok(query), nameserver, attempts, timeout, payload).0.outcome == Err::<
            Option<Seq<(IpAddr, u32)>>,
            Error,
        >(Error::QueryTooLarge),
{
}

} // verus!
