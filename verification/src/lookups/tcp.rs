//! The stream part of an exchange: one connection, the query behind a length
//! prefix, one response behind a length prefix.

use vstd::prelude::*;

use super::udp;
use super::{enter, finish, Action, Event, EventView, Exchange, ExchangeView, Phase};
use crate::errors::Error;
use crate::wire::{header_of, read_header};

verus! {

/// The longest message that a 16-bit length prefix can announce.
pub const MAX_FRAMED: usize = 65535;

/// The two bytes of a length prefix, most significant first.
pub open spec fn length_prefix(len: int) -> Seq<u8> {
    seq![(len / 256) as u8, (len % 256) as u8]
}

/// The length that a prefix of two bytes announces.
pub open spec fn announced_length(prefix: Seq<u8>) -> int {
    prefix[0] as int * 256 + prefix[1] as int
}

/// What goes onto the stream for `query`: its length, then the query.
pub open spec fn framed(query: Seq<u8>) -> Seq<u8> {
    length_prefix(query.len() as int) + query
}

/// The first step of the stream part. A query that no length prefix can
/// announce is refused before anything is connected.
pub open spec fn tcp_start(s: ExchangeView) -> (ExchangeView, Action) {
    if s.query.len() > MAX_FRAMED {
        finish(s, Err(Error::QueryTooLarge))
    } else {
        enter(s, Phase::Connecting, Action::Connect)
    }
}

/// The stream is open, or connecting failed.
pub open spec fn on_connected(s: ExchangeView, e: EventView) -> (ExchangeView, Action) {
    match e {
        EventView::Failed => finish(s, Err(Error::FileSystemError)),
        _ => enter(s, Phase::Writing, Action::Write),
    }
}

/// The frame is written, or writing failed.
pub open spec fn on_written(s: ExchangeView, e: EventView) -> (ExchangeView, Action) {
    match e {
        EventView::Failed => finish(s, Err(Error::FileSystemError)),
        _ => enter(s, Phase::ReadingLength, Action::Read { len: 2 }),
    }
}

/// The length prefix of the response is read, or reading failed. Anything but
/// exactly two bytes counts as a failed read.
pub open spec fn on_length(s: ExchangeView, e: EventView) -> (ExchangeView, Action) {
    match e {
        EventView::Data(prefix) => if prefix.len() == 2 {
            enter(s, Phase::ReadingBody, Action::Read { len: announced_length(prefix) as u16 })
        } else {
            finish(s, Err(Error::FileSystemError))
        },
        _ => finish(s, Err(Error::FileSystemError)),
    }
}

/// The response came in over the stream. One too short for a header is an
/// error; one with another identifier is no usable answer; any other is the
/// answer, truncated or not.
pub open spec fn on_response(s: ExchangeView, message: Seq<u8>) -> (ExchangeView, Action) {
    match header_of(message) {
        None => finish(s, Err(Error::ShortMessage)),
        Some((id, _)) => if id != s.id {
            finish(s, Ok(None))
        } else {
            finish(s, udp::accepted(message))
        },
    }
}

/// The body of the response is read, or reading failed.
pub open spec fn on_body(s: ExchangeView, e: EventView) -> (ExchangeView, Action) {
    match e {
        EventView::Data(message) => on_response(s, message),
        _ => finish(s, Err(Error::FileSystemError)),
    }
}

/// The length prefix for a message of `len` bytes.
pub fn encode_length(len: u16) -> (prefix: Vec<u8>)
    ensures
        prefix@ == length_prefix(len as int),
{
    let mut prefix: Vec<u8> = Vec::new();
    prefix.push((len / 256) as u8);
    prefix.push((len % 256) as u8);
    prefix
}

/// The length that a prefix of the bytes `hi` and `lo` announces.
pub fn decode_length(hi: u8, lo: u8) -> (len: u16)
    ensures
        len == announced_length(seq![hi, lo]),
{
    hi as u16 * 256 + lo as u16
}

impl Exchange {
    /// What to write to the stream: the length of the query in two bytes,
    /// then the query. `None` for a query that is too long to be announced.
    pub fn frame(&self) -> (r: Option<Vec<u8>>)
        ensures
            r is Some <==> self@.query.len() <= MAX_FRAMED,
            r matches Some(bytes) ==> bytes@ == framed(self@.query),
    {
        if self.query.len() > MAX_FRAMED {
            return None;
        }
        let mut bytes = encode_length(self.query.len() as u16);
        let mut i: usize = 0;
        while i < self.query.len()
            invariant
                i <= self.query.len(),
                bytes@ == length_prefix(self.query.len() as int) + self.query@.take(i as int),
            decreases self.query.len() - i,
        {
            bytes.push(self.query[i]);
            assert(self.query@.take(i as int + 1) == self.query@.take(i as int).push(
                self.query@[i as int],
            ));
            i = i + 1;
        }
        assert(self.query@.take(self.query.len() as int) == self.query@);
        Some(bytes)
    }
}

pub(super) fn start(x: &mut Exchange) -> (action: Action)
    ensures
        (final(x)@, action) == tcp_start(old(x)@),
{
    if x.query.len() > MAX_FRAMED {
        x.phase = Phase::Finished;
        x.outcome = Err(Error::QueryTooLarge);
        Action::Finish
    } else {
        x.phase = Phase::Connecting;
        Action::Connect
    }
}

fn fail(x: &mut Exchange) -> (action: Action)
    ensures
        (final(x)@, action) == finish(old(x)@, Err(Error::FileSystemError)),
{
    x.phase = Phase::Finished;
    x.outcome = Err(Error::FileSystemError);
    Action::Finish
}

pub(super) fn connected(x: &mut Exchange, event: Event) -> (action: Action)
    ensures
        (final(x)@, action) == on_connected(old(x)@, event@),
{
    match event {
        Event::Failed => fail(x),
        _ => {
            x.phase = Phase::Writing;
            Action::Write
        },
    }
}

pub(super) fn written(x: &mut Exchange, event: Event) -> (action: Action)
    ensures
        (final(x)@, action) == on_written(old(x)@, event@),
{
    match event {
        Event::Failed => fail(x),
        _ => {
            x.phase = Phase::ReadingLength;
            Action::Read { len: 2 }
        },
    }
}

pub(super) fn length(x: &mut Exchange, event: Event) -> (action: Action)
    ensures
        (final(x)@, action) == on_length(old(x)@, event@),
{
    match event {
        Event::Data(prefix) => {
            if prefix.len() == 2 {
                x.phase = Phase::ReadingBody;
                Action::Read { len: decode_length(prefix[0], prefix[1]) }
            } else {
                fail(x)
            }
        },
        _ => fail(x),
    }
}

pub(super) fn body(x: &mut Exchange, event: Event) -> (action: Action)
    ensures
        (final(x)@, action) == on_body(old(x)@, event@),
{
    match event {
        Event::Data(message) => {
            match read_header(&message) {
                None => {
                    x.phase = Phase::Finished;
                    x.outcome = Err(Error::ShortMessage);
                    Action::Finish
                },
                Some((id, _)) => {
                    if id != x.id {
                        x.phase = Phase::Finished;
                        x.outcome = Ok(None);
                        Action::Finish
                    } else {
                        x.phase = Phase::Finished;
                        x.outcome = udp::accept(&message);
                        Action::Finish
                    }
                },
            }
        },
        _ => fail(x),
    }
}

} // verus!
