//! The datagram part of an exchange: bind once, then send and receive up to
//! the configured number of times.

use vstd::prelude::*;

use super::tcp;
use super::{
    enter, finish, outcome_view, Action, Event, EventView, Exchange, ExchangeView, Outcome,
    OutcomeView, Phase,
};
use crate::addr::{addresses_of, IpAddresses};
use crate::errors::Error;
use crate::wire::{answer_section, header_of, read_header};

verus! {

/// The first step of the datagram part: bind a socket in the address family
/// of the nameserver.
pub open spec fn udp_start(s: ExchangeView) -> (ExchangeView, Action) {
    enter(s, Phase::Binding, Action::Bind { ipv6: s.nameserver.ip is V6 })
}

/// What a response that was taken for the answer yields: the addresses of its
/// answer section, or `ShortMessage` where its sections cannot be read.
pub open spec fn accepted(message: Seq<u8>) -> OutcomeView {
    match answer_section(message) {
        Some(items) => Ok(Some(addresses_of(items))),
        None => Err(Error::ShortMessage),
    }
}

/// After attempt `attempt` failed to send or to receive: the next attempt if
/// one is left, else the failure is the outcome.
pub open spec fn after_failure(s: ExchangeView, attempt: u8) -> (ExchangeView, Action) {
    if attempt < s.attempts {
        enter(s, Phase::Sending { attempt: (attempt + 1) as u8 }, Action::Send)
    } else {
        finish(s, Err(Error::FileSystemError))
    }
}

/// After attempt `attempt` received a response to another query: the next
/// attempt if one is left, else the stream.
pub open spec fn after_stale(s: ExchangeView, attempt: u8) -> (ExchangeView, Action) {
    if attempt < s.attempts {
        enter(s, Phase::Sending { attempt: (attempt + 1) as u8 }, Action::Send)
    } else {
        tcp::tcp_start(s)
    }
}

/// The socket is bound, or binding failed. With no attempt allowed the stream
/// takes over at once.
pub open spec fn on_bound(s: ExchangeView, e: EventView) -> (ExchangeView, Action) {
    match e {
        EventView::Failed => finish(s, Err(Error::FileSystemError)),
        _ => if s.attempts >= 1 {
            enter(s, Phase::Sending { attempt: 1 }, Action::Send)
        } else {
            tcp::tcp_start(s)
        },
    }
}

/// The datagram of attempt `attempt` went out, or sending failed.
pub open spec fn on_sent(s: ExchangeView, attempt: u8, e: EventView) -> (ExchangeView, Action) {
    match e {
        EventView::Failed => after_failure(s, attempt),
        _ => enter(
            s,
            Phase::Receiving { attempt },
            Action::Receive { capacity: s.payload, timeout: s.timeout },
        ),
    }
}

/// A datagram came in for attempt `attempt`. One too short for a header ends
/// the exchange; one with another identifier is dropped and uses up the
/// attempt; a truncated one hands over to the stream, whatever attempts are
/// left; any other is the answer.
pub open spec fn on_datagram(s: ExchangeView, attempt: u8, message: Seq<u8>) -> (
    ExchangeView,
    Action,
) {
    match header_of(message) {
        None => finish(s, Err(Error::ShortMessage)),
        Some((id, truncated)) => if id != s.id {
            after_stale(s, attempt)
        } else if truncated {
            tcp::tcp_start(s)
        } else {
            finish(s, accepted(message))
        },
    }
}

/// The receive of attempt `attempt` ended: with a datagram, or without one
/// because it failed or its timer fired.
pub open spec fn on_received(s: ExchangeView, attempt: u8, e: EventView) -> (
    ExchangeView,
    Action,
) {
    match e {
        EventView::Data(message) => on_datagram(s, attempt, message),
        _ => after_failure(s, attempt),
    }
}

pub(super) fn start(x: &mut Exchange) -> (action: Action)
    ensures
        (final(x)@, action) == udp_start(old(x)@),
{
    x.phase = Phase::Binding;
    Action::Bind { ipv6: !x.nameserver.ip.is_ipv4() }
}

/// The outcome of a response that was taken for the answer.
pub(super) fn accept(message: &Vec<u8>) -> (outcome: Outcome)
    ensures
        outcome_view(outcome) == accepted(message@),
{
    match IpAddresses::from_message(message) {
        Some(section) => Ok(Some(section.iter())),
        None => Err(Error::ShortMessage),
    }
}

fn failure(x: &mut Exchange, attempt: u8) -> (action: Action)
    ensures
        (final(x)@, action) == after_failure(old(x)@, attempt),
{
    if attempt < x.attempts {
        x.phase = Phase::Sending { attempt: attempt + 1 };
        Action::Send
    } else {
        x.phase = Phase::Finished;
        x.outcome = Err(Error::FileSystemError);
        Action::Finish
    }
}

fn stale(x: &mut Exchange, attempt: u8) -> (action: Action)
    ensures
        (final(x)@, action) == after_stale(old(x)@, attempt),
{
    if attempt < x.attempts {
        x.phase = Phase::Sending { attempt: attempt + 1 };
        Action::Send
    } else {
        tcp::start(x)
    }
}

pub(super) fn bound(x: &mut Exchange, event: Event) -> (action: Action)
    ensures
        (final(x)@, action) == on_bound(old(x)@, event@),
{
    match event {
        Event::Failed => {
            x.phase = Phase::Finished;
            x.outcome = Err(Error::FileSystemError);
            Action::Finish
        },
        _ => {
            if x.attempts >= 1 {
                x.phase = Phase::Sending { attempt: 1 };
                Action::Send
            } else {
                tcp::start(x)
            }
        },
    }
}

pub(super) fn sent(x: &mut Exchange, attempt: u8, event: Event) -> (action: Action)
    ensures
        (final(x)@, action) == on_sent(old(x)@, attempt, event@),
{
    match event {
        Event::Failed => failure(x, attempt),
        _ => {
            x.phase = Phase::Receiving { attempt };
            Action::Receive { capacity: x.payload, timeout: x.timeout }
        },
    }
}

pub(super) fn received(x: &mut Exchange, attempt: u8, event: Event) -> (action: Action)
    ensures
        (final(x)@, action) == on_received(old(x)@, attempt, event@),
{
    match event {
        Event::Data(message) => {
            match read_header(&message) {
                None => {
                    x.phase = Phase::Finished;
                    x.outcome = Err(Error::ShortMessage);
                    Action::Finish
                },
                Some((id, truncated)) => {
                    if id != x.id {
                        stale(x, attempt)
                    } else if truncated {
                        tcp::start(x)
                    } else {
                        x.phase = Phase::Finished;
                        x.outcome = accept(&message);
                        Action::Finish
                    }
                },
            }
        },
        _ => failure(x, attempt),
    }
}

} // verus!
