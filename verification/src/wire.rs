//! The boundary to the DNS wire codec.
//!
//! Domain names, query messages and response sections are encoded and decoded
//! by the `domain` crate. Each function here makes one such conversion between
//! plain values; what it promises is taken on trust from that crate.

use domain::base::iana::Class;
use domain::base::name::UncertainName;
use domain::base::{
    Message, MessageBuilder, Name, Question, Rtype, StaticCompressor, UnknownRecordData,
};
use std::str::FromStr;
use vstd::prelude::*;

use crate::errors::Error;

verus! {

/// The record type of an IPv4 address record.
pub const RTYPE_A: u16 = 1;

/// The record type of an IPv6 address record.
pub const RTYPE_AAAA: u16 = 28;

/// The Internet class.
pub const CLASS_IN: u16 = 1;

/// The length of a message header with its four counters.
pub const HEADER_LEN: usize = 12;

/// One resource record of an answer section, as read off the wire.
#[derive(Debug, Clone, PartialEq, Eq)]
pub struct AnswerRecord {
    pub rtype: u16,
    pub ttl: u32,
    pub data: Vec<u8>,
}

/// A resource record as a mathematical value.
pub struct RecordView {
    pub rtype: u16,
    pub ttl: u32,
    pub data: Seq<u8>,
}

impl View for AnswerRecord {
    type V = RecordView;

    open spec fn view(&self) -> RecordView {
        RecordView { rtype: self.rtype, ttl: self.ttl, data: self.data@ }
    }
}

/// The items of an answer section as mathematical values: `None` stands for
/// an entry that could not be read.
pub open spec fn items_view(items: Seq<Option<AnswerRecord>>) -> Seq<Option<RecordView>> {
    Seq::new(
        items.len(),
        |i: int|
            match items[i] {
                Some(record) => Some(record@),
                None => None,
            },
    )
}

/// A whole answer section as a mathematical value.
pub open spec fn section_view(r: Option<Vec<Option<AnswerRecord>>>) -> Option<
    Seq<Option<RecordView>>,
> {
    match r {
        Some(items) => Some(items_view(items@)),
        None => None,
    }
}

/// A fallible byte string as a mathematical value.
pub open spec fn bytes_result_view(r: Result<Vec<u8>, Error>) -> Result<Seq<u8>, Error> {
    match r {
        Ok(bytes) => Ok(bytes@),
        Err(e) => Err(e),
    }
}

/// The absolute domain name, in wire format, that the presentation-format
/// text `text` (UTF-8, invalid sequences replaced) stands for; or
/// `DomainNameParseError` where the text is no domain name, or
/// `DomainNamePushError` where the root label cannot be added to it.
pub uninterp spec fn absolute_name(text: Seq<u8>) -> Result<Seq<u8>, Error>;

/// The query message for one question: a header with the identifier `id` and
/// the recursion-desired flag `recursion`, the question for `name` (an
/// absolute name in wire format) with type `qtype` and class `qclass`, and an
/// OPT record that advertises `payload` bytes. `NameError` where `name` is no
/// absolute name in wire format, `AppendError` where the header cannot be
/// written, `MessagePushError` where the question or the OPT record cannot.
pub uninterp spec fn query_message(
    id: u16,
    recursion: bool,
    name: Seq<u8>,
    qtype: u16,
    qclass: u16,
    payload: u16,
) -> Result<Seq<u8>, Error>;

/// The entries of the answer section of `message`, in wire order, up to and
/// including the first that cannot be read, which is `None`; `None` as a
/// whole where the message has no full header or its question section cannot
/// be read.
pub uninterp spec fn answer_section(message: Seq<u8>) -> Option<Seq<Option<RecordView>>>;

/// The identifier and the truncation flag in the header of `message`; `None`
/// where the message is shorter than a header with its counters.
pub open spec fn header_of(message: Seq<u8>) -> Option<(u16, bool)> {
    if message.len() < HEADER_LEN {
        None
    } else {
        Some(((message[0] as u16 * 256 + message[1] as u16) as u16, message[2] & 0x02 != 0))
    }
}

/// Parses a host name with `UncertainName::from_str` and makes it absolute
/// with `UncertainName::into_absolute`. Trusted: the octets of the name that
/// comes out, or the stage that failed, depend on the text alone.
#[verifier::external_body]
pub(crate) fn to_absolute_name(text: &Vec<u8>) -> (r: Result<Vec<u8>, Error>)
    ensures
        bytes_result_view(r) == absolute_name(text@),
{
    let text = String::from_utf8_lossy(text);
    let name = UncertainName::<Vec<u8>>::from_str(&text).map_err(|_| Error::DomainNameParseError)?;
    let name = name.into_absolute().map_err(|_| Error::DomainNamePushError)?;
    Ok(name.into_octets())
}

/// Builds a query with `MessageBuilder` over a `StaticCompressor`: header
/// flags, one question, one OPT record. Trusted: the bytes that come out, or
/// the stage that failed, depend on the arguments alone.
#[verifier::external_body]
pub(crate) fn create_message(
    id: u16,
    recursion: bool,
    name: &Vec<u8>,
    qtype: u16,
    qclass: u16,
    payload: u16,
) -> (r: Result<Vec<u8>, Error>)
    ensures
        bytes_result_view(r) == query_message(id, recursion, name@, qtype, qclass, payload),
{
    let name = Name::from_octets(name.as_slice()).map_err(|_| Error::NameError)?;
    let target = StaticCompressor::new(Vec::new());
    let mut message = MessageBuilder::from_target(target).map_err(|_| Error::AppendError)?;
    message.header_mut().set_rd(recursion);
    message.header_mut().set_id(id);
    let mut message = message.question();
    let question = Question::new(name, Rtype::from_int(qtype), Class::from_int(qclass));
    message.push(question).map_err(|_| Error::MessagePushError)?;
    let mut message = message.additional();
    message.opt(|opt| Ok(opt.set_udp_payload_size(payload))).map_err(|_| Error::MessagePushError)?;
    Ok(message.finish().into_target())
}

/// Opens a message with `Message::from_octets` and reads `Header::id` and
/// `Header::tc`. Trusted: a message of fewer than twelve bytes is refused;
/// the identifier is the first two bytes, most significant first; the
/// truncation flag is the bit of value 2 in the third byte.
#[verifier::external_body]
pub(crate) fn read_header(message: &Vec<u8>) -> (r: Option<(u16, bool)>)
    ensures
        r == header_of(message@),
{
    let message = Message::from_octets(message.as_slice()).ok()?;
    Some((message.header().id(), message.header().tc()))
}

/// Walks the answer section with `Message::answer` and hands out each entry
/// with its type, time to live and raw record data. Trusted: the entries
/// depend on the message alone.
#[verifier::external_body]
pub(crate) fn read_answers(message: &Vec<u8>) -> (r: Option<Vec<Option<AnswerRecord>>>)
    ensures
        section_view(r) == answer_section(message@),
{
    let message = Message::from_octets(message.as_slice()).ok()?;
    let section = message.answer().ok()?;
    Some(section.map(|item| {
        let item = item.ok()?;
        let (rtype, ttl) = (item.rtype().to_int(), item.ttl().as_secs());
        let data = item.into_record::<UnknownRecordData<_>>().ok()??.into_data();
        Some(AnswerRecord { rtype, ttl, data: data.data().to_vec() })
    }).collect())
}

} // verus!
