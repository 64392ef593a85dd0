//! The addresses that a response carries.

use vstd::prelude::*;

use crate::ip::IpAddr;
use crate::wire::{
    answer_section, items_view, read_answers, AnswerRecord, RecordView, RTYPE_A, RTYPE_AAAA,
};

verus! {

/// The 16-bit group that starts at byte `2 * i` of `data`, most significant
/// byte first.
pub open spec fn group_at(data: Seq<u8>, i: int) -> u16 {
    (data[2 * i] as u16 * 256 + data[2 * i + 1] as u16) as u16
}

/// The address and time to live that a record carries: an A record with four
/// bytes of data, an AAAA record with sixteen. Any other record carries none.
pub open spec fn address_of(record: RecordView) -> Option<(IpAddr, u32)> {
    let d = record.data;
    if record.rtype == RTYPE_A && d.len() == 4 {
        Some((IpAddr::V4(d[0], d[1], d[2], d[3]), record.ttl))
    } else if record.rtype == RTYPE_AAAA && d.len() == 16 {
        Some(
            (
                IpAddr::V6(
                    group_at(d, 0),
                    group_at(d, 1),
                    group_at(d, 2),
                    group_at(d, 3),
                    group_at(d, 4),
                    group_at(d, 5),
                    group_at(d, 6),
                    group_at(d, 7),
                ),
                record.ttl,
            ),
        )
    } else {
        None
    }
}

/// What one entry of an answer section contributes: its address if it is a
/// readable address record, nothing otherwise.
pub open spec fn item_addresses(item: Option<RecordView>) -> Seq<(IpAddr, u32)> {
    match item {
        Some(record) => match address_of(record) {
            Some(pair) => seq![pair],
            None => seq![],
        },
        None => seq![],
    }
}

/// The addresses of an answer section, in the order of its entries.
pub open spec fn addresses_of(items: Seq<Option<RecordView>>) -> Seq<(IpAddr, u32)>
    decreases items.len(),
{
    if items.len() == 0 {
        seq![]
    } else {
        addresses_of(items.drop_last()) + item_addresses(items.last())
    }
}

/// The answer section of one response.
#[derive(Debug, Clone, PartialEq, Eq)]
pub struct IpAddresses {
    records: Vec<Option<AnswerRecord>>,
}

impl View for IpAddresses {
    type V = Seq<Option<RecordView>>;

    closed spec fn view(&self) -> Seq<Option<RecordView>> {
        items_view(self.records@)
    }
}

impl IpAddresses {
    /// The answer section with the given entries; `None` stands for an entry
    /// that could not be read.
    pub fn from_records(records: Vec<Option<AnswerRecord>>) -> (section: IpAddresses)
        ensures
            section@ == items_view(records@),
    {
        IpAddresses { records }
    }

    /// Reads the answer section of `message`. `None` where the message has no
    /// full header or its question section cannot be read.
    pub fn from_message(message: &Vec<u8>) -> (r: Option<IpAddresses>)
        ensures
            r is Some <==> answer_section(message@) is Some,
            r matches Some(section) ==> answer_section(message@) == Some(section@),
    {
        match read_answers(message) {
            Some(records) => Some(IpAddresses { records }),
            None => None,
        }
    }

    /// The address and time to live, in seconds, of every readable A and AAAA
    /// record, in wire order. Other records and unreadable entries are passed
    /// over.
    pub fn iter(&self) -> (out: Vec<(IpAddr, u32)>)
        ensures
            out@ == addresses_of(self@),
    {
        let mut out: Vec<(IpAddr, u32)> = Vec::new();
        let mut i: usize = 0;
        while i < self.records.len()
            invariant
                i <= self.records.len(),
                out@ == addresses_of(self@.take(i as int)),
            decreases self.records.len() - i,
        {
            proof {
                assert(self@.take(i as int + 1).drop_last() == self@.take(i as int));
            }
            match &self.records[i] {
                Some(record) => {
                    match record_address(record) {
                        Some(pair) => {
                            out.push(pair);
                        },
                        None => {},
                    }
                },
                None => {},
            }
            i = i + 1;
        }
        proof {
            assert(self@.take(self.records.len() as int) == self@);
        }
        out
    }
}

/// The address that `record` carries, if it is a readable address record.
pub fn record_address(record: &AnswerRecord) -> (r: Option<(IpAddr, u32)>)
    ensures
        r == address_of(record@),
{
    let d = &record.data;
    if record.rtype == RTYPE_A && d.len() == 4 {
        Some((IpAddr::V4(d[0], d[1], d[2], d[3]), record.ttl))
    } else if record.rtype == RTYPE_AAAA && d.len() == 16 {
        Some(
            (
                IpAddr::V6(
                    group(d, 0),
                    group(d, 1),
                    group(d, 2),
                    group(d, 3),
                    group(d, 4),
                    group(d, 5),
                    group(d, 6),
                    group(d, 7),
                ),
                record.ttl,
            ),
        )
    } else {
        None
    }
}

fn group(data: &Vec<u8>, i: usize) -> (g: u16)
    requires
        2 * i + 1 < data.len(),
    ensures
        g == group_at(data@, i as int),
{
    data[2 * i] as u16 * 256 + data[2 * i + 1] as u16
}

} // verus!
