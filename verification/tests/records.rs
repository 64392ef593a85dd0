use dnsaur::addr::{record_address, IpAddresses};
use dnsaur::wire::{AnswerRecord, RTYPE_A, RTYPE_AAAA};
use dnsaur::IpAddr;

fn record(rtype: u16, ttl: u32, data: &[u8]) -> AnswerRecord {
    AnswerRecord { rtype, ttl, data: data.to_vec() }
}

#[test]
fn address_records_are_read() {
    assert_eq!(
        record_address(&record(RTYPE_A, 60, &[10, 1, 2, 3])),
        Some((IpAddr::V4(10, 1, 2, 3), 60))
    );
    assert_eq!(
        record_address(&record(
            RTYPE_AAAA,
            4_000_000_000,
            &[0x20, 0x01, 0x0d, 0xb8, 0, 0, 0, 0, 0, 0, 0, 0, 0, 0, 0xff, 0x01]
        )),
        Some((IpAddr::V6(0x2001, 0x0db8, 0, 0, 0, 0, 0, 0xff01), 4_000_000_000))
    );
}

#[test]
fn other_records_carry_no_address() {
    assert_eq!(record_address(&record(5, 60, &[3, b'w', b'w', b'w', 0])), None);
    assert_eq!(record_address(&record(RTYPE_A, 60, &[10, 1, 2])), None);
    assert_eq!(record_address(&record(RTYPE_A, 60, &[10, 1, 2, 3, 4])), None);
    assert_eq!(record_address(&record(RTYPE_AAAA, 60, &[10, 1, 2, 3])), None);
    assert_eq!(record_address(&record(RTYPE_A, 60, &[0; 16])), None);
}

#[test]
fn section_yields_addresses_in_wire_order_and_skips_the_rest() {
    let section = IpAddresses::from_records(vec![
        Some(record(5, 10, b"\x03www\x00")),
        Some(record(RTYPE_A, 20, &[1, 1, 1, 1])),
        None,
        Some(record(RTYPE_AAAA, 30, &[0, 0, 0, 0, 0, 0, 0, 0, 0, 0, 0, 0, 0, 0, 0, 1])),
        Some(record(RTYPE_A, 40, &[1, 1, 1])),
        Some(record(RTYPE_A, 20, &[1, 1, 1, 1])),
    ]);
    assert_eq!(
        section.iter(),
        vec![
            (IpAddr::V4(1, 1, 1, 1), 20),
            (IpAddr::V6(0, 0, 0, 0, 0, 0, 0, 1), 30),
            (IpAddr::V4(1, 1, 1, 1), 20),
        ]
    );
    assert_eq!(IpAddresses::from_records(Vec::new()).iter(), vec![]);
}

#[test]
fn section_is_read_from_a_message() {
    let mut m = vec![0, 1, 0x81, 0x80, 0, 1, 0, 3, 0, 0, 0, 0];
    m.extend_from_slice(b"\x01a\x00\x00\x01\x00\x01");
    m.extend_from_slice(&[0xc0, 0x0c, 0, 5, 0, 1, 0, 0, 0, 9, 0, 2, 0xc0, 0x0c]);
    m.extend_from_slice(&[0xc0, 0x0c, 0, 1, 0, 1, 0, 0, 0, 8, 0, 4, 8, 8, 4, 4]);
    m.extend_from_slice(&[0xc0, 0x0c, 0, 28, 0, 1, 0, 0, 0, 7, 0, 16]);
    m.extend_from_slice(&[0xfe, 0x80, 0, 0, 0, 0, 0, 0, 0, 0, 0, 0, 0, 0, 0, 2]);
    let section = IpAddresses::from_message(&m).unwrap();
    assert_eq!(
        section,
        IpAddresses::from_records(vec![
            Some(record(5, 9, &[0xc0, 0x0c])),
            Some(record(RTYPE_A, 8, &[8, 8, 4, 4])),
            Some(record(RTYPE_AAAA, 7, &[0xfe, 0x80, 0, 0, 0, 0, 0, 0, 0, 0, 0, 0, 0, 0, 0, 2])),
        ])
    );
    assert_eq!(
        section.iter(),
        vec![(IpAddr::V4(8, 8, 4, 4), 8), (IpAddr::V6(0xfe80, 0, 0, 0, 0, 0, 0, 2), 7)]
    );
}

#[test]
fn section_ends_at_the_first_entry_that_cannot_be_read() {
    let mut m = vec![0, 1, 0x81, 0x80, 0, 0, 0, 3, 0, 0, 0, 0];
    m.extend_from_slice(&[0, 0, 1, 0, 1, 0, 0, 0, 8, 0, 4, 8, 8, 4, 4]);
    m.extend_from_slice(&[0, 0, 1, 0, 1, 0, 0, 0, 8, 0, 9, 8, 8]);
    let section = IpAddresses::from_message(&m).unwrap();
    assert_eq!(
        section,
        IpAddresses::from_records(vec![Some(record(RTYPE_A, 8, &[8, 8, 4, 4])), None])
    );
    assert_eq!(section.iter(), vec![(IpAddr::V4(8, 8, 4, 4), 8)]);
}

#[test]
fn message_without_header_has_no_section() {
    assert_eq!(IpAddresses::from_message(&vec![0; 11]), None);
    assert_eq!(IpAddresses::from_message(&vec![0, 0, 0, 0, 0, 1, 0, 0, 0, 0, 0, 0, 9]), None);
    assert_eq!(IpAddresses::from_message(&vec![0; 12]).map(|s| s.iter()), Some(vec![]));
}
