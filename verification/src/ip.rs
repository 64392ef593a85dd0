//! Network addresses as plain values, and their textual form.
//!
//! An IPv4 literal is four decimal numbers from 0 to 255 between dots, each
//! of one to three digits and without a needless zero in front. An IPv6
//! literal is eight groups of one to four hexadecimal digits between colons;
//! one `::` may stand for one or more groups of zero, and a dotted IPv4
//! literal may stand for the last two groups.

use vstd::prelude::*;

use crate::text::{copy_range, COLON, DOT};

verus! {

/// An IPv4 address by its four octets, or an IPv6 address by its eight
/// 16-bit groups, each in network order.
#[derive(Debug, Clone, Copy, PartialEq, Eq, Hash, Structural)]
pub enum IpAddr {
    V4(u8, u8, u8, u8),
    V6(u16, u16, u16, u16, u16, u16, u16, u16),
}

/// An address and a port: where a nameserver listens.
#[derive(Debug, Clone, Copy, PartialEq, Eq, Hash, Structural)]
pub struct SocketAddr {
    pub ip: IpAddr,
    pub port: u16,
}

impl IpAddr {
    /// Whether this is an IPv4 address.
    pub fn is_ipv4(&self) -> (b: bool)
        ensures
            b == (*self is V4),
    {
        match self {
            IpAddr::V4(..) => true,
            IpAddr::V6(..) => false,
        }
    }
}

impl SocketAddr {
    /// The endpoint made of `ip` and `port`.
    pub fn new(ip: IpAddr, port: u16) -> (addr: SocketAddr)
        ensures
            addr == (SocketAddr { ip, port }),
    {
        SocketAddr { ip, port }
    }
}

/// The pieces of `s` between the occurrences of `sep`: one more than there
/// are occurrences, empty ones included.
pub open spec fn split(s: Seq<u8>, sep: u8) -> Seq<Seq<u8>>
    decreases s.len(),
{
    if s.len() == 0 {
        seq![Seq::empty()]
    } else {
        let before = split(s.drop_last(), sep);
        if s.last() == sep {
            before.push(Seq::empty())
        } else {
            before.drop_last().push(before.last().push(s.last()))
        }
    }
}

/// Whether `b` is a decimal digit.
pub open spec fn is_digit(b: u8) -> bool {
    0x30 <= b <= 0x39
}

/// Whether `s` holds decimal digits only.
pub open spec fn all_digits(s: Seq<u8>) -> bool {
    forall|i: int| 0 <= i < s.len() ==> is_digit(#[trigger] s[i])
}

/// The number that the decimal digits of `s` spell.
pub open spec fn decimal_value(s: Seq<u8>) -> nat
    decreases s.len(),
{
    if s.len() == 0 {
        0
    } else {
        decimal_value(s.drop_last()) * 10 + (s.last() - 0x30) as nat
    }
}

/// The number from 0 to 255 that `s` spells in decimal digits, in any number
/// of them; `None` where `s` is empty, holds anything but digits, or spells a
/// larger number.
pub open spec fn number_of(s: Seq<u8>) -> Option<u8> {
    if s.len() >= 1 && all_digits(s) && decimal_value(s) <= 255 {
        Some(decimal_value(s) as u8)
    } else {
        None
    }
}

/// The octet that `s` spells in an IPv4 literal: a number from 0 to 255 in at
/// most three digits, with no zero in front of another digit.
pub open spec fn octet_of(s: Seq<u8>) -> Option<u8> {
    if s.len() <= 3 && (s.len() == 1 || s[0] != 0x30) {
        number_of(s)
    } else {
        None
    }
}

/// The value of the hexadecimal digit `b`, in either case.
pub open spec fn hex_digit(b: u8) -> Option<nat> {
    if 0x30 <= b <= 0x39 {
        Some((b - 0x30) as nat)
    } else if 0x61 <= b <= 0x66 {
        Some((b - 0x61 + 10) as nat)
    } else if 0x41 <= b <= 0x46 {
        Some((b - 0x41 + 10) as nat)
    } else {
        None
    }
}

/// Whether `s` holds hexadecimal digits only.
pub open spec fn all_hex(s: Seq<u8>) -> bool {
    forall|i: int| 0 <= i < s.len() ==> hex_digit(#[trigger] s[i]) is Some
}

/// The number that the hexadecimal digits of `s` spell.
pub open spec fn hex_value(s: Seq<u8>) -> nat
    decreases s.len(),
{
    if s.len() == 0 {
        0
    } else {
        hex_value(s.drop_last()) * 16 + hex_digit(s.last())->0
    }
}

/// The group that `s` spells in an IPv6 literal: one to four hexadecimal
/// digits.
pub open spec fn group_of(s: Seq<u8>) -> Option<u16> {
    if 1 <= s.len() <= 4 && all_hex(s) {
        Some(hex_value(s) as u16)
    } else {
        None
    }
}

/// The four octets that the IPv4 literal `s` spells.
pub open spec fn ipv4_octets(s: Seq<u8>) -> Option<(u8, u8, u8, u8)> {
    let p = split(s, DOT);
    if p.len() == 4 && octet_of(p[0]) is Some && octet_of(p[1]) is Some && octet_of(p[2]) is Some
        && octet_of(p[3]) is Some {
        Some((octet_of(p[0])->0, octet_of(p[1])->0, octet_of(p[2])->0, octet_of(p[3])->0))
    } else {
        None
    }
}

/// The group of the octets `hi` and `lo`.
pub open spec fn pair_group(hi: u8, lo: u8) -> u16 {
    (hi as u16 * 256 + lo as u16) as u16
}

/// The groups that `pieces` spell, if each piece is a group.
pub open spec fn hex_groups(pieces: Seq<Seq<u8>>) -> Option<Seq<u16>>
    decreases pieces.len(),
{
    if pieces.len() == 0 {
        Some(Seq::empty())
    } else {
        match (hex_groups(pieces.drop_last()), group_of(pieces.last())) {
            (Some(front), Some(g)) => Some(front.push(g)),
            _ => None,
        }
    }
}

/// The groups that the last piece of an IPv6 literal spells: one if it is a
/// group, two if it is an IPv4 literal.
pub open spec fn last_groups(piece: Seq<u8>) -> Option<Seq<u16>> {
    match group_of(piece) {
        Some(g) => Some(seq![g]),
        None => match ipv4_octets(piece) {
            Some((a, b, c, d)) => Some(seq![pair_group(a, b), pair_group(c, d)]),
            None => None,
        },
    }
}

/// The groups that `pieces` spell, the last of which may be an IPv4 literal.
pub open spec fn tail_groups(pieces: Seq<Seq<u8>>) -> Option<Seq<u16>> {
    if pieces.len() == 0 {
        None
    } else {
        match (hex_groups(pieces.drop_last()), last_groups(pieces.last())) {
            (Some(front), Some(back)) => Some(front + back),
            _ => None,
        }
    }
}

/// Where `s` first holds two colons in a row.
pub open spec fn first_double_colon(s: Seq<u8>) -> Option<int> {
    if exists|i: int| is_double_colon(s, i) {
        Some(
            choose|i: int|
                is_double_colon(s, i) && forall|j: int| 0 <= j < i ==> !is_double_colon(s, j),
        )
    } else {
        None
    }
}

/// Whether two colons stand at `i` and `i + 1` in `s`.
pub open spec fn is_double_colon(s: Seq<u8>, i: int) -> bool {
    0 <= i && i + 1 < s.len() && s[i] == COLON && s[i + 1] == COLON
}

/// `n` groups of zero.
pub open spec fn zero_groups(n: int) -> Seq<u16> {
    Seq::new(n as nat, |i: int| 0u16)
}

/// The groups before and behind `::` with as many groups of zero between them
/// as it takes to make eight: one at least.
pub open spec fn joined(head: Seq<u16>, tail: Seq<u16>) -> Option<Seq<u16>> {
    if head.len() + tail.len() <= 7 {
        Some(head + zero_groups(8 - head.len() - tail.len()) + tail)
    } else {
        None
    }
}

/// The groups on one side of `::`: none where nothing stands there.
pub open spec fn side_groups(side: Seq<u8>, last_may_be_ipv4: bool) -> Option<Seq<u16>> {
    if side.len() == 0 {
        Some(Seq::empty())
    } else if last_may_be_ipv4 {
        tail_groups(split(side, COLON))
    } else {
        hex_groups(split(side, COLON))
    }
}

/// The eight groups that an IPv6 literal without `::` spells.
pub open spec fn full_groups(s: Seq<u8>) -> Option<Seq<u16>> {
    match tail_groups(split(s, COLON)) {
        Some(groups) => if groups.len() == 8 {
            Some(groups)
        } else {
            None
        },
        None => None,
    }
}

/// The eight groups that an IPv6 literal spells whose `::` stands at `i`.
pub open spec fn compressed_groups(s: Seq<u8>, i: int) -> Option<Seq<u16>> {
    match (side_groups(s.take(i), false), side_groups(s.skip(i + 2), true)) {
        (Some(head), Some(tail)) => joined(head, tail),
        _ => None,
    }
}

/// The eight groups that the IPv6 literal `s` spells.
pub open spec fn ipv6_groups(s: Seq<u8>) -> Option<Seq<u16>> {
    match first_double_colon(s) {
        None => full_groups(s),
        Some(i) => compressed_groups(s, i),
    }
}

/// The address that `s` spells, if it is an IPv4 or an IPv6 literal.
pub open spec fn ip_literal(s: Seq<u8>) -> Option<IpAddr> {
    match ipv4_octets(s) {
        Some((a, b, c, d)) => Some(IpAddr::V4(a, b, c, d)),
        None => match ipv6_groups(s) {
            Some(g) => Some(IpAddr::V6(g[0], g[1], g[2], g[3], g[4], g[5], g[6], g[7])),
            None => None,
        },
    }
}

/// The byte of the decimal digit `d`.
pub open spec fn digit_byte(d: nat) -> u8 {
    (0x30 + d) as u8
}

/// `n` in decimal digits, without zeros in front.
pub open spec fn decimal_bytes(n: nat) -> Seq<u8>
    decreases n,
{
    if n < 10 {
        seq![digit_byte(n)]
    } else {
        decimal_bytes(n / 10).push(digit_byte(n % 10))
    }
}

/// The four octets in decimal digits with dots between them.
pub open spec fn dotted_quad(a: u8, b: u8, c: u8, d: u8) -> Seq<u8> {
    decimal_bytes(a as nat) + seq![DOT] + decimal_bytes(b as nat) + seq![DOT] + decimal_bytes(
        c as nat,
    ) + seq![DOT] + decimal_bytes(d as nat)
}

proof fn lemma_decimal_octet(n: u8)
    ensures
        octet_of(decimal_bytes(n as nat)) == Some(n),
        forall|i: int|
            0 <= i < decimal_bytes(n as nat).len() ==> #[trigger] decimal_bytes(n as nat)[i] != DOT,
{
    let t = decimal_bytes(n as nat);
    reveal_with_fuel(decimal_bytes, 3);
    reveal_with_fuel(decimal_value, 4);
    if n < 10 {
        assert(t =~= seq![digit_byte(n as nat)]);
        assert(t.drop_last() =~= Seq::<u8>::empty());
    } else if n < 100 {
        let hi = (n / 10) as nat;
        let lo = (n % 10) as nat;
        assert(t =~= seq![digit_byte(hi), digit_byte(lo)]);
        assert(t.drop_last() =~= seq![digit_byte(hi)]);
        assert(t.drop_last().drop_last() =~= Seq::<u8>::empty());
    } else {
        let top = (n / 100) as nat;
        let hi = ((n / 10) % 10) as nat;
        let lo = (n % 10) as nat;
        assert((n as nat / 10) / 10 == top);
        assert(t =~= seq![digit_byte(top), digit_byte(hi), digit_byte(lo)]);
        assert(t.drop_last() =~= seq![digit_byte(top), digit_byte(hi)]);
        assert(t.drop_last().drop_last() =~= seq![digit_byte(top)]);
        assert(t.drop_last().drop_last().drop_last() =~= Seq::<u8>::empty());
    }
}

proof fn lemma_split_whole(y: Seq<u8>, sep: u8)
    requires
        forall|i: int| 0 <= i < y.len() ==> #[trigger] y[i] != sep,
    ensures
        split(y, sep) == seq![y],
    decreases y.len(),
{
    if y.len() > 0 {
        lemma_split_whole(y.drop_last(), sep);
        assert(y.drop_last().push(y.last()) =~= y);
        assert(seq![y.drop_last()].drop_last().push(y) =~= seq![y]);
    } else {
        assert(y =~= Seq::<u8>::empty());
    }
}

proof fn lemma_split_piece(x: Seq<u8>, y: Seq<u8>, sep: u8)
    requires
        forall|i: int| 0 <= i < y.len() ==> #[trigger] y[i] != sep,
    ensures
        split(x + seq![sep] + y, sep) == split(x, sep).push(y),
    decreases y.len(),
{
    let s = x + seq![sep] + y;
    if y.len() == 0 {
        assert(s.drop_last() =~= x);
        assert(y =~= Seq::<u8>::empty());
    } else {
        lemma_split_piece(x, y.drop_last(), sep);
        assert(s.drop_last() =~= x + seq![sep] + y.drop_last());
        assert(s.last() == y.last());
        let before = split(x, sep).push(y.drop_last());
        assert(before.drop_last() =~= split(x, sep));
        assert(y.drop_last().push(y.last()) =~= y);
    }
}

/// Every IPv4 address has a literal: its octets in decimal digits with dots
/// between them spell it.
pub proof fn lemma_dotted_quad_is_read_back(a: u8, b: u8, c: u8, d: u8)
    ensures
        ip_literal(dotted_quad(a, b, c, d)) == Some(IpAddr::V4(a, b, c, d)),
{
    let ta = decimal_bytes(a as nat);
    let tb = decimal_bytes(b as nat);
    let tc = decimal_bytes(c as nat);
    let td = decimal_bytes(d as nat);
    lemma_decimal_octet(a);
    lemma_decimal_octet(b);
    lemma_decimal_octet(c);
    lemma_decimal_octet(d);
    lemma_split_whole(ta, DOT);
    lemma_split_piece(ta, tb, DOT);
    lemma_split_piece(ta + seq![DOT] + tb, tc, DOT);
    lemma_split_piece(ta + seq![DOT] + tb + seq![DOT] + tc, td, DOT);
    let p = split(dotted_quad(a, b, c, d), DOT);
    assert(p =~= seq![ta, tb, tc, td]);
}

proof fn lemma_decimal_grows(s: Seq<u8>, i: int)
    requires
        0 <= i <= s.len(),
        all_digits(s),
    ensures
        decimal_value(s.take(i)) <= decimal_value(s),
    decreases s.len() - i,
{
    if i < s.len() {
        lemma_decimal_grows(s, i + 1);
        assert(s.take(i + 1).drop_last() == s.take(i));
        assert(is_digit(s[i]));
    } else {
        assert(s.take(i) == s);
    }
}

proof fn lemma_hex_groups_prefix(pieces: Seq<Seq<u8>>, i: int)
    requires
        0 <= i <= pieces.len(),
        hex_groups(pieces.take(i)) is None,
    ensures
        hex_groups(pieces) is None,
    decreases pieces.len() - i,
{
    if i < pieces.len() {
        assert(pieces.take(i + 1).drop_last() == pieces.take(i));
        lemma_hex_groups_prefix(pieces, i + 1);
    } else {
        assert(pieces.take(i) == pieces);
    }
}

/// The pieces of `s` between the occurrences of `sep`.
pub fn split_bytes(s: &[u8], sep: u8) -> (pieces: Vec<Vec<u8>>)
    ensures
        pieces.deep_view() == split(s@, sep),
        pieces.len() >= 1,
{
    let mut done: Vec<Vec<u8>> = Vec::new();
    let mut piece: Vec<u8> = Vec::new();
    let mut i: usize = 0;
    assert(s@.take(0) =~= Seq::<u8>::empty());
    assert(done.deep_view().push(piece@) =~= split(s@.take(0), sep));
    while i < s.len()
        invariant
            i <= s.len(),
            done.deep_view().push(piece@) == split(s@.take(i as int), sep),
        decreases s.len() - i,
    {
        let ghost before = split(s@.take(i as int), sep);
        assert(s@.take(i as int + 1).drop_last() == s@.take(i as int));
        assert(before.drop_last() == done.deep_view());
        if s[i] == sep {
            let ghost rows = done.deep_view();
            let ghost row = piece@;
            done.push(piece);
            piece = Vec::new();
            assert(done.deep_view() =~~= rows.push(row));
            assert(rows.push(row) == before);
        } else {
            piece.push(s[i]);
        }
        i = i + 1;
    }
    assert(s@.take(s.len() as int) == s@);
    let ghost rows = done.deep_view();
    let ghost row = piece@;
    done.push(piece);
    assert(done.deep_view() =~~= rows.push(row));
    done
}

/// The number from 0 to 255 that `s` spells in decimal digits.
pub fn parse_number(s: &[u8]) -> (r: Option<u8>)
    ensures
        r == number_of(s@),
{
    if s.len() == 0 {
        return None;
    }
    let mut acc: u16 = 0;
    let mut i: usize = 0;
    assert(s@.take(0) =~= Seq::<u8>::empty());
    while i < s.len()
        invariant
            i <= s.len(),
            all_digits(s@.take(i as int)),
            acc == decimal_value(s@.take(i as int)),
            acc <= 255,
        decreases s.len() - i,
    {
        let b = s[i];
        assert(s@.take(i as int + 1).drop_last() == s@.take(i as int));
        if b < 0x30 || b > 0x39 {
            assert(!is_digit(s@[i as int]));
            return None;
        }
        assert(all_digits(s@.take(i as int + 1))) by {
            assert forall|j: int| 0 <= j < i + 1 implies is_digit(
                #[trigger] s@.take(i as int + 1)[j],
            ) by {
                if j < i {
                    assert(s@.take(i as int + 1)[j] == s@.take(i as int)[j]);
                }
            }
        }
        let next: u16 = acc * 10 + (b - 0x30) as u16;
        if next > 255 {
            proof {
                if all_digits(s@) {
                    lemma_decimal_grows(s@, i as int + 1);
                }
            }
            return None;
        }
        acc = next;
        i = i + 1;
    }
    assert(s@.take(s.len() as int) == s@);
    Some(acc as u8)
}

/// The octet that `s` spells in an IPv4 literal.
pub fn parse_octet(s: &[u8]) -> (r: Option<u8>)
    ensures
        r == octet_of(s@),
{
    if s.len() > 3 || (s.len() > 1 && s[0] == 0x30) {
        return None;
    }
    parse_number(s)
}

/// The value of the hexadecimal digit `b`.
fn hex_digit_value(b: u8) -> (r: Option<u16>)
    ensures
        r is Some <==> hex_digit(b) is Some,
        r matches Some(v) ==> v == hex_digit(b)->0 && v < 16,
{
    if 0x30 <= b && b <= 0x39 {
        Some((b - 0x30) as u16)
    } else if 0x61 <= b && b <= 0x66 {
        Some((b - 0x61 + 10) as u16)
    } else if 0x41 <= b && b <= 0x46 {
        Some((b - 0x41 + 10) as u16)
    } else {
        None
    }
}

/// The group that `s` spells in an IPv6 literal.
pub fn parse_group(s: &[u8]) -> (r: Option<u16>)
    ensures
        r == group_of(s@),
{
    if s.len() == 0 || s.len() > 4 {
        return None;
    }
    let mut acc: u16 = 0;
    let mut i: usize = 0;
    assert(s@.take(0) =~= Seq::<u8>::empty());
    while i < s.len()
        invariant
            i <= s.len() <= 4,
            all_hex(s@.take(i as int)),
            acc == hex_value(s@.take(i as int)),
            i == 0 ==> acc == 0,
            i == 1 ==> acc < 16,
            i == 2 ==> acc < 256,
            i == 3 ==> acc < 4096,
        decreases s.len() - i,
    {
        assert(s@.take(i as int + 1).drop_last() == s@.take(i as int));
        match hex_digit_value(s[i]) {
            None => {
                assert(hex_digit(s@[i as int]) is None);
                return None;
            },
            Some(v) => {
                assert(all_hex(s@.take(i as int + 1))) by {
                    assert forall|j: int| 0 <= j < i + 1 implies hex_digit(
                        #[trigger] s@.take(i as int + 1)[j],
                    ) is Some by {
                        if j < i {
                            assert(s@.take(i as int + 1)[j] == s@.take(i as int)[j]);
                        }
                    }
                }
                acc = acc * 16 + v;
            },
        }
        i = i + 1;
    }
    assert(s@.take(s.len() as int) == s@);
    Some(acc)
}

/// The four octets that the IPv4 literal `s` spells.
pub fn parse_ipv4(s: &[u8]) -> (r: Option<(u8, u8, u8, u8)>)
    ensures
        r == ipv4_octets(s@),
{
    let pieces = split_bytes(s, DOT);
    if pieces.len() != 4 {
        return None;
    }
    assert(pieces.deep_view()[0] == pieces[0]@);
    assert(pieces.deep_view()[1] == pieces[1]@);
    assert(pieces.deep_view()[2] == pieces[2]@);
    assert(pieces.deep_view()[3] == pieces[3]@);
    let a = match parse_octet(pieces[0].as_slice()) {
        Some(a) => a,
        None => {
            return None;
        },
    };
    let b = match parse_octet(pieces[1].as_slice()) {
        Some(b) => b,
        None => {
            return None;
        },
    };
    let c = match parse_octet(pieces[2].as_slice()) {
        Some(c) => c,
        None => {
            return None;
        },
    };
    let d = match parse_octet(pieces[3].as_slice()) {
        Some(d) => d,
        None => {
            return None;
        },
    };
    Some((a, b, c, d))
}

/// The groups that the first `n` of `pieces` spell, if each is a group.
fn parse_hex_groups(pieces: &Vec<Vec<u8>>, n: usize) -> (r: Option<Vec<u16>>)
    requires
        n <= pieces.len(),
    ensures
        r is Some <==> hex_groups(pieces.deep_view().take(n as int)) is Some,
        r matches Some(groups) ==> Some(groups@) == hex_groups(pieces.deep_view().take(n as int)),
{
    let ghost all = pieces.deep_view().take(n as int);
    let mut groups: Vec<u16> = Vec::new();
    let mut i: usize = 0;
    assert(all.take(0) =~= Seq::<Seq<u8>>::empty());
    while i < n
        invariant
            i <= n <= pieces.len(),
            all == pieces.deep_view().take(n as int),
            Some(groups@) == hex_groups(all.take(i as int)),
        decreases n - i,
    {
        assert(all.take(i as int + 1).drop_last() == all.take(i as int));
        assert(all.take(i as int + 1).last() == pieces[i as int]@);
        match parse_group(pieces[i].as_slice()) {
            Some(g) => {
                groups.push(g);
            },
            None => {
                proof {
                    lemma_hex_groups_prefix(all, i as int + 1);
                }
                return None;
            },
        }
        i = i + 1;
    }
    assert(all.take(n as int) == all);
    Some(groups)
}

/// The groups that the last piece of an IPv6 literal spells.
fn parse_last_groups(piece: &[u8]) -> (r: Option<Vec<u16>>)
    ensures
        r is Some <==> last_groups(piece@) is Some,
        r matches Some(groups) ==> Some(groups@) == last_groups(piece@),
{
    let mut groups: Vec<u16> = Vec::new();
    match parse_group(piece) {
        Some(g) => {
            groups.push(g);
            assert(groups@ =~= seq![g]);
            Some(groups)
        },
        None => match parse_ipv4(piece) {
            Some((a, b, c, d)) => {
                groups.push(a as u16 * 256 + b as u16);
                groups.push(c as u16 * 256 + d as u16);
                assert(groups@ =~= seq![pair_group(a, b), pair_group(c, d)]);
                Some(groups)
            },
            None => None,
        },
    }
}

/// The groups that `pieces` spell, the last of which may be an IPv4 literal.
fn parse_tail_groups(pieces: &Vec<Vec<u8>>) -> (r: Option<Vec<u16>>)
    ensures
        r is Some <==> tail_groups(pieces.deep_view()) is Some,
        r matches Some(groups) ==> Some(groups@) == tail_groups(pieces.deep_view()),
{
    if pieces.len() == 0 {
        return None;
    }
    let n = pieces.len() - 1;
    assert(pieces.deep_view().take(n as int) == pieces.deep_view().drop_last());
    assert(pieces.deep_view().last() == pieces[n as int]@);
    let mut front = match parse_hex_groups(pieces, n) {
        Some(front) => front,
        None => {
            return None;
        },
    };
    let mut back = match parse_last_groups(pieces[n].as_slice()) {
        Some(back) => back,
        None => {
            return None;
        },
    };
    front.append(&mut back);
    Some(front)
}

/// Where `s` first holds two colons in a row.
fn find_double_colon(s: &[u8]) -> (r: Option<usize>)
    ensures
        r matches Some(i) ==> first_double_colon(s@) == Some(i as int) && is_double_colon(
            s@,
            i as int,
        ),
        r is None ==> first_double_colon(s@) is None,
{
    if s.len() < 2 {
        return None;
    }
    let mut i: usize = 0;
    while i + 1 < s.len()
        invariant
            i + 1 <= s.len(),
            forall|j: int| 0 <= j < i ==> !is_double_colon(s@, j),
        decreases s.len() - i,
    {
        if s[i] == COLON && s[i + 1] == COLON {
            proof {
                assert(is_double_colon(s@, i as int));
                let c = first_double_colon(s@)->0;
                assert(is_double_colon(s@, c));
                assert(c == i);
            }
            return Some(i);
        }
        i = i + 1;
    }
    None
}

/// The groups on one side of `::`.
fn parse_side(side: &[u8], last_may_be_ipv4: bool) -> (r: Option<Vec<u16>>)
    ensures
        r is Some <==> side_groups(side@, last_may_be_ipv4) is Some,
        r matches Some(groups) ==> Some(groups@) == side_groups(side@, last_may_be_ipv4),
{
    if side.len() == 0 {
        return Some(Vec::new());
    }
    let pieces = split_bytes(side, COLON);
    if last_may_be_ipv4 {
        parse_tail_groups(&pieces)
    } else {
        assert(pieces.deep_view().take(pieces.len() as int) == pieces.deep_view());
        parse_hex_groups(&pieces, pieces.len())
    }
}

/// The groups before and behind `::` with the groups of zero between them.
fn join_sides(head: Vec<u16>, tail: Vec<u16>) -> (r: Option<Vec<u16>>)
    ensures
        r is Some <==> joined(head@, tail@) is Some,
        r matches Some(groups) ==> Some(groups@) == joined(head@, tail@) && groups.len() == 8,
{
    if head.len() > 7 || tail.len() > 7 - head.len() {
        return None;
    }
    let zeros = 8 - head.len() - tail.len();
    let mut groups = head;
    let mut tail = tail;
    let mut k: usize = 0;
    assert(groups@ =~= head@ + zero_groups(0));
    while k < zeros
        invariant
            k <= zeros,
            groups@ == head@ + zero_groups(k as int),
        decreases zeros - k,
    {
        groups.push(0);
        assert(groups@ =~= head@ + zero_groups(k as int + 1));
        k = k + 1;
    }
    groups.append(&mut tail);
    Some(groups)
}

/// The eight groups that an IPv6 literal without `::` spells.
fn parse_full(s: &[u8]) -> (r: Option<Vec<u16>>)
    ensures
        r is Some <==> full_groups(s@) is Some,
        r matches Some(groups) ==> Some(groups@) == full_groups(s@) && groups.len() == 8,
{
    let pieces = split_bytes(s, COLON);
    match parse_tail_groups(&pieces) {
        Some(groups) => if groups.len() == 8 {
            Some(groups)
        } else {
            None
        },
        None => None,
    }
}

/// The eight groups that an IPv6 literal spells whose `::` stands at `i`.
fn parse_compressed(s: &[u8], i: usize) -> (r: Option<Vec<u16>>)
    requires
        i + 2 <= s.len(),
    ensures
        r is Some <==> compressed_groups(s@, i as int) is Some,
        r matches Some(groups) ==> Some(groups@) == compressed_groups(s@, i as int)
            && groups.len() == 8,
{
    let head_text = copy_range(s, 0, i);
    let tail_text = copy_range(s, i + 2, s.len());
    assert(head_text@ == s@.take(i as int));
    assert(tail_text@ == s@.skip(i as int + 2));
    let head = match parse_side(head_text.as_slice(), false) {
        Some(head) => head,
        None => {
            return None;
        },
    };
    let tail = match parse_side(tail_text.as_slice(), true) {
        Some(tail) => tail,
        None => {
            return None;
        },
    };
    join_sides(head, tail)
}

/// The eight groups that the IPv6 literal `s` spells.
pub fn parse_ipv6(s: &[u8]) -> (r: Option<Vec<u16>>)
    ensures
        r is Some <==> ipv6_groups(s@) is Some,
        r matches Some(groups) ==> Some(groups@) == ipv6_groups(s@) && groups.len() == 8,
{
    match find_double_colon(s) {
        None => parse_full(s),
        Some(i) => parse_compressed(s, i),
    }
}

/// The address that `s` spells, if it is an IPv4 or an IPv6 literal.
pub fn parse_ip(s: &[u8]) -> (r: Option<IpAddr>)
    ensures
        r == ip_literal(s@),
{
    match parse_ipv4(s) {
        Some((a, b, c, d)) => Some(IpAddr::V4(a, b, c, d)),
        None => match parse_ipv6(s) {
            Some(g) => Some(IpAddr::V6(g[0], g[1], g[2], g[3], g[4], g[5], g[6], g[7])),
            None => None,
        },
    }
}

} // verus!
