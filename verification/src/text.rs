//! Byte strings: counting, trimming and comparing, and the boundary to the
//! `memchr` and `bstr` crates, which search and split them.

use bstr::ByteSlice;
use vstd::prelude::*;
use vstd::utf8::{decode_utf8, valid_utf8};

verus! {

/// The byte `.`, which separates the labels of a host name.
pub const DOT: u8 = 0x2e;

/// The byte `#`, which begins a comment in a configuration file.
pub const HASH: u8 = 0x23;

/// The byte `:`, which parts an option from its value.
pub const COLON: u8 = 0x3a;

/// How often `byte` occurs in `s`.
pub open spec fn count_of(s: Seq<u8>, byte: u8) -> nat
    decreases s.len(),
{
    if s.len() == 0 {
        0
    } else {
        count_of(s.drop_last(), byte) + if s.last() == byte {
            1nat
        } else {
            0nat
        }
    }
}

/// `s` without the run of `byte` at its end.
pub open spec fn trim_end(s: Seq<u8>, byte: u8) -> Seq<u8>
    decreases s.len(),
{
    if s.len() > 0 && s.last() == byte {
        trim_end(s.drop_last(), byte)
    } else {
        s
    }
}

/// `s` without the run of `byte` at its start.
pub open spec fn trim_start(s: Seq<u8>, byte: u8) -> Seq<u8>
    decreases s.len(),
{
    if s.len() > 0 && s.first() == byte {
        trim_start(s.drop_first(), byte)
    } else {
        s
    }
}

/// The first position of `byte` in `s`, if it occurs.
pub open spec fn first_index_of(s: Seq<u8>, byte: u8) -> Option<int>
    decreases s.len(),
{
    if s.len() == 0 {
        None
    } else if s.first() == byte {
        Some(0)
    } else {
        match first_index_of(s.drop_first(), byte) {
            Some(i) => Some(i + 1),
            None => None,
        }
    }
}

/// `s` parted at the first `byte`, which goes to neither part; `None` where
/// `byte` does not occur.
pub open spec fn split_once_at(s: Seq<u8>, byte: u8) -> Option<(Seq<u8>, Seq<u8>)> {
    match first_index_of(s, byte) {
        Some(i) => Some((s.take(i), s.skip(i + 1))),
        None => None,
    }
}

/// A pair of byte strings as a mathematical value.
pub open spec fn pair_view(r: Option<(Vec<u8>, Vec<u8>)>) -> Option<(Seq<u8>, Seq<u8>)> {
    match r {
        Some((a, b)) => Some((a@, b@)),
        None => None,
    }
}

/// The lines of `content` without their terminators, which are `\n` and
/// `\r\n`.
pub uninterp spec fn lines_of(content: Seq<u8>) -> Seq<Seq<u8>>;

/// The fields of `line`: its maximal runs of bytes between white space, as
/// Unicode defines white space.
pub uninterp spec fn fields_of(line: Seq<u8>) -> Seq<Seq<u8>>;

/// Counts a byte with `memchr::Memchr`. Trusted: the iterator yields each
/// occurrence of the needle once, so its count is the number of occurrences.
#[verifier::external_body]
pub(crate) fn count_byte(needle: u8, haystack: &[u8]) -> (n: usize)
    ensures
        n == count_of(haystack@, needle),
{
    memchr::Memchr::new(needle, haystack).count()
}

/// Splits into lines with `ByteSlice::lines`. Trusted: the lines depend on
/// the content alone.
#[verifier::external_body]
pub(crate) fn split_lines(content: &[u8]) -> (lines: Vec<Vec<u8>>)
    ensures
        lines.deep_view() == lines_of(content@),
{
    content.lines().map(|line| line.to_vec()).collect()
}

/// Splits into fields with `ByteSlice::fields`. Trusted: the fields depend on
/// the line alone.
#[verifier::external_body]
pub(crate) fn split_fields(line: &[u8]) -> (fields: Vec<Vec<u8>>)
    ensures
        fields.deep_view() == fields_of(line@),
{
    line.fields().map(|field| field.to_vec()).collect()
}

/// Parts a field with `ByteSlice::split_once_str` at a splitter of one byte.
/// Trusted: the parts are what stands before and behind the first occurrence
/// of the splitter; there are none where it does not occur.
#[verifier::external_body]
pub(crate) fn split_once(field: &[u8], splitter: u8) -> (r: Option<(Vec<u8>, Vec<u8>)>)
    ensures
        pair_view(r) == split_once_at(field@, splitter),
{
    field.split_once_str(&[splitter]).map(|(head, tail)| (head.to_vec(), tail.to_vec()))
}

/// Reads bytes as text with `ByteSlice::to_str`. Trusted: the conversion
/// succeeds on valid UTF-8 and on nothing else, and yields the characters
/// that the bytes encode.
#[verifier::external_body]
pub(crate) fn to_text(bytes: &[u8]) -> (r: Option<String>)
    ensures
        r is Some <==> valid_utf8(bytes@),
        r matches Some(text) ==> text@ == decode_utf8(bytes@),
{
    bytes.to_str().ok().map(|text| text.to_owned())
}

/// Whether `a` and `b` hold the same bytes.
pub fn bytes_eq(a: &[u8], b: &[u8]) -> (same: bool)
    ensures
        same == (a@ == b@),
{
    if a.len() != b.len() {
        return false;
    }
    let mut i: usize = 0;
    while i < a.len()
        invariant
            i <= a.len(),
            a.len() == b.len(),
            a@.take(i as int) == b@.take(i as int),
        decreases a.len() - i,
    {
        if a[i] != b[i] {
            assert(a@[i as int] != b@[i as int]);
            return false;
        }
        assert(a@.take(i as int + 1) == a@.take(i as int).push(a@[i as int]));
        assert(b@.take(i as int + 1) == b@.take(i as int).push(b@[i as int]));
        i = i + 1;
    }
    assert(a@.take(a.len() as int) == a@);
    assert(b@.take(b.len() as int) == b@);
    true
}

/// The bytes of `s` from `from` up to `to`.
pub(crate) fn copy_range(s: &[u8], from: usize, to: usize) -> (out: Vec<u8>)
    requires
        from <= to <= s.len(),
    ensures
        out@ == s@.subrange(from as int, to as int),
{
    let mut out: Vec<u8> = Vec::new();
    let mut i: usize = from;
    while i < to
        invariant
            from <= i <= to <= s.len(),
            out@ == s@.subrange(from as int, i as int),
        decreases to - i,
    {
        out.push(s[i]);
        assert(s@.subrange(from as int, i as int + 1) == s@.subrange(from as int, i as int).push(
            s@[i as int],
        ));
        i = i + 1;
    }
    out
}

/// Appends the bytes of `tail` to `out`.
pub fn append_bytes(out: &mut Vec<u8>, tail: &[u8])
    ensures
        final(out)@ == old(out)@ + tail@,
{
    let mut i: usize = 0;
    while i < tail.len()
        invariant
            i <= tail.len(),
            out@ == old(out)@ + tail@.take(i as int),
        decreases tail.len() - i,
    {
        out.push(tail[i]);
        assert(tail@.take(i as int + 1) == tail@.take(i as int).push(tail@[i as int]));
        i = i + 1;
    }
    assert(tail@.take(tail.len() as int) == tail@);
}

/// `s` without the run of `byte` at its end.
pub fn trimmed_end(s: &[u8], byte: u8) -> (out: Vec<u8>)
    ensures
        out@ == trim_end(s@, byte),
{
    let mut end: usize = s.len();
    assert(s@.take(end as int) == s@);
    while end > 0 && s[end - 1] == byte
        invariant
            end <= s.len(),
            trim_end(s@, byte) == trim_end(s@.take(end as int), byte),
        decreases end,
    {
        assert(s@.take(end as int).drop_last() == s@.take(end as int - 1));
        end = end - 1;
    }
    assert(s@.take(end as int) == s@.subrange(0, end as int));
    copy_range(s, 0, end)
}

/// `s` without the run of `byte` at its start.
pub fn trimmed_start(s: &[u8], byte: u8) -> (out: Vec<u8>)
    ensures
        out@ == trim_start(s@, byte),
{
    let mut start: usize = 0;
    assert(s@.skip(0) == s@);
    while start < s.len() && s[start] == byte
        invariant
            start <= s.len(),
            trim_start(s@, byte) == trim_start(s@.skip(start as int), byte),
        decreases s.len() - start,
    {
        assert(s@.skip(start as int).drop_first() == s@.skip(start as int + 1));
        start = start + 1;
    }
    assert(s@.skip(start as int) == s@.subrange(start as int, s.len() as int));
    copy_range(s, start, s.len())
}

} // verus!
