//! The lines of an append-only JSONL log, read from its bytes.
use crate::byte_lines::{line_end, line_end_bound};
use crate::text::{is_blank, is_blank_text};
use vstd::prelude::*;
use vstd::slice::slice_subrange;
use vstd::string::StringSliceAdditionalSpecFns;
use vstd::utf8::*;

verus! {

/// `std::str::from_utf8`: the text of `bytes` where they are valid UTF-8, nothing
/// where they are not.
#[verifier::external_body]
pub(crate) fn utf8_text(bytes: &[u8]) -> (r: Option<&str>)
    ensures
        r is Some <==> valid_utf8(bytes@),
        r matches Some(s) ==> s.spec_bytes() == bytes@,
{
    std::str::from_utf8(bytes).ok()
}

/// The line as a list: with its text when it is valid UTF-8 and not blank, else empty.
pub open spec fn readable(line: Seq<u8>) -> Seq<Seq<char>> {
    if valid_utf8(line) && !is_blank(decode_utf8(line)) {
        seq![decode_utf8(line)]
    } else {
        Seq::empty()
    }
}

/// The readable lines of `b` from the line at `pos` on.
pub open spec fn readable_lines(b: Seq<u8>, pos: int) -> Seq<Seq<char>>
    decreases b.len() + 1 - pos,
{
    if pos < 0 || pos > b.len() {
        Seq::empty()
    } else {
        let e = line_end(b, pos);
        let rest = if pos <= e < b.len() {
            readable_lines(b, e + 1)
        } else {
            Seq::empty()
        };
        readable(b.subrange(pos, e)) + rest
    }
}

/// The texts of a list of string slices.
pub open spec fn slice_views<'a>(v: Seq<&'a str>) -> Seq<Seq<char>> {
    v.map_values(|s: &'a str| s@)
}

/// Appends the bytes from `start` to `end` to `lines` if they are a readable line.
pub fn push_if_valid<'a>(bytes: &'a [u8], start: usize, end: usize, lines: &mut Vec<&'a str>)
    requires
        start <= end <= bytes.len(),
    ensures
        slice_views(final(lines)@) == slice_views(old(lines)@) + readable(
            bytes@.subrange(start as int, end as int),
        ),
{
    let ghost line = bytes@.subrange(start as int, end as int);
    if start >= end {
        assert(decode_utf8(line).len() == 0);
        assert(slice_views(lines@) =~= slice_views(old(lines)@) + readable(line));
        return ;
    }
    match utf8_text(slice_subrange(bytes, start, end)) {
        Some(text) => {
            proof {
                encode_utf8_decode_utf8(text@);
            }
            if !is_blank_text(text) {
                lines.push(text);
                assert(slice_views(lines@) =~= slice_views(old(lines)@).push(text@));
            }
        },
        None => {},
    }
    assert(slice_views(lines@) =~= slice_views(old(lines)@) + readable(line));
}

/// The lines of `bytes` that are not blank and are valid UTF-8.
pub fn jsonl_lines<'a>(bytes: &'a [u8]) -> (r: Vec<&'a str>)
    ensures
        slice_views(r@) == readable_lines(bytes@, 0),
{
    let mut lines: Vec<&'a str> = Vec::new();
    let mut start: usize = 0;
    let mut i: usize = 0;
    assert(slice_views(lines@) + readable_lines(bytes@, 0) =~= readable_lines(bytes@, 0));
    while i < bytes.len()
        invariant
            start <= i <= bytes.len(),
            line_end(bytes@, start as int) == line_end(bytes@, i as int),
            slice_views(lines@) + readable_lines(bytes@, start as int) == readable_lines(bytes@, 0),
        decreases bytes.len() - i,
    {
        if bytes[i] == 10 {
            let ghost before = slice_views(lines@);
            push_if_valid(bytes, start, i, &mut lines);
            assert(before + (readable(bytes@.subrange(start as int, i as int)) + readable_lines(
                bytes@,
                i + 1,
            )) =~= slice_views(lines@) + readable_lines(bytes@, i + 1));
            start = i + 1;
        }
        i += 1;
    }
    let ghost before = slice_views(lines@);
    let ghost last = readable(bytes@.subrange(start as int, i as int));
    push_if_valid(bytes, start, bytes.len(), &mut lines);
    assert(last + Seq::<Seq<char>>::empty() =~= last);
    lines
}

/// What stands on one side of a newline never hides the lines on the other: the lines
/// of two logs with a newline between are the lines of the one and then those of the
/// other, whatever bytes either holds.
pub proof fn lines_are_independent(a: Seq<u8>, c: Seq<u8>)
    ensures
        readable_lines(a + seq![10u8] + c, 0) == readable_lines(a, 0) + readable_lines(c, 0),
{
    independent_from(a, c, 0);
}

proof fn independent_from(a: Seq<u8>, c: Seq<u8>, pos: int)
    requires
        0 <= pos <= a.len(),
    ensures
        readable_lines(a + seq![10u8] + c, pos) == readable_lines(a, pos) + readable_lines(c, 0),
    decreases a.len() - pos,
{
    let b = a + seq![10u8] + c;
    line_end_of_first(a, c, pos);
    line_end_bound(a, pos);
    let e = line_end(a, pos);
    assert(b.subrange(pos, e) =~= a.subrange(pos, e));
    let here = readable(a.subrange(pos, e));
    if e < a.len() {
        independent_from(a, c, e + 1);
        assert(here + (readable_lines(a, e + 1) + readable_lines(c, 0)) =~= (here + readable_lines(
            a,
            e + 1,
        )) + readable_lines(c, 0));
    } else {
        shifted(a + seq![10u8], c, 0);
        assert(here + Seq::<Seq<char>>::empty() =~= here);
    }
}

proof fn line_end_of_first(a: Seq<u8>, c: Seq<u8>, pos: int)
    requires
        0 <= pos <= a.len(),
    ensures
        line_end(a + seq![10u8] + c, pos) == line_end(a, pos),
    decreases a.len() - pos,
{
    let b = a + seq![10u8] + c;
    if pos < a.len() {
        assert(b[pos] == a[pos]);
        if a[pos] != 10 {
            line_end_of_first(a, c, pos + 1);
        }
    } else {
        assert(b[pos] == 10);
    }
}

proof fn line_end_shifted(a: Seq<u8>, c: Seq<u8>, pos: int)
    requires
        0 <= pos <= c.len(),
    ensures
        line_end(a + c, a.len() + pos) == a.len() + line_end(c, pos),
    decreases c.len() - pos,
{
    if pos < c.len() && c[pos] != 10 {
        line_end_shifted(a, c, pos + 1);
    }
}

proof fn shifted(a: Seq<u8>, c: Seq<u8>, pos: int)
    requires
        0 <= pos <= c.len(),
    ensures
        readable_lines(a + c, a.len() + pos) == readable_lines(c, pos),
    decreases c.len() - pos,
{
    line_end_shifted(a, c, pos);
    line_end_bound(c, pos);
    let e = line_end(c, pos);
    assert((a + c).subrange(a.len() + pos, a.len() + e) =~= c.subrange(pos, e));
    if e < c.len() {
        shifted(a, c, e + 1);
    }
}

} // verus!
