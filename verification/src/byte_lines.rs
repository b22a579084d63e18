//! Lines of a UTF-8 text, addressed by the byte at which they start.
use vstd::prelude::*;
use vstd::string::StringSliceAdditionalSpecFns;
use vstd::utf8::*;

verus! {

/// An ASCII byte of a UTF-8 text starts a character, and the next character
/// starts right behind it.
pub proof fn ascii_byte_boundaries(b: Seq<u8>, i: int)
    requires
        valid_utf8(b),
        0 <= i < b.len(),
        b[i] < 0x80,
    ensures
        is_char_boundary(b, i),
        is_char_boundary(b, i + 1),
    decreases b.len(),
{
    is_char_boundary_iff_not_is_continuation_byte(b, i);
    if i == 0 {
        reveal_with_fuel(is_char_boundary, 2);
    } else {
        let n = length_of_first_scalar(b);
        if i < n {
            reveal_with_fuel(is_char_boundary, 2);
        } else {
            ascii_byte_boundaries(pop_first_scalar(b), i - n);
        }
    }
}

/// Where the line that starts at `pos` ends: at its newline or at the end.
pub open spec fn line_end(b: Seq<u8>, pos: int) -> int
    decreases b.len() - pos,
{
    if pos < 0 || pos >= b.len() {
        b.len() as int
    } else if b[pos] == 10 {
        pos
    } else {
        line_end(b, pos + 1)
    }
}

pub proof fn line_end_bound(b: Seq<u8>, pos: int)
    requires
        0 <= pos <= b.len(),
    ensures
        pos <= line_end(b, pos) <= b.len(),
        line_end(b, pos) < b.len() ==> b[line_end(b, pos)] == 10,
        forall|j: int| pos <= j < line_end(b, pos) ==> #[trigger] b[j] != 10,
    decreases b.len() - pos,
{
    if pos < b.len() && b[pos] != 10 {
        line_end_bound(b, pos + 1);
    }
}

/// The characters of the line that starts at `pos`.
pub open spec fn line_text(b: Seq<u8>, pos: int) -> Seq<char> {
    decode_utf8(b.subrange(pos, line_end(b, pos)))
}

/// The line that starts at byte `start`, up to its newline or the end.
pub fn line_from(contents: &str, start: usize) -> (r: &str)
    requires
        is_char_boundary(contents.spec_bytes(), start as int),
        start <= contents.spec_bytes().len(),
    ensures
        r@ == line_text(contents.spec_bytes(), start as int),
        r.spec_bytes() == contents.spec_bytes().subrange(
            start as int,
            line_end(contents.spec_bytes(), start as int),
        ),
        start + r.spec_bytes().len() == line_end(contents.spec_bytes(), start as int),
{
    let ghost b = contents.spec_bytes();
    let bytes: &[u8] = contents.as_bytes();
    let mut end: usize = start;
    while end < bytes.len() && bytes[end] != 10
        invariant
            bytes@ == b,
            start <= end <= bytes.len(),
            line_end(b, start as int) == line_end(b, end as int),
        decreases bytes.len() - end,
    {
        end += 1;
    }
    proof {
        encode_utf8_valid_utf8(contents@);
        if end < bytes.len() {
            ascii_byte_boundaries(b, end as int);
        } else {
            is_char_boundary_start_end_of_seq(b);
        }
    }
    let head: &str = contents.split_at(end).0;
    proof {
        encode_utf8_valid_utf8(head@);
        boundary_in_prefix(b, start as int, end as int);
    }
    let r: &str = head.split_at(start).1;
    proof {
        assert(r.spec_bytes() =~= b.subrange(start as int, end as int));
        encode_utf8_decode_utf8(r@);
    }
    r
}

/// A character boundary of a text is one of any prefix that reaches it.
pub proof fn boundary_in_prefix(b: Seq<u8>, i: int, end: int)
    requires
        valid_utf8(b),
        valid_utf8(b.subrange(0, end)),
        is_char_boundary(b, i),
        0 <= i <= end <= b.len(),
    ensures
        is_char_boundary(b.subrange(0, end), i),
{
    let p = b.subrange(0, end);
    if i == end {
        is_char_boundary_start_end_of_seq(p);
    } else {
        is_char_boundary_iff_not_is_continuation_byte(b, i);
        is_char_boundary_iff_not_is_continuation_byte(p, i);
    }
}

} // verus!
