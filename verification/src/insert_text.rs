//! The script that types text into the field that has the focus.
//!
//! The text goes into the script as a string literal of plain ASCII on one line, so that
//! nothing on the way to the browser can change it.
use crate::text::chars_of;
use vstd::prelude::*;
use vstd::string::StringExecFns;

verus! {

/// The small hexadecimal digit for `d`.
pub open spec fn hex_digit(d: int) -> char {
    if d < 10 {
        (48 + d) as u8 as char
    } else {
        (87 + d) as u8 as char
    }
}

/// `n` with four hexadecimal digits behind `\u`.
pub open spec fn unicode_escape(n: int) -> Seq<char> {
    seq![
        '\\',
        'u',
        hex_digit((n / 4096) % 16),
        hex_digit((n / 256) % 16),
        hex_digit((n / 16) % 16),
        hex_digit(n % 16),
    ]
}

/// A character in a JSON string.
pub open spec fn json_char(c: char) -> Seq<char> {
    if c == '"' {
        seq!['\\', '"']
    } else if c == '\\' {
        seq!['\\', '\\']
    } else if c as u32 == 8 {
        seq!['\\', 'b']
    } else if c as u32 == 9 {
        seq!['\\', 't']
    } else if c as u32 == 10 {
        seq!['\\', 'n']
    } else if c as u32 == 12 {
        seq!['\\', 'f']
    } else if c as u32 == 13 {
        seq!['\\', 'r']
    } else if (c as u32) < 32 {
        unicode_escape(c as u32 as int)
    } else {
        seq![c]
    }
}

/// The characters of `s` in a JSON string, one after another.
pub open spec fn json_chars(s: Seq<char>) -> Seq<char>
    decreases s.len(),
{
    if s.len() == 0 {
        Seq::empty()
    } else {
        json_chars(s.drop_last()) + json_char(s.last())
    }
}

/// `s` as a JSON string.
pub open spec fn json_string(s: Seq<char>) -> Seq<char> {
    seq!['"'] + json_chars(s) + seq!['"']
}

/// `serde_json::to_string` of a text: it never fails; quotes, backslashes and control
/// characters are escaped, and everything else stands as it is.
#[verifier::external_body]
fn to_json(text: &str) -> (r: Option<String>)
    ensures
        r is Some,
        r matches Some(s) ==> s@ == json_string(text@),
{
    serde_json::to_string(text).ok()
}

/// A character as plain ASCII: one that is not ASCII becomes the escape of its one or two
/// UTF-16 units.
pub open spec fn ascii_char(c: char) -> Seq<char> {
    let n = c as u32 as int;
    if n <= 0x7f {
        seq![c]
    } else if n <= 0xffff {
        unicode_escape(n)
    } else {
        unicode_escape(0xd800 + (n - 0x10000) / 1024) + unicode_escape(
            0xdc00 + (n - 0x10000) % 1024,
        )
    }
}

/// `s` as plain ASCII.
pub open spec fn ascii_chars(s: Seq<char>) -> Seq<char>
    decreases s.len(),
{
    if s.len() == 0 {
        Seq::empty()
    } else {
        ascii_chars(s.drop_last()) + ascii_char(s.last())
    }
}

/// The string literal for `text`.
pub open spec fn text_literal(text: Seq<char>) -> Seq<char> {
    ascii_chars(json_string(text))
}

/// The script that inserts `text` where the focus is.
pub open spec fn insert_script(text: Seq<char>) -> Seq<char> {
    "(() => { const el = document.activeElement; if (!el) return false; return document.execCommand('insertText', false, "@
        + text_literal(text) + "); })()"@
}

fn push_hex(out: &mut String, d: u32)
    requires
        d < 16,
    ensures
        final(out)@ == old(out)@.push(hex_digit(d as int)),
{
    if d < 10 {
        out.push((48u8 + d as u8) as char);
    } else {
        out.push((87u8 + d as u8) as char);
    }
}

fn push_escape(out: &mut String, n: u32)
    requires
        n <= 0xffff,
    ensures
        final(out)@ == old(out)@ + unicode_escape(n as int),
{
    out.push('\\');
    out.push('u');
    push_hex(out, (n / 4096) % 16);
    push_hex(out, (n / 256) % 16);
    push_hex(out, (n / 16) % 16);
    push_hex(out, n % 16);
    assert(out@ =~= old(out)@ + unicode_escape(n as int));
}

/// The script that inserts `text` where the focus is.
pub fn build_insert_text_expression(text: &str) -> (r: String)
    ensures
        r@ == insert_script(text@),
{
    let json: String = match to_json(text) {
        Some(s) => s,
        None => "\"\"".to_owned(),
    };
    let v: Vec<char> = chars_of(json.as_str());
    let mut literal: String = String::new();
    let mut i: usize = 0;
    assert(literal@ =~= ascii_chars(v@.take(0)));
    while i < v.len()
        invariant
            i <= v.len(),
            literal@ == ascii_chars(v@.take(i as int)),
        decreases v.len() - i,
    {
        let c: char = v[i];
        let n: u32 = c as u32;
        proof {
            assert(v@.take(i as int + 1).drop_last() =~= v@.take(i as int));
            assert(v@.take(i as int + 1).last() == c);
            vstd::utf8::char_is_scalar(c);
        }
        if n <= 0x7f {
            literal.push(c);
            assert(literal@ =~= ascii_chars(v@.take(i as int)) + ascii_char(c));
        } else if n <= 0xffff {
            push_escape(&mut literal, n);
        } else {
            let offset: u32 = n - 0x10000;
            push_escape(&mut literal, 0xd800 + offset / 1024);
            push_escape(&mut literal, 0xdc00 + offset % 1024);
            assert(literal@ =~= ascii_chars(v@.take(i as int)) + ascii_char(c));
        }
        i += 1;
    }
    assert(v@.take(i as int) =~= v@);
    let mut out: String =
        "(() => { const el = document.activeElement; if (!el) return false; return document.execCommand('insertText', false, ".to_owned();
    out.append(literal.as_str());
    out.append("); })()");
    out
}

// ------------------------------------------------------------------------ laws

/// A printable ASCII character.
pub open spec fn is_plain(c: char) -> bool {
    32 <= c as u32 <= 126
}

proof fn escape_is_plain(n: int)
    requires
        0 <= n <= 0xffff,
    ensures
        forall|i: int| 0 <= i < 6 ==> is_plain(#[trigger] unicode_escape(n)[i]),
{
    let s = unicode_escape(n);
    let a = (n / 4096) % 16;
    let b = (n / 256) % 16;
    let c = (n / 16) % 16;
    let d = n % 16;
    assert(is_plain(hex_digit(a)) && is_plain(hex_digit(b)) && is_plain(hex_digit(c)) && is_plain(
        hex_digit(d),
    ));
    assert(s[0] == '\\' && s[1] == 'u' && s[2] == hex_digit(a) && s[3] == hex_digit(b) && s[4]
        == hex_digit(c) && s[5] == hex_digit(d));
}

/// What stands in a JSON string is no control character.
proof fn json_has_no_controls(s: Seq<char>)
    ensures
        forall|i: int| 0 <= i < json_chars(s).len() ==> #[trigger] json_chars(s)[i] as u32 >= 32,
    decreases s.len(),
{
    if s.len() > 0 {
        json_has_no_controls(s.drop_last());
        let a = json_chars(s.drop_last());
        let c = s.last();
        let b = json_char(c);
        if (c as u32) < 32 {
            escape_is_plain(c as u32 as int);
        }
        assert forall|i: int| 0 <= i < b.len() implies #[trigger] b[i] as u32 >= 32 by {}
        assert forall|i: int| 0 <= i < json_chars(s).len() implies #[trigger] json_chars(s)[i] as u32
            >= 32 by {
            if i < a.len() {
                assert(json_chars(s)[i] == a[i]);
            } else {
                assert(json_chars(s)[i] == b[i - a.len()]);
            }
        }
    }
}

proof fn ascii_is_plain(s: Seq<char>)
    requires
        forall|i: int| 0 <= i < s.len() ==> #[trigger] s[i] as u32 >= 32,
    ensures
        forall|i: int|
            0 <= i < ascii_chars(s).len() ==> 32 <= #[trigger] ascii_chars(s)[i] as u32 <= 127,
    decreases s.len(),
{
    if s.len() > 0 {
        let t = s.drop_last();
        assert forall|i: int| 0 <= i < t.len() implies #[trigger] t[i] as u32 >= 32 by {
            assert(t[i] == s[i]);
        }
        ascii_is_plain(t);
        let a = ascii_chars(t);
        let c = s.last();
        let b = ascii_char(c);
        let n = c as u32 as int;
        vstd::utf8::char_is_scalar(c);
        assert(s[s.len() - 1] == c);
        if 0x7f < n <= 0xffff {
            escape_is_plain(n);
        } else if n > 0xffff {
            escape_is_plain(0xd800 + (n - 0x10000) / 1024);
            escape_is_plain(0xdc00 + (n - 0x10000) % 1024);
        }
        assert forall|i: int| 0 <= i < b.len() implies 32 <= #[trigger] b[i] as u32 <= 127 by {
            if n > 0xffff {
                let x = unicode_escape(0xd800 + (n - 0x10000) / 1024);
                let y = unicode_escape(0xdc00 + (n - 0x10000) % 1024);
                if i < 6 {
                    assert(b[i] == x[i]);
                } else {
                    assert(b[i] == y[i - 6]);
                }
            }
        }
        assert forall|i: int| 0 <= i < ascii_chars(s).len() implies 32 <= #[trigger] ascii_chars(
            s,
        )[i] as u32 <= 127 by {
            if i < a.len() {
                assert(ascii_chars(s)[i] == a[i]);
            } else {
                assert(ascii_chars(s)[i] == b[i - a.len()]);
            }
        }
    }
}

/// The literal is plain ASCII on a single line, whatever the text.
pub proof fn literal_is_one_ascii_line(text: Seq<char>)
    ensures
        forall|i: int|
            0 <= i < text_literal(text).len() ==> 32 <= #[trigger] text_literal(text)[i] as u32 <= 127,
{
    let j = json_string(text);
    json_has_no_controls(text);
    assert forall|i: int| 0 <= i < j.len() implies #[trigger] j[i] as u32 >= 32 by {
        if 0 < i < j.len() - 1 {
            assert(j[i] == json_chars(text)[i - 1]);
        }
    }
    ascii_is_plain(j);
}

// ------------------------------------------------------------ reading it back

/// The UTF-16 units of a character.
pub open spec fn utf16_char(c: char) -> Seq<int> {
    let n = c as u32 as int;
    if n <= 0xffff {
        seq![n]
    } else {
        seq![0xd800 + (n - 0x10000) / 1024, 0xdc00 + (n - 0x10000) % 1024]
    }
}

/// The UTF-16 units of a text.
pub open spec fn utf16(s: Seq<char>) -> Seq<int>
    decreases s.len(),
{
    if s.len() == 0 {
        Seq::empty()
    } else {
        utf16(s.drop_last()) + utf16_char(s.last())
    }
}

/// The value of a hexadecimal digit.
pub open spec fn hex_value(c: char) -> int {
    if '0' <= c <= '9' {
        c as u32 - 48
    } else {
        c as u32 - 87
    }
}

/// The UTF-16 units that the inside of a string literal stands for.
pub open spec fn literal_units(s: Seq<char>) -> Seq<int>
    decreases s.len(),
{
    if s.len() == 0 {
        Seq::empty()
    } else if s[0] == '\\' && s.len() >= 6 && s[1] == 'u' {
        seq![
            4096 * hex_value(s[2]) + 256 * hex_value(s[3]) + 16 * hex_value(s[4]) + hex_value(s[5]),
        ] + literal_units(s.skip(6))
    } else if s[0] == '\\' && s.len() >= 2 {
        seq![
            if s[1] == 'b' {
                8
            } else if s[1] == 't' {
                9
            } else if s[1] == 'n' {
                10
            } else if s[1] == 'f' {
                12
            } else if s[1] == 'r' {
                13
            } else {
                s[1] as u32 as int
            },
        ] + literal_units(s.skip(2))
    } else {
        seq![s[0] as u32 as int] + literal_units(s.skip(1))
    }
}

proof fn hex_round_trip(d: int)
    requires
        0 <= d < 16,
    ensures
        hex_value(hex_digit(d)) == d,
{
}

proof fn escape_reads_back(n: int, rest: Seq<char>)
    requires
        0 <= n <= 0xffff,
    ensures
        literal_units(unicode_escape(n) + rest) == seq![n] + literal_units(rest),
{
    let s = unicode_escape(n) + rest;
    let a = (n / 4096) % 16;
    let b = (n / 256) % 16;
    let c = (n / 16) % 16;
    let d = n % 16;
    hex_round_trip(a);
    hex_round_trip(b);
    hex_round_trip(c);
    hex_round_trip(d);
    assert(s[2] == hex_digit(a) && s[3] == hex_digit(b) && s[4] == hex_digit(c) && s[5]
        == hex_digit(d));
    assert(n == 4096 * a + 256 * b + 16 * c + d);
    assert(s.skip(6) =~= rest);
}

/// A character of the text as it stands inside the literal.
spec fn written(c: char) -> Seq<char> {
    ascii_chars(json_char(c))
}

proof fn ascii_of_sum(a: Seq<char>, b: Seq<char>)
    ensures
        ascii_chars(a + b) == ascii_chars(a) + ascii_chars(b),
    decreases b.len(),
{
    if b.len() == 0 {
        assert(a + b =~= a);
        assert(ascii_chars(a) + ascii_chars(b) =~= ascii_chars(a));
    } else {
        ascii_of_sum(a, b.drop_last());
        assert((a + b).drop_last() =~= a + b.drop_last());
        assert((a + b).last() == b.last());
        assert((ascii_chars(a) + ascii_chars(b.drop_last())) + ascii_char(b.last())
            =~= ascii_chars(a) + (ascii_chars(b.drop_last()) + ascii_char(b.last())));
    }
}

proof fn ascii_of_one(c: char)
    ensures
        ascii_chars(seq![c]) == ascii_char(c),
{
    assert(seq![c].drop_last() =~= Seq::empty());
    assert(ascii_chars(Seq::<char>::empty()) =~= Seq::empty());
    assert(Seq::<char>::empty() + ascii_char(c) =~= ascii_char(c));
}

proof fn ascii_keeps(s: Seq<char>)
    requires
        forall|i: int| 0 <= i < s.len() ==> #[trigger] s[i] as u32 <= 0x7f,
    ensures
        ascii_chars(s) == s,
    decreases s.len(),
{
    if s.len() > 0 {
        let t = s.drop_last();
        assert forall|i: int| 0 <= i < t.len() implies #[trigger] t[i] as u32 <= 0x7f by {
            assert(t[i] == s[i]);
        }
        ascii_keeps(t);
        assert(s[s.len() - 1] as u32 <= 0x7f);
        assert(ascii_chars(s) =~= s);
    } else {
        assert(ascii_chars(s) =~= s);
    }
}

proof fn char_reads_back(c: char, rest: Seq<char>)
    ensures
        literal_units(written(c) + rest) == utf16_char(c) + literal_units(rest),
{
    let n = c as u32 as int;
    vstd::utf8::char_is_scalar(c);
    let j = json_char(c);
    if c == '"' || c == '\\' || n == 8 || n == 9 || n == 10 || n == 12 || n == 13 {
        assert(j.len() == 2);
        ascii_keeps(j);
        let s = j + rest;
        assert(s[0] == '\\' && s[1] == j[1]);
        assert(s.skip(2) =~= rest);
        assert(literal_units(s) =~= utf16_char(c) + literal_units(rest));
    } else if n < 32 {
        escape_is_plain(n);
        assert forall|i: int| 0 <= i < j.len() implies #[trigger] j[i] as u32 <= 0x7f by {}
        ascii_keeps(j);
        escape_reads_back(n, rest);
    } else {
        ascii_of_one(c);
        if n <= 0x7f {
            let s = seq![c] + rest;
            assert(s.skip(1) =~= rest);
            assert(literal_units(s) =~= utf16_char(c) + literal_units(rest));
        } else if n <= 0xffff {
            escape_reads_back(n, rest);
        } else {
            let high = 0xd800 + (n - 0x10000) / 1024;
            let low = 0xdc00 + (n - 0x10000) % 1024;
            let x = unicode_escape(high);
            let y = unicode_escape(low);
            escape_reads_back(high, y + rest);
            escape_reads_back(low, rest);
            assert((x + y) + rest =~= x + (y + rest));
            assert(seq![high] + (seq![low] + literal_units(rest)) =~= utf16_char(c) + literal_units(
                rest,
            ));
        }
    }
}

proof fn chars_read_back(text: Seq<char>, rest: Seq<char>)
    ensures
        literal_units(ascii_chars(json_chars(text)) + rest) == utf16(text) + literal_units(rest),
    decreases text.len(),
{
    if text.len() == 0 {
        assert(ascii_chars(json_chars(text)) + rest =~= rest);
        assert(utf16(text) + literal_units(rest) =~= literal_units(rest));
    } else {
        let t = text.drop_last();
        let c = text.last();
        ascii_of_sum(json_chars(t), json_char(c));
        chars_read_back(t, written(c) + rest);
        char_reads_back(c, rest);
        assert(ascii_chars(json_chars(text)) + rest =~= ascii_chars(json_chars(t)) + (written(c)
            + rest));
        assert(utf16(t) + (utf16_char(c) + literal_units(rest)) =~= utf16(text) + literal_units(
            rest,
        ));
    }
}

/// What the literal stands for is the text: it is a pair of quotes around characters that
/// read back as the UTF-16 units of the text.
pub proof fn literal_stands_for_the_text(text: Seq<char>)
    ensures
        ({
            let l = text_literal(text);
            &&& l.len() >= 2
            &&& l[0] == '"'
            &&& l.last() == '"'
            &&& literal_units(l.subrange(1, l.len() - 1)) == utf16(text)
        }),
{
    let inside = ascii_chars(json_chars(text));
    let q = seq!['"'];
    ascii_of_sum(q + json_chars(text), q);
    ascii_of_sum(q, json_chars(text));
    ascii_of_one('"');
    let l = text_literal(text);
    assert(l =~= q + inside + q);
    assert(l.subrange(1, l.len() - 1) =~= inside);
    chars_read_back(text, Seq::empty());
    assert(inside + Seq::<char>::empty() =~= inside);
    assert(utf16(text) + literal_units(Seq::empty()) =~= utf16(text));
}

} // verus!
