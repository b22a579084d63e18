//! Getting texts and attributes out of HTML without building a tree of it.
use crate::text::{
    ascii_lower, ascii_lower_chars, chars_of, find, find_chars, find_from, find_from_is_first,
    occurs_at, occurs_at_exec,
    is_white, is_white_char, leading_white, leading_white_bound, push_chars, replace_all,
    replace_chars, same_chars, split_words, starts_with, starts_with_text, string_of, text_of, trim,
    trim_chars, trimmed_end_len, trimmed_end_len_bound, views, words,
};
use crate::text_order::pair_views;
use vstd::prelude::*;
use vstd::slice::slice_subrange;

verus! {

/// A text literal as characters.
fn lit(s: &str) -> (v: Vec<char>)
    ensures
        v@ == s@,
{
    chars_of(s)
}

// ------------------------------------------------------- scripts and styles

/// Where the block that `open` starts and `close` ends stands in `low`: from its start to
/// behind its end. Where it has no end of its own, `other` ends it.
pub open spec fn block_from(low: Seq<char>, start: int, close: Seq<char>, other: Seq<char>) -> Option<
    (int, int),
> {
    match find_from(low, close, start) {
        Some(e) => Some((start, e + close.len())),
        None => match find_from(low, other, start) {
            Some(e) => Some((start, e + other.len())),
            None => None,
        },
    }
}

/// Where a style block that starts at `q` stands, the first script starting at `p`: where
/// the style has no end of its own, only the end of a script can end it, and only one that
/// stands before any script starts; else the script is what is first.
pub open spec fn style_block(low: Seq<char>, q: int, p: int) -> Option<(int, int)> {
    match find_from(low, "</style>"@, q) {
        Some(e) => Some((q, e + "</style>"@.len())),
        None => match find_from(low, "</script>"@, q) {
            Some(e) => if e < p {
                Some((q, e + "</script>"@.len()))
            } else {
                block_from(low, p, "</script>"@, "</style>"@)
            },
            None => None,
        },
    }
}

/// Where the first script or style block stands, whatever the case of its letters.
pub open spec fn first_block(html: Seq<char>) -> Option<(int, int)> {
    let low = ascii_lower(html);
    match (find(low, "<script"@), find(low, "<style"@)) {
        (Some(p), Some(q)) => if p < q {
            block_from(low, p, "</script>"@, "</style>"@)
        } else {
            style_block(low, q, p)
        },
        (Some(p), None) => block_from(low, p, "</script>"@, "</style>"@),
        (None, Some(q)) => block_from(low, q, "</style>"@, "</script>"@),
        (None, None) => None,
    }
}

proof fn close_lengths()
    ensures
        "</script>"@.len() == 9,
        "</style>"@.len() == 8,
        "<script"@.len() == 7,
        "<style"@.len() == 6,
{
    reveal_strlit("</script>");
    reveal_strlit("</style>");
    reveal_strlit("<script");
    reveal_strlit("<style");
}

pub proof fn first_block_bound(html: Seq<char>)
    ensures
        first_block(html) matches Some((a, b)) ==> 0 <= a < b <= html.len(),
{
    let low = ascii_lower(html);
    close_lengths();
    find_from_is_first(low, "<script"@, 0);
    find_from_is_first(low, "<style"@, 0);
    if let Some(p) = find(low, "<script"@) {
        find_from_is_first(low, "</script>"@, p);
        find_from_is_first(low, "</style>"@, p);
    }
    if let Some(q) = find(low, "<style"@) {
        find_from_is_first(low, "</script>"@, q);
        find_from_is_first(low, "</style>"@, q);
    }
}

/// A stretch of a text.
#[derive(Debug, Clone, Copy)]
pub struct Span {
    pub start: usize,
    pub end: usize,
}

fn span_from(low: &[char], start: usize, close: &[char], other: &[char]) -> (r: Option<Span>)
    requires
        start <= low.len(),
    ensures
        match r {
            Some(s) => block_from(low@, start as int, close@, other@) == Some(
                (s.start as int, s.end as int),
            ),
            None => block_from(low@, start as int, close@, other@) is None,
        },
{
    match find_chars(low, close, start) {
        Some(e) => Some(Span { start, end: e + close.len() }),
        None => match find_chars(low, other, start) {
            Some(e) => Some(Span { start, end: e + other.len() }),
            None => None,
        },
    }
}

/// Where the first script or style block stands, whatever the case of its letters.
pub fn find_script_or_style(html: &[char]) -> (r: Option<Span>)
    ensures
        match r {
            Some(s) => first_block(html@) == Some((s.start as int, s.end as int)) && s.start < s.end
                && s.end <= html@.len(),
            None => first_block(html@) is None,
        },
{
    let low: Vec<char> = ascii_lower_chars(html);
    let script: Vec<char> = lit("<script");
    let style: Vec<char> = lit("<style");
    let end_script: Vec<char> = lit("</script>");
    let end_style: Vec<char> = lit("</style>");
    proof {
        first_block_bound(html@);
    }
    match (find_chars(&low, &script, 0), find_chars(&low, &style, 0)) {
        (Some(p), Some(q)) => if p < q {
            span_from(&low, p, &end_script, &end_style)
        } else {
            match (find_chars(&low, &end_style, q), find_chars(&low, &end_script, q)) {
                (Some(e), _) => Some(Span { start: q, end: e + end_style.len() }),
                (None, Some(e)) => if e < p {
                    Some(Span { start: q, end: e + end_script.len() })
                } else {
                    span_from(&low, p, &end_script, &end_style)
                },
                (None, None) => None,
            }
        },
        (Some(p), None) => span_from(&low, p, &end_script, &end_style),
        (None, Some(q)) => span_from(&low, q, &end_style, &end_script),
        (None, None) => None,
    }
}

/// `html` without its script and style blocks.
pub open spec fn without_blocks(html: Seq<char>) -> Seq<char>
    decreases html.len(),
{
    match first_block(html) {
        Some((a, b)) => if 0 <= a < b <= html.len() {
            html.take(a) + without_blocks(html.skip(b))
        } else {
            html
        },
        None => html,
    }
}

fn drop_blocks(html: &[char]) -> (out: Vec<char>)
    ensures
        out@ == without_blocks(html@),
{
    let mut out: Vec<char> = Vec::new();
    let mut from: usize = 0;
    assert(html@.skip(0) =~= html@);
    assert(out@ + without_blocks(html@) =~= without_blocks(html@));
    loop
        invariant
            from <= html.len(),
            out@ + without_blocks(html@.skip(from as int)) == without_blocks(html@),
        decreases html.len() - from,
    {
        let rest: &[char] = slice_subrange(html, from, html.len());
        let ghost r = html@.skip(from as int);
        assert(rest@ =~= r);
        match find_script_or_style(rest) {
            Some(s) => {
                let ghost before = out@;
                push_chars(&mut out, slice_subrange(rest, 0, s.start));
                proof {
                    assert(r.take(s.start as int) =~= rest@.subrange(0, s.start as int));
                    assert(r.skip(s.end as int) =~= html@.skip(from + s.end));
                    assert(before + (r.take(s.start as int) + without_blocks(
                        html@.skip(from + s.end),
                    )) =~= out@ + without_blocks(html@.skip(from + s.end)));
                }
                from = from + s.end;
            },
            None => {
                push_chars(&mut out, rest);
                return out;
            },
        }
    }
}

// ------------------------------------------------------------------------ tags

/// What stands outside of tags in `s`, the text starting inside a tag where `in_tag`
/// says so.
pub open spec fn outside_tags(s: Seq<char>, in_tag: bool) -> Seq<char>
    decreases s.len(),
{
    if s.len() == 0 {
        Seq::empty()
    } else if s[0] == '<' {
        outside_tags(s.skip(1), true)
    } else if s[0] == '>' {
        outside_tags(s.skip(1), false)
    } else if in_tag {
        outside_tags(s.skip(1), true)
    } else {
        seq![s[0]] + outside_tags(s.skip(1), false)
    }
}

fn drop_tags(s: &[char]) -> (out: Vec<char>)
    ensures
        out@ == outside_tags(s@, false),
{
    let mut out: Vec<char> = Vec::new();
    let mut in_tag: bool = false;
    let mut i: usize = 0;
    assert(s@.skip(0) =~= s@);
    assert(out@ + outside_tags(s@, false) =~= outside_tags(s@, false));
    while i < s.len()
        invariant
            i <= s.len(),
            out@ + outside_tags(s@.skip(i as int), in_tag) == outside_tags(s@, false),
        decreases s.len() - i,
    {
        let c: char = s[i];
        let ghost rest = s@.skip(i as int);
        assert(rest[0] == c);
        assert(rest.skip(1) =~= s@.skip(i as int + 1));
        if c == '<' {
            in_tag = true;
        } else if c == '>' {
            in_tag = false;
        } else if !in_tag {
            let ghost before = out@;
            out.push(c);
            assert(before + (seq![c] + outside_tags(rest.skip(1), false)) =~= out@ + outside_tags(
                rest.skip(1),
                false,
            ));
        }
        i += 1;
    }
    assert(out@ + outside_tags(s@.skip(i as int), in_tag) =~= out@);
    out
}

/// `s` with the common entities replaced by the characters they stand for.
pub open spec fn decoded(s: Seq<char>) -> Seq<char> {
    let a = replace_all(s, "&nbsp;"@, " "@);
    let b = replace_all(a, "&#160;"@, " "@);
    let c = replace_all(b, "&amp;"@, "&"@);
    let d = replace_all(c, "&lt;"@, "<"@);
    let e = replace_all(d, "&gt;"@, ">"@);
    let f = replace_all(e, "&quot;"@, "\""@);
    replace_all(f, "&#39;"@, "'"@)
}

fn decode(s: &[char]) -> (r: Vec<char>)
    ensures
        r@ == decoded(s@),
{
    proof {
        reveal_strlit("&nbsp;");
        reveal_strlit("&#160;");
        reveal_strlit("&amp;");
        reveal_strlit("&lt;");
        reveal_strlit("&gt;");
        reveal_strlit("&quot;");
        reveal_strlit("&#39;");
    }
    let space: Vec<char> = lit(" ");
    let a: Vec<char> = replace_chars(s, &lit("&nbsp;"), &space);
    let b: Vec<char> = replace_chars(&a, &lit("&#160;"), &space);
    let c: Vec<char> = replace_chars(&b, &lit("&amp;"), &lit("&"));
    let d: Vec<char> = replace_chars(&c, &lit("&lt;"), &lit("<"));
    let e: Vec<char> = replace_chars(&d, &lit("&gt;"), &lit(">"));
    let f: Vec<char> = replace_chars(&e, &lit("&quot;"), &lit("\""));
    replace_chars(&f, &lit("&#39;"), &lit("'"))
}

/// `s` with each run of whitespace made one space; `last` says that a run has begun
/// before `s`.
pub open spec fn collapsed(s: Seq<char>, last: bool) -> Seq<char>
    decreases s.len(),
{
    if s.len() == 0 {
        Seq::empty()
    } else if is_white(s[0]) {
        if last {
            collapsed(s.skip(1), true)
        } else {
            seq![' '] + collapsed(s.skip(1), true)
        }
    } else {
        seq![s[0]] + collapsed(s.skip(1), false)
    }
}

fn collapse(s: &[char]) -> (out: Vec<char>)
    ensures
        out@ == collapsed(s@, false),
{
    let mut out: Vec<char> = Vec::new();
    let mut last: bool = false;
    let mut i: usize = 0;
    assert(s@.skip(0) =~= s@);
    assert(out@ + collapsed(s@, false) =~= collapsed(s@, false));
    while i < s.len()
        invariant
            i <= s.len(),
            out@ + collapsed(s@.skip(i as int), last) == collapsed(s@, false),
        decreases s.len() - i,
    {
        let c: char = s[i];
        let ghost rest = s@.skip(i as int);
        assert(rest[0] == c);
        assert(rest.skip(1) =~= s@.skip(i as int + 1));
        let ghost before = out@;
        if is_white_char(c) {
            if !last {
                out.push(' ');
                assert(before + (seq![' '] + collapsed(rest.skip(1), true)) =~= out@ + collapsed(
                    rest.skip(1),
                    true,
                ));
            }
            last = true;
        } else {
            out.push(c);
            assert(before + (seq![c] + collapsed(rest.skip(1), false)) =~= out@ + collapsed(
                rest.skip(1),
                false,
            ));
            last = false;
        }
        i += 1;
    }
    assert(out@ + collapsed(s@.skip(i as int), last) =~= out@);
    out
}

/// The text of a piece of HTML: without scripts, styles and tags, with the common
/// entities decoded, and with single spaces.
pub open spec fn plain_text(html: Seq<char>) -> Seq<char> {
    trim(collapsed(decoded(outside_tags(without_blocks(html), false)), false))
}

/// The text of a piece of HTML.
pub fn strip_tags_chars(html: &[char]) -> (r: String)
    ensures
        r@ == plain_text(html@),
{
    let a: Vec<char> = drop_blocks(html);
    let b: Vec<char> = drop_tags(&a);
    let c: Vec<char> = decode(&b);
    let d: Vec<char> = collapse(&c);
    string_of(trim_chars(&d))
}

/// The text of a piece of HTML.
pub fn strip_tags(html: &str) -> (r: String)
    ensures
        r@ == plain_text(html@),
{
    strip_tags_chars(&chars_of(html))
}

/// Whitespace only as single spaces.
pub open spec fn single_spaced(s: Seq<char>) -> bool {
    forall|i: int|
        0 <= i < s.len() && is_white(#[trigger] s[i]) ==> s[i] == ' ' && (i + 1 < s.len()
            ==> !is_white(s[i + 1]))
}

proof fn collapsed_is_single_spaced(s: Seq<char>, last: bool)
    ensures
        single_spaced(collapsed(s, last)),
        last && collapsed(s, last).len() > 0 ==> !is_white(collapsed(s, last)[0]),
    decreases s.len(),
{
    if s.len() > 0 {
        let rest = s.skip(1);
        let white = is_white(s[0]);
        collapsed_is_single_spaced(rest, white);
        let tail = collapsed(rest, white);
        let all = collapsed(s, last);
        if !(white && last) {
            let c = if white {
                ' '
            } else {
                s[0]
            };
            assert(all =~= seq![c] + tail);
            assert forall|i: int| 0 <= i < all.len() && is_white(#[trigger] all[i]) implies all[i]
                == ' ' && (i + 1 < all.len() ==> !is_white(all[i + 1])) by {
                if i > 0 {
                    assert(all[i] == tail[i - 1]);
                    if i + 1 < all.len() {
                        assert(all[i + 1] == tail[i]);
                    }
                } else if i + 1 < all.len() {
                    assert(all[1] == tail[0]);
                }
            }
        }
    }
}

/// The text of a piece of HTML neither starts nor ends with whitespace, and inside it there
/// are only single spaces.
pub proof fn plain_text_is_tidy(html: Seq<char>)
    ensures
        single_spaced(plain_text(html)),
        plain_text(html).len() > 0 ==> !is_white(plain_text(html)[0]) && !is_white(
            plain_text(html).last(),
        ),
{
    let c = collapsed(decoded(outside_tags(without_blocks(html), false)), false);
    collapsed_is_single_spaced(decoded(outside_tags(without_blocks(html), false)), false);
    leading_white_bound(c);
    let a = leading_white(c) as int;
    let s = c.skip(a);
    trimmed_end_len_bound(s);
    let b = trimmed_end_len(s) as int;
    let t = s.take(b);
    assert(t == plain_text(html));
    assert forall|i: int| 0 <= i < t.len() && is_white(#[trigger] t[i]) implies t[i] == ' ' && (i + 1
        < t.len() ==> !is_white(t[i + 1])) by {
        assert(t[i] == c[a + i]);
        if i + 1 < t.len() {
            assert(t[i + 1] == c[a + i + 1]);
        }
    }
    if t.len() > 0 {
        assert(t[0] == c[a]);
        assert(t.last() == s[b - 1]);
    }
}

// ------------------------------------------------------------------ attributes

/// A character that names of attributes are made of.
pub open spec fn in_attribute_name(c: char) -> bool {
    'a' <= c <= 'z' || 'A' <= c <= 'Z' || '0' <= c <= '9' || c == '-' || c == '_' || c == ':' || c
        == '.'
}

fn is_in_attribute_name(c: char) -> (r: bool)
    ensures
        r == in_attribute_name(c),
{
    ('a' <= c && c <= 'z') || ('A' <= c && c <= 'Z') || ('0' <= c && c <= '9') || c == '-' || c
        == '_' || c == ':' || c == '.'
}

/// Where `needle` stands in `tag` from `from` on, and is no end of a longer name.
pub open spec fn attribute_from(tag: Seq<char>, needle: Seq<char>, from: int) -> Option<int>
    decreases tag.len() + 1 - from,
{
    if from < 0 || from + needle.len() > tag.len() {
        None
    } else if occurs_at(tag, needle, from) && (from == 0 || !in_attribute_name(tag[from - 1])) {
        Some(from)
    } else {
        attribute_from(tag, needle, from + 1)
    }
}

fn find_attribute(tag: &[char], needle: &[char]) -> (r: Option<usize>)
    requires
        needle.len() > 0,
    ensures
        match r {
            Some(i) => attribute_from(tag@, needle@, 0) == Some(i as int) && i + needle.len()
                <= tag.len(),
            None => attribute_from(tag@, needle@, 0) is None,
        },
{
    let mut i: usize = 0;
    while i < tag.len() && needle.len() <= tag.len() - i
        invariant
            i <= tag.len(),
            attribute_from(tag@, needle@, 0) == attribute_from(tag@, needle@, i as int),
        decreases tag.len() - i,
    {
        if occurs_at_exec(tag, needle, i) && (i == 0 || !is_in_attribute_name(tag[i - 1])) {
            return Some(i);
        }
        i += 1;
    }
    None
}

/// The value of the attribute `name` in `tag`: what stands in quotes behind the first
/// `name=`.
pub open spec fn attribute(tag: Seq<char>, name: Seq<char>) -> Option<Seq<char>> {
    match attribute_from(tag, name + seq!['='], 0) {
        Some(i) => {
            let rest = tag.skip(i + name.len() + 1);
            if rest.len() > 0 && (rest[0] == '"' || rest[0] == '\'') {
                match find_from(rest, seq![rest[0]], 1) {
                    Some(e) => Some(rest.subrange(1, e)),
                    None => None,
                }
            } else {
                None
            }
        },
        None => None,
    }
}

/// The value of the attribute `name` in `tag`.
pub fn extract_attr_chars(tag: &[char], name: &str) -> (r: Option<String>)
    ensures
        text_of(r) == attribute(tag@, name@),
{
    let mut needle: Vec<char> = chars_of(name);
    needle.push('=');
    assert(needle@ =~= name@ + seq!['=']);
    match find_attribute(tag, &needle) {
        Some(i) => {
            let rest: &[char] = slice_subrange(tag, i + needle.len(), tag.len());
            assert(rest@ =~= tag@.skip(i + name@.len() + 1));
            if rest.len() > 0 && (rest[0] == '"' || rest[0] == '\'') {
                let quote: Vec<char> = vec![rest[0]];
                assert(quote@ =~= seq![rest@[0]]);
                match find_chars(rest, &quote, 1) {
                    Some(e) => Some(string_of(slice_subrange(rest, 1, e))),
                    None => None,
                }
            } else {
                None
            }
        },
        None => None,
    }
}

/// The value of the attribute `name` in `tag`.
pub fn extract_attr(tag: &str, name: &str) -> (r: Option<String>)
    ensures
        text_of(r) == attribute(tag@, name@),
{
    extract_attr_chars(&chars_of(tag), name)
}

/// The earlier of two places.
pub open spec fn earlier(a: Option<int>, b: Option<int>) -> Option<int> {
    match (a, b) {
        (Some(x), Some(y)) => Some(
            if x <= y {
                x
            } else {
                y
            },
        ),
        (Some(x), None) => Some(x),
        (None, _) => b,
    }
}

/// The text and the target of the link that opens at `a`: nothing where it has no target
/// or no end.
pub open spec fn link_at(block: Seq<char>, a: int) -> Option<(Seq<char>, Seq<char>)> {
    match find_from(block, ">"@, a) {
        Some(e) => match attribute(block.subrange(a, e), "href"@) {
            Some(href) => match find_from(block, "</a>"@, e + 1) {
                Some(z) => Some((plain_text(block.subrange(e + 1, z)), href)),
                None => None,
            },
            None => None,
        },
        None => None,
    }
}

/// The first link that opens between `from` and `end`.
pub open spec fn link_between(block: Seq<char>, from: int, end: int) -> Option<
    (Seq<char>, Seq<char>),
>
    decreases end - from,
{
    match find_from(block, "<a "@, from) {
        Some(a) => if from <= a < end {
            match link_at(block, a) {
                Some(link) => Some(link),
                None => link_between(block, a + 1, end),
            }
        } else {
            None
        },
        None => None,
    }
}

/// Where the heading that opens at `h` is closed.
pub open spec fn heading_close(block: Seq<char>, h: int) -> Option<int> {
    if occurs_at(block, "<h2"@, h) {
        find_from(block, "</h2"@, h)
    } else {
        find_from(block, "</h3"@, h)
    }
}

/// The first link in a heading of the second or third level, from `from` on. A heading that
/// is not closed goes on to the end.
pub open spec fn heading_link_from(block: Seq<char>, from: int) -> Option<(Seq<char>, Seq<char>)>
    decreases block.len() - from,
{
    match earlier(find_from(block, "<h2"@, from), find_from(block, "<h3"@, from)) {
        Some(h) => match heading_close(block, h) {
            Some(c) => match link_between(block, h, c) {
                Some(link) => Some(link),
                None => if from < c <= block.len() {
                    heading_link_from(block, c)
                } else {
                    None
                },
            },
            None => link_between(block, h, block.len() as int),
        },
        None => None,
    }
}

/// The text and the target of the first link in a heading of the second or third level.
pub open spec fn heading_link(block: Seq<char>) -> Option<(Seq<char>, Seq<char>)> {
    heading_link_from(block, 0)
}

/// The texts of an optional pair of strings.
pub open spec fn pair_text(p: Option<(String, String)>) -> Option<(Seq<char>, Seq<char>)> {
    match p {
        Some((a, b)) => Some((a@, b@)),
        None => None,
    }
}

fn link_opening_at(v: &[char], a: usize) -> (r: Option<(String, String)>)
    requires
        a <= v.len(),
    ensures
        pair_text(r) == link_at(v@, a as int),
{
    proof {
        reveal_strlit(">");
    }
    let e: usize = match find_chars(v, &lit(">"), a) {
        Some(e) => e,
        None => {
            return None;
        },
    };
    let href: String = match extract_attr_chars(slice_subrange(v, a, e), "href") {
        Some(href) => href,
        None => {
            return None;
        },
    };
    match find_chars(v, &lit("</a>"), e + 1) {
        Some(z) => Some((strip_tags_chars(slice_subrange(v, e + 1, z)), href)),
        None => None,
    }
}

fn first_link_between(v: &[char], from: usize, end: usize) -> (r: Option<(String, String)>)
    requires
        from <= end <= v.len(),
    ensures
        pair_text(r) == link_between(v@, from as int, end as int),
{
    let open: Vec<char> = lit("<a ");
    let mut at: usize = from;
    loop
        invariant
            at <= end <= v.len(),
            open@ == "<a "@,
            link_between(v@, from as int, end as int) == link_between(v@, at as int, end as int),
        decreases end - at,
    {
        match find_chars(v, &open, at) {
            Some(a) => {
                if a >= end {
                    return None;
                }
                let link: Option<(String, String)> = link_opening_at(v, a);
                if link.is_some() {
                    return link;
                }
                at = a + 1;
            },
            None => {
                return None;
            },
        }
    }
}

/// The text and the target of the first link in a heading of the second or third level.
pub fn first_anchor_in_h3(block: &str) -> (r: Option<(String, String)>)
    ensures
        pair_text(r) == heading_link(block@),
{
    let v: Vec<char> = chars_of(block);
    let open2: Vec<char> = lit("<h2");
    let open3: Vec<char> = lit("<h3");
    let close2: Vec<char> = lit("</h2");
    let close3: Vec<char> = lit("</h3");
    let mut from: usize = 0;
    loop
        invariant
            from <= v.len(),
            v@ == block@,
            open2@ == "<h2"@,
            open3@ == "<h3"@,
            close2@ == "</h2"@,
            close3@ == "</h3"@,
            heading_link(block@) == heading_link_from(v@, from as int),
        decreases v.len() - from,
    {
        let h: usize = match (find_chars(&v, &open2, from), find_chars(&v, &open3, from)) {
            (Some(x), Some(y)) => if x <= y {
                x
            } else {
                y
            },
            (Some(x), None) => x,
            (None, Some(y)) => y,
            (None, None) => {
                return None;
            },
        };
        let close: Option<usize> = if occurs_at_exec(&v, &open2, h) {
            find_chars(&v, &close2, h)
        } else {
            find_chars(&v, &close3, h)
        };
        match close {
            Some(c) => {
                let link: Option<(String, String)> = first_link_between(&v, h, c);
                if link.is_some() {
                    return link;
                }
                proof {
                    reveal_strlit("<h2");
                    reveal_strlit("<h3");
                    reveal_strlit("</h2");
                    reveal_strlit("</h3");
                    if c == h {
                        assert(v@.subrange(h as int, h + 3)[1] == v@[h + 1]);
                        assert(v@.subrange(h as int, h + 4)[1] == v@[h + 1]);
                        assert(false);
                    }
                }
                from = c;
            },
            None => {
                return first_link_between(&v, h, v.len());
            },
        }
    }
}

/// Where a tag that opens with `open` stands, from `from` on: the name of the tag ends
/// there.
pub open spec fn tag_from(s: Seq<char>, open: Seq<char>, from: int) -> Option<int>
    decreases s.len() - from,
{
    if from < 0 || from + open.len() >= s.len() {
        None
    } else if occurs_at(s, open, from) && (s[from + open.len()] == '>' || is_white(
        s[from + open.len()],
    )) {
        Some(from)
    } else {
        tag_from(s, open, from + 1)
    }
}

fn find_tag(s: &[char], open: &[char]) -> (r: Option<usize>)
    ensures
        match r {
            Some(i) => tag_from(s@, open@, 0) == Some(i as int) && i + open.len() < s.len(),
            None => tag_from(s@, open@, 0) is None,
        },
{
    let mut i: usize = 0;
    while i < s.len() && open.len() < s.len() - i
        invariant
            i <= s.len(),
            tag_from(s@, open@, 0) == tag_from(s@, open@, i as int),
        decreases s.len() - i,
    {
        let c: char = s[i + open.len()];
        if occurs_at_exec(s, open, i) && (c == '>' || is_white_char(c)) {
            return Some(i);
        }
        i += 1;
    }
    None
}

/// The text of the first paragraph, empty where there is none or it is not closed.
pub open spec fn paragraph_text(block: Seq<char>) -> Seq<char> {
    match tag_from(block, "<p"@, 0) {
        Some(p) => match find_from(block, ">"@, p) {
            Some(e) => match find_from(block, "</p>"@, e + 1) {
                Some(z) => plain_text(block.subrange(e + 1, z)),
                None => Seq::empty(),
            },
            None => Seq::empty(),
        },
        None => Seq::empty(),
    }
}

fn empty_string() -> (s: String)
    ensures
        s@ == Seq::<char>::empty(),
{
    let s = String::new();
    assert(s@ =~= Seq::empty());
    s
}

/// The text of the first paragraph.
pub fn first_p_text(block: &str) -> (r: String)
    ensures
        r@ == paragraph_text(block@),
{
    let v: Vec<char> = chars_of(block);
    proof {
        reveal_strlit(">");
    }
    match find_tag(&v, &lit("<p")) {
        Some(p) => match find_chars(&v, &lit(">"), p) {
            Some(e) => match find_chars(&v, &lit("</p>"), e + 1) {
                Some(z) => strip_tags_chars(slice_subrange(&v, e + 1, z)),
                None => empty_string(),
            },
            None => empty_string(),
        },
        None => empty_string(),
    }
}

// --------------------------------------------------------- elements by class

/// A tag: its whole text and its name.
pub const TAG_PATTERN: &'static str = "</?([a-zA-Z][a-zA-Z0-9]*)[^>]*>";

/// The pieces of `text` between the matches of the regular expression `pattern`, as the
/// `regex` crate splits it; nothing where the pattern is no regular expression.
pub uninterp spec fn regex_pieces(pattern: Seq<char>, text: Seq<char>) -> Option<Seq<Seq<char>>>;

/// The matches of the regular expression `pattern` in `text`, as the `regex` crate finds
/// them: of each its whole text and that of its first group, empty where the group took
/// no part; nothing where the pattern is no regular expression.
pub uninterp spec fn regex_matches(pattern: Seq<char>, text: Seq<char>) -> Option<
    Seq<(Seq<char>, Seq<char>)>,
>;

/// The texts of an optional list of strings.
pub open spec fn list_text(v: Option<Vec<String>>) -> Option<Seq<Seq<char>>> {
    match v {
        Some(x) => Some(views(x@)),
        None => None,
    }
}

/// The texts of an optional list of string pairs.
pub open spec fn pairs_text(v: Option<Vec<(String, String)>>) -> Option<
    Seq<(Seq<char>, Seq<char>)>,
> {
    match v {
        Some(x) => Some(pair_views(x@)),
        None => None,
    }
}

/// `regex::Regex::new` and `Regex::split`: the pieces are a function of the pattern and the
/// text, and there is one more of them than there are matches.
#[verifier::external_body]
pub(crate) fn split_by(pattern: &str, text: &str) -> (r: Option<Vec<String>>)
    ensures
        list_text(r) == regex_pieces(pattern@, text@),
        r matches Some(v) ==> regex_matches(pattern@, text@) is Some && v@.len() == regex_matches(
            pattern@,
            text@,
        )->0.len() + 1,
{
    let re = regex::Regex::new(pattern).ok()?;
    Some(re.split(text).map(|piece| piece.to_string()).collect())
}

/// `regex::Regex::new` and `Regex::captures_iter`: the matches are a function of the
/// pattern and the text.
#[verifier::external_body]
pub(crate) fn matches_of(pattern: &str, text: &str) -> (r: Option<Vec<(String, String)>>)
    ensures
        pairs_text(r) == regex_matches(pattern@, text@),
{
    let re = regex::Regex::new(pattern).ok()?;
    let first = |c: &regex::Captures| c.get(1).map(|g| g.as_str()).unwrap_or_default().to_string();
    Some(re.captures_iter(text).map(|c| (c[0].to_string(), first(&c))).collect())
}

/// Where the search for an element stands: whether one has been found, its name, how deep
/// the search is in elements of that name, and its text so far.
pub struct ClassScan {
    pub found: bool,
    pub name: Seq<char>,
    pub depth: nat,
    pub text: Seq<char>,
}

/// The tag carries the class.
pub open spec fn has_class(tag: Seq<char>, class: Seq<char>) -> bool {
    match attribute(tag, "class"@) {
        Some(classes) => words(classes).contains(class),
        None => false,
    }
}

/// The text of an element, nothing where it is empty.
pub open spec fn element_text(text: Seq<char>) -> Option<Seq<char>> {
    if plain_text(text).len() == 0 {
        None
    } else {
        Some(plain_text(text))
    }
}

/// The text of the first element with the class, among the tags from the `i`th on; `pieces`
/// stand between them. The element ends with the close tag that matches its open tag, or
/// with the last tag of all.
pub open spec fn class_text(
    pieces: Seq<Seq<char>>,
    tags: Seq<(Seq<char>, Seq<char>)>,
    class: Seq<char>,
    i: int,
    s: ClassScan,
) -> Option<Seq<char>>
    decreases tags.len() - i,
{
    if i < 0 || i >= tags.len() {
        if s.found {
            element_text(s.text)
        } else {
            None
        }
    } else {
        let tag = tags[i].0;
        let name = ascii_lower(tags[i].1);
        let closes = starts_with(tag, "</"@);
        let text = if s.found {
            s.text + pieces[i]
        } else {
            s.text
        };
        if !s.found {
            if !closes && has_class(tag, class) {
                class_text(
                    pieces,
                    tags,
                    class,
                    i + 1,
                    ClassScan { found: true, name, depth: 1, text },
                )
            } else {
                class_text(pieces, tags, class, i + 1, s)
            }
        } else if closes && name == s.name {
            if s.depth <= 1 {
                element_text(text)
            } else {
                class_text(
                    pieces,
                    tags,
                    class,
                    i + 1,
                    ClassScan { depth: (s.depth - 1) as nat, text, ..s },
                )
            }
        } else if !closes && name == s.name {
            class_text(
                pieces,
                tags,
                class,
                i + 1,
                ClassScan { depth: s.depth + 1, text, ..s },
            )
        } else {
            class_text(pieces, tags, class, i + 1, ClassScan { text, ..s })
        }
    }
}

/// No element found yet.
pub open spec fn fresh_scan() -> ClassScan {
    ClassScan { found: false, name: Seq::empty(), depth: 0, text: Seq::empty() }
}

/// Whether the tag carries the class.
pub fn tag_has_class(tag: &str, class: &str) -> (r: bool)
    ensures
        r == has_class(tag@, class@),
{
    match extract_attr(tag, "class") {
        Some(classes) => {
            let list: Vec<String> = split_words(&chars_of(classes.as_str()));
            crate::evolution_backups::list_contains(&list, class)
        },
        None => false,
    }
}

fn text_of_element(text: &[char]) -> (r: Option<String>)
    ensures
        text_of(r) == element_text(text@),
{
    let t: String = strip_tags_chars(text);
    if t.as_str().is_empty() {
        None
    } else {
        Some(t)
    }
}

/// The text of the first element with the class; `pieces` stand between the `tags`.
pub fn class_text_of(pieces: &Vec<String>, tags: &Vec<(String, String)>, class: &str) -> (r:
    Option<String>)
    requires
        pieces@.len() == tags@.len() + 1,
    ensures
        text_of(r) == class_text(views(pieces@), pair_views(tags@), class@, 0, fresh_scan()),
{
    let ghost ps = views(pieces@);
    let ghost ts = pair_views(tags@);
    let mut found: bool = false;
    let mut open_name: Vec<char> = Vec::new();
    let mut depth: usize = 0;
    let mut buf: Vec<char> = Vec::new();
    let mut i: usize = 0;
    assert(open_name@ =~= Seq::empty());
    assert(buf@ =~= Seq::empty());
    while i < tags.len()
        invariant
            i <= tags.len(),
            pieces@.len() == tags@.len() + 1,
            ps == views(pieces@),
            ts == pair_views(tags@),
            depth <= i,
            found ==> depth >= 1,
            class_text(ps, ts, class@, 0, fresh_scan()) == class_text(
                ps,
                ts,
                class@,
                i as int,
                (ClassScan { found, name: open_name@, depth: depth as nat, text: buf@ }),
            ),
        decreases tags.len() - i,
    {
        assert(ts[i as int] == (tags@[i as int].0@, tags@[i as int].1@));
        assert(ps[i as int] == pieces@[i as int]@);
        let tag: &str = tags[i].0.as_str();
        let name: Vec<char> = ascii_lower_chars(&chars_of(tags[i].1.as_str()));
        let closes: bool = starts_with_text(tag, "</");
        if !found {
            if !closes && tag_has_class(tag, class) {
                found = true;
                open_name = name;
                depth = 1;
            }
        } else {
            push_chars(&mut buf, &chars_of(pieces[i].as_str()));
            if same_chars(&name, &open_name) {
                if closes {
                    if depth == 1 {
                        return text_of_element(&buf);
                    }
                    depth = depth - 1;
                } else {
                    depth = depth + 1;
                }
            }
        }
        i += 1;
    }
    assert(ts.len() == tags@.len());
    if found {
        text_of_element(&buf)
    } else {
        None
    }
}

/// The text of the first element of `block` with the class.
pub open spec fn class_text_in(block: Seq<char>, class: Seq<char>) -> Option<Seq<char>> {
    match (regex_pieces(TAG_PATTERN@, block), regex_matches(TAG_PATTERN@, block)) {
        (Some(pieces), Some(tags)) => class_text(pieces, tags, class, 0, fresh_scan()),
        _ => None,
    }
}

/// The text of the first element of `block` with the class.
pub fn extract_class_text(block: &str, class: &str) -> (r: Option<String>)
    ensures
        text_of(r) == class_text_in(block@, class@),
{
    match (split_by(TAG_PATTERN, block), matches_of(TAG_PATTERN, block)) {
        (Some(pieces), Some(tags)) => {
            assert(pair_views(tags@).len() == tags@.len());
            class_text_of(&pieces, &tags, class)
        },
        _ => None,
    }
}

} // verus!
