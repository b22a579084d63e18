//! What counts as nesting in a page.
use crate::html_nesting::{
    after_in_tag, depth_of, ends_tag_name, holds_text_only, in_drawing, is_always_empty, is_letter,
    is_mostly_empty, most_open, name_end, nesting, piece_at, script_end, tag_end, text_end, word_at,
    word_from, ScriptPlace, TagPlace,
};
use crate::text::{ascii_lower, find_from, find_from_is_first, occurs_at};
use vstd::prelude::*;

verus! {

/// A page without tags has no depth.
pub proof fn text_is_flat(s: Seq<char>)
    requires
        forall|i: int| 0 <= i < s.len() ==> #[trigger] s[i] != '<',
    ensures
        nesting(s) == 0,
{
    flat_from(s, 0);
}

proof fn flat_from(s: Seq<char>, i: int)
    requires
        0 <= i,
        forall|j: int| 0 <= j < s.len() ==> #[trigger] s[j] != '<',
    ensures
        most_open(s, i, Seq::empty(), 0) == 0,
    decreases s.len() - i,
{
    if i < s.len() {
        assert(s[i] != '<');
        assert(depth_of(Seq::<Seq<char>>::empty()) == 0);
        flat_from(s, i + 1);
    }
}

/// An element counts as one level, and a table as three: its body and a row come with it.
pub proof fn tables_count_three(open: Seq<Seq<char>>)
    ensures
        depth_of(open) == open.len() + 2 * open.filter(|n: Seq<char>| n == "table"@).len(),
    decreases open.len(),
{
    reveal(Seq::filter);
    if open.len() > 0 {
        tables_count_three(open.drop_last());
    }
}

/// A tag of this name stands at the place, without attributes, and ends before `e`.
pub open spec fn bare_tag(s: Seq<char>, j: int, e: int, name: Seq<char>) -> bool {
    &&& 0 <= j < e <= s.len()
    &&& is_letter(s[j])
    &&& forall|k: int| j <= k < e - 1 ==> !ends_tag_name(#[trigger] s[k])
    &&& j < e - 1 && s[e - 1] == '>'
    &&& ascii_lower(s.subrange(j, e - 1)) == name
}

proof fn bare_tag_ends(s: Seq<char>, j: int, e: int, name: Seq<char>)
    requires
        bare_tag(s, j, e, name),
    ensures
        name_end(s, j) == e - 1,
        tag_end(s, e - 1, TagPlace::Before) == Some(e),
{
    name_ends(s, j, e - 1);
}

proof fn name_ends(s: Seq<char>, j: int, e: int)
    requires
        0 <= j <= e < s.len(),
        forall|k: int| j <= k < e ==> !ends_tag_name(#[trigger] s[k]),
        ends_tag_name(s[e]),
    ensures
        name_end(s, j) == e,
    decreases e - j,
{
    if j < e {
        assert(!ends_tag_name(s[j]));
        name_ends(s, j + 1, e);
    }
}

/// An element that can hold others, and whose content is read as tags.
pub open spec fn is_ordinary(name: Seq<char>) -> bool {
    !is_always_empty(name) && !is_mostly_empty(name) && !holds_text_only(name) && name
        != "plaintext"@
}

/// The tag of an ordinary element opens it.
pub proof fn start_tags_open(s: Seq<char>, i: int, e: int, name: Seq<char>, open: Seq<Seq<char>>)
    requires
        0 <= i,
        s[i] == '<',
        bare_tag(s, i + 1, e, name),
        is_ordinary(name),
    ensures
        ({
            let p = piece_at(s, i, open);
            p.next == Some(e) && p.open == open.push(name) && !p.doubt
        }),
{
    bare_tag_ends(s, i + 1, e, name);
}

/// The tag of an element that holds nothing opens nothing.
pub proof fn empty_elements_open_nothing(
    s: Seq<char>,
    i: int,
    e: int,
    name: Seq<char>,
    open: Seq<Seq<char>>,
)
    requires
        0 <= i,
        s[i] == '<',
        bare_tag(s, i + 1, e, name),
        is_always_empty(name) || (is_mostly_empty(name) && !in_drawing(open)),
    ensures
        ({
            let p = piece_at(s, i, open);
            p.next == Some(e) && p.open == open && !p.doubt
        }),
{
    bare_tag_ends(s, i + 1, e, name);
}

/// An end tag closes the innermost element where that is its own, and nothing else.
pub proof fn end_tags_close_their_own(
    s: Seq<char>,
    i: int,
    e: int,
    name: Seq<char>,
    open: Seq<Seq<char>>,
)
    requires
        0 <= i,
        s[i] == '<',
        s[i + 1] == '/',
        bare_tag(s, i + 2, e, name),
    ensures
        ({
            let p = piece_at(s, i, open);
            &&& p.next == Some(e) && !p.doubt
            &&& p.open == if open.len() > 0 && open.last() == name {
                open.drop_last()
            } else {
                open
            }
        }),
{
    bare_tag_ends(s, i + 2, e, name);
    assert(!is_letter('/'));
}

/// A comment is passed over up to its end, whatever stands in it.
pub proof fn comments_are_passed_over(s: Seq<char>, i: int, z: int, open: Seq<Seq<char>>)
    requires
        0 <= i,
        occurs_at(s, "<!--"@, i),
        i + 4 < z,
        s[i + 4] != '>' && s[i + 4] != '-',
        occurs_at(s, "-->"@, z),
        forall|j: int| i + 4 <= j < z ==> !(#[trigger] occurs_at(s, "-->"@, j)),
        forall|j: int| i + 4 <= j < z ==> !(#[trigger] occurs_at(s, "--!>"@, j)),
    ensures
        ({
            let p = piece_at(s, i, open);
            p.next == Some(z + 3) && p.open == open && !p.doubt
        }),
{
    reveal_strlit("<!--");
    reveal_strlit("-->");
    reveal_strlit("--!>");
    reveal_strlit(">");
    reveal_strlit("->");
    let head = s.subrange(i, i + 4);
    assert(head[0] == s[i] && head[1] == s[i + 1] && head == "<!--"@);
    let from = i + 4;
    if occurs_at(s, ">"@, from) {
        assert(s.subrange(from, from + 1)[0] == s[from]);
    }
    if occurs_at(s, "->"@, from) {
        assert(s.subrange(from, from + 2)[0] == s[from]);
    }
    find_from_is_first(s, "-->"@, from);
    find_from_is_first(s, "--!>"@, from);
    assert(find_from(s, "-->"@, from) == Some(z));
    if let Some(b) = find_from(s, "--!>"@, from) {
        assert(b >= z);
        if b == z {
            assert(s.subrange(z, z + 3)[2] == s[z + 2]);
            assert(s.subrange(z, z + 4)[2] == s[z + 2]);
        }
    }
}

/// How deep a page is takes in every piece of it: what was open before, what is open behind
/// the piece, and what follows; it is taken for as deep as it is long where that is open to
/// doubt.
pub proof fn every_piece_counts(s: Seq<char>, i: int, open: Seq<Seq<char>>, most: nat)
    requires
        0 <= i < s.len(),
    ensures
        ({
            let p = piece_at(s, i, open);
            let all = most_open(s, i, open, most);
            !p.doubt ==> {
                &&& (all >= most && all >= depth_of(p.open)) || all == s.len()
                &&& (p.next matches Some(e) ==> (i < e <= s.len() ==> forall|m: nat|
                    m <= most ==> all >= #[trigger] most_open(s, e, p.open, m)))
            }
        }),
    decreases s.len() - i,
{
    let p = piece_at(s, i, open);
    let now = if depth_of(p.open) > most {
        depth_of(p.open)
    } else {
        most
    };
    if !p.doubt {
        if let Some(e) = p.next {
            if i < e <= s.len() {
                grows(s, e, p.open, now, now);
                assert forall|m: nat| m <= most implies most_open(s, i, open, most) >= #[trigger]
                    most_open(s, e, p.open, m) by {
                    grows(s, e, p.open, m, now);
                }
            }
        }
    }
}

proof fn grows(s: Seq<char>, i: int, open: Seq<Seq<char>>, a: nat, b: nat)
    requires
        0 <= i,
        a <= b,
    ensures
        b <= most_open(s, i, open, b) || most_open(s, i, open, b) == s.len(),
        most_open(s, i, open, a) <= most_open(s, i, open, b),
    decreases s.len() - i,
{
    if i < s.len() {
        let p = piece_at(s, i, open);
        let d = depth_of(p.open);
        if !p.doubt {
            if let Some(e) = p.next {
                if i < e <= s.len() {
                    grows(
                        s,
                        e,
                        p.open,
                        if d > a {
                            d
                        } else {
                            a
                        },
                        if d > b {
                            d
                        } else {
                            b
                        },
                    );
                }
            }
        }
    }
}

/// A tag without quotes ends with the first angle bracket.
pub proof fn bracket_ends_the_tag(s: Seq<char>, i: int, e: int, p: TagPlace)
    requires
        0 <= i <= e < s.len(),
        s[e] == '>',
        forall|k: int|
            i <= k < e ==> #[trigger] s[k] != '>' && s[k] != '"' && s[k] != '\'',
        p != TagPlace::Double && p != TagPlace::Single,
    ensures
        tag_end(s, i, p) == Some(e + 1),
    decreases e - i,
{
    if i < e {
        assert(s[i] != '>' && s[i] != '"' && s[i] != '\'');
        bracket_ends_the_tag(s, i + 1, e, after_in_tag(p, s[i])->0);
    }
}

/// What stands in quotes ends no tag: the tag goes on behind the quote that ends it.
pub proof fn quoted_text_ends_no_tag(s: Seq<char>, i: int, q: int)
    requires
        0 <= i <= q < s.len(),
    ensures
        s[q] == '"' && (forall|k: int| i <= k < q ==> #[trigger] s[k] != '"') ==> tag_end(
            s,
            i,
            TagPlace::Double,
        ) == tag_end(s, q + 1, TagPlace::Before),
        s[q] == '\'' && (forall|k: int| i <= k < q ==> #[trigger] s[k] != '\'') ==> tag_end(
            s,
            i,
            TagPlace::Single,
        ) == tag_end(s, q + 1, TagPlace::Before),
    decreases q - i,
{
    if i < q {
        quoted_text_ends_no_tag(s, i + 1, q);
    }
}

/// Quotes are only those right behind an equals sign.
pub proof fn quotes_stand_behind_the_sign(c: char)
    requires
        c == '"' || c == '\'',
    ensures
        after_in_tag(TagPlace::Sign, '"') == Some(TagPlace::Double),
        after_in_tag(TagPlace::Sign, '\'') == Some(TagPlace::Single),
        after_in_tag(TagPlace::Name, '=') == Some(TagPlace::Sign),
        after_in_tag(TagPlace::After, '=') == Some(TagPlace::Sign),
        after_in_tag(TagPlace::Before, c) == Some(TagPlace::Name),
        after_in_tag(TagPlace::Name, c) == Some(TagPlace::Name),
        after_in_tag(TagPlace::Bare, c) == Some(TagPlace::Bare),
{
}

/// What holds only text ends with the first end tag of its own name.
pub proof fn text_ends_with_its_own_tag(s: Seq<char>, i: int, e: int, name: Seq<char>)
    requires
        0 <= i <= e < s.len(),
        name != "script"@,
        word_at(s, e, "</"@ + name),
        forall|k: int| i <= k < e ==> !(#[trigger] word_at(s, k, "</"@ + name)),
    ensures
        text_end(s, i, name) == Some(e),
{
    word_is_first(s, i, e, "</"@ + name);
}

proof fn word_is_first(s: Seq<char>, i: int, e: int, word: Seq<char>)
    requires
        0 <= i <= e < s.len(),
        word_at(s, e, word),
        forall|k: int| i <= k < e ==> !(#[trigger] word_at(s, k, word)),
    ensures
        word_from(s, i, word) == Some(e),
    decreases e - i,
{
    if i < e {
        assert(!word_at(s, i, word));
        word_is_first(s, i + 1, e, word);
    }
}

/// A script without comments ends with the first end tag of a script.
pub proof fn scripts_end_with_their_tag(s: Seq<char>, i: int, e: int)
    requires
        0 <= i <= e < s.len(),
        word_at(s, e, "</script"@),
        forall|k: int| i <= k < e ==> !(#[trigger] word_at(s, k, "</script"@)),
        forall|k: int| i <= k < e ==> !(#[trigger] occurs_at(s, "<!--"@, k)),
    ensures
        text_end(s, i, "script"@) == Some(e),
{
    script_is_first(s, i, e);
}

proof fn script_is_first(s: Seq<char>, i: int, e: int)
    requires
        0 <= i <= e < s.len(),
        word_at(s, e, "</script"@),
        forall|k: int| i <= k < e ==> !(#[trigger] word_at(s, k, "</script"@)),
        forall|k: int| i <= k < e ==> !(#[trigger] occurs_at(s, "<!--"@, k)),
    ensures
        script_end(s, i, ScriptPlace::Plain) == Some(e),
    decreases e - i,
{
    if i < e {
        assert(!word_at(s, i, "</script"@));
        assert(!occurs_at(s, "<!--"@, i));
        script_is_first(s, i + 1, e);
    }
}

/// The elements that hold nothing anywhere, those that hold nothing outside of drawings, and
/// those that hold only text.
pub proof fn some_elements_hold_no_others(name: Seq<char>)
    ensures
        is_always_empty(name) <==> seq!["br"@, "embed"@, "hr"@, "img"@, "meta"@].contains(name),
        is_mostly_empty(name) <==> seq![
            "area"@,
            "base"@,
            "col"@,
            "input"@,
            "link"@,
            "param"@,
            "source"@,
            "track"@,
            "wbr"@,
        ].contains(name),
        holds_text_only(name) <==> seq![
            "script"@,
            "style"@,
            "textarea"@,
            "title"@,
            "xmp"@,
            "iframe"@,
            "noembed"@,
            "noframes"@,
            "noscript"@,
        ].contains(name),
{
    let a = seq!["br"@, "embed"@, "hr"@, "img"@, "meta"@];
    assert(a[0] == "br"@ && a[1] == "embed"@ && a[2] == "hr"@ && a[3] == "img"@ && a[4] == "meta"@);
    let b = seq![
        "area"@,
        "base"@,
        "col"@,
        "input"@,
        "link"@,
        "param"@,
        "source"@,
        "track"@,
        "wbr"@,
    ];
    assert(b[0] == "area"@ && b[1] == "base"@ && b[2] == "col"@ && b[3] == "input"@ && b[4]
        == "link"@ && b[5] == "param"@ && b[6] == "source"@ && b[7] == "track"@ && b[8] == "wbr"@);
    let c = seq![
        "script"@,
        "style"@,
        "textarea"@,
        "title"@,
        "xmp"@,
        "iframe"@,
        "noembed"@,
        "noframes"@,
        "noscript"@,
    ];
    assert(c[0] == "script"@ && c[1] == "style"@ && c[2] == "textarea"@ && c[3] == "title"@ && c[4]
        == "xmp"@ && c[5] == "iframe"@ && c[6] == "noembed"@ && c[7] == "noframes"@ && c[8]
        == "noscript"@);
}

} // verus!
