//! How deep the elements of a page are nested, as far as its text tells.
//!
//! A start tag opens an element, unless the element can hold nothing. An end tag closes an
//! element only where that is the innermost one open: whether any other end tag closes
//! something depends on rules that are not followed here, so it is taken to close nothing.
//! Comments, and the text of scripts and the like, hold no tags. A parser puts a body and a
//! row into a table without them, so a table counts for three. Beyond that it adds only the
//! few elements around a page: the tree that it builds is hardly deeper.
use crate::text::{
    ascii_lower, ascii_lower_chars, chars_of, find_chars, find_from, occurs_at, occurs_at_exec,
    push_chars, same_chars,
};
use vstd::prelude::*;
use vstd::slice::slice_subrange;

verus! {

fn lit(s: &str) -> (v: Vec<char>)
    ensures
        v@ == s@,
{
    chars_of(s)
}

// ------------------------------------------------------------------------- tags

/// Whitespace inside of tags.
pub open spec fn is_tag_white(c: char) -> bool {
    c == ' ' || c == '\t' || c == '\n' || c == '\r' || c == '\u{c}'
}

/// What the name of a tag ends with.
pub open spec fn ends_tag_name(c: char) -> bool {
    is_tag_white(c) || c == '/' || c == '>'
}

/// What the name of a tag begins with.
pub open spec fn is_letter(c: char) -> bool {
    'a' <= c <= 'z' || 'A' <= c <= 'Z'
}

fn is_tag_white_char(c: char) -> (r: bool)
    ensures
        r == is_tag_white(c),
{
    c == ' ' || c == '\t' || c == '\n' || c == '\r' || c == '\u{c}'
}

fn is_name_end(c: char) -> (r: bool)
    ensures
        r == ends_tag_name(c),
{
    is_tag_white_char(c) || c == '/' || c == '>'
}

fn is_letter_char(c: char) -> (r: bool)
    ensures
        r == is_letter(c),
{
    ('a' <= c && c <= 'z') || ('A' <= c && c <= 'Z')
}

/// Where the name that begins at `i` ends.
pub open spec fn name_end(s: Seq<char>, i: int) -> int
    decreases s.len() - i,
{
    if i < 0 || i >= s.len() || ends_tag_name(s[i]) {
        i
    } else {
        name_end(s, i + 1)
    }
}

/// Where in a tag one is, behind its name.
#[derive(Debug, Clone, Copy, PartialEq, Eq, Structural)]
pub enum TagPlace {
    /// In front of an attribute.
    Before,
    /// In the name of an attribute.
    Name,
    /// Behind the name of an attribute.
    After,
    /// Behind the sign in front of a value.
    Sign,
    /// In a value in double quotes.
    Double,
    /// In a value in single quotes.
    Single,
    /// In a value without quotes.
    Bare,
}

/// Where one is after one more character; nothing where the tag has ended.
pub open spec fn after_in_tag(p: TagPlace, c: char) -> Option<TagPlace> {
    match p {
        TagPlace::Double => Some(
            if c == '"' {
                TagPlace::Before
            } else {
                p
            },
        ),
        TagPlace::Single => Some(
            if c == '\'' {
                TagPlace::Before
            } else {
                p
            },
        ),
        _ => if c == '>' {
            None
        } else if is_tag_white(c) {
            Some(
                match p {
                    TagPlace::Name => TagPlace::After,
                    TagPlace::Bare => TagPlace::Before,
                    _ => p,
                },
            )
        } else {
            Some(
                match p {
                    TagPlace::Bare => TagPlace::Bare,
                    TagPlace::Sign => if c == '"' {
                        TagPlace::Double
                    } else if c == '\'' {
                        TagPlace::Single
                    } else {
                        TagPlace::Bare
                    },
                    _ => if c == '/' {
                        TagPlace::Before
                    } else if c == '=' && p != TagPlace::Before {
                        TagPlace::Sign
                    } else {
                        TagPlace::Name
                    },
                },
            )
        },
    }
}

fn next_place(p: TagPlace, c: char) -> (r: Option<TagPlace>)
    ensures
        r == after_in_tag(p, c),
{
    match p {
        TagPlace::Double => if c == '"' {
            Some(TagPlace::Before)
        } else {
            Some(p)
        },
        TagPlace::Single => if c == '\'' {
            Some(TagPlace::Before)
        } else {
            Some(p)
        },
        _ => if c == '>' {
            None
        } else if is_tag_white_char(c) {
            match p {
                TagPlace::Name => Some(TagPlace::After),
                TagPlace::Bare => Some(TagPlace::Before),
                _ => Some(p),
            }
        } else {
            match p {
                TagPlace::Bare => Some(TagPlace::Bare),
                TagPlace::Sign => if c == '"' {
                    Some(TagPlace::Double)
                } else if c == '\'' {
                    Some(TagPlace::Single)
                } else {
                    Some(TagPlace::Bare)
                },
                _ => if c == '/' {
                    Some(TagPlace::Before)
                } else if c == '=' && p != TagPlace::Before {
                    Some(TagPlace::Sign)
                } else {
                    Some(TagPlace::Name)
                },
            }
        },
    }
}

/// Behind the tag in which one is at `i`; nothing where it does not end.
pub open spec fn tag_end(s: Seq<char>, i: int, p: TagPlace) -> Option<int>
    decreases s.len() - i,
{
    if i < 0 || i >= s.len() {
        None
    } else {
        match after_in_tag(p, s[i]) {
            Some(q) => tag_end(s, i + 1, q),
            None => Some(i + 1),
        }
    }
}

/// A place in a text, as a number without a sign.
pub open spec fn place_of(r: Option<usize>) -> Option<int> {
    match r {
        Some(i) => Some(i as int),
        None => None,
    }
}

fn find_name_end(s: &[char], i: usize) -> (r: usize)
    requires
        i <= s.len(),
    ensures
        r == name_end(s@, i as int),
        i <= r <= s.len(),
{
    let mut j: usize = i;
    while j < s.len() && !is_name_end(s[j])
        invariant
            i <= j <= s.len(),
            name_end(s@, i as int) == name_end(s@, j as int),
        decreases s.len() - j,
    {
        j += 1;
    }
    j
}

fn find_tag_end(s: &[char], i: usize) -> (r: Option<usize>)
    requires
        i <= s.len(),
    ensures
        place_of(r) == tag_end(s@, i as int, TagPlace::Before),
        r matches Some(e) ==> i < e <= s.len(),
{
    let mut j: usize = i;
    let mut p: TagPlace = TagPlace::Before;
    while j < s.len()
        invariant
            i <= j <= s.len(),
            tag_end(s@, i as int, TagPlace::Before) == tag_end(s@, j as int, p),
        decreases s.len() - j,
    {
        match next_place(p, s[j]) {
            Some(q) => {
                p = q;
            },
            None => {
                return Some(j + 1);
            },
        }
        j += 1;
    }
    None
}

// --------------------------------------------------------------- text without tags

/// `word`, whatever the case of its letters, stands at `i` and ends there.
pub open spec fn word_at(s: Seq<char>, i: int, word: Seq<char>) -> bool {
    0 <= i && i + word.len() < s.len() && ascii_lower(s.subrange(i, i + word.len())) == word
        && ends_tag_name(s[i + word.len()])
}

fn is_word_at(s: &[char], i: usize, word: &[char]) -> (r: bool)
    requires
        i < s.len(),
    ensures
        r == word_at(s@, i as int, word@),
{
    if word.len() >= s.len() - i || s[i] != '<' && word.len() > 0 && word[0] == '<' {
        proof {
            if word.len() > 0 && i + word.len() < s.len() {
                let part = s@.subrange(i as int, i + word.len());
                assert(ascii_lower(part)[0] == crate::text::lower_char(part[0]));
            }
        }
        return false;
    }
    same_chars(&ascii_lower_chars(slice_subrange(s, i, i + word.len())), word) && is_name_end(
        s[i + word.len()],
    )
}

/// Where `word` stands first from `i` on.
pub open spec fn word_from(s: Seq<char>, i: int, word: Seq<char>) -> Option<int>
    decreases s.len() - i,
{
    if i < 0 || i >= s.len() {
        None
    } else if word_at(s, i, word) {
        Some(i)
    } else {
        word_from(s, i + 1, word)
    }
}

fn find_word(s: &[char], i: usize, word: &[char]) -> (r: Option<usize>)
    requires
        i <= s.len(),
    ensures
        place_of(r) == word_from(s@, i as int, word@),
        r matches Some(e) ==> i <= e < s.len(),
{
    let mut j: usize = i;
    while j < s.len()
        invariant
            i <= j <= s.len(),
            word_from(s@, i as int, word@) == word_from(s@, j as int, word@),
        decreases s.len() - j,
    {
        if is_word_at(s, j, word) {
            return Some(j);
        }
        j += 1;
    }
    None
}

/// How a script reads what follows: as it stands, as in a comment, or as a script in a
/// comment.
#[derive(Debug, Clone, Copy, PartialEq, Eq, Structural)]
pub enum ScriptPlace {
    Plain,
    Comment,
    Inner,
}

/// Where the end tag of a script stands, from `i` on. In a comment a script can hold scripts
/// with end tags of their own.
pub open spec fn script_end(s: Seq<char>, i: int, p: ScriptPlace) -> Option<int>
    decreases s.len() - i,
{
    if i < 0 || i >= s.len() {
        None
    } else if word_at(s, i, "</script"@) {
        if p == ScriptPlace::Inner {
            script_end(s, i + 1, ScriptPlace::Comment)
        } else {
            Some(i)
        }
    } else if p == ScriptPlace::Comment && word_at(s, i, "<script"@) {
        script_end(s, i + 1, ScriptPlace::Inner)
    } else if p == ScriptPlace::Plain && occurs_at(s, "<!--"@, i) {
        script_end(s, i + 1, ScriptPlace::Comment)
    } else if p != ScriptPlace::Plain && occurs_at(s, "-->"@, i) {
        script_end(s, i + 1, ScriptPlace::Plain)
    } else {
        script_end(s, i + 1, p)
    }
}

fn find_script_end(s: &[char], i: usize) -> (r: Option<usize>)
    requires
        i <= s.len(),
    ensures
        place_of(r) == script_end(s@, i as int, ScriptPlace::Plain),
        r matches Some(e) ==> i <= e < s.len(),
{
    let close: Vec<char> = lit("</script");
    let open: Vec<char> = lit("<script");
    let comment: Vec<char> = lit("<!--");
    let comment_close: Vec<char> = lit("-->");
    let mut j: usize = i;
    let mut p: ScriptPlace = ScriptPlace::Plain;
    while j < s.len()
        invariant
            i <= j <= s.len(),
            close@ == "</script"@,
            open@ == "<script"@,
            comment@ == "<!--"@,
            comment_close@ == "-->"@,
            script_end(s@, i as int, ScriptPlace::Plain) == script_end(s@, j as int, p),
        decreases s.len() - j,
    {
        if is_word_at(s, j, &close) {
            if p != ScriptPlace::Inner {
                return Some(j);
            }
            p = ScriptPlace::Comment;
            j += 1;
        } else if p == ScriptPlace::Comment && is_word_at(s, j, &open) {
            p = ScriptPlace::Inner;
            j += 1;
        } else if p == ScriptPlace::Plain && occurs_at_exec(s, &comment, j) {
            p = ScriptPlace::Comment;
            j += 1;
        } else if p != ScriptPlace::Plain && occurs_at_exec(s, &comment_close, j) {
            p = ScriptPlace::Plain;
            j += 1;
        } else {
            j += 1;
        }
    }
    None
}

/// Behind the comment whose text begins at `i`; nothing where it does not end.
pub open spec fn comment_end(s: Seq<char>, i: int) -> Option<int> {
    if occurs_at(s, ">"@, i) {
        Some(i + 1)
    } else if occurs_at(s, "->"@, i) {
        Some(i + 2)
    } else {
        match (find_from(s, "-->"@, i), find_from(s, "--!>"@, i)) {
            (Some(a), Some(b)) => Some(
                if a < b {
                    a + 3
                } else {
                    b + 4
                },
            ),
            (Some(a), None) => Some(a + 3),
            (None, Some(b)) => Some(b + 4),
            (None, None) => None,
        }
    }
}

fn find_comment_end(s: &[char], i: usize) -> (r: Option<usize>)
    requires
        i <= s.len(),
    ensures
        place_of(r) == comment_end(s@, i as int),
        r matches Some(e) ==> i < e <= s.len(),
{
    proof {
        reveal_strlit(">");
        reveal_strlit("->");
        reveal_strlit("-->");
        reveal_strlit("--!>");
    }
    if occurs_at_exec(s, &lit(">"), i) {
        return Some(i + 1);
    }
    if occurs_at_exec(s, &lit("->"), i) {
        return Some(i + 2);
    }
    match (find_chars(s, &lit("-->"), i), find_chars(s, &lit("--!>"), i)) {
        (Some(a), Some(b)) => if a < b {
            Some(a + 3)
        } else {
            Some(b + 4)
        },
        (Some(a), None) => Some(a + 3),
        (None, Some(b)) => Some(b + 4),
        (None, None) => None,
    }
}

// ---------------------------------------------------------------------- elements

/// Elements that can hold nothing, wherever they stand.
pub open spec fn is_always_empty(name: Seq<char>) -> bool {
    name == "br"@ || name == "embed"@ || name == "hr"@ || name == "img"@ || name == "meta"@
}

/// Elements that can hold nothing, unless they stand in a drawing or a formula.
pub open spec fn is_mostly_empty(name: Seq<char>) -> bool {
    name == "area"@ || name == "base"@ || name == "col"@ || name == "input"@ || name == "link"@
        || name == "param"@ || name == "source"@ || name == "track"@ || name == "wbr"@
}

/// A drawing or a formula is open.
pub open spec fn in_drawing(open: Seq<Seq<char>>) -> bool {
    open.contains("svg"@) || open.contains("math"@)
}

/// Something is open in which the text of scripts and the like can be read otherwise.
pub open spec fn is_guarded(open: Seq<Seq<char>>) -> bool {
    in_drawing(open) || open.contains("select"@) || open.contains("frameset"@)
}

/// Elements whose text holds no tags.
pub open spec fn holds_text_only(name: Seq<char>) -> bool {
    name == "script"@ || name == "style"@ || name == "textarea"@ || name == "title"@ || name
        == "xmp"@ || name == "iframe"@ || name == "noembed"@ || name == "noframes"@ || name
        == "noscript"@
}

fn is_one_of(name: &[char], list: &Vec<Vec<char>>) -> (r: bool)
    ensures
        r == name_views(list@).contains(name@),
{
    let mut i: usize = 0;
    while i < list.len()
        invariant
            i <= list.len(),
            forall|k: int| 0 <= k < i ==> (#[trigger] name_views(list@)[k]) != name@,
        decreases list.len() - i,
    {
        if same_chars(&list[i], name) {
            assert(name_views(list@)[i as int] == name@);
            return true;
        }
        i += 1;
    }
    false
}

/// The names in a list.
pub open spec fn name_views(v: Seq<Vec<char>>) -> Seq<Seq<char>> {
    v.map_values(|n: Vec<char>| n@)
}

fn has_name(name: &[char], t: &str) -> (r: bool)
    ensures
        r == (name@ == t@),
{
    same_chars(name, &lit(t))
}

fn is_empty_element(name: &[char], open: &Vec<Vec<char>>) -> (r: bool)
    ensures
        r == (is_always_empty(name@) || (is_mostly_empty(name@) && !in_drawing(
            name_views(open@),
        ))),
{
    has_name(name, "br") || has_name(name, "embed") || has_name(name, "hr") || has_name(
        name,
        "img",
    ) || has_name(name, "meta") || ((has_name(name, "area") || has_name(name, "base") || has_name(
        name,
        "col",
    ) || has_name(name, "input") || has_name(name, "link") || has_name(name, "param") || has_name(
        name,
        "source",
    ) || has_name(name, "track") || has_name(name, "wbr")) && !(is_one_of(&lit("svg"), open)
        || is_one_of(&lit("math"), open)))
}

fn is_text_element(name: &[char]) -> (r: bool)
    ensures
        r == holds_text_only(name@),
{
    has_name(name, "script") || has_name(name, "style") || has_name(name, "textarea") || has_name(
        name,
        "title",
    ) || has_name(name, "xmp") || has_name(name, "iframe") || has_name(name, "noembed") || has_name(
        name,
        "noframes",
    ) || has_name(name, "noscript")
}

fn are_guarded(open: &Vec<Vec<char>>) -> (r: bool)
    ensures
        r == is_guarded(name_views(open@)),
{
    is_one_of(&lit("svg"), open) || is_one_of(&lit("math"), open) || is_one_of(&lit("select"), open)
        || is_one_of(&lit("frameset"), open)
}

/// Where the end tag of an element stands whose text, from `i` on, holds no other tags.
pub open spec fn text_end(s: Seq<char>, i: int, name: Seq<char>) -> Option<int> {
    if name == "script"@ {
        script_end(s, i, ScriptPlace::Plain)
    } else {
        word_from(s, i, "</"@ + name)
    }
}

// ----------------------------------------------------------------------- a page

/// What was read of a page at one place.
pub struct PieceModel {
    /// Where to read on; nothing where no tag can follow.
    pub next: Option<int>,
    /// The elements that are open behind it.
    pub open: Seq<Seq<char>>,
    /// What follows cannot be told from the text.
    pub doubt: bool,
}

/// Nothing opens or closes.
pub open spec fn go_on(next: Option<int>, open: Seq<Seq<char>>) -> PieceModel {
    PieceModel { next, open, doubt: false }
}

/// What a start tag with a name at `j` does.
pub open spec fn start_tag(s: Seq<char>, j: int, open: Seq<Seq<char>>) -> PieceModel {
    let name = ascii_lower(s.subrange(j, name_end(s, j)));
    match tag_end(s, name_end(s, j), TagPlace::Before) {
        None => go_on(None, open),
        Some(e) => if is_always_empty(name) || (is_mostly_empty(name) && !in_drawing(open)) {
            go_on(Some(e), open)
        } else if name == "plaintext"@ {
            PieceModel { next: None, open: open.push(name), doubt: is_guarded(open) }
        } else if !holds_text_only(name) {
            go_on(Some(e), open.push(name))
        } else if !is_guarded(open) {
            go_on(text_end(s, e, name), open.push(name))
        } else {
            PieceModel {
                next: Some(e),
                open: open.push(name),
                doubt: find_from(s, "<"@, e) != text_end(s, e, name),
            }
        },
    }
}

/// What an end tag with a name at `j` does.
pub open spec fn end_tag(s: Seq<char>, j: int, open: Seq<Seq<char>>) -> PieceModel {
    let name = ascii_lower(s.subrange(j, name_end(s, j)));
    match tag_end(s, name_end(s, j), TagPlace::Before) {
        None => go_on(None, open),
        Some(e) => go_on(
            Some(e),
            if open.len() > 0 && open.last() == name {
                open.drop_last()
            } else {
                open
            },
        ),
    }
}

/// Behind the next `>` from `i` on.
pub open spec fn behind_close(s: Seq<char>, i: int) -> Option<int> {
    match find_from(s, ">"@, i) {
        Some(e) => Some(e + 1),
        None => None,
    }
}

/// What stands at `i`, with these elements open.
pub open spec fn piece_at(s: Seq<char>, i: int, open: Seq<Seq<char>>) -> PieceModel {
    if s[i] != '<' || i + 1 >= s.len() {
        go_on(Some(i + 1), open)
    } else if is_letter(s[i + 1]) {
        start_tag(s, i + 1, open)
    } else if s[i + 1] == '/' && i + 2 < s.len() && is_letter(s[i + 2]) {
        end_tag(s, i + 2, open)
    } else if occurs_at(s, "<!--"@, i) {
        go_on(comment_end(s, i + 4), open)
    } else if occurs_at(s, "<![CDATA["@, i) {
        PieceModel { next: None, open, doubt: true }
    } else if s[i + 1] == '/' || s[i + 1] == '!' || s[i + 1] == '?' {
        go_on(behind_close(s, i + 1), open)
    } else {
        go_on(Some(i + 1), open)
    }
}

/// How deep one is in these elements.
pub open spec fn depth_of(open: Seq<Seq<char>>) -> nat
    decreases open.len(),
{
    if open.len() == 0 {
        0
    } else {
        depth_of(open.drop_last()) + levels_of(open.last())
    }
}

/// For how many levels an element counts.
pub open spec fn levels_of(name: Seq<char>) -> nat {
    if name == "table"@ {
        3
    } else {
        1
    }
}

/// The greatest depth of the elements that are open at once, from `i` on, where these are open
/// now and `most` were before. Where the text does not tell, it is the length of the page,
/// which no number of elements exceeds.
pub open spec fn most_open(s: Seq<char>, i: int, open: Seq<Seq<char>>, most: nat) -> nat
    decreases s.len() - i,
{
    if i < 0 || i >= s.len() {
        most
    } else {
        let p = piece_at(s, i, open);
        let now = if depth_of(p.open) > most {
            depth_of(p.open)
        } else {
            most
        };
        if p.doubt {
            s.len()
        } else {
            match p.next {
                Some(e) => if i < e <= s.len() {
                    most_open(s, e, p.open, now)
                } else {
                    now
                },
                None => now,
            }
        }
    }
}

/// How deep the elements of a page are nested.
pub open spec fn nesting(html: Seq<char>) -> nat {
    most_open(html, 0, Seq::empty(), 0)
}

/// What was read of a page at one place.
struct Piece {
    next: Option<usize>,
    doubt: bool,
}

spec fn is_piece(p: Piece, open: Seq<Seq<char>>, m: PieceModel) -> bool {
    place_of(p.next) == m.next && p.doubt == m.doubt && open == m.open
}

fn read_start_tag(s: &[char], j: usize, open: &mut Vec<Vec<char>>) -> (p: Piece)
    requires
        j < s.len(),
    ensures
        is_piece(
            p,
            name_views(final(open)@),
            start_tag(s@, j as int, name_views(old(open)@)),
        ),
        final(open)@.len() <= old(open)@.len() + 1,
        p.next matches Some(e) ==> j <= e <= s.len(),
{
    let k: usize = find_name_end(s, j);
    let name: Vec<char> = ascii_lower_chars(slice_subrange(s, j, k));
    let e: usize = match find_tag_end(s, k) {
        Some(e) => e,
        None => {
            return Piece { next: None, doubt: false };
        },
    };
    if is_empty_element(&name, open) {
        return Piece { next: Some(e), doubt: false };
    }
    let is_rest: bool = has_name(&name, "plaintext");
    let text: bool = is_text_element(&name);
    let guarded: bool = (is_rest || text) && are_guarded(open);
    let end: Option<usize> = if !text {
        Some(e)
    } else if has_name(&name, "script") {
        find_script_end(s, e)
    } else {
        let mut close: Vec<char> = lit("</");
        push_chars(&mut close, &name);
        find_word(s, e, &close)
    };
    let ghost before = open@;
    let ghost n = name@;
    open.push(name);
    assert(name_views(open@) =~= name_views(before).push(n));
    if is_rest {
        return Piece { next: None, doubt: guarded };
    }
    if !text || !guarded {
        return Piece { next: end, doubt: false };
    }
    let bracket: Option<usize> = find_chars(s, &lit("<"), e);
    let same: bool = match (bracket, end) {
        (Some(a), Some(b)) => a == b,
        (None, None) => true,
        _ => false,
    };
    Piece { next: Some(e), doubt: !same }
}

fn read_end_tag(s: &[char], j: usize, open: &mut Vec<Vec<char>>) -> (p: Piece)
    requires
        j < s.len(),
    ensures
        is_piece(p, name_views(final(open)@), end_tag(s@, j as int, name_views(old(open)@))),
        final(open)@.len() <= old(open)@.len() + 1,
        p.next matches Some(e) ==> j <= e <= s.len(),
{
    let k: usize = find_name_end(s, j);
    let name: Vec<char> = ascii_lower_chars(slice_subrange(s, j, k));
    let next: Option<usize> = find_tag_end(s, k);
    if next.is_some() && open.len() > 0 && same_chars(&open[open.len() - 1], &name) {
        let ghost before = open@;
        assert(name_views(before).last() == before.last()@);
        open.pop();
        assert(name_views(open@) =~= name_views(before).drop_last());
    } else {
        assert(open@.len() > 0 ==> name_views(open@).last() == open@.last()@);
    }
    Piece { next, doubt: false }
}

fn read_piece(s: &[char], i: usize, open: &mut Vec<Vec<char>>) -> (p: Piece)
    requires
        i < s.len(),
    ensures
        is_piece(p, name_views(final(open)@), piece_at(s@, i as int, name_views(old(open)@))),
        final(open)@.len() <= old(open)@.len() + 1,
        p.next matches Some(e) ==> i < e <= s.len(),
{
    proof {
        reveal_strlit("<!--");
        reveal_strlit(">");
    }
    if s[i] != '<' || i + 1 >= s.len() {
        return Piece { next: Some(i + 1), doubt: false };
    }
    let c: char = s[i + 1];
    if is_letter_char(c) {
        return read_start_tag(s, i + 1, open);
    }
    if c == '/' && i + 2 < s.len() && is_letter_char(s[i + 2]) {
        return read_end_tag(s, i + 2, open);
    }
    if occurs_at_exec(s, &lit("<!--"), i) {
        return Piece { next: find_comment_end(s, i + 4), doubt: false };
    }
    if occurs_at_exec(s, &lit("<![CDATA["), i) {
        return Piece { next: None, doubt: true };
    }
    if c == '/' || c == '!' || c == '?' {
        let next: Option<usize> = match find_chars(s, &lit(">"), i + 1) {
            Some(e) => Some(e + 1),
            None => None,
        };
        return Piece { next, doubt: false };
    }
    Piece { next: Some(i + 1), doubt: false }
}

/// One place of a page opens one element or closes the innermost one, or neither.
proof fn one_at_a_time(s: Seq<char>, i: int, open: Seq<Seq<char>>)
    ensures
        ({
            let after = piece_at(s, i, open).open;
            ||| after == open
            ||| after.len() > 0 && after == open.push(after.last())
            ||| open.len() > 0 && after == open.drop_last()
        }),
{
}

fn count_levels(open: &Vec<Vec<char>>) -> (r: usize)
    requires
        open@.len() > 0,
    ensures
        r == levels_of(name_views(open@).last()),
        r == 1 || r == 3,
{
    assert(name_views(open@).last() == open@.last()@);
    if has_name(&open[open.len() - 1], "table") {
        3
    } else {
        1
    }
}

/// A name that makes an element count for more is longer than that.
proof fn levels_are_fewer(s: Seq<char>, i: int, open: Seq<Seq<char>>)
    requires
        0 <= i < s.len(),
    ensures
        ({
            let p = piece_at(s, i, open);
            p.open.len() > open.len() ==> {
                &&& i + levels_of(p.open.last()) <= s.len()
                &&& p.next is Some ==> i + levels_of(p.open.last()) <= p.next->0
            }
        }),
{
    reveal_strlit("table");
    if i + 1 < s.len() && is_letter(s[i + 1]) {
        name_end_bound(s, i + 1);
        let k = name_end(s, i + 1);
        tag_end_bound(s, k, TagPlace::Before);
        if let Some(e) = tag_end(s, k, TagPlace::Before) {
            let name = ascii_lower(s.subrange(i + 1, k));
            text_end_bound(s, e, name);
        }
    }
}

proof fn name_end_bound(s: Seq<char>, i: int)
    requires
        0 <= i <= s.len(),
    ensures
        i <= name_end(s, i) <= s.len(),
    decreases s.len() - i,
{
    if i < s.len() && !ends_tag_name(s[i]) {
        name_end_bound(s, i + 1);
    }
}

proof fn tag_end_bound(s: Seq<char>, i: int, p: TagPlace)
    requires
        0 <= i,
    ensures
        tag_end(s, i, p) matches Some(e) ==> i < e <= s.len(),
    decreases s.len() - i,
{
    if i < s.len() {
        if let Some(q) = after_in_tag(p, s[i]) {
            tag_end_bound(s, i + 1, q);
        }
    }
}

proof fn text_end_bound(s: Seq<char>, i: int, name: Seq<char>)
    requires
        0 <= i,
    ensures
        text_end(s, i, name) matches Some(e) ==> i <= e,
{
    script_end_bound(s, i, ScriptPlace::Plain);
    word_from_bound(s, i, "</"@ + name);
}

proof fn script_end_bound(s: Seq<char>, i: int, p: ScriptPlace)
    requires
        0 <= i,
    ensures
        script_end(s, i, p) matches Some(e) ==> i <= e,
    decreases s.len() - i,
{
    if i < s.len() {
        script_end_bound(s, i + 1, ScriptPlace::Plain);
        script_end_bound(s, i + 1, ScriptPlace::Comment);
        script_end_bound(s, i + 1, ScriptPlace::Inner);
    }
}

proof fn word_from_bound(s: Seq<char>, i: int, word: Seq<char>)
    requires
        0 <= i,
    ensures
        word_from(s, i, word) matches Some(e) ==> i <= e,
    decreases s.len() - i,
{
    if i < s.len() {
        word_from_bound(s, i + 1, word);
    }
}

/// How deep the elements of a page are nested.
pub fn html_nesting(html: &str) -> (r: usize)
    ensures
        r == nesting(html@),
{
    let s: Vec<char> = chars_of(html);
    let mut open: Vec<Vec<char>> = Vec::new();
    let mut depth: usize = 0;
    let mut most: usize = 0;
    let mut i: usize = 0;
    assert(name_views(open@) =~= Seq::empty());
    while i < s.len()
        invariant
            i <= s.len(),
            s@ == html@,
            depth == depth_of(name_views(open@)),
            depth <= i,
            most <= i,
            nesting(html@) == most_open(s@, i as int, name_views(open@), most as nat),
        decreases s.len() - i,
    {
        let ghost before = name_views(open@);
        let count: usize = open.len();
        let innermost: usize = if count > 0 {
            count_levels(&open)
        } else {
            0
        };
        let p: Piece = read_piece(&s, i, &mut open);
        let ghost after = name_views(open@);
        proof {
            assert(before.len() == count && after.len() == open@.len());
            one_at_a_time(s@, i as int, before);
            levels_are_fewer(s@, i as int, before);
            if after.len() > before.len() {
                assert(after.drop_last() =~= before);
            }
        }
        if p.doubt {
            return s.len();
        }
        if open.len() > count {
            depth = depth + count_levels(&open);
        } else if open.len() < count {
            depth = depth - innermost;
        }
        if depth > most {
            most = depth;
        }
        match p.next {
            Some(e) => {
                i = e;
            },
            None => {
                return most;
            },
        }
    }
    most
}

} // verus!
