//! What is read out of pages, told of the pages themselves.
use crate::html_text::{
    attribute, attribute_from, class_text, collapsed, decoded, element_text, first_block,
    fresh_scan, has_class, heading_link, heading_link_from, in_attribute_name, link_at,
    link_between, outside_tags, paragraph_text, plain_text, tag_from, without_blocks, ClassScan,
};
use crate::text::{
    ascii_lower, contains, find, find_from, find_from_is_first, is_white, join_with,
    leading_white_bound, occurs_at, replace_all, starts_with, trim, trim_end, trim_start,
    trimmed_end_len, trimmed_end_len_bound, word_len, word_len_bound, words,
};
use crate::text_laws::joining_in_front;
use vstd::prelude::*;

verus! {

// ------------------------------------------------------------------------- the tags

/// The place lies in a tag: one was begun before it and not ended since.
pub open spec fn in_a_tag(s: Seq<char>, i: int) -> bool {
    exists|j: int| #[trigger] begun_at(s, j, i)
}

/// A tag was begun at `j` and not ended before `i`.
pub open spec fn begun_at(s: Seq<char>, j: int, i: int) -> bool {
    0 <= j < i && s[j] == '<' && forall|k: int| j < k < i ==> #[trigger] s[k] != '>'
}

/// The character stands outside of tags.
pub open spec fn is_outside(s: Seq<char>, i: int) -> bool {
    s[i] != '<' && s[i] != '>' && !in_a_tag(s, i)
}

/// What is left of a page without its tags is what stands outside of them, all of it and in
/// its order.
pub proof fn text_outside_tags_stays(s: Seq<char>)
    ensures
        outside_tags(s, false) == Seq::new(s.len(), |i: int| i).filter(
            |i: int| is_outside(s, i),
        ).map_values(|i: int| s[i]),
{
    outside_so_far(s, s.len());
    assert(s.take(s.len() as int) =~= s);
}

spec fn open_after(s: Seq<char>, in_tag: bool) -> bool
    decreases s.len(),
{
    if s.len() == 0 {
        in_tag
    } else if s.last() == '<' {
        true
    } else if s.last() == '>' {
        false
    } else {
        open_after(s.drop_last(), in_tag)
    }
}

proof fn open_is_in_a_tag(s: Seq<char>, n: int)
    requires
        0 <= n <= s.len(),
    ensures
        open_after(s.take(n), false) == in_a_tag(s, n),
    decreases n,
{
    if n > 0 {
        open_is_in_a_tag(s, n - 1);
        let c = s[n - 1];
        assert(s.take(n).drop_last() =~= s.take(n - 1));
        assert(s.take(n).last() == c);
        if c == '<' {
            assert(begun_at(s, n - 1, n));
        } else if c == '>' {
            assert forall|j: int| !#[trigger] begun_at(s, j, n) by {
                if begun_at(s, j, n) {
                    assert(s[n - 1] != '>' || j == n - 1);
                }
            }
        } else {
            if in_a_tag(s, n - 1) {
                let j = choose|j: int| #[trigger] begun_at(s, j, n - 1);
                assert(begun_at(s, j, n));
            }
            if in_a_tag(s, n) {
                let j = choose|j: int| #[trigger] begun_at(s, j, n);
                assert(j != n - 1);
                assert(begun_at(s, j, n - 1));
            }
        }
    }
}

proof fn outside_pushes(s: Seq<char>, c: char, in_tag: bool)
    ensures
        outside_tags(s.push(c), in_tag) == if c == '<' || c == '>' || open_after(s, in_tag) {
            outside_tags(s, in_tag)
        } else {
            outside_tags(s, in_tag).push(c)
        },
    decreases s.len(),
{
    let t = s.push(c);
    if s.len() == 0 {
        assert(t.skip(1) =~= Seq::empty());
        assert(outside_tags(t.skip(1), true) =~= Seq::empty());
        assert(outside_tags(t.skip(1), false) =~= Seq::empty());
        assert(outside_tags(s, in_tag) =~= Seq::empty());
    } else {
        assert(t.skip(1) =~= s.skip(1).push(c));
        let next = if s[0] == '<' {
            true
        } else if s[0] == '>' {
            false
        } else {
            in_tag
        };
        outside_pushes(s.skip(1), c, next);
        open_from(s, in_tag, next);
        if s[0] != '<' && s[0] != '>' && !in_tag {
            let rest = outside_tags(s.skip(1), false);
            assert(seq![s[0]] + rest.push(c) =~= (seq![s[0]] + rest).push(c));
        }
    }
}

proof fn open_from(s: Seq<char>, in_tag: bool, next: bool)
    requires
        s.len() > 0,
        next == if s[0] == '<' {
            true
        } else if s[0] == '>' {
            false
        } else {
            in_tag
        },
    ensures
        open_after(s, in_tag) == open_after(s.skip(1), next),
    decreases s.len(),
{
    if s.len() == 1 {
        assert(s.drop_last() =~= Seq::empty());
        assert(s.skip(1) =~= Seq::empty());
        assert(open_after(s.drop_last(), in_tag) == in_tag);
    } else {
        assert(s.skip(1).drop_last() =~= s.drop_last().skip(1));
        assert(s.skip(1).last() == s.last());
        assert(s.drop_last()[0] == s[0]);
        open_from(s.drop_last(), in_tag, next);
    }
}

proof fn outside_so_far(s: Seq<char>, n: nat)
    requires
        n <= s.len(),
    ensures
        outside_tags(s.take(n as int), false) == Seq::new(n, |i: int| i).filter(
            |i: int| is_outside(s, i),
        ).map_values(|i: int| s[i]),
    decreases n,
{
    reveal(Seq::filter);
    let all = Seq::new(n, |i: int| i);
    let p = |i: int| is_outside(s, i);
    let f = |i: int| s[i];
    if n == 0 {
        assert(all.filter(p).map_values(f) =~= Seq::empty());
    } else {
        outside_so_far(s, (n - 1) as nat);
        let fewer = Seq::new((n - 1) as nat, |i: int| i);
        assert(all.drop_last() =~= fewer);
        assert(all.last() == n - 1);
        assert(s.take(n as int) =~= s.take(n - 1).push(s[n - 1]));
        outside_pushes(s.take(n - 1), s[n - 1], false);
        open_is_in_a_tag(s, n - 1);
        if p(n - 1) {
            assert(all.filter(p).map_values(f) =~= fewer.filter(p).map_values(f).push(s[n - 1]));
        }
    }
}

// ------------------------------------------------------------------- the whitespace

proof fn first_is_not_white(s: Seq<char>)
    ensures
        trim_start(s).len() > 0 ==> !is_white(trim_start(s)[0]),
        trim_start(s).len() <= s.len(),
        s.len() > 0 && is_white(s[0]) ==> trim_start(s) == trim_start(s.skip(1)),
        s.len() > 0 && !is_white(s[0]) ==> trim_start(s) == s,
{
    leading_white_bound(s);
    if s.len() > 0 && is_white(s[0]) {
        assert(s.drop_first() =~= s.skip(1));
        assert(trim_start(s) =~= trim_start(s.skip(1)));
    } else {
        assert(s.skip(0) =~= s);
    }
}

proof fn white_is_skipped(s: Seq<char>)
    ensures
        collapsed(s, true) == collapsed(trim_start(s), false),
    decreases s.len(),
{
    first_is_not_white(s);
    if s.len() > 0 && is_white(s[0]) {
        white_is_skipped(s.skip(1));
    } else {
        assert(trim_start(s) =~= s);
    }
}

proof fn word_is_kept(s: Seq<char>, last: bool)
    requires
        s.len() > 0,
        !is_white(s[0]),
    ensures
        ({
            let n = word_len(s) as int;
            let rest = s.skip(n);
            &&& 0 < n <= s.len()
            &&& rest.len() > 0 ==> is_white(rest[0])
            &&& forall|i: int| 0 <= i < n ==> !is_white(#[trigger] s[i])
            &&& collapsed(s, last) == s.take(n) + if rest.len() == 0 {
                Seq::empty()
            } else {
                seq![' '] + collapsed(trim_start(rest), false)
            }
        }),
    decreases s.len(),
{
    let n = word_len(s) as int;
    let t = s.skip(1);
    assert(s.drop_first() =~= t);
    word_len_bound(s);
    if t.len() > 0 && !is_white(t[0]) {
        word_is_kept(t, false);
        assert(t.skip(n - 1) =~= s.skip(n));
        assert(seq![s[0]] + t.take(n - 1) =~= s.take(n));
        assert forall|i: int| 0 <= i < n implies !is_white(#[trigger] s[i]) by {
            if i > 0 {
                assert(s[i] == t[i - 1]);
            }
        }
        let tail = if s.skip(n).len() == 0 {
            Seq::empty()
        } else {
            seq![' '] + collapsed(trim_start(s.skip(n)), false)
        };
        assert(seq![s[0]] + (t.take(n - 1) + tail) =~= s.take(n) + tail);
    } else {
        assert(n == 1);
        assert(s.take(1) =~= seq![s[0]]);
        assert(s.skip(1) == t);
        if t.len() > 0 {
            white_is_skipped(t.skip(1));
            first_is_not_white(t);
        } else {
            assert(collapsed(t, false) =~= Seq::empty());
            assert(s.take(1) + Seq::<char>::empty() =~= seq![s[0]] + collapsed(t, false));
        }
    }
}

proof fn trim_end_keeps(a: Seq<char>, b: Seq<char>)
    ensures
        trim_end(b).len() > 0 ==> trim_end(a + b) == a + trim_end(b),
        a.len() > 0 && !is_white(a.last()) && (forall|i: int|
            0 <= i < b.len() ==> is_white(#[trigger] b[i])) ==> trim_end(a + b) == a,
{
    let s = a + b;
    trimmed_end_len_bound(b);
    trimmed_end_len_bound(s);
    let n = trimmed_end_len(s) as int;
    let m = trimmed_end_len(b) as int;
    if trim_end(b).len() > 0 {
        assert(s[a.len() + m - 1] == b[m - 1]);
        if n > a.len() + m {
            assert(s[n - 1] == b[n - 1 - a.len()]);
        }
        assert(n == a.len() + m);
        assert(trim_end(s) =~= a + trim_end(b));
    }
    if a.len() > 0 && !is_white(a.last()) && (forall|i: int|
        0 <= i < b.len() ==> is_white(#[trigger] b[i])) {
        assert(s[a.len() - 1] == a.last());
        if n > a.len() {
            assert(s[n - 1] == b[n - 1 - a.len()]);
        }
        assert(trim_end(s) =~= a);
    }
}

proof fn words_are_joined(s: Seq<char>)
    ensures
        trim_end(collapsed(trim_start(s), false)) == join_with(words(s), seq![' ']),
        words(s).len() > 0 ==> join_with(words(s), seq![' ']).len() > 0,
        collapsed(trim_start(s), false).len() > 0 ==> !is_white(collapsed(trim_start(s), false)[0]),
        words(s).len() == 0 ==> collapsed(trim_start(s), false).len() == 0,
    decreases s.len(),
{
    let t = trim_start(s);
    first_is_not_white(s);
    if t.len() == 0 {
        assert(collapsed(t, false) =~= Seq::empty());
        assert(trim_end(collapsed(t, false)) =~= Seq::empty());
    } else {
        word_is_kept(t, false);
        let n = word_len(t) as int;
        let w = t.take(n);
        let rest = t.skip(n);
        words_are_joined(rest);
        joining_in_front(w, words(rest), seq![' ']);
        assert(words(s) == seq![w] + words(rest));
        assert(w.last() == t[n - 1]);
        let c = collapsed(trim_start(rest), false);
        let space = seq![' '];
        if words(rest).len() == 0 {
            assert(words(s) =~= seq![w]);
            assert(c =~= Seq::empty());
            assert(space + c =~= space);
            let none = Seq::<char>::empty();
            trim_end_keeps(w, none);
            trim_end_keeps(w, space);
        } else {
            assert(rest.len() > 0);
            trim_end_keeps(w + space, c);
            assert(w + (space + c) =~= w + space + c);
        }
    }
}

/// Whitespace is made tidy: what is left are the words, with one space between each two.
pub proof fn tidy_text_is_its_words(s: Seq<char>)
    ensures
        trim(collapsed(s, false)) == join_with(words(s), seq![' ']),
{
    words_are_joined(s);
    first_is_not_white(s);
    let c = collapsed(trim_start(s), false);
    if s.len() > 0 && is_white(s[0]) {
        white_is_skipped(s.skip(1));
        assert(collapsed(s, false) == seq![' '] + c);
        let d = collapsed(s, false);
        assert(d.skip(1) =~= c);
        first_is_not_white(d);
        first_is_not_white(c);
        if c.len() == 0 {
            leading_white_bound(c);
            assert(trim_start(c) =~= c);
        }
    } else {
        if s.len() == 0 {
            leading_white_bound(s);
            assert(trim_start(s) =~= s);
        }
        first_is_not_white(c);
        if c.len() == 0 {
            leading_white_bound(c);
            assert(trim_start(c) =~= c);
        }
    }
}

/// The text of a page: without scripts and styles, without tags, with its entities read, the
/// words that are left with one space between each two.
pub proof fn plain_text_is_the_words(html: Seq<char>)
    ensures
        plain_text(html) == join_with(
            words(decoded(outside_tags(without_blocks(html), false))),
            seq![' '],
        ),
{
    tidy_text_is_its_words(decoded(outside_tags(without_blocks(html), false)));
}

// ------------------------------------------------------------------------- the entities

/// No entity begins in the text.
pub open spec fn no_entity(s: Seq<char>) -> bool {
    forall|i: int| 0 <= i < s.len() ==> #[trigger] s[i] != '&'
}

proof fn nothing_to_replace(s: Seq<char>, p: Seq<char>, r: Seq<char>)
    requires
        forall|i: int| !#[trigger] occurs_at(s, p, i),
    ensures
        replace_all(s, p, r) == s,
{
    find_from_is_first(s, p, 0);
}

proof fn not_replaced(a: Seq<char>, e: Seq<char>, b: Seq<char>, p: Seq<char>, r: Seq<char>)
    requires
        no_entity(a) && no_entity(b),
        e.len() > 0 ==> e[0] == '&' && no_entity(e.skip(1)),
        p.len() > 0 && p[0] == '&',
        e.len() > 0 ==> !occurs_at(e + b, p, 0),
    ensures
        replace_all(a + e + b, p, r) == a + e + b,
{
    let s = a + e + b;
    assert forall|i: int| !#[trigger] occurs_at(s, p, i) by {
        if occurs_at(s, p, i) {
            assert(s.subrange(i, i + p.len())[0] == s[i]);
            if i < a.len() {
                assert(s[i] == a[i]);
            } else if i == a.len() && e.len() > 0 {
                assert((e + b).subrange(0, p.len() as int) =~= s.subrange(i, i + p.len()));
                assert(occurs_at(e + b, p, 0));
            } else if i < a.len() + e.len() {
                assert(s[i] == e.skip(1)[i - a.len() - 1]);
            } else {
                assert(s[i] == b[i - a.len() - e.len()]);
            }
        }
    }
    nothing_to_replace(s, p, r);
}

proof fn is_replaced(a: Seq<char>, b: Seq<char>, p: Seq<char>, r: Seq<char>)
    requires
        no_entity(a) && no_entity(b),
        p.len() > 0 && p[0] == '&',
    ensures
        replace_all(a + p + b, p, r) == a + r + b,
{
    let s = a + p + b;
    find_from_is_first(s, p, 0);
    assert(s.subrange(a.len() as int, (a.len() + p.len()) as int) =~= p);
    assert(occurs_at(s, p, a.len() as int));
    let i = find(s, p)->0;
    if i < a.len() {
        assert(s.subrange(i, i + p.len())[0] == s[i]);
        assert(s[i] == a[i]);
    }
    assert(i == a.len());
    assert(s.take(i) =~= a);
    assert(s.skip(i + p.len()) =~= b);
    assert forall|j: int| !#[trigger] occurs_at(b, p, j) by {
        if occurs_at(b, p, j) {
            assert(b.subrange(j, j + p.len())[0] == b[j]);
        }
    }
    nothing_to_replace(b, p, r);
}

/// The entities and what they stand for.
pub open spec fn stands_for(e: Seq<char>, r: Seq<char>) -> bool {
    ||| e == "&nbsp;"@ && r == " "@
    ||| e == "&#160;"@ && r == " "@
    ||| e == "&lt;"@ && r == "<"@
    ||| e == "&gt;"@ && r == ">"@
    ||| e == "&quot;"@ && r == "\""@
    ||| e == "&#39;"@ && r == "'"@
}

/// Two texts that differ at a place.
spec fn differ(a: Seq<char>, b: Seq<char>, k: int) -> bool {
    0 <= k < a.len() && k < b.len() && a[k] != b[k]
}

proof fn others_stay(a: Seq<char>, e: Seq<char>, b: Seq<char>, p: Seq<char>, r: Seq<char>, k: int)
    requires
        no_entity(a) && no_entity(b),
        e.len() > 0 && e[0] == '&' && no_entity(e.skip(1)),
        p.len() > 0 && p[0] == '&',
        differ(e, p, k),
    ensures
        replace_all(a + e + b, p, r) == a + e + b,
{
    if occurs_at(e + b, p, 0) {
        assert((e + b).subrange(0, p.len() as int)[k] == e[k]);
    }
    not_replaced(a, e, b, p, r);
}

proof fn none_left(a: Seq<char>, c: Seq<char>, b: Seq<char>, p: Seq<char>, r: Seq<char>)
    requires
        no_entity(a) && no_entity(b) && no_entity(c),
        p.len() > 0 && p[0] == '&',
    ensures
        replace_all(a + c + b, p, r) == a + c + b,
{
    let none = Seq::<char>::empty();
    let s = a + c + b;
    assert(no_entity(s)) by {
        assert forall|i: int| 0 <= i < s.len() implies #[trigger] s[i] != '&' by {
            if i < a.len() {
                assert(s[i] == a[i]);
            } else if i < a.len() + c.len() {
                assert(s[i] == c[i - a.len()]);
            } else {
                assert(s[i] == b[i - a.len() - c.len()]);
            }
        }
    }
    not_replaced(s, none, none, p, r);
    assert(s + none + none =~= s);
}

/// An entity between texts without any is read as what it stands for.
#[verifier::spinoff_prover]
#[verifier::rlimit(60)]
pub proof fn entities_are_read(a: Seq<char>, e: Seq<char>, b: Seq<char>, r: Seq<char>)
    requires
        no_entity(a),
        no_entity(b),
        stands_for(e, r),
    ensures
        decoded(a + e + b) == a + r + b,
{
    reveal_strlit("&nbsp;");
    reveal_strlit("&#160;");
    reveal_strlit("&amp;");
    reveal_strlit("&lt;");
    reveal_strlit("&gt;");
    reveal_strlit("&quot;");
    reveal_strlit("&#39;");
    reveal_strlit(" ");
    reveal_strlit("&");
    reveal_strlit("<");
    reveal_strlit(">");
    reveal_strlit("\"");
    reveal_strlit("'");
    assert(e.len() > 2 && e[0] == '&');
    assert(no_entity(e.skip(1)));
    assert(no_entity(r));
    none_left(a, r, b, "&#160;"@, " "@);
    none_left(a, r, b, "&amp;"@, "&"@);
    none_left(a, r, b, "&lt;"@, "<"@);
    none_left(a, r, b, "&gt;"@, ">"@);
    none_left(a, r, b, "&quot;"@, "\""@);
    none_left(a, r, b, "&#39;"@, "'"@);
    if e[1] == 'n' {
        assert(e == "&nbsp;"@);
        is_replaced(a, b, "&nbsp;"@, " "@);
    } else {
        others_stay(a, e, b, "&nbsp;"@, " "@, 1);
        others_stay(a, e, b, "&amp;"@, "&"@, 1);
        if e[1] == '#' && e[2] == '1' {
            assert(e == "&#160;"@);
            is_replaced(a, b, "&#160;"@, " "@);
        } else {
            others_stay(
                a,
                e,
                b,
                "&#160;"@,
                " "@,
                if e[1] == '#' {
                    2
                } else {
                    1
                },
            );
            if e[1] == 'l' {
                assert(e == "&lt;"@);
                is_replaced(a, b, "&lt;"@, "<"@);
            } else {
                others_stay(a, e, b, "&lt;"@, "<"@, 1);
                if e[1] == 'g' {
                    assert(e == "&gt;"@);
                    is_replaced(a, b, "&gt;"@, ">"@);
                } else {
                    others_stay(a, e, b, "&gt;"@, ">"@, 1);
                    if e[1] == 'q' {
                        assert(e == "&quot;"@);
                        is_replaced(a, b, "&quot;"@, "\""@);
                    } else {
                        others_stay(a, e, b, "&quot;"@, "\""@, 1);
                        assert(e == "&#39;"@);
                        is_replaced(a, b, "&#39;"@, "'"@);
                    }
                }
            }
        }
    }
}

proof fn no_entity_begins(b: Seq<char>, p: Seq<char>)
    requires
        forall|i: int| 0 <= i < b.len() ==> #[trigger] b[i] != ';',
        p.len() > 1,
        p.last() == ';',
    ensures
        !occurs_at(seq!['&'] + b, p, 0),
{
    let s = seq!['&'] + b;
    let k = p.len() - 1;
    if occurs_at(s, p, 0) {
        assert(s.subrange(0, p.len() as int)[k] == s[k]);
        assert(s[k] == b[k - 1]);
    }
}

/// The entity of the ampersand is read as one, where what follows makes no other entity of
/// it.
#[verifier::spinoff_prover]
pub proof fn ampersands_are_read(a: Seq<char>, b: Seq<char>)
    requires
        no_entity(a),
        no_entity(b),
        forall|i: int| 0 <= i < b.len() ==> #[trigger] b[i] != ';',
    ensures
        decoded(a + "&amp;"@ + b) == a + seq!['&'] + b,
{
    reveal_strlit("&nbsp;");
    reveal_strlit("&#160;");
    reveal_strlit("&amp;");
    reveal_strlit("&lt;");
    reveal_strlit("&gt;");
    reveal_strlit("&quot;");
    reveal_strlit("&#39;");
    reveal_strlit("&");
    let c = seq!['&'];
    assert("&"@ =~= c);
    assert(no_entity("&amp;"@.skip(1)));
    others_stay(a, "&amp;"@, b, "&nbsp;"@, " "@, 1);
    others_stay(a, "&amp;"@, b, "&#160;"@, " "@, 1);
    is_replaced(a, b, "&amp;"@, "&"@);
    no_entity_begins(b, "&lt;"@);
    no_entity_begins(b, "&gt;"@);
    no_entity_begins(b, "&quot;"@);
    no_entity_begins(b, "&#39;"@);
    not_replaced(a, c, b, "&lt;"@, "<"@);
    not_replaced(a, c, b, "&gt;"@, ">"@);
    not_replaced(a, c, b, "&quot;"@, "\""@);
    not_replaced(a, c, b, "&#39;"@, "'"@);
}

/// Text without entities stays as it is.
pub proof fn text_without_entities_stays(s: Seq<char>)
    requires
        no_entity(s),
    ensures
        decoded(s) == s,
{
    reveal_strlit("&nbsp;");
    reveal_strlit("&#160;");
    reveal_strlit("&amp;");
    reveal_strlit("&lt;");
    reveal_strlit("&gt;");
    reveal_strlit("&quot;");
    reveal_strlit("&#39;");
    let none = Seq::<char>::empty();
    assert(s + none + none =~= s);
    none_left(s, none, none, "&nbsp;"@, " "@);
    none_left(s, none, none, "&#160;"@, " "@);
    none_left(s, none, none, "&amp;"@, "&"@);
    none_left(s, none, none, "&lt;"@, "<"@);
    none_left(s, none, none, "&gt;"@, ">"@);
    none_left(s, none, none, "&quot;"@, "\""@);
    none_left(s, none, none, "&#39;"@, "'"@);
}

// ------------------------------------------------------------- scripts and styles

/// A page without scripts and styles stays as it is.
pub proof fn pages_without_scripts_stay(html: Seq<char>)
    requires
        !contains(ascii_lower(html), "<script"@),
        !contains(ascii_lower(html), "<style"@),
    ensures
        without_blocks(html) == html,
{
}

/// The first script or style of the page begins at `a` with `open`, and `close` ends it at
/// `b`: nothing is begun before, and `close` does not stand in between.
pub open spec fn is_block(
    html: Seq<char>,
    a: int,
    b: int,
    open: Seq<char>,
    close: Seq<char>,
) -> bool {
    let low = ascii_lower(html);
    let at = b - close.len();
    &&& occurs_at(low, open, a)
    &&& forall|i: int| i < a ==> !(#[trigger] occurs_at(low, "<script"@, i))
    &&& forall|i: int| i < a ==> !(#[trigger] occurs_at(low, "<style"@, i))
    &&& a <= at && occurs_at(low, close, at)
    &&& forall|i: int| a <= i < at ==> !(#[trigger] occurs_at(low, close, i))
}

proof fn finds_at<T>(s: Seq<T>, p: Seq<T>, from: int, at: int)
    requires
        0 <= from <= at,
        occurs_at(s, p, at),
        forall|i: int| from <= i < at ==> !(#[trigger] occurs_at(s, p, i)),
    ensures
        find_from(s, p, from) == Some(at),
{
    find_from_is_first(s, p, from);
}

/// A script up to its end, and a style up to its own, is dropped, and what follows is dealt
/// with in the same way.
pub proof fn scripts_and_styles_are_dropped(html: Seq<char>, a: int, b: int)
    requires
        is_block(html, a, b, "<script"@, "</script>"@) || is_block(
            html,
            a,
            b,
            "<style"@,
            "</style>"@,
        ),
    ensures
        0 <= a < b <= html.len(),
        without_blocks(html) == html.take(a) + without_blocks(html.skip(b)),
{
    reveal_strlit("<script");
    reveal_strlit("<style");
    reveal_strlit("</script>");
    reveal_strlit("</style>");
    let low = ascii_lower(html);
    find_from_is_first(low, "<script"@, 0);
    find_from_is_first(low, "<style"@, 0);
    assert(low.len() == html.len());
    if is_block(html, a, b, "<script"@, "</script>"@) {
        finds_at(low, "<script"@, 0, a);
        finds_at(low, "</script>"@, a, b - 9);
        if let Some(q) = find(low, "<style"@) {
            assert(q >= a);
            if q == a {
                assert(low.subrange(a, a + 7)[2] == low[a + 2]);
                assert(low.subrange(a, a + 6)[2] == low[a + 2]);
            }
        }
        assert(first_block(html) == Some((a, b)));
    } else {
        finds_at(low, "<style"@, 0, a);
        finds_at(low, "</style>"@, a, b - 8);
        if let Some(p) = find(low, "<script"@) {
            assert(p >= a);
        }
        assert(first_block(html) == Some((a, b)));
    }
}

/// Where nothing ends a script or style, nothing is dropped from there on.
pub proof fn unended_scripts_stay(html: Seq<char>)
    requires
        !contains(ascii_lower(html), "</script>"@),
        !contains(ascii_lower(html), "</style>"@),
    ensures
        without_blocks(html) == html,
{
    let low = ascii_lower(html);
    find_from_is_first(low, "</script>"@, 0);
    find_from_is_first(low, "</style>"@, 0);
    if let Some(p) = find(low, "<script"@) {
        find_from_is_first(low, "<script"@, 0);
        find_from_is_first(low, "</script>"@, p);
        find_from_is_first(low, "</style>"@, p);
    }
    if let Some(q) = find(low, "<style"@) {
        find_from_is_first(low, "<style"@, 0);
        find_from_is_first(low, "</script>"@, q);
        find_from_is_first(low, "</style>"@, q);
    }
}

// --------------------------------------------------------------------- the attributes

/// The attribute begins at `i`: its name and an equals sign stand there, and no part of
/// another name before.
pub open spec fn attribute_at(tag: Seq<char>, name: Seq<char>, i: int) -> bool {
    occurs_at(tag, name + seq!['='], i) && (i == 0 || !in_attribute_name(tag[i - 1]))
}

proof fn attribute_from_is_first(tag: Seq<char>, name: Seq<char>, from: int)
    requires
        0 <= from,
    ensures
        match attribute_from(tag, name + seq!['='], from) {
            Some(i) => from <= i && attribute_at(tag, name, i) && forall|j: int|
                from <= j < i ==> !(#[trigger] attribute_at(tag, name, j)),
            None => forall|j: int| from <= j ==> !(#[trigger] attribute_at(tag, name, j)),
        },
    decreases tag.len() + 1 - from,
{
    let needle = name + seq!['='];
    if from + needle.len() > tag.len() {
    } else if attribute_at(tag, name, from) {
    } else {
        attribute_from_is_first(tag, name, from + 1);
    }
}

/// The value of an attribute is what stands between the quotes behind its first place.
pub proof fn attributes_are_read(
    tag: Seq<char>,
    name: Seq<char>,
    i: int,
    quote: char,
    value: Seq<char>,
)
    requires
        attribute_at(tag, name, i),
        forall|j: int| 0 <= j < i ==> !(#[trigger] attribute_at(tag, name, j)),
        quote == '"' || quote == '\'',
        occurs_at(tag, name + seq!['='] + seq![quote] + value + seq![quote], i),
        forall|k: int| 0 <= k < value.len() ==> #[trigger] value[k] != quote,
    ensures
        attribute(tag, name) == Some(value),
{
    attribute_from_is_first(tag, name, 0);
    let needle = name + seq!['='];
    let whole = needle + seq![quote] + value + seq![quote];
    let at = i + name.len() + 1;
    let rest = tag.skip(at);
    let there = tag.subrange(i, i + whole.len());
    assert(there == whole);
    assert forall|k: int| 0 <= k < value.len() + 2 implies rest[k] == whole[needle.len() + k] by {
        assert(there[needle.len() + k] == tag[at + k]);
    }
    let end = value.len() as int + 1;
    assert(rest[0] == quote);
    assert(rest[end] == quote);
    assert(rest.subrange(end, end + 1) =~= seq![quote]);
    assert forall|k: int| 1 <= k < end implies !(#[trigger] occurs_at(rest, seq![quote], k)) by {
        assert(rest[k] == value[k - 1]);
        if occurs_at(rest, seq![quote], k) {
            assert(rest.subrange(k, k + 1)[0] == rest[k]);
        }
    }
    finds_at(rest, seq![quote], 1, end);
    assert(rest.subrange(1, end) =~= value);
}

/// Nothing is read where the attribute stands nowhere in the tag.
pub proof fn missing_attributes_are_missing(tag: Seq<char>, name: Seq<char>)
    requires
        forall|j: int| 0 <= j ==> !(#[trigger] attribute_at(tag, name, j)),
    ensures
        attribute(tag, name) is None,
{
    attribute_from_is_first(tag, name, 0);
}

/// A paragraph begins at `i`: its tag does, and it is no other tag with a longer name.
pub open spec fn paragraph_at(s: Seq<char>, i: int) -> bool {
    occurs_at(s, "<p"@, i) && i + 2 < s.len() && (s[i + 2] == '>' || is_white(s[i + 2]))
}

proof fn tag_from_is_first(s: Seq<char>, from: int)
    requires
        0 <= from,
    ensures
        match tag_from(s, "<p"@, from) {
            Some(i) => from <= i && paragraph_at(s, i) && forall|j: int|
                from <= j < i ==> !(#[trigger] paragraph_at(s, j)),
            None => forall|j: int| from <= j ==> !(#[trigger] paragraph_at(s, j)),
        },
    decreases s.len() - from,
{
    reveal_strlit("<p");
    if from + 2 >= s.len() {
    } else if paragraph_at(s, from) {
    } else {
        tag_from_is_first(s, from + 1);
    }
}

/// The text of the first paragraph is what stands between its tag and its end.
pub proof fn first_paragraph_is_read(block: Seq<char>, p: int, e: int, z: int)
    requires
        0 <= p < e,
        paragraph_at(block, p),
        forall|j: int| 0 <= j < p ==> !(#[trigger] paragraph_at(block, j)),
        e < block.len() && block[e] == '>',
        forall|j: int| p <= j < e ==> #[trigger] block[j] != '>',
        e < z,
        occurs_at(block, "</p>"@, z),
        forall|j: int| e < j < z ==> !(#[trigger] occurs_at(block, "</p>"@, j)),
    ensures
        paragraph_text(block) == plain_text(block.subrange(e + 1, z)),
{
    reveal_strlit(">");
    tag_from_is_first(block, 0);
    assert(">"@ =~= seq!['>']);
    assert(block.subrange(e, e + 1) =~= seq!['>']);
    assert forall|j: int| p <= j < e implies !(#[trigger] occurs_at(block, ">"@, j)) by {
        if occurs_at(block, ">"@, j) {
            assert(block.subrange(j, j + 1)[0] == block[j]);
        }
    }
    finds_at(block, ">"@, p, e);
    finds_at(block, "</p>"@, e + 1, z);
}

/// A block without a paragraph has no text of one.
pub proof fn no_paragraph_no_text(block: Seq<char>)
    requires
        forall|j: int| 0 <= j ==> !(#[trigger] paragraph_at(block, j)),
    ensures
        paragraph_text(block) == Seq::<char>::empty(),
{
    tag_from_is_first(block, 0);
}

// -------------------------------------------------------------------------- the links

/// A link begins at the place.
pub open spec fn anchor_at(block: Seq<char>, a: int) -> bool {
    occurs_at(block, "<a "@, a)
}

/// The link between two places is the first that can be read, and there is none only where
/// none can be read.
pub proof fn first_readable_link_is_taken(block: Seq<char>, from: int, end: int)
    requires
        0 <= from,
    ensures
        match link_between(block, from, end) {
            Some(link) => exists|a: int|
                from <= a < end && #[trigger] anchor_at(block, a) && link_at(block, a) == Some(link)
                    && forall|b: int|
                    from <= b < a && #[trigger] anchor_at(block, b) ==> link_at(block, b) is None,
            None => forall|b: int|
                from <= b < end && #[trigger] anchor_at(block, b) ==> link_at(block, b) is None,
        },
    decreases end - from,
{
    find_from_is_first(block, "<a "@, from);
    match find_from(block, "<a "@, from) {
        Some(a) => {
            assert(anchor_at(block, a));
            assert forall|b: int| from <= b < a implies !(#[trigger] anchor_at(block, b)) by {
                assert(!occurs_at(block, "<a "@, b));
            }
            if a < end && link_at(block, a) is None {
                first_readable_link_is_taken(block, a + 1, end);
                if let Some(link) = link_between(block, a + 1, end) {
                    let x = choose|x: int|
                        a + 1 <= x < end && #[trigger] anchor_at(block, x) && link_at(block, x)
                            == Some(link) && forall|b: int|
                            a + 1 <= b < x && #[trigger] anchor_at(block, b) ==> link_at(
                                block,
                                b,
                            ) is None;
                    assert(anchor_at(block, x));
                }
            }
        },
        None => {
            assert forall|b: int| from <= b implies !(#[trigger] anchor_at(block, b)) by {
                assert(!occurs_at(block, "<a "@, b));
            }
        },
    }
}

/// A link is read as the text between its tag and its end, and the address in its tag.
pub proof fn links_are_read(block: Seq<char>, a: int, e: int, z: int, href: Seq<char>)
    requires
        0 <= a <= e < block.len(),
        block[e] == '>',
        forall|j: int| a <= j < e ==> #[trigger] block[j] != '>',
        attribute(block.subrange(a, e), "href"@) == Some(href),
        e < z,
        occurs_at(block, "</a>"@, z),
        forall|j: int| e < j < z ==> !(#[trigger] occurs_at(block, "</a>"@, j)),
    ensures
        link_at(block, a) == Some((plain_text(block.subrange(e + 1, z)), href)),
{
    reveal_strlit(">");
    assert(">"@ =~= seq!['>']);
    assert(block.subrange(e, e + 1) =~= seq!['>']);
    assert forall|j: int| a <= j < e implies !(#[trigger] occurs_at(block, ">"@, j)) by {
        if occurs_at(block, ">"@, j) {
            assert(block.subrange(j, j + 1)[0] == block[j]);
        }
    }
    finds_at(block, ">"@, a, e);
    finds_at(block, "</a>"@, e + 1, z);
}

/// A heading of the second or third level begins at the place.
pub open spec fn heading_at(block: Seq<char>, h: int) -> bool {
    occurs_at(block, "<h2"@, h) || occurs_at(block, "<h3"@, h)
}

/// The heading that begins at `h` ends at `c`.
pub open spec fn heading_ends(block: Seq<char>, h: int, c: int) -> bool {
    if occurs_at(block, "<h2"@, h) {
        first_at(block, "</h2"@, h, c)
    } else {
        first_at(block, "</h3"@, h, c)
    }
}

/// The first place from `h` on is `c`.
pub open spec fn first_at(block: Seq<char>, close: Seq<char>, h: int, c: int) -> bool {
    h <= c && occurs_at(block, close, c) && forall|j: int|
        h <= j < c ==> !(#[trigger] occurs_at(block, close, j))
}

/// The first heading decides: its link is taken if it has one, else the search goes on behind
/// it.
pub proof fn first_heading_decides(block: Seq<char>, from: int, h: int, c: int)
    requires
        0 <= from <= h,
        heading_at(block, h),
        forall|j: int| from <= j < h ==> !(#[trigger] heading_at(block, j)),
        heading_ends(block, h, c),
    ensures
        heading_link_from(block, from) == match link_between(block, h, c) {
            Some(link) => Some(link),
            None => heading_link_from(block, c),
        },
{
    reveal_strlit("<h2");
    reveal_strlit("<h3");
    reveal_strlit("</h2");
    reveal_strlit("</h3");
    first_heading(block, from, h);
    if occurs_at(block, "<h2"@, h) {
        finds_at(block, "</h2"@, h, c);
        if c == h {
            assert(block.subrange(h, h + 3)[1] == block[h + 1]);
            assert(block.subrange(h, h + 4)[1] == block[h + 1]);
        }
    } else {
        finds_at(block, "</h3"@, h, c);
        if c == h {
            assert(block.subrange(h, h + 3)[1] == block[h + 1]);
            assert(block.subrange(h, h + 4)[1] == block[h + 1]);
        }
    }
}

proof fn first_heading(block: Seq<char>, from: int, h: int)
    requires
        0 <= from <= h,
        heading_at(block, h),
        forall|j: int| from <= j < h ==> !(#[trigger] heading_at(block, j)),
    ensures
        crate::html_text::earlier(
            find_from(block, "<h2"@, from),
            find_from(block, "<h3"@, from),
        ) == Some(h),
{
    find_from_is_first(block, "<h2"@, from);
    find_from_is_first(block, "<h3"@, from);
    if let Some(x) = find_from(block, "<h2"@, from) {
        assert(heading_at(block, x));
    }
    if let Some(x) = find_from(block, "<h3"@, from) {
        assert(heading_at(block, x));
    }
}

/// A block without headings has no link in one.
pub proof fn no_heading_no_link(block: Seq<char>)
    requires
        forall|j: int| 0 <= j ==> !(#[trigger] heading_at(block, j)),
    ensures
        heading_link(block) is None,
{
    find_from_is_first(block, "<h2"@, 0);
    find_from_is_first(block, "<h3"@, 0);
    if let Some(x) = find_from(block, "<h2"@, 0) {
        assert(heading_at(block, x));
    }
    if let Some(x) = find_from(block, "<h3"@, 0) {
        assert(heading_at(block, x));
    }
}

// ------------------------------------------------------------------------- the classes

/// The tag begins an element of the class.
pub open spec fn begins_class(tags: Seq<(Seq<char>, Seq<char>)>, class: Seq<char>, i: int) -> bool {
    !starts_with(tags[i].0, "</"@) && has_class(tags[i].0, class)
}

/// One more element of the name is open, or one less.
pub open spec fn opens(tag: (Seq<char>, Seq<char>), name: Seq<char>) -> int {
    if ascii_lower(tag.1) != name {
        0
    } else if starts_with(tag.0, "</"@) {
        -1
    } else {
        1
    }
}

/// How many elements of the name are open behind the `j`th tag, the one that the `i`th tag
/// begins among them.
pub open spec fn open_behind(tags: Seq<(Seq<char>, Seq<char>)>, i: int, j: int) -> int {
    let name = ascii_lower(tags[i].1);
    1 + tags.subrange(i + 1, j + 1).fold_left(
        0int,
        |n: int, t: (Seq<char>, Seq<char>)| n + opens(t, name),
    )
}

/// The text of a class is that of the first element of it: all that stands between its tag
/// and the one that ends it, with what is nested in it, or up to the end of the page.
pub proof fn first_element_of_the_class_is_read(
    pieces: Seq<Seq<char>>,
    tags: Seq<(Seq<char>, Seq<char>)>,
    class: Seq<char>,
    i: int,
    j: int,
)
    requires
        pieces.len() == tags.len() + 1,
        0 <= i < j <= tags.len(),
        begins_class(tags, class, i),
        forall|k: int| 0 <= k < i ==> !(#[trigger] begins_class(tags, class, k)),
        forall|k: int| i < k < j ==> #[trigger] open_behind(tags, i, k) > 0,
        j < tags.len() ==> open_behind(tags, i, j) == 0,
    ensures
        class_text(pieces, tags, class, 0, fresh_scan()) == element_text(
            pieces.subrange(
                i + 1,
                if j < tags.len() {
                    j + 1
                } else {
                    j
                },
            ).flatten(),
        ),
{
    scan_reaches(pieces, tags, class, 0, i);
    let name = ascii_lower(tags[i].1);
    let s = ClassScan { found: true, name, depth: 1, text: Seq::empty() };
    assert(fresh_scan().text == s.text);
    let none = pieces.subrange(i + 1, i + 1);
    assert(none =~= Seq::empty());
    assert(none.flatten() =~= Seq::<char>::empty());
    let part = tags.subrange(i + 1, i + 1);
    assert(part =~= Seq::empty());
    reveal_with_fuel(Seq::fold_left, 2);
    scan_reads(pieces, tags, class, i, i + 1, j, s);
}

proof fn scan_reaches(
    pieces: Seq<Seq<char>>,
    tags: Seq<(Seq<char>, Seq<char>)>,
    class: Seq<char>,
    k: int,
    i: int,
)
    requires
        0 <= k <= i < tags.len(),
        begins_class(tags, class, i),
        forall|x: int| k <= x < i ==> !(#[trigger] begins_class(tags, class, x)),
    ensures
        class_text(pieces, tags, class, k, fresh_scan()) == class_text(
            pieces,
            tags,
            class,
            i + 1,
            ClassScan {
                found: true,
                name: ascii_lower(tags[i].1),
                depth: 1,
                text: Seq::empty(),
            },
        ),
    decreases i - k,
{
    assert(begins_class(tags, class, k) == (k == i));
    if k < i {
        scan_reaches(pieces, tags, class, k + 1, i);
    }
}

proof fn scan_reads(
    pieces: Seq<Seq<char>>,
    tags: Seq<(Seq<char>, Seq<char>)>,
    class: Seq<char>,
    i: int,
    k: int,
    j: int,
    s: ClassScan,
)
    requires
        pieces.len() == tags.len() + 1,
        0 <= i < k <= j <= tags.len(),
        s.found,
        s.name == ascii_lower(tags[i].1),
        s.depth == open_behind(tags, i, k - 1),
        s.depth > 0,
        s.text == pieces.subrange(i + 1, k).flatten(),
        forall|x: int| i < x < j ==> #[trigger] open_behind(tags, i, x) > 0,
        j < tags.len() ==> open_behind(tags, i, j) == 0,
    ensures
        class_text(pieces, tags, class, k, s) == element_text(
            pieces.subrange(
                i + 1,
                if j < tags.len() {
                    j + 1
                } else {
                    j
                },
            ).flatten(),
        ),
    decreases j - k,
{
    if k < tags.len() {
        let tag = tags[k].0;
        let name = s.name;
        let f = |n: int, t: (Seq<char>, Seq<char>)| n + opens(t, name);
        let part = tags.subrange(i + 1, k + 1);
        assert(part.drop_last() =~= tags.subrange(i + 1, k));
        assert(part.last() == tags[k]);
        assert(open_behind(tags, i, k) == s.depth + opens(tags[k], name));
        let before = pieces.subrange(i + 1, k);
        before.lemma_flatten_push(pieces[k]);
        assert(before.push(pieces[k]) =~= pieces.subrange(i + 1, k + 1));
        let text = s.text + pieces[k];
        if k < j {
            assert(open_behind(tags, i, k) > 0);
            let next = ClassScan { depth: open_behind(tags, i, k) as nat, text, ..s };
            scan_reads(pieces, tags, class, i, k + 1, j, next);
        }
    }
}

/// A page without an element of the class has no text of it.
pub proof fn no_element_no_text(
    pieces: Seq<Seq<char>>,
    tags: Seq<(Seq<char>, Seq<char>)>,
    class: Seq<char>,
    k: int,
)
    requires
        0 <= k <= tags.len(),
        forall|x: int| k <= x < tags.len() ==> !(#[trigger] begins_class(tags, class, x)),
    ensures
        class_text(pieces, tags, class, k, fresh_scan()) is None,
    decreases tags.len() - k,
{
    if k < tags.len() {
        assert(!begins_class(tags, class, k));
        no_element_no_text(pieces, tags, class, k + 1);
    }
}

/// The text of an element is told as plain text, and not at all where nothing is left of it.
pub proof fn element_texts_are_plain(text: Seq<char>)
    ensures
        element_text(text) is Some <==> plain_text(text).len() > 0,
        element_text(text) matches Some(t) ==> t == plain_text(text),
{
}

} // verus!
