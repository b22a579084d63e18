//! What holds of texts that are searched, split, joined and read.
use crate::text::{
    all_digits, ascii_lower, contains, decimal, digits_value, ends_with, find, find_from_is_first,
    is_digit, is_white, join_with, last_index_of, leading_white, leading_white_bound, occurs_at,
    parsed_i64, parsed_u64, replace_all, signed_decimal, split_on, starts_with, strip_prefix, trim,
    trim_start, trimmed_end_len, trimmed_end_len_bound, word_len, word_len_bound, words,
};
use crate::text_order::text_less;
use vstd::prelude::*;

verus! {

// --------------------------------------------------------------------- searching

/// A text holds another just where it is something, the other, and something more; it
/// begins or ends with it where the first or the last of these is empty.
pub proof fn texts_hold_texts<T>(s: Seq<T>, p: Seq<T>)
    ensures
        contains(s, p) <==> exists|a: Seq<T>, b: Seq<T>| s == #[trigger] ((a + p) + b),
        starts_with(s, p) <==> exists|b: Seq<T>| s == #[trigger] (p + b),
        ends_with(s, p) <==> exists|a: Seq<T>| s == #[trigger] (a + p),
{
    find_from_is_first(s, p, 0);
    if let Some(i) = find(s, p) {
        let a = s.take(i);
        let b = s.skip(i + p.len());
        assert(s =~= (a + p) + b);
    }
    if exists|a: Seq<T>, b: Seq<T>| s == #[trigger] ((a + p) + b) {
        let (a, b) = choose|a: Seq<T>, b: Seq<T>| s == #[trigger] ((a + p) + b);
        assert(s.subrange(a.len() as int, (a.len() + p.len()) as int) =~= p);
        assert(occurs_at(s, p, a.len() as int));
    }
    if starts_with(s, p) {
        assert(s =~= p + s.skip(p.len() as int));
    }
    if exists|b: Seq<T>| s == #[trigger] (p + b) {
        assert(s.subrange(0, p.len() as int) =~= p);
    }
    if ends_with(s, p) {
        assert(s =~= s.take(s.len() - p.len()) + p);
    }
    if exists|a: Seq<T>| s == #[trigger] (a + p) {
        assert(s.subrange(s.len() - p.len(), s.len() as int) =~= p);
    }
}

/// What is left of a text once a prefix is taken off is what stands behind the prefix.
pub proof fn stripping_undoes_adding<T>(p: Seq<T>, rest: Seq<T>, s: Seq<T>)
    ensures
        strip_prefix(p + rest, p) == Some(rest),
        strip_prefix(s, p) matches Some(r) ==> s == p + r,
{
    assert((p + rest).subrange(0, p.len() as int) =~= p);
    assert((p + rest).skip(p.len() as int) =~= rest);
    if let Some(r) = strip_prefix(s, p) {
        assert(s =~= p + r);
    }
}

/// The last place of a character is one where it stands, and behind which it does not.
pub proof fn last_place_is_last(s: Seq<char>, c: char)
    ensures
        last_index_of(s, c) matches Some(i) ==> 0 <= i < s.len() && s[i] == c && forall|j: int|
            i < j < s.len() ==> (#[trigger] s[j]) != c,
        last_index_of(s, c) is None ==> forall|j: int| 0 <= j < s.len() ==> (#[trigger] s[j]) != c,
    decreases s.len(),
{
    if s.len() > 0 && s.last() != c {
        last_place_is_last(s.drop_last(), c);
        assert forall|j: int| 0 <= j < s.len() - 1 implies s.drop_last()[j] == #[trigger] s[j] by {}
    }
}

// ------------------------------------------------------------ splitting and joining

/// Splitting is undone by joining, and leaves no piece that still holds what it is split at.
pub proof fn splitting_undoes_joining<T>(s: Seq<T>, p: Seq<T>)
    requires
        p.len() > 0,
    ensures
        split_on(s, p).len() > 0,
        join_with(split_on(s, p), p) == s,
        forall|i: int| 0 <= i < split_on(s, p).len() ==> !contains(#[trigger] split_on(s, p)[i], p),
    decreases s.len(),
{
    find_from_is_first(s, p, 0);
    match find(s, p) {
        Some(i) => {
            let head = s.take(i);
            let rest = s.skip(i + p.len());
            splitting_undoes_joining(rest, p);
            let tail = split_on(rest, p);
            let all = split_on(s, p);
            assert(all == seq![head] + tail);
            joining_in_front(head, tail, p);
            assert(s =~= head + p + rest);
            assert forall|k: int| 0 <= k < all.len() implies !contains(#[trigger] all[k], p) by {
                if k == 0 {
                    find_from_is_first(head, p, 0);
                    if let Some(j) = find(head, p) {
                        assert(s.subrange(j, j + p.len()) =~= head.subrange(j, j + p.len()));
                        assert(occurs_at(s, p, j));
                    }
                } else {
                    assert(all[k] == tail[k - 1]);
                }
            }
        },
        None => {
            assert(split_on(s, p) =~= seq![s]);
        },
    }
}

/// Joining puts the separator between each two parts.
pub proof fn joining_in_front<T>(head: Seq<T>, tail: Seq<Seq<T>>, p: Seq<T>)
    ensures
        join_with(seq![head], p) == head,
        tail.len() > 0 ==> join_with(seq![head] + tail, p) == head + p + join_with(tail, p),
    decreases tail.len(),
{
    let all = seq![head] + tail;
    assert(join_with(seq![head], p) == head);
    if tail.len() == 1 {
        assert(all.drop_last() =~= seq![head]);
        assert(all.last() == tail[0]);
        assert(join_with(tail, p) == tail[0]);
        assert(join_with(all, p) == join_with(all.drop_last(), p) + p + all.last());
    } else if tail.len() > 1 {
        joining_in_front(head, tail.drop_last(), p);
        assert(all.drop_last() =~= seq![head] + tail.drop_last());
        assert(all.last() == tail.last());
        let j = join_with(tail.drop_last(), p);
        assert((head + p + j) + p + tail.last() =~= head + p + (j + p + tail.last()));
    }
}

/// One more text at the end of many comes behind the separator.
pub proof fn joining_at_the_end<T>(front: Seq<Seq<T>>, last: Seq<T>, p: Seq<T>)
    ensures
        join_with(front.push(last), p) == if front.len() == 0 {
            last
        } else {
            join_with(front, p) + p + last
        },
{
    assert(front.push(last).drop_last() =~= front);
    if front.len() == 0 {
        assert(front =~= Seq::empty());
    }
}

/// Replacing a text is splitting at it and joining with the other.
pub proof fn replacing_is_splitting<T>(s: Seq<T>, p: Seq<T>, r: Seq<T>)
    requires
        p.len() > 0,
    ensures
        replace_all(s, p, r) == join_with(split_on(s, p), r),
    decreases s.len(),
{
    find_from_is_first(s, p, 0);
    match find(s, p) {
        Some(i) => {
            let rest = s.skip(i + p.len());
            replacing_is_splitting(rest, p, r);
            splitting_undoes_joining(rest, p);
            joining_in_front(s.take(i), split_on(rest, p), r);
        },
        None => {
            assert(split_on(s, p) =~= seq![s]);
        },
    }
}

// ---------------------------------------------------------------------- whitespace

/// Only whitespace.
pub open spec fn all_white(s: Seq<char>) -> bool {
    forall|i: int| 0 <= i < s.len() ==> is_white(#[trigger] s[i])
}

/// Trimming takes off whitespace at both ends, and all of it.
pub proof fn trimming_trims(s: Seq<char>) -> (ends: (Seq<char>, Seq<char>))
    ensures
        all_white(ends.0) && all_white(ends.1),
        s == ends.0 + trim(s) + ends.1,
        trim(s).len() > 0 ==> !is_white(trim(s)[0]) && !is_white(trim(s).last()),
{
    leading_white_bound(s);
    let t = trim_start(s);
    trimmed_end_len_bound(t);
    let a = s.take(leading_white(s) as int);
    let b = t.skip(trimmed_end_len(t) as int);
    assert(s =~= a + trim(s) + b);
    if trim(s).len() > 0 {
        assert(t[0] == s[leading_white(s) as int]);
    }
    (a, b)
}

proof fn words_of_white(s: Seq<char>)
    requires
        all_white(s),
    ensures
        words(s).len() == 0,
{
    leading_white_bound(s);
}

proof fn leading_grows(c: char, s: Seq<char>)
    requires
        is_white(c),
    ensures
        trim_start(seq![c] + s) == trim_start(s),
        words(seq![c] + s) == words(s),
{
    let t = seq![c] + s;
    assert(t.drop_first() =~= s);
    leading_white_bound(s);
    leading_white_bound(t);
    assert(trim_start(t) =~= trim_start(s));
}

proof fn word_in_front(w: Seq<char>, s: Seq<char>)
    requires
        w.len() > 0,
        forall|i: int| 0 <= i < w.len() ==> !is_white(#[trigger] w[i]),
        s.len() > 0 ==> is_white(s[0]),
    ensures
        words(w + s) == seq![w] + words(s),
{
    let t = w + s;
    leading_white_bound(t);
    assert(trim_start(t) =~= t) by {
        assert(t[0] == w[0]);
    }
    word_len_in_front(w, s);
    assert(t.take(w.len() as int) =~= w);
    assert(t.skip(w.len() as int) =~= s);
}

proof fn word_len_in_front(w: Seq<char>, s: Seq<char>)
    requires
        forall|i: int| 0 <= i < w.len() ==> !is_white(#[trigger] w[i]),
        s.len() > 0 ==> is_white(s[0]),
    ensures
        word_len(w + s) == w.len(),
    decreases w.len(),
{
    if w.len() > 0 {
        let v = w.drop_first();
        assert forall|i: int| 0 <= i < v.len() implies !is_white(#[trigger] v[i]) by {
            assert(v[i] == w[i + 1]);
        }
        word_len_in_front(v, s);
        assert((w + s).drop_first() =~= v + s);
        assert((w + s)[0] == w[0]);
    } else {
        assert(w + s =~= s);
    }
}

/// A text without whitespace is one word.
pub proof fn word_is_one_word(w: Seq<char>)
    requires
        w.len() > 0,
        forall|i: int| 0 <= i < w.len() ==> !is_white(#[trigger] w[i]),
    ensures
        words(w) == seq![w],
{
    let none = Seq::<char>::empty();
    word_in_front(w, none);
    words_of_white(none);
    assert(w + none =~= w);
    assert(seq![w] + words(none) =~= seq![w]);
}

/// The words of a text are what stands between its whitespace: around each whitespace they
/// are those before it and those behind it. An empty text has none.
pub proof fn words_stand_between_whitespace(a: Seq<char>, c: char, b: Seq<char>)
    requires
        is_white(c),
    ensures
        a.len() == 0 ==> words(a).len() == 0,
        words(a + seq![c] + b) == words(a) + words(b),
    decreases a.len(), 1int,
{
    if a.len() == 0 {
        words_of_white(a);
        assert(a + seq![c] + b =~= seq![c] + b);
        leading_grows(c, b);
        assert(words(a) + words(b) =~= words(b));
    } else if is_white(a[0]) {
        words_behind_white(a, c, b);
    } else {
        words_behind_word(a, c, b);
    }
}

proof fn words_behind_white(a: Seq<char>, c: char, b: Seq<char>)
    requires
        is_white(c),
        a.len() > 0,
        is_white(a[0]),
    ensures
        words(a + seq![c] + b) == words(a) + words(b),
    decreases a.len(), 0int,
{
    let d = a.drop_first();
    words_stand_between_whitespace(d, c, b);
    assert(a =~= seq![a[0]] + d);
    leading_grows(a[0], d);
    assert(a + seq![c] + b =~= seq![a[0]] + (d + seq![c] + b));
    leading_grows(a[0], d + seq![c] + b);
}

#[verifier::spinoff_prover]
#[verifier::rlimit(40)]
proof fn words_behind_word(a: Seq<char>, c: char, b: Seq<char>)
    requires
        is_white(c),
        a.len() > 0,
        !is_white(a[0]),
    ensures
        words(a + seq![c] + b) == words(a) + words(b),
    decreases a.len(), 0int,
{
    let n = word_len(a) as int;
    word_len_bound(a);
    word_is_word(a);
    let w = a.take(n);
    let d = a.skip(n);
    assert(a =~= w + d);
    if d.len() == 0 {
        assert(a =~= w);
        word_is_one_word(w);
        assert(a + seq![c] + b =~= w + (seq![c] + b));
        word_in_front(w, seq![c] + b);
        leading_grows(c, b);
    } else {
        assert(a[n] == d[0]);
        word_in_front(w, d);
        words_stand_between_whitespace(d, c, b);
        let rest = d + seq![c] + b;
        assert(a + seq![c] + b =~= w + rest);
        assert(rest[0] == d[0]);
        word_in_front(w, rest);
        assert(seq![w] + (words(d) + words(b)) =~= (seq![w] + words(d)) + words(b));
    }
}

proof fn word_is_word(s: Seq<char>)
    ensures
        word_len(s) <= s.len(),
        forall|i: int| 0 <= i < word_len(s) ==> !is_white(#[trigger] s[i]),
        word_len(s) < s.len() ==> is_white(s[word_len(s) as int]),
    decreases s.len(),
{
    if s.len() > 0 && !is_white(s[0]) {
        let t = s.drop_first();
        word_is_word(t);
        assert forall|i: int| 0 <= i < word_len(s) implies !is_white(#[trigger] s[i]) by {
            if i > 0 {
                assert(s[i] == t[i - 1]);
            }
        }
    }
}

// ------------------------------------------------------------------------ numbers

/// A number is read as it is written.
pub proof fn numbers_are_read_as_written(n: nat)
    ensures
        all_digits(decimal(n)),
        digits_value(decimal(n)) == n,
        n > 0 ==> decimal(n)[0] != '0',
        n <= u64::MAX ==> parsed_u64(decimal(n)) == Some(n as u64),
    decreases n,
{
    let d = decimal(n);
    if n >= 10 {
        numbers_are_read_as_written(n / 10);
        assert(d.drop_last() =~= decimal(n / 10));
        assert(d[0] == decimal(n / 10)[0]);
        assert(d.last() as u32 - 48 == n % 10);
    } else {
        assert(d.drop_last() =~= Seq::empty());
        assert(digits_value(d.drop_last()) == 0);
        assert(d.last() as u32 - 48 == n);
    }
    assert(is_digit(d[0]));
    assert(d[0] != '+');
}

// -------------------------------------------------------------------------- order

/// Texts are ordered by the first character in which they differ, and one that the other
/// goes on behind comes first.
pub proof fn first_difference_decides(
    p: Seq<char>,
    c: char,
    d: char,
    x: Seq<char>,
    y: Seq<char>,
)
    requires
        c < d,
    ensures
        text_less(p + seq![c] + x, p + seq![d] + y),
        !text_less(p + seq![d] + y, p + seq![c] + x),
        text_less(p, p + seq![c] + x),
    decreases p.len(),
{
    let a = p + seq![c] + x;
    let b = p + seq![d] + y;
    if p.len() > 0 {
        let q = p.skip(1);
        first_difference_decides(q, c, d, x, y);
        assert(a.skip(1) =~= q + seq![c] + x);
        assert(b.skip(1) =~= q + seq![d] + y);
        assert(a[0] == p[0] && b[0] == p[0]);
    } else {
        assert(a[0] == c && b[0] == d);
    }
}

/// Lowering changes the letters A to Z, each to the small one, and nothing else.
pub proof fn lowering_lowers(s: Seq<char>, i: int)
    requires
        0 <= i < s.len(),
    ensures
        ascii_lower(s).len() == s.len(),
        'A' <= s[i] <= 'Z' ==> ascii_lower(s)[i] as u32 == s[i] as u32 + 32,
        !('A' <= s[i] <= 'Z') ==> ascii_lower(s)[i] == s[i],
{
}

/// Numbers with a sign are read as they are written, and with a sign they are written where
/// they are below zero.
pub proof fn signed_numbers_are_read(n: nat)
    requires
        n <= 0x7fff_ffff_ffff_ffff,
    ensures
        parsed_i64(decimal(n)) == Some(n as i64),
        parsed_i64(seq!['-'] + decimal(n)) == Some((-(n as int)) as i64),
        parsed_i64(seq!['+'] + decimal(n)) == Some(n as i64),
        parsed_u64(seq!['+'] + decimal(n)) == Some(n as u64),
        parsed_u64(seq!['-'] + decimal(n)) is None,
        signed_decimal(n as int) == decimal(n),
        n > 0 ==> signed_decimal(-(n as int)) == "-"@ + decimal(n),
{
    reveal_strlit("-");
    assert("-"@ =~= seq!['-']);
    let d = decimal(n);
    numbers_are_read_as_written(n);
    assert(is_digit(d[0]));
    let minus = seq!['-'] + d;
    assert(minus.skip(1) =~= d);
    assert((seq!['+'] + d).skip(1) =~= d);
    assert(minus[0] == '-');
    assert(!is_digit(minus[0]));
}

/// What holds anything but digits behind its sign is no number.
pub proof fn only_digits_are_numbers(s: Seq<char>, i: int)
    requires
        0 <= i < s.len(),
        !is_digit(s[i]),
        i > 0 || (s[0] != '+' && s[0] != '-'),
    ensures
        parsed_i64(s) is None,
        parsed_u64(s) is None,
{
    if i > 0 {
        assert(s.skip(1)[i - 1] == s[i]);
    }
}

} // verus!
