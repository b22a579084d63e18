//! Text primitives on which the rest of the library is stated: searching,
//! splitting, trimming and number rendering over sequences of characters.
use vstd::prelude::*;
use vstd::slice::slice_subrange;
use vstd::utf8::*;

verus! {

/// `String::push` appends one character.
pub assume_specification[ String::push ](s: &mut String, c: char)
    ensures
        final(s)@ == old(s)@.push(c),
;

// ---------------------------------------------------------------- conversion

/// The characters of `s`, one per element.
pub fn chars_of(s: &str) -> (v: Vec<char>)
    ensures
        v@ == s@,
{
    let mut v: Vec<char> = Vec::new();
    for c in it: s.chars()
        invariant
            it.seq() == s@,
            v@ == it.seq().take(it.index() as int),
    {
        v.push(c);
        assert(v@ =~= it.seq().take(it.index() as int + 1));
    }
    assert(v@ =~= s@);
    v
}

/// Appends `v` to `out`.
pub fn append_chars(out: &mut String, v: &[char])
    ensures
        final(out)@ == old(out)@ + v@,
{
    let mut i: usize = 0;
    while i < v.len()
        invariant
            i <= v.len(),
            out@ == old(out)@ + v@.take(i as int),
        decreases v.len() - i,
    {
        out.push(v[i]);
        assert(v@.take(i as int + 1) =~= v@.take(i as int).push(v@[i as int]));
        i += 1;
    }
    assert(v@.take(i as int) =~= v@);
}

/// The text whose characters are `v`.
pub fn string_of(v: &[char]) -> (s: String)
    ensures
        s@ == v@,
{
    let mut s = String::new();
    append_chars(&mut s, v);
    assert(s@ =~= v@);
    s
}

/// Whether two texts are the same.
pub fn same_text(a: &str, b: &str) -> (r: bool)
    ensures
        r == (a@ == b@),
{
    let x: &[u8] = a.as_bytes();
    let y: &[u8] = b.as_bytes();
    proof {
        encode_utf8_decode_utf8(a@);
        encode_utf8_decode_utf8(b@);
    }
    if x.len() != y.len() {
        return false;
    }
    let mut i: usize = 0;
    while i < x.len()
        invariant
            i <= x.len(),
            x.len() == y.len(),
            x@ == encode_utf8(a@),
            y@ == encode_utf8(b@),
            x@.take(i as int) == y@.take(i as int),
        decreases x.len() - i,
    {
        if x[i] != y[i] {
            return false;
        }
        assert(x@.take(i as int + 1) =~= x@.take(i as int).push(x@[i as int]));
        assert(y@.take(i as int + 1) =~= y@.take(i as int).push(y@[i as int]));
        i += 1;
    }
    assert(x@.take(i as int) =~= x@);
    assert(y@.take(i as int) =~= y@);
    true
}

// ----------------------------------------------------------------- searching

/// `p` stands in `s` at position `i`.
pub open spec fn occurs_at<T>(s: Seq<T>, p: Seq<T>, i: int) -> bool {
    0 <= i && i + p.len() <= s.len() && s.subrange(i, i + p.len()) == p
}

/// The first position at or after `from` at which `p` stands in `s`.
pub open spec fn find_from<T>(s: Seq<T>, p: Seq<T>, from: int) -> Option<int>
    decreases s.len() + 1 - from,
{
    if from < 0 || from + p.len() > s.len() {
        None
    } else if occurs_at(s, p, from) {
        Some(from)
    } else {
        find_from(s, p, from + 1)
    }
}

/// The first position of `p` in `s`.
pub open spec fn find<T>(s: Seq<T>, p: Seq<T>) -> Option<int> {
    find_from(s, p, 0)
}

/// `p` stands somewhere in `s`.
pub open spec fn contains<T>(s: Seq<T>, p: Seq<T>) -> bool {
    find(s, p) is Some
}

/// `s` begins with `p`.
pub open spec fn starts_with<T>(s: Seq<T>, p: Seq<T>) -> bool {
    occurs_at(s, p, 0)
}

/// `s` ends with `p`.
pub open spec fn ends_with<T>(s: Seq<T>, p: Seq<T>) -> bool {
    occurs_at(s, p, s.len() - p.len())
}

/// What [`find_from`] gives is the first occurrence, and it gives one whenever
/// there is one.
pub proof fn find_from_is_first<T>(s: Seq<T>, p: Seq<T>, from: int)
    requires
        0 <= from,
    ensures
        find_from(s, p, from) matches Some(i) ==> from <= i && i + p.len() <= s.len() && occurs_at(
            s,
            p,
            i,
        ) && forall|j: int| from <= j < i ==> !#[trigger] occurs_at(s, p, j),
        find_from(s, p, from) is None ==> forall|j: int| from <= j ==> !#[trigger] occurs_at(s, p, j),
    decreases s.len() + 1 - from,
{
    if from + p.len() > s.len() {
    } else if occurs_at(s, p, from) {
    } else {
        find_from_is_first(s, p, from + 1);
    }
}

/// Whether `p` stands in `s` at position `i`.
pub fn occurs_at_exec(s: &[char], p: &[char], i: usize) -> (r: bool)
    requires
        i <= s.len(),
    ensures
        r == occurs_at(s@, p@, i as int),
{
    if p.len() > s.len() - i {
        return false;
    }
    let mut k: usize = 0;
    while k < p.len()
        invariant
            k <= p.len(),
            i + p.len() <= s.len(),
            forall|j: int| 0 <= j < k ==> s@[i + j] == p@[j],
        decreases p.len() - k,
    {
        if s[i + k] != p[k] {
            assert(s@.subrange(i as int, i + p.len())[k as int] != p@[k as int]);
            return false;
        }
        k += 1;
    }
    assert(s@.subrange(i as int, i + p.len()) =~= p@);
    true
}

/// The first position at or after `from` at which `p` stands in `s`.
pub fn find_chars(s: &[char], p: &[char], from: usize) -> (r: Option<usize>)
    requires
        from <= s.len(),
    ensures
        match r {
            Some(i) => find_from(s@, p@, from as int) == Some(i as int),
            None => find_from(s@, p@, from as int) is None,
        },
        r matches Some(i) ==> from <= i && i + p.len() <= s.len() && occurs_at(s@, p@, i as int),
{
    let mut i: usize = from;
    while i < s.len() && p.len() <= s.len() - i
        invariant
            from <= i <= s.len(),
            find_from(s@, p@, from as int) == find_from(s@, p@, i as int),
        decreases s.len() - i,
    {
        if occurs_at_exec(s, p, i) {
            return Some(i);
        }
        i += 1;
    }
    if occurs_at_exec(s, p, i) {
        return Some(i);
    }
    assert(find_from(s@, p@, i as int + 1) is None);
    None
}


/// Whether `s` begins with `p`.
pub fn starts_with_chars(s: &[char], p: &[char]) -> (r: bool)
    ensures
        r == starts_with(s@, p@),
{
    occurs_at_exec(s, p, 0)
}

/// Whether `p` stands somewhere in `s`.
pub fn contains_text(s: &str, p: &str) -> (r: bool)
    ensures
        r == contains(s@, p@),
{
    let a: Vec<char> = chars_of(s);
    let b: Vec<char> = chars_of(p);
    find_chars(&a, &b, 0).is_some()
}

/// Whether `s` begins with `p`.
pub fn starts_with_text(s: &str, p: &str) -> (r: bool)
    ensures
        r == starts_with(s@, p@),
{
    let a: Vec<char> = chars_of(s);
    let b: Vec<char> = chars_of(p);
    starts_with_chars(&a, &b)
}

/// Whether `s` ends with `p`.
pub fn ends_with_text(s: &str, p: &str) -> (r: bool)
    ensures
        r == ends_with(s@, p@),
{
    let a: Vec<char> = chars_of(s);
    let b: Vec<char> = chars_of(p);
    if a.len() < b.len() {
        return false;
    }
    occurs_at_exec(&a, &b, a.len() - b.len())
}

/// What is left of `s` once the leading `p` is taken off.
pub open spec fn strip_prefix<T>(s: Seq<T>, p: Seq<T>) -> Option<Seq<T>> {
    if starts_with(s, p) {
        Some(s.skip(p.len() as int))
    } else {
        None
    }
}

/// What is left of `s` once the leading `p` is taken off.
pub fn strip_prefix_text(s: &str, p: &str) -> (r: Option<String>)
    ensures
        match r {
            Some(t) => strip_prefix(s@, p@) == Some(t@),
            None => strip_prefix(s@, p@) is None,
        },
{
    let a: Vec<char> = chars_of(s);
    let b: Vec<char> = chars_of(p);
    if starts_with_chars(&a, &b) {
        Some(string_of(slice_subrange(&a, b.len(), a.len())))
    } else {
        None
    }
}

// ------------------------------------------------------- splitting and joining

/// The pieces of `s` between the occurrences of `p`, scanned from the left.
pub open spec fn split_on<T>(s: Seq<T>, p: Seq<T>) -> Seq<Seq<T>>
    decreases s.len(),
{
    match find(s, p) {
        Some(i) if p.len() > 0 && 0 <= i <= s.len() - p.len() => seq![s.take(i)] + split_on(
            s.skip(i + p.len()),
            p,
        ),
        _ => seq![s],
    }
}

/// `s` with each occurrence of `p`, scanned from the left, replaced by `r`.
pub open spec fn replace_all<T>(s: Seq<T>, p: Seq<T>, r: Seq<T>) -> Seq<T>
    decreases s.len(),
{
    match find(s, p) {
        Some(i) if p.len() > 0 && 0 <= i <= s.len() - p.len() => s.take(i) + r + replace_all(
            s.skip(i + p.len()),
            p,
            r,
        ),
        _ => s,
    }
}

/// The parts one after another, with `sep` between each two.
pub open spec fn join_with<T>(parts: Seq<Seq<T>>, sep: Seq<T>) -> Seq<T>
    decreases parts.len(),
{
    if parts.len() == 0 {
        Seq::empty()
    } else if parts.len() == 1 {
        parts[0]
    } else {
        join_with(parts.drop_last(), sep) + sep + parts.last()
    }
}

/// Searching the rest of a text is searching the text from there on.
pub proof fn find_in_rest<T>(s: Seq<T>, p: Seq<T>, at: int, from: int)
    requires
        0 <= at <= s.len(),
        0 <= from,
    ensures
        match find_from(s.skip(at), p, from) {
            Some(i) => find_from(s, p, at + from) == Some(at + i),
            None => find_from(s, p, at + from) is None,
        },
    decreases s.len() + 1 - at - from,
{
    let r = s.skip(at);
    if from + p.len() > r.len() {
    } else {
        assert(s.subrange(at + from, at + from + p.len()) =~= r.subrange(from, from + p.len()));
        if !occurs_at(r, p, from) {
            find_in_rest(s, p, at, from + 1);
        }
    }
}

/// The pieces of `s` between the occurrences of `p`.
pub fn split_chars(s: &[char], p: &[char]) -> (r: Vec<Vec<char>>)
    requires
        p.len() > 0,
    ensures
        r@.map_values(|v: Vec<char>| v@) == split_on(s@, p@),
{
    let mut out: Vec<Vec<char>> = Vec::new();
    let mut i: usize = 0;
    let ghost texts = |v: Vec<char>| v@;
    assert(s@.skip(0) =~= s@);
    assert(out@.map_values(texts) + split_on(s@, p@) =~= split_on(s@, p@));
    loop
        invariant
            i <= s.len(),
            p.len() > 0,
            texts == |v: Vec<char>| v@,
            out@.map_values(texts) + split_on(s@.skip(i as int), p@) == split_on(s@, p@),
        decreases s.len() - i,
    {
        proof {
            find_in_rest(s@, p@, i as int, 0);
        }
        match find_chars(s, p, i) {
            Some(k) => {
                let piece: Vec<char> = copy_chars(slice_subrange(s, i, k));
                let ghost before = out@;
                out.push(piece);
                proof {
                    let rest = s@.skip(i as int);
                    assert(rest.take(k - i) =~= piece@);
                    assert(rest.skip(k - i + p.len()) =~= s@.skip(k + p.len()));
                    assert(out@.map_values(texts) =~= before.map_values(texts).push(piece@));
                    assert(before.map_values(texts) + (seq![piece@] + split_on(
                        s@.skip(k + p.len()),
                        p@,
                    )) =~= out@.map_values(texts) + split_on(s@.skip(k + p.len()), p@));
                }
                i = k + p.len();
            },
            None => {
                let piece: Vec<char> = copy_chars(slice_subrange(s, i, s.len()));
                let ghost before = out@;
                out.push(piece);
                proof {
                    assert(s@.skip(i as int) =~= piece@);
                    assert(out@.map_values(texts) =~= before.map_values(texts) + seq![piece@]);
                }
                return out;
            },
        }
    }
}

/// A copy of `s`.
pub fn copy_chars(s: &[char]) -> (r: Vec<char>)
    ensures
        r@ == s@,
{
    let mut r: Vec<char> = Vec::new();
    push_chars(&mut r, s);
    assert(r@ =~= s@);
    r
}

/// Appends `s` to `out`.
pub fn push_chars(out: &mut Vec<char>, s: &[char])
    ensures
        final(out)@ == old(out)@ + s@,
{
    let mut i: usize = 0;
    while i < s.len()
        invariant
            i <= s.len(),
            out@ == old(out)@ + s@.take(i as int),
        decreases s.len() - i,
    {
        out.push(s[i]);
        assert(s@.take(i as int + 1) =~= s@.take(i as int).push(s@[i as int]));
        i += 1;
    }
    assert(s@.take(i as int) =~= s@);
}

/// `s` with each occurrence of `p` replaced by `r`.
pub fn replace_chars(s: &[char], p: &[char], r: &[char]) -> (out: Vec<char>)
    requires
        p.len() > 0,
    ensures
        out@ == replace_all(s@, p@, r@),
{
    let mut out: Vec<char> = Vec::new();
    let mut i: usize = 0;
    assert(s@.skip(0) =~= s@);
    assert(out@ + replace_all(s@, p@, r@) =~= replace_all(s@, p@, r@));
    loop
        invariant
            i <= s.len(),
            p.len() > 0,
            out@ + replace_all(s@.skip(i as int), p@, r@) == replace_all(s@, p@, r@),
        decreases s.len() - i,
    {
        proof {
            find_in_rest(s@, p@, i as int, 0);
        }
        match find_chars(s, p, i) {
            Some(k) => {
                let ghost before = out@;
                push_chars(&mut out, slice_subrange(s, i, k));
                push_chars(&mut out, r);
                proof {
                    let rest = s@.skip(i as int);
                    assert(rest.take(k - i) =~= s@.subrange(i as int, k as int));
                    assert(rest.skip(k - i + p.len()) =~= s@.skip(k + p.len()));
                    assert(before + (rest.take(k - i) + r@ + replace_all(
                        s@.skip(k + p.len()),
                        p@,
                        r@,
                    )) =~= out@ + replace_all(s@.skip(k + p.len()), p@, r@));
                }
                i = k + p.len();
            },
            None => {
                push_chars(&mut out, slice_subrange(s, i, s.len()));
                assert(s@.skip(i as int) =~= s@.subrange(i as int, s@.len() as int));
                return out;
            },
        }
    }
}

/// The parts one after another, with `sep` between each two.
pub fn join_texts(parts: &Vec<String>, sep: &str) -> (r: String)
    ensures
        r@ == join_with(views(parts@), sep@),
{
    let mut out = String::new();
    let mut i: usize = 0;
    assert(views(parts@).take(0) =~= Seq::<Seq<char>>::empty());
    while i < parts.len()
        invariant
            i <= parts.len(),
            out@ == join_with(views(parts@).take(i as int), sep@),
        decreases parts.len() - i,
    {
        let ghost all = views(parts@);
        if i > 0 {
            out.append(sep);
        }
        out.append(parts[i].as_str());
        proof {
            assert(all.take(i as int + 1).drop_last() =~= all.take(i as int));
            assert(all.take(i as int + 1).last() == parts@[i as int]@);
            if i == 0 {
                assert(out@ =~= parts@[0]@);
            }
        }
        i += 1;
    }
    assert(views(parts@).take(i as int) =~= views(parts@));
    out
}

// ---------------------------------------------------------------- whitespace

/// The characters with the Unicode property White_Space.
pub open spec fn is_white(c: char) -> bool {
    let u = c as u32;
    ||| 0x9 <= u <= 0xd
    ||| u == 0x20
    ||| u == 0x85
    ||| u == 0xa0
    ||| u == 0x1680
    ||| 0x2000 <= u <= 0x200a
    ||| u == 0x2028
    ||| u == 0x2029
    ||| u == 0x202f
    ||| u == 0x205f
    ||| u == 0x3000
}

/// Whether `c` has the Unicode property White_Space.
pub fn is_white_char(c: char) -> (r: bool)
    ensures
        r == is_white(c),
{
    let u: u32 = c as u32;
    (0x9 <= u && u <= 0xd) || u == 0x20 || u == 0x85 || u == 0xa0 || u == 0x1680 || (0x2000 <= u
        && u <= 0x200a) || u == 0x2028 || u == 0x2029 || u == 0x202f || u == 0x205f || u == 0x3000
}

/// How many whitespace characters `s` has at its front.
pub open spec fn leading_white(s: Seq<char>) -> nat
    decreases s.len(),
{
    if s.len() > 0 && is_white(s[0]) {
        1 + leading_white(s.drop_first())
    } else {
        0
    }
}

/// How many characters of `s` come before its last run of whitespace.
pub open spec fn trimmed_end_len(s: Seq<char>) -> nat
    decreases s.len(),
{
    if s.len() > 0 && is_white(s.last()) {
        trimmed_end_len(s.drop_last())
    } else {
        s.len()
    }
}

/// `s` without the whitespace at its front.
pub open spec fn trim_start(s: Seq<char>) -> Seq<char> {
    s.skip(leading_white(s) as int)
}

/// `s` without the whitespace at its end.
pub open spec fn trim_end(s: Seq<char>) -> Seq<char> {
    s.take(trimmed_end_len(s) as int)
}

/// `s` without the whitespace at either end.
pub open spec fn trim(s: Seq<char>) -> Seq<char> {
    trim_end(trim_start(s))
}

pub proof fn leading_white_bound(s: Seq<char>)
    ensures
        leading_white(s) <= s.len(),
        leading_white(s) < s.len() ==> !is_white(s[leading_white(s) as int]),
        forall|j: int| 0 <= j < leading_white(s) ==> is_white(#[trigger] s[j]),
    decreases s.len(),
{
    if s.len() > 0 && is_white(s[0]) {
        leading_white_bound(s.drop_first());
        assert forall|j: int| 0 <= j < leading_white(s) implies is_white(#[trigger] s[j]) by {
            if j > 0 {
                assert(s[j] == s.drop_first()[j - 1]);
            }
        }
    }
}

pub proof fn trimmed_end_len_bound(s: Seq<char>)
    ensures
        trimmed_end_len(s) <= s.len(),
        trimmed_end_len(s) > 0 ==> !is_white(s[trimmed_end_len(s) - 1]),
        forall|j: int| trimmed_end_len(s) <= j < s.len() ==> is_white(#[trigger] s[j]),
    decreases s.len(),
{
    if s.len() > 0 && is_white(s.last()) {
        trimmed_end_len_bound(s.drop_last());
        assert forall|j: int| trimmed_end_len(s) <= j < s.len() implies is_white(#[trigger] s[j]) by {
            if j < s.len() - 1 {
                assert(s[j] == s.drop_last()[j]);
            }
        }
    }
}

/// How many whitespace characters stand in `s` from `from` on.
pub fn skip_white(s: &[char], from: usize) -> (r: usize)
    requires
        from <= s.len(),
    ensures
        from <= r <= s.len(),
        r == from + leading_white(s@.skip(from as int)),
{
    let mut i: usize = from;
    while i < s.len() && is_white_char(s[i])
        invariant
            from <= i <= s.len(),
            from + leading_white(s@.skip(from as int)) == i + leading_white(s@.skip(i as int)),
        decreases s.len() - i,
    {
        assert(s@.skip(i as int).drop_first() =~= s@.skip(i as int + 1));
        i += 1;
    }
    i
}

/// `s` without the whitespace at its end.
pub fn trim_end_chars(s: &[char]) -> (r: &[char])
    ensures
        r@ == trim_end(s@),
{
    let mut n: usize = s.len();
    assert(s@.take(n as int) =~= s@);
    while n > 0 && is_white_char(s[n - 1])
        invariant
            n <= s.len(),
            trimmed_end_len(s@) == trimmed_end_len(s@.take(n as int)),
        decreases n,
    {
        assert(s@.take(n as int).drop_last() =~= s@.take(n as int - 1));
        n -= 1;
    }
    slice_subrange(s, 0, n)
}

/// `s` without the whitespace at either end.
pub fn trim_chars(s: &[char]) -> (r: &[char])
    ensures
        r@ == trim(s@),
{
    let a: usize = skip_white(s, 0);
    assert(s@.skip(0) =~= s@);
    assert(s@.subrange(a as int, s@.len() as int) =~= s@.skip(a as int));
    trim_end_chars(slice_subrange(s, a, s.len()))
}

/// `s` without the whitespace at either end.
pub fn trim_text(s: &str) -> (r: String)
    ensures
        r@ == trim(s@),
{
    let v: Vec<char> = chars_of(s);
    string_of(trim_chars(&v))
}

/// How many characters come before the first whitespace in `s`.
pub open spec fn word_len(s: Seq<char>) -> nat
    decreases s.len(),
{
    if s.len() > 0 && !is_white(s[0]) {
        1 + word_len(s.drop_first())
    } else {
        0
    }
}

pub proof fn word_len_bound(s: Seq<char>)
    ensures
        word_len(s) <= s.len(),
        s.len() > 0 && !is_white(s[0]) ==> word_len(s) > 0,
    decreases s.len(),
{
    if s.len() > 0 && !is_white(s[0]) {
        word_len_bound(s.drop_first());
    }
}

/// The maximal runs of non-whitespace in `s`, in order.
pub open spec fn words(s: Seq<char>) -> Seq<Seq<char>>
    decreases s.len(),
{
    proof {
        leading_white_bound(s);
        word_len_bound(trim_start(s));
    }
    let t = trim_start(s);
    if t.len() == 0 {
        Seq::empty()
    } else {
        seq![t.take(word_len(t) as int)] + words(t.skip(word_len(t) as int))
    }
}

/// The texts of a list of strings.
pub open spec fn views(v: Seq<String>) -> Seq<Seq<char>> {
    v.map_values(|s: String| s@)
}

/// The maximal runs of non-whitespace in `s`, in order.
pub fn split_words(s: &[char]) -> (r: Vec<String>)
    ensures
        views(r@) == words(s@),
{
    let mut out: Vec<String> = Vec::new();
    let mut i: usize = 0;
    assert(s@.skip(0) =~= s@);
    assert(views(out@) =~= Seq::<Seq<char>>::empty());
    loop
        invariant
            i <= s.len(),
            views(out@) + words(s@.skip(i as int)) == words(s@),
        ensures
            words(s@.skip(i as int)).len() == 0,
        decreases s.len() - i,
    {
        let ghost rest = s@.skip(i as int);
        let a: usize = skip_white(s, i);
        let ghost t = s@.skip(a as int);
        assert(trim_start(rest) =~= t);
        if a == s.len() {
            break;
        }
        let mut b: usize = a;
        proof {
            leading_white_bound(rest);
            assert(t[0] == rest[leading_white(rest) as int]);
        }
        while b < s.len() && !is_white_char(s[b])
            invariant
                a <= b <= s.len(),
                a + word_len(s@.skip(a as int)) == b + word_len(s@.skip(b as int)),
            decreases s.len() - b,
        {
            assert(s@.skip(b as int).drop_first() =~= s@.skip(b as int + 1));
            b += 1;
        }
        proof {
            word_len_bound(t);
        }
        let w: String = string_of(slice_subrange(s, a, b));
        let ghost before = out@;
        out.push(w);
        proof {
            assert(t.take(word_len(t) as int) =~= w@);
            assert(t.skip(word_len(t) as int) =~= s@.skip(b as int));
            assert(views(out@) =~= views(before).push(w@));
            assert(views(before) + (seq![w@] + words(s@.skip(b as int))) =~= views(out@) + words(
                s@.skip(b as int),
            ));
        }
        i = b;
    }
    assert(views(out@) + words(s@.skip(i as int)) =~= views(out@));
    out
}

// ------------------------------------------------------------------ ASCII case

/// `c` with an ASCII capital turned into the small letter.
pub open spec fn lower_char(c: char) -> char {
    if 'A' <= c <= 'Z' {
        ((c as u8) + 32) as u8 as char
    } else {
        c
    }
}

/// `s` with its ASCII capitals turned into small letters.
pub open spec fn ascii_lower(s: Seq<char>) -> Seq<char> {
    s.map_values(|c: char| lower_char(c))
}

/// Two texts that differ at most in the case of ASCII letters.
pub open spec fn same_ignoring_ascii_case(a: Seq<char>, b: Seq<char>) -> bool {
    ascii_lower(a) == ascii_lower(b)
}

/// `c` with an ASCII capital turned into the small letter.
pub fn lower_char_exec(c: char) -> (r: char)
    ensures
        r == lower_char(c),
{
    if 'A' <= c && c <= 'Z' {
        ((c as u8) + 32) as char
    } else {
        c
    }
}

/// `s` with its ASCII capitals turned into small letters.
pub fn ascii_lower_chars(s: &[char]) -> (r: Vec<char>)
    ensures
        r@ == ascii_lower(s@),
{
    let mut r: Vec<char> = Vec::new();
    let mut i: usize = 0;
    while i < s.len()
        invariant
            i <= s.len(),
            r@ == ascii_lower(s@.take(i as int)),
        decreases s.len() - i,
    {
        r.push(lower_char_exec(s[i]));
        assert(r@ =~= ascii_lower(s@.take(i as int + 1)));
        i += 1;
    }
    assert(s@.take(i as int) =~= s@);
    r
}

/// Whether two runs of characters are the same.
pub fn same_chars(a: &[char], b: &[char]) -> (r: bool)
    ensures
        r == (a@ == b@),
{
    if a.len() != b.len() {
        return false;
    }
    assert(b@.subrange(0, b@.len() as int) =~= b@);
    assert(a@.subrange(0, b@.len() as int) =~= a@);
    occurs_at_exec(a, b, 0)
}

/// Whether two texts differ at most in the case of ASCII letters.
pub fn same_text_ignoring_ascii_case(a: &str, b: &str) -> (r: bool)
    ensures
        r == same_ignoring_ascii_case(a@, b@),
{
    let x: Vec<char> = chars_of(a);
    let y: Vec<char> = chars_of(b);
    let lx: Vec<char> = ascii_lower_chars(&x);
    let ly: Vec<char> = ascii_lower_chars(&y);
    same_chars(&lx, &ly)
}

// --------------------------------------------------------------------- numbers

/// The decimal digit for `d`.
pub open spec fn digit_char(d: int) -> char {
    (48 + d) as u8 as char
}

/// `n` in decimal, without leading zeros.
pub open spec fn decimal(n: nat) -> Seq<char>
    decreases n,
{
    if n < 10 {
        seq![digit_char(n as int)]
    } else {
        decimal(n / 10).push(digit_char((n % 10) as int))
    }
}

/// `n` in decimal, with a minus sign when it is negative.
pub open spec fn signed_decimal(n: int) -> Seq<char> {
    if n < 0 {
        seq!['-'] + decimal((-n) as nat)
    } else {
        decimal(n as nat)
    }
}

/// `n` copies of `c`.
pub open spec fn repeat_char(c: char, n: int) -> Seq<char> {
    Seq::new(
        if n < 0 {
            0
        } else {
            n as nat
        },
        |i: int| c,
    )
}

/// `s` with zeros put in front until it is `width` characters long.
pub open spec fn zero_padded(s: Seq<char>, width: int) -> Seq<char> {
    repeat_char('0', width - s.len()) + s
}

/// `n` in decimal.
pub fn decimal_u64(n: u64) -> (r: String)
    ensures
        r@ == decimal(n as nat),
    decreases n,
{
    if n < 10 {
        let mut s = String::new();
        s.push((48u8 + n as u8) as char);
        assert(s@ =~= seq![digit_char(n as int)]);
        s
    } else {
        let mut s = decimal_u64(n / 10);
        s.push((48u8 + (n % 10) as u8) as char);
        s
    }
}

/// `n` in decimal.
pub fn decimal_u128(n: u128) -> (r: String)
    ensures
        r@ == decimal(n as nat),
    decreases n,
{
    if n < 10 {
        let mut s = String::new();
        s.push((48u8 + n as u8) as char);
        assert(s@ =~= seq![digit_char(n as int)]);
        s
    } else {
        let mut s = decimal_u128(n / 10);
        s.push((48u8 + (n % 10) as u8) as char);
        s
    }
}

/// `n` in decimal.
pub fn decimal_usize(n: usize) -> (r: String)
    ensures
        r@ == decimal(n as nat),
{
    decimal_u64(n as u64)
}

/// `n` in decimal, with a minus sign when it is negative.
pub fn decimal_i64(n: i64) -> (r: String)
    ensures
        r@ == signed_decimal(n as int),
{
    if n < 0 {
        let m: u64 = if n == i64::MIN {
            0x8000_0000_0000_0000u64
        } else {
            (-n) as u64
        };
        let mut s = String::new();
        s.push('-');
        s.append(decimal_u64(m).as_str());
        assert(s@ =~= seq!['-'] + decimal((-(n as int)) as nat));
        s
    } else {
        decimal_u64(n as u64)
    }
}

/// `n` in decimal, with zeros put in front until it is `width` characters long.
pub fn zero_padded_u64(n: u64, width: usize) -> (r: String)
    ensures
        r@ == zero_padded(decimal(n as nat), width as int),
{
    let d: String = decimal_u64(n);
    let len: usize = d.as_str().unicode_len();
    let mut out = String::new();
    let mut k: usize = len;
    assert(out@ =~= repeat_char('0', 0));
    while k < width
        invariant
            len <= k,
            k <= width || k == len,
            out@ == repeat_char('0', k - len),
        decreases width - k,
    {
        out.push('0');
        assert(out@ =~= repeat_char('0', k + 1 - len));
        k += 1;
    }
    out.append(d.as_str());
    assert(out@ =~= zero_padded(decimal(n as nat), width as int));
    out
}

/// A decimal digit.
pub open spec fn is_digit(c: char) -> bool {
    '0' <= c <= '9'
}

/// Only decimal digits, at least one.
pub open spec fn all_digits(s: Seq<char>) -> bool {
    s.len() > 0 && forall|i: int| 0 <= i < s.len() ==> is_digit(#[trigger] s[i])
}

/// Whether `s` is made of decimal digits only, at least one.
pub fn are_digits(s: &[char]) -> (r: bool)
    ensures
        r == all_digits(s@),
{
    let mut i: usize = 0;
    while i < s.len()
        invariant
            i <= s.len(),
            forall|k: int| 0 <= k < i ==> is_digit(#[trigger] s@[k]),
        decreases s.len() - i,
    {
        if !('0' <= s[i] && s[i] <= '9') {
            assert(!is_digit(s@[i as int]));
            return false;
        }
        i += 1;
    }
    s.len() > 0
}

/// The number that the digits of `s` write.
pub open spec fn digits_value(s: Seq<char>) -> nat
    decreases s.len(),
{
    if s.len() == 0 {
        0
    } else {
        (10 * digits_value(s.drop_last()) + (s.last() as u32 - 48)) as nat
    }
}

/// The number that `s` writes in decimal: digits, a plus sign in front being
/// allowed, with a value that fits in 64 bits.
pub open spec fn parsed_u64(s: Seq<char>) -> Option<u64> {
    let d = if s.len() > 0 && s[0] == '+' {
        s.skip(1)
    } else {
        s
    };
    if all_digits(d) && digits_value(d) <= u64::MAX {
        Some(digits_value(d) as u64)
    } else {
        None
    }
}

/// More digits never make a smaller number.
pub proof fn digits_value_grows(s: Seq<char>, n: int)
    requires
        0 <= n <= s.len(),
        forall|i: int| 0 <= i < s.len() ==> is_digit(#[trigger] s[i]),
    ensures
        digits_value(s.take(n)) <= digits_value(s),
    decreases s.len() - n,
{
    if n == s.len() {
        assert(s.take(n) =~= s);
    } else {
        assert(s.take(n + 1).drop_last() =~= s.take(n));
        assert(s.take(n + 1).last() == s[n]);
        digits_value_grows(s, n + 1);
    }
}

/// The number that `s` writes in decimal.
pub fn parse_u64(s: &[char]) -> (r: Option<u64>)
    ensures
        r == parsed_u64(s@),
{
    let from: usize = if s.len() > 0 && s[0] == '+' {
        1
    } else {
        0
    };
    let ghost d = if from == 1 {
        s@.skip(1)
    } else {
        s@
    };
    assert(d =~= s@.skip(from as int));
    if from == s.len() {
        return None;
    }
    let mut value: u64 = 0;
    let mut i: usize = from;
    while i < s.len()
        invariant
            from <= i <= s.len(),
            from < s.len(),
            d == s@.skip(from as int),
            d == (if s.len() > 0 && s@[0] == '+' {
                s@.skip(1)
            } else {
                s@
            }),
            forall|j: int| 0 <= j < i - from ==> is_digit(#[trigger] d[j]),
            value == digits_value(d.take(i - from)),
        decreases s.len() - i,
    {
        let c: char = s[i];
        assert(d[i - from] == c);
        if !('0' <= c && c <= '9') {
            return None;
        }
        let digit: u64 = (c as u32 - 48) as u64;
        proof {
            assert(d.take(i - from + 1).drop_last() =~= d.take(i - from));
            assert(d.take(i - from + 1).last() == c);
        }
        if value > (u64::MAX - digit) / 10 {
            proof {
                if all_digits(d) {
                    digits_value_grows(d, i - from + 1);
                }
            }
            return None;
        }
        value = value * 10 + digit;
        i += 1;
    }
    assert(d.take(i - from) =~= d);
    Some(value)
}

/// The last position of `c` in `s`.
pub open spec fn last_index_of(s: Seq<char>, c: char) -> Option<int>
    decreases s.len(),
{
    if s.len() == 0 {
        None
    } else if s.last() == c {
        Some(s.len() - 1)
    } else {
        last_index_of(s.drop_last(), c)
    }
}

/// The last position of `c` in `s`.
pub fn find_last(s: &[char], c: char) -> (r: Option<usize>)
    ensures
        match r {
            Some(i) => i < s.len() && last_index_of(s@, c) == Some(i as int),
            None => last_index_of(s@, c) is None,
        },
{
    let mut n: usize = s.len();
    assert(s@.take(n as int) =~= s@);
    while n > 0
        invariant
            n <= s.len(),
            last_index_of(s@, c) == last_index_of(s@.take(n as int), c),
        decreases n,
    {
        if s[n - 1] == c {
            return Some(n - 1);
        }
        assert(s@.take(n as int).drop_last() =~= s@.take(n as int - 1));
        n -= 1;
    }
    None
}

/// The text of an optional string.
pub open spec fn text_of(s: Option<String>) -> Option<Seq<char>> {
    match s {
        Some(t) => Some(t@),
        None => None,
    }
}

/// Only whitespace, or nothing.
pub open spec fn is_blank(s: Seq<char>) -> bool {
    forall|i: int| 0 <= i < s.len() ==> is_white(#[trigger] s[i])
}

/// Whether `s` is empty or only whitespace.
pub fn is_blank_text(s: &str) -> (r: bool)
    ensures
        r == is_blank(s@),
{
    for c in it: s.chars()
        invariant
            it.seq() == s@,
            forall|i: int| 0 <= i < it.index() ==> is_white(#[trigger] s@[i]),
    {
        if !is_white_char(c) {
            assert(!is_white(s@[it.index() as int]));
            return false;
        }
    }
    true
}

/// The number that `s` writes in decimal: digits, a sign in front being allowed, with a
/// value that fits in 64 bits with sign.
pub open spec fn parsed_i64(s: Seq<char>) -> Option<i64> {
    let negative = s.len() > 0 && s[0] == '-';
    let d = if s.len() > 0 && (s[0] == '+' || s[0] == '-') {
        s.skip(1)
    } else {
        s
    };
    let limit: int = if negative {
        0x8000_0000_0000_0000
    } else {
        0x7fff_ffff_ffff_ffff
    };
    if all_digits(d) && digits_value(d) <= limit {
        Some(
            (if negative {
                -(digits_value(d) as int)
            } else {
                digits_value(d) as int
            }) as i64,
        )
    } else {
        None
    }
}

/// The number that `s` writes in decimal, with or without a sign.
pub fn parse_i64(s: &[char]) -> (r: Option<i64>)
    ensures
        r == parsed_i64(s@),
{
    if s.len() > 0 && s[0] == '-' {
        assert(s@.subrange(1, s@.len() as int) =~= s@.skip(1));
        if s.len() > 1 && s[1] == '+' {
            assert(!is_digit(s@.skip(1)[0]));
            return None;
        }
        match parse_u64(slice_subrange(s, 1, s.len())) {
            Some(v) => {
                if v <= 0x7fff_ffff_ffff_ffff {
                    Some(-(v as i64))
                } else if v == 0x8000_0000_0000_0000 {
                    Some(i64::MIN)
                } else {
                    None
                }
            },
            None => None,
        }
    } else {
        match parse_u64(s) {
            Some(v) => {
                if v <= 0x7fff_ffff_ffff_ffff {
                    Some(v as i64)
                } else {
                    None
                }
            },
            None => None,
        }
    }
}

} // verus!
