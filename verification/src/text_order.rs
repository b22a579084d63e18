//! The order of texts, and lists of texts and of text pairs kept in that order.
use crate::text::{chars_of, same_text, views};
use vstd::prelude::*;

verus! {

/// `a` comes before `b`: character by character, a proper prefix first.
pub open spec fn text_less(a: Seq<char>, b: Seq<char>) -> bool
    decreases a.len(),
{
    if b.len() == 0 {
        false
    } else if a.len() == 0 {
        true
    } else if a[0] != b[0] {
        a[0] < b[0]
    } else {
        text_less(a.skip(1), b.skip(1))
    }
}

/// No text comes before itself.
pub proof fn text_less_irreflexive(a: Seq<char>)
    ensures
        !text_less(a, a),
    decreases a.len(),
{
    if a.len() > 0 {
        text_less_irreflexive(a.skip(1));
    }
}

/// The order is transitive.
pub proof fn text_less_transitive(a: Seq<char>, b: Seq<char>, c: Seq<char>)
    requires
        text_less(a, b),
        text_less(b, c),
    ensures
        text_less(a, c),
    decreases a.len(),
{
    if a.len() > 0 && a[0] == b[0] && b[0] == c[0] {
        text_less_transitive(a.skip(1), b.skip(1), c.skip(1));
    }
}

/// Of two different texts one comes before the other.
pub proof fn text_less_total(a: Seq<char>, b: Seq<char>)
    ensures
        a == b || text_less(a, b) || text_less(b, a),
    decreases a.len(),
{
    if a.len() == 0 && b.len() == 0 {
        assert(a =~= b);
    } else if a.len() > 0 && b.len() > 0 && a[0] == b[0] {
        text_less_total(a.skip(1), b.skip(1));
        if a.skip(1) == b.skip(1) {
            assert(a =~= seq![a[0]] + a.skip(1));
            assert(b =~= seq![b[0]] + b.skip(1));
        }
    }
}

/// Whether `a` comes before `b`.
pub fn less_text(a: &str, b: &str) -> (r: bool)
    ensures
        r == text_less(a@, b@),
{
    let x: Vec<char> = chars_of(a);
    let y: Vec<char> = chars_of(b);
    let mut i: usize = 0;
    assert(x@.skip(0) =~= x@);
    assert(y@.skip(0) =~= y@);
    while i < x.len() && i < y.len()
        invariant
            i <= x.len(),
            i <= y.len(),
            text_less(x@, y@) == text_less(x@.skip(i as int), y@.skip(i as int)),
            x@ == a@,
            y@ == b@,
        decreases x.len() - i,
    {
        if x[i] != y[i] {
            return x[i] < y[i];
        }
        assert(x@.skip(i as int).skip(1) =~= x@.skip(i as int + 1));
        assert(y@.skip(i as int).skip(1) =~= y@.skip(i as int + 1));
        i += 1;
    }
    i < y.len()
}

// ----------------------------------------------------------------- text pairs

/// The texts of a list of string pairs.
pub open spec fn pair_views(v: Seq<(String, String)>) -> Seq<(Seq<char>, Seq<char>)> {
    v.map_values(|p: (String, String)| (p.0@, p.1@))
}

/// The first texts stand in order and none stands twice.
pub open spec fn sorted_by_key(s: Seq<(Seq<char>, Seq<char>)>) -> bool {
    forall|i: int, j: int| 0 <= i < j < s.len() ==> text_less(#[trigger] s[i].0, #[trigger] s[j].0)
}

/// How many pairs at the front of `s` have a key before `k`.
pub open spec fn rank(s: Seq<(Seq<char>, Seq<char>)>, k: Seq<char>) -> nat
    decreases s.len(),
{
    if s.len() > 0 && text_less(s[0].0, k) {
        1 + rank(s.drop_first(), k)
    } else {
        0
    }
}

/// `s` with `v` under the key `k`, in the place of what stood under `k` before.
pub open spec fn with_pair(
    s: Seq<(Seq<char>, Seq<char>)>,
    k: Seq<char>,
    v: Seq<char>,
) -> Seq<(Seq<char>, Seq<char>)> {
    let i = rank(s, k) as int;
    if i < s.len() && s[i].0 == k {
        s.update(i, (k, v))
    } else {
        s.insert(i, (k, v))
    }
}

/// `s` without what stands under the key `k`.
pub open spec fn without_key(s: Seq<(Seq<char>, Seq<char>)>, k: Seq<char>) -> Seq<
    (Seq<char>, Seq<char>),
> {
    let i = rank(s, k) as int;
    if i < s.len() && s[i].0 == k {
        s.remove(i)
    } else {
        s
    }
}

/// The pairs of `s` taken into an empty list one after another.
pub open spec fn collected(s: Seq<(Seq<char>, Seq<char>)>) -> Seq<(Seq<char>, Seq<char>)>
    decreases s.len(),
{
    if s.len() == 0 {
        s
    } else {
        with_pair(collected(s.drop_last()), s.last().0, s.last().1)
    }
}

pub proof fn rank_bound(s: Seq<(Seq<char>, Seq<char>)>, k: Seq<char>)
    ensures
        rank(s, k) <= s.len(),
        forall|j: int| 0 <= j < rank(s, k) ==> text_less(#[trigger] s[j].0, k),
        rank(s, k) < s.len() ==> !text_less(s[rank(s, k) as int].0, k),
    decreases s.len(),
{
    if s.len() > 0 && text_less(s[0].0, k) {
        let t = s.drop_first();
        rank_bound(t, k);
        assert forall|j: int| 0 <= j < rank(s, k) implies text_less(#[trigger] s[j].0, k) by {
            if j > 0 {
                assert(s[j] == t[j - 1]);
            }
        }
    }
}

/// A list in order stays in order when a pair is put in or taken out, and the
/// pair put in is then the one under its key.
pub proof fn sorted_is_kept(s: Seq<(Seq<char>, Seq<char>)>, k: Seq<char>, v: Seq<char>)
    requires
        sorted_by_key(s),
    ensures
        sorted_by_key(with_pair(s, k, v)),
        with_pair(s, k, v).contains((k, v)),
        sorted_by_key(without_key(s, k)),
        forall|i: int|
            0 <= i < without_key(s, k).len() ==> (#[trigger] without_key(s, k)[i]).0 != k,
{
    let n = rank(s, k) as int;
    rank_bound(s, k);
    text_less_irreflexive(k);
    if n < s.len() {
        text_less_total(s[n].0, k);
        assert forall|j: int| n < j < s.len() implies text_less(k, #[trigger] s[j].0) by {
            assert(text_less(s[n].0, s[j].0));
            if s[n].0 != k {
                text_less_transitive(k, s[n].0, s[j].0);
            }
        }
    }
    let w = with_pair(s, k, v);
    assert(w[n] == (k, v));
    let o = without_key(s, k);
    assert forall|i: int| 0 <= i < o.len() implies (#[trigger] o[i]).0 != k by {
        if n < s.len() && s[n].0 == k {
            if i >= n {
                assert(o[i] == s[i + 1]);
            }
        } else if i >= n {
            assert(text_less(k, s[i].0));
        }
    }
}

/// Putting a pair in changes what stands under its key, and nothing else; taking out what
/// stands under a key leaves nothing there, and all else as it was.
pub proof fn pairs_are_told_by_key(
    s: Seq<(Seq<char>, Seq<char>)>,
    k: Seq<char>,
    v: Seq<char>,
    other: (Seq<char>, Seq<char>),
)
    requires
        sorted_by_key(s),
    ensures
        with_pair(s, k, v).contains(other) <==> if other.0 == k {
            other.1 == v
        } else {
            s.contains(other)
        },
        without_key(s, k).contains(other) <==> other.0 != k && s.contains(other),
{
    let n = rank(s, k) as int;
    rank_bound(s, k);
    sorted_is_kept(s, k, v);
    let w = with_pair(s, k, v);
    let o = without_key(s, k);
    assert(w[n] == (k, v));
    assert forall|i: int| 0 <= i < w.len() && i != n implies (#[trigger] w[i]).0 != k by {
        if i < n {
            assert(text_less(w[i].0, w[n].0));
        } else {
            assert(text_less(w[n].0, w[i].0));
        }
        text_less_irreflexive(k);
    }
    if s.contains(other) {
        let i = s.index_of(other);
        assert(s[i] == other);
        let here = n < s.len() && s[n].0 == k;
        if other.0 != k {
            if i < n || here {
                assert(w[i] == other);
            } else {
                assert(w[i + 1] == other);
            }
            if here && i > n {
                assert(o[i - 1] == other);
            } else {
                assert(o[i] == other);
            }
        }
    }
    if o.contains(other) {
        let i = o.index_of(other);
        assert(o[i] == other);
        assert(o[i].0 != k);
    }
}

/// A list that is in order is what collecting it gives.
pub proof fn collected_sorted(s: Seq<(Seq<char>, Seq<char>)>)
    requires
        sorted_by_key(s),
    ensures
        collected(s) == s,
    decreases s.len(),
{
    if s.len() > 0 {
        let t = s.drop_last();
        collected_sorted(t);
        rank_bound(t, s.last().0);
        let n = rank(t, s.last().0) as int;
        if n < t.len() {
            assert(text_less(s[n].0, s[s.len() - 1].0));
        }
        assert(with_pair(t, s.last().0, s.last().1) =~= s);
    }
}

/// How many pairs at the front have a key before `k`.
pub fn rank_of(pairs: &Vec<(String, String)>, k: &str) -> (n: usize)
    ensures
        n <= pairs.len(),
        n == rank(pair_views(pairs@), k@),
{
    let ghost s = pair_views(pairs@);
    let mut n: usize = 0;
    assert(s.skip(0) =~= s);
    while n < pairs.len() && less_text(pairs[n].0.as_str(), k)
        invariant
            n <= pairs.len(),
            s == pair_views(pairs@),
            rank(s, k@) == n + rank(s.skip(n as int), k@),
        decreases pairs.len() - n,
    {
        assert(s.skip(n as int)[0].0 == pairs@[n as int].0@);
        assert(s.skip(n as int).drop_first() =~= s.skip(n as int + 1));
        n += 1;
    }
    proof {
        if n < pairs.len() {
            assert(s.skip(n as int)[0].0 == pairs@[n as int].0@);
        }
    }
    n
}

/// Puts `v` under the key `k`.
pub fn put_pair(pairs: &mut Vec<(String, String)>, k: String, v: String)
    requires
        sorted_by_key(pair_views(old(pairs)@)),
    ensures
        pair_views(final(pairs)@) == with_pair(pair_views(old(pairs)@), k@, v@),
        sorted_by_key(pair_views(final(pairs)@)),
{
    let ghost before = pairs@;
    let n: usize = rank_of(pairs, k.as_str());
    proof {
        sorted_is_kept(pair_views(before), k@, v@);
    }
    let ghost kv = (k@, v@);
    if n < pairs.len() && same_text(pairs[n].0.as_str(), k.as_str()) {
        pairs.set(n, (k, v));
        assert(pair_views(pairs@) =~= pair_views(before).update(n as int, kv));
    } else {
        pairs.insert(n, (k, v));
        assert(pair_views(pairs@) =~= pair_views(before).insert(n as int, kv));
    }
}

/// Takes out what stands under the key `k`.
pub fn drop_key(pairs: &mut Vec<(String, String)>, k: &str)
    requires
        sorted_by_key(pair_views(old(pairs)@)),
    ensures
        pair_views(final(pairs)@) == without_key(pair_views(old(pairs)@), k@),
        sorted_by_key(pair_views(final(pairs)@)),
{
    let ghost before = pairs@;
    let n: usize = rank_of(pairs, k);
    proof {
        sorted_is_kept(pair_views(before), k@, k@);
    }
    if n < pairs.len() && same_text(pairs[n].0.as_str(), k) {
        pairs.remove(n);
        assert(pair_views(pairs@) =~= pair_views(before).remove(n as int));
    }
}

/// The pairs taken into an empty list one after another.
pub fn collect_pairs(pairs: &Vec<(String, String)>) -> (r: Vec<(String, String)>)
    ensures
        pair_views(r@) == collected(pair_views(pairs@)),
        sorted_by_key(pair_views(r@)),
{
    let mut r: Vec<(String, String)> = Vec::new();
    let ghost s = pair_views(pairs@);
    let mut i: usize = 0;
    assert(pair_views(r@) =~= collected(s.take(0)));
    while i < pairs.len()
        invariant
            i <= pairs.len(),
            s == pair_views(pairs@),
            pair_views(r@) == collected(s.take(i as int)),
            sorted_by_key(pair_views(r@)),
        decreases pairs.len() - i,
    {
        put_pair(&mut r, pairs[i].0.clone(), pairs[i].1.clone());
        assert(s.take(i as int + 1).drop_last() =~= s.take(i as int));
        assert(s.take(i as int + 1).last() == s[i as int]);
        i += 1;
    }
    assert(s.take(i as int) =~= s);
    r
}

/// A copy of a list of pairs.
pub fn copy_pairs(pairs: &Vec<(String, String)>) -> (r: Vec<(String, String)>)
    ensures
        pair_views(r@) == pair_views(pairs@),
{
    let mut r: Vec<(String, String)> = Vec::new();
    let mut i: usize = 0;
    while i < pairs.len()
        invariant
            i <= pairs.len(),
            pair_views(r@) == pair_views(pairs@).take(i as int),
        decreases pairs.len() - i,
    {
        let ghost before = r@;
        r.push((pairs[i].0.clone(), pairs[i].1.clone()));
        assert(pair_views(r@) =~= pair_views(before).push(pair_views(pairs@)[i as int]));
        assert(pair_views(pairs@).take(i as int + 1) =~= pair_views(pairs@).take(i as int).push(
            pair_views(pairs@)[i as int],
        ));
        i += 1;
    }
    assert(pair_views(pairs@).take(i as int) =~= pair_views(pairs@));
    r
}

// -------------------------------------------------------------- sorted texts

/// How many texts at the front of `s` do not come after `t`.
pub open spec fn text_place(s: Seq<Seq<char>>, t: Seq<char>) -> nat
    decreases s.len(),
{
    if s.len() > 0 && !text_less(t, s[0]) {
        1 + text_place(s.drop_first(), t)
    } else {
        0
    }
}

/// `s` with `t` put in its place.
pub open spec fn with_text(s: Seq<Seq<char>>, t: Seq<char>) -> Seq<Seq<char>> {
    s.insert(text_place(s, t) as int, t)
}

/// The texts of `s` in order.
pub open spec fn sorted_texts(s: Seq<Seq<char>>) -> Seq<Seq<char>>
    decreases s.len(),
{
    if s.len() == 0 {
        s
    } else {
        with_text(sorted_texts(s.drop_last()), s.last())
    }
}

/// No text stands before one that comes before it.
pub open spec fn texts_in_order(s: Seq<Seq<char>>) -> bool {
    forall|i: int, j: int| 0 <= i < j < s.len() ==> !text_less(#[trigger] s[j], #[trigger] s[i])
}

pub proof fn text_place_bound(s: Seq<Seq<char>>, t: Seq<char>)
    ensures
        text_place(s, t) <= s.len(),
        forall|j: int| 0 <= j < text_place(s, t) ==> !text_less(t, #[trigger] s[j]),
        text_place(s, t) < s.len() ==> text_less(t, s[text_place(s, t) as int]),
    decreases s.len(),
{
    if s.len() > 0 && !text_less(t, s[0]) {
        let r = s.drop_first();
        text_place_bound(r, t);
        assert forall|j: int| 0 <= j < text_place(s, t) implies !text_less(t, #[trigger] s[j]) by {
            if j > 0 {
                assert(s[j] == r[j - 1]);
            }
        }
    }
}

/// Putting a text in its place keeps a list in order and adds just that text.
pub proof fn with_text_in_order(s: Seq<Seq<char>>, t: Seq<char>)
    requires
        texts_in_order(s),
    ensures
        texts_in_order(with_text(s, t)),
        with_text(s, t).to_multiset() == s.to_multiset().insert(t),
{
    text_place_bound(s, t);
    let n = text_place(s, t) as int;
    let w = with_text(s, t);
    assert forall|i: int, j: int| 0 <= i < j < w.len() implies !text_less(
        #[trigger] w[j],
        #[trigger] w[i],
    ) by {
        if j < n {
            assert(w[i] == s[i] && w[j] == s[j]);
        } else if j == n {
            assert(w[i] == s[i]);
        } else if i > n {
            assert(w[i] == s[i - 1] && w[j] == s[j - 1]);
        } else {
            assert(w[j] == s[j - 1]);
            if i == n {
                if text_less(s[j - 1], t) {
                    text_less_transitive(s[j - 1], t, s[n]);
                    text_less_irreflexive(s[n]);
                }
            } else {
                assert(w[i] == s[i]);
            }
        }
    }
    s.to_multiset_ensures();
    vstd::seq_lib::to_multiset_insert(s, n, t);
}

/// Sorting puts the texts in order and neither loses nor adds any.
pub proof fn sorting_sorts(s: Seq<Seq<char>>)
    ensures
        texts_in_order(sorted_texts(s)),
        sorted_texts(s).to_multiset() == s.to_multiset(),
    decreases s.len(),
{
    if s.len() > 0 {
        sorting_sorts(s.drop_last());
        with_text_in_order(sorted_texts(s.drop_last()), s.last());
        s.drop_last().to_multiset_ensures();
        assert(s =~= s.drop_last().push(s.last()));
    }
}

/// Puts a text in its place.
pub fn insert_text(list: &mut Vec<String>, t: String)
    ensures
        views(final(list)@) == with_text(views(old(list)@), t@),
{
    let ghost s = views(list@);
    let mut n: usize = 0;
    assert(s.skip(0) =~= s);
    while n < list.len() && !less_text(t.as_str(), list[n].as_str())
        invariant
            n <= list.len(),
            list@ == old(list)@,
            s == views(list@),
            text_place(s, t@) == n + text_place(s.skip(n as int), t@),
        decreases list.len() - n,
    {
        assert(s.skip(n as int)[0] == list@[n as int]@);
        assert(s.skip(n as int).drop_first() =~= s.skip(n as int + 1));
        n += 1;
    }
    proof {
        if n < list.len() {
            assert(s.skip(n as int)[0] == list@[n as int]@);
        }
        assert(text_place(s.skip(n as int), t@) == 0);
    }
    let ghost added = t@;
    list.insert(n, t);
    assert(views(list@) =~= s.insert(n as int, added));
}

} // verus!
