//! Grouping texts that share most of their words.
//!
//! Two texts are alike when at least four fifths of the distinct words of both together
//! stand in both. Texts that are alike, directly or through others, form a cluster.
use crate::text::{chars_of, split_words, views, words};
use crate::text_order::{insert_text, less_text, text_less, with_text};
use crate::evolution_backups::list_contains;
use vstd::prelude::*;

verus! {

// ----------------------------------------------------------------- union-find

/// No entry points to a later one.
pub open spec fn points_back(parent: Seq<usize>) -> bool {
    forall|k: int| 0 <= k < parent.len() ==> #[trigger] parent[k] <= k
}

/// Where the way back from `x` ends.
pub open spec fn root_of(parent: Seq<usize>, x: int) -> int
    decreases x,
{
    if 0 <= x < parent.len() && parent[x] < x {
        root_of(parent, parent[x] as int)
    } else {
        x
    }
}

proof fn root_bound(parent: Seq<usize>, x: int)
    requires
        points_back(parent),
        0 <= x < parent.len(),
    ensures
        0 <= root_of(parent, x) <= x,
        parent[root_of(parent, x)] == root_of(parent, x),
    decreases x,
{
    if parent[x] < x {
        root_bound(parent, parent[x] as int);
    }
}

/// Pointing an entry straight to its root changes no root.
proof fn shortcut_keeps_roots(parent: Seq<usize>, c: int, r: usize, x: int)
    requires
        points_back(parent),
        0 <= c < parent.len(),
        r == root_of(parent, c),
        0 <= x < parent.len(),
    ensures
        points_back(parent.update(c, r)),
        root_of(parent.update(c, r), x) == root_of(parent, x),
    decreases x,
{
    root_bound(parent, c);
    let p = parent.update(c, r);
    assert(points_back(p));
    if x == c {
        if r < c {
            assert(p[r as int] == parent[r as int]);
            assert(root_of(p, r as int) == r as int);
        }
    } else if parent[x] < x {
        shortcut_keeps_roots(parent, c, r, parent[x] as int);
    }
}

/// Pointing one root to an earlier one moves all that ended at it, and nothing else.
proof fn joining_moves_one(parent: Seq<usize>, low: usize, high: usize, x: int)
    requires
        points_back(parent),
        low < high < parent.len(),
        parent[low as int] == low,
        parent[high as int] == high,
        0 <= x < parent.len(),
    ensures
        points_back(parent.update(high as int, low)),
        root_of(parent.update(high as int, low), x) == (if root_of(parent, x) == high {
            low as int
        } else {
            root_of(parent, x)
        }),
    decreases x,
{
    let p = parent.update(high as int, low);
    assert(points_back(p));
    if x == high {
        assert(root_of(p, low as int) == low as int);
    } else if parent[x] < x {
        joining_moves_one(parent, low, high, parent[x] as int);
    }
}

/// The root of `x`, to which `x` points straight from then on.
pub fn find(parent: &mut Vec<usize>, x: usize) -> (root: usize)
    requires
        points_back(old(parent)@),
        x < old(parent)@.len(),
    ensures
        root == root_of(old(parent)@, x as int),
        root < final(parent)@.len(),
        final(parent)@[x as int] == root,
        final(parent)@[root as int] == root,
        points_back(final(parent)@),
        final(parent)@.len() == old(parent)@.len(),
        forall|k: int|
            0 <= k < old(parent)@.len() ==> #[trigger] root_of(final(parent)@, k) == root_of(
                old(parent)@,
                k,
            ),
{
    let ghost before = parent@;
    let mut root: usize = x;
    while parent[root] != root
        invariant
            parent@ == before,
            points_back(before),
            root < before.len(),
            root_of(before, x as int) == root_of(before, root as int),
        decreases root,
    {
        root = parent[root];
    }
    let mut cur: usize = x;
    while parent[cur] != root
        invariant
            points_back(before),
            points_back(parent@),
            parent@.len() == before.len(),
            root < before.len(),
            cur < before.len(),
            before[root as int] == root,
            root == root_of(before, x as int),
            root == root_of(before, cur as int),
            parent@[root as int] == root,
            cur == x || parent@[x as int] == root,
            forall|k: int|
                0 <= k < before.len() ==> #[trigger] root_of(parent@, k) == root_of(before, k),
        decreases cur,
    {
        let next: usize = parent[cur];
        proof {
            assert(root_of(parent@, cur as int) == root_of(before, cur as int));
            root_bound(parent@, cur as int);
            assert(root_of(parent@, next as int) == root_of(before, next as int));
            assert(next < cur);
            assert forall|k: int| 0 <= k < before.len() implies #[trigger] root_of(
                parent@.update(cur as int, root),
                k,
            ) == root_of(before, k) by {
                shortcut_keeps_roots(parent@, cur as int, root, k);
                assert(root_of(parent@, k) == root_of(before, k));
            }
            shortcut_keeps_roots(parent@, cur as int, root, cur as int);
        }
        parent.set(cur, root);
        cur = next;
    }
    root
}

/// The labels after those of `a` and `b` have become one, the smaller of the two.
pub open spec fn merged(labels: Seq<int>, a: int, b: int) -> Seq<int> {
    let low = if labels[a] < labels[b] {
        labels[a]
    } else {
        labels[b]
    };
    let high = if labels[a] < labels[b] {
        labels[b]
    } else {
        labels[a]
    };
    labels.map_values(
        |l: int|
            if l == high {
                low
            } else {
                l
            },
    )
}

/// The root of each entry.
pub open spec fn roots(parent: Seq<usize>) -> Seq<int> {
    Seq::new(parent.len(), |k: int| root_of(parent, k))
}

/// Makes one of the groups of `a` and `b`: the later root is put under the earlier.
pub fn union(parent: &mut Vec<usize>, a: usize, b: usize)
    requires
        points_back(old(parent)@),
        a < old(parent)@.len(),
        b < old(parent)@.len(),
    ensures
        points_back(final(parent)@),
        final(parent)@.len() == old(parent)@.len(),
        roots(final(parent)@) == merged(roots(old(parent)@), a as int, b as int),
{
    let ghost before = parent@;
    let ra: usize = find(parent, a);
    let rb: usize = find(parent, b);
    let ghost mid = parent@;
    proof {
        assert(root_of(mid, a as int) == ra);
        assert(root_of(mid, b as int) == rb);
        root_bound(mid, a as int);
        root_bound(mid, b as int);
    }
    if ra < rb {
        proof {
            assert forall|k: int| 0 <= k < before.len() implies #[trigger] root_of(
                mid.update(rb as int, ra),
                k,
            ) == merged(roots(before), a as int, b as int)[k] by {
                joining_moves_one(mid, ra, rb, k);
                assert(root_of(mid, k) == root_of(before, k));
            }
            joining_moves_one(mid, ra, rb, ra as int);
        }
        parent.set(rb, ra);
    } else if rb < ra {
        proof {
            assert forall|k: int| 0 <= k < before.len() implies #[trigger] root_of(
                mid.update(ra as int, rb),
                k,
            ) == merged(roots(before), a as int, b as int)[k] by {
                joining_moves_one(mid, rb, ra, k);
                assert(root_of(mid, k) == root_of(before, k));
            }
            joining_moves_one(mid, rb, ra, ra as int);
        }
        parent.set(ra, rb);
    } else {
        assert forall|k: int| 0 <= k < before.len() implies #[trigger] root_of(mid, k) == merged(
            roots(before),
            a as int,
            b as int,
        )[k] by {}
    }
    assert(roots(parent@) =~= merged(roots(before), a as int, b as int));
}

// ----------------------------------------------------------------------- words

/// The first `n` words, each once, in the order in which they first come.
pub open spec fn distinct(ws: Seq<Seq<char>>, n: int) -> Seq<Seq<char>>
    decreases n,
{
    if n <= 0 || n > ws.len() {
        Seq::empty()
    } else {
        let before = distinct(ws, n - 1);
        if before.contains(ws[n - 1]) {
            before
        } else {
            before.push(ws[n - 1])
        }
    }
}

/// The words of a text, each once.
pub open spec fn tokens(text: Seq<char>) -> Seq<Seq<char>> {
    distinct(words(text), words(text).len() as int)
}

/// The words of a text, each once. The text is in small letters already.
pub fn tokenize(text: &str) -> (r: Vec<String>)
    ensures
        views(r@) == tokens(text@),
{
    let v: Vec<char> = chars_of(text);
    let ws: Vec<String> = split_words(&v);
    let ghost all = words(text@);
    let mut r: Vec<String> = Vec::new();
    let mut i: usize = 0;
    assert(views(r@) =~= Seq::empty());
    while i < ws.len()
        invariant
            i <= ws.len(),
            views(ws@) == all,
            views(r@) == distinct(all, i as int),
        decreases ws.len() - i,
    {
        assert(all[i as int] == ws@[i as int]@);
        if !list_contains(&r, ws[i].as_str()) {
            let ghost before = r@;
            r.push(ws[i].clone());
            assert(views(r@) =~= views(before).push(ws@[i as int]@));
        }
        i += 1;
    }
    assert(all.len() == ws@.len());
    r
}

/// How many of the first `n` words of `a` are among those of `b`.
pub open spec fn shared_words(a: Seq<Seq<char>>, b: Seq<Seq<char>>, n: int) -> nat
    decreases n,
{
    if n <= 0 || n > a.len() {
        0
    } else {
        shared_words(a, b, n - 1) + (if b.contains(a[n - 1]) {
            1nat
        } else {
            0
        })
    }
}

/// How alike two lists of distinct words are: how many stand in both, out of how many
/// there are in both together.
pub struct LikenessModel {
    pub shared: int,
    pub total: int,
}

/// How alike two lists of distinct words are.
#[derive(Debug, Clone, Copy, PartialEq, Eq, Structural)]
pub struct Likeness {
    /// How many words stand in both.
    pub shared: u128,
    /// How many words there are in both together.
    pub total: u128,
}

impl View for Likeness {
    type V = LikenessModel;

    open spec fn view(&self) -> LikenessModel {
        LikenessModel { shared: self.shared as int, total: self.total as int }
    }
}

/// How alike two lists of distinct words are.
pub open spec fn likeness(a: Seq<Seq<char>>, b: Seq<Seq<char>>) -> LikenessModel {
    let shared = shared_words(a, b, a.len() as int) as int;
    LikenessModel { shared, total: a.len() + b.len() - shared }
}

/// At least four fifths are shared.
pub open spec fn is_alike(l: LikenessModel) -> bool {
    5 * l.shared >= 4 * l.total
}

proof fn shared_bound(a: Seq<Seq<char>>, b: Seq<Seq<char>>, n: int)
    requires
        0 <= n <= a.len(),
    ensures
        shared_words(a, b, n) <= n,
    decreases n,
{
    if n > 0 {
        shared_bound(a, b, n - 1);
    }
}

/// How alike two lists of distinct words are.
pub fn likeness_of(a: &Vec<String>, b: &Vec<String>) -> (r: Likeness)
    ensures
        r@ == likeness(views(a@), views(b@)),
        r.total <= 2 * usize::MAX,
        r.shared <= usize::MAX,
{
    let mut shared: u128 = 0;
    let mut i: usize = 0;
    while i < a.len()
        invariant
            i <= a.len(),
            shared == shared_words(views(a@), views(b@), i as int),
            shared <= i,
        decreases a.len() - i,
    {
        assert(views(a@)[i as int] == a@[i as int]@);
        if list_contains(b, a[i].as_str()) {
            shared = shared + 1;
        }
        i += 1;
    }
    assert(views(a@).len() == a@.len() && views(b@).len() == b@.len());
    Likeness { shared, total: a.len() as u128 - shared + b.len() as u128 }
}

/// `x` is the greater share of the two.
pub open spec fn is_greater(x: LikenessModel, y: LikenessModel) -> bool {
    x.shared * y.total > y.shared * x.total
}

proof fn greater_by_quotient(a: int, b: int, c: int, d: int)
    requires
        a >= 0,
        b > 0,
        c >= 0,
        d > 0,
    ensures
        a / b > c / d ==> a * d > c * b,
        a / b < c / d ==> a * d < c * b,
        a / b == c / d ==> (a * d > c * b <==> (a % b) * d > (c % d) * b),
{
    let p = a / b;
    let q = c / d;
    let r = a % b;
    let s = c % d;
    assert(a == p * b + r && 0 <= r < b) by (nonlinear_arith)
        requires
            b > 0,
            p == a / b,
            r == a % b,
    ;
    assert(c == q * d + s && 0 <= s < d) by (nonlinear_arith)
        requires
            d > 0,
            q == c / d,
            s == c % d,
    ;
    assert(a * d == (p * d) * b + r * d) by (nonlinear_arith)
        requires
            a == p * b + r,
    ;
    assert(c * b == (q * d) * b + s * b) by (nonlinear_arith)
        requires
            c == q * d + s,
    ;
    assert(r * d >= 0 && s * b >= 0 && r * d < b * d && s * b < d * b) by (nonlinear_arith)
        requires
            0 <= r < b,
            0 <= s < d,
    ;
    if p > q {
        assert((p * d) * b >= (q * d) * b + d * b) by (nonlinear_arith)
            requires
                p >= q + 1,
                b > 0,
                d > 0,
        ;
    }
    if p < q {
        assert((q * d) * b >= (p * d) * b + b * d) by (nonlinear_arith)
            requires
                q >= p + 1,
                b > 0,
                d > 0,
        ;
    }
}

/// Whether `a` out of `b` is a greater share than `c` out of `d`.
fn greater_share(a: u128, b: u128, c: u128, d: u128) -> (r: bool)
    requires
        b > 0,
        d > 0,
    ensures
        r == (a * d > c * b),
    decreases b + d,
{
    proof {
        greater_by_quotient(a as int, b as int, c as int, d as int);
    }
    let p: u128 = a / b;
    let q: u128 = c / d;
    if p != q {
        return p > q;
    }
    let r: u128 = a % b;
    let s: u128 = c % d;
    if r == 0 {
        assert(0 * d <= s * b) by (nonlinear_arith)
            requires
                s >= 0,
                b > 0,
        ;
        return false;
    }
    if s == 0 {
        assert(r * d > 0 * b) by (nonlinear_arith)
            requires
                r > 0,
                d > 0,
        ;
        return true;
    }
    assert(d * r == r * d && b * s == s * b) by (nonlinear_arith);
    greater_share(d, s, b, r)
}

/// Whether `x` is the greater share of the two.
pub fn greater_likeness(x: &Likeness, y: &Likeness) -> (r: bool)
    requires
        x.total > 0,
        y.total > 0,
    ensures
        r == is_greater(x@, y@),
{
    greater_share(x.shared, x.total, y.shared, y.total)
}

// ---------------------------------------------------------------------- labels

/// `i` and `j` are alike; a text without words is like none.
pub open spec fn alike(t: Seq<Seq<Seq<char>>>, i: int, j: int) -> bool {
    t[i].len() > 0 && t[j].len() > 0 && is_alike(likeness(t[i], t[j]))
}

/// The labels once `i` has been held against those between it and `j`.
pub open spec fn labels_in_row(t: Seq<Seq<Seq<char>>>, labels: Seq<int>, i: int, j: int) -> Seq<int>
    decreases j - i,
{
    if j <= i + 1 {
        labels
    } else {
        let before = labels_in_row(t, labels, i, j - 1);
        if alike(t, i, j - 1) {
            merged(before, i, j - 1)
        } else {
            before
        }
    }
}

/// The labels once each of the first `n` has been held against those behind it: at
/// first each has its own place for a label.
pub open spec fn labels_after(t: Seq<Seq<Seq<char>>>, n: int) -> Seq<int>
    decreases n,
{
    if n <= 0 {
        Seq::new(t.len(), |k: int| k)
    } else {
        labels_in_row(t, labels_after(t, n - 1), n - 1, t.len() as int)
    }
}

/// The label of each text: texts of one cluster have the same.
pub open spec fn cluster_labels(t: Seq<Seq<Seq<char>>>) -> Seq<int> {
    labels_after(t, t.len() as int)
}

/// The word lists of all texts.
pub open spec fn token_views(v: Seq<Vec<String>>) -> Seq<Seq<Seq<char>>> {
    v.map_values(|l: Vec<String>| views(l@))
}

/// The label of each text.
pub fn label_texts(tokens: &Vec<Vec<String>>) -> (parent: Vec<usize>)
    ensures
        parent@.len() == tokens@.len(),
        points_back(parent@),
        roots(parent@) == cluster_labels(token_views(tokens@)),
{
    let ghost t = token_views(tokens@);
    let n: usize = tokens.len();
    let mut parent: Vec<usize> = Vec::new();
    let mut k: usize = 0;
    while k < n
        invariant
            k <= n,
            parent@.len() == k,
            forall|x: int| 0 <= x < k ==> #[trigger] parent@[x] == x,
        decreases n - k,
    {
        parent.push(k);
        k += 1;
    }
    assert(roots(parent@) =~= labels_after(t, 0));
    let mut i: usize = 0;
    while i < n
        invariant
            i <= n,
            n == tokens.len(),
            t == token_views(tokens@),
            parent@.len() == n,
            points_back(parent@),
            roots(parent@) == labels_after(t, i as int),
        decreases n - i,
    {
        let ghost start = labels_after(t, i as int);
        let mut j: usize = i + 1;
        while j < n
            invariant
                i < j <= n,
                n == tokens.len(),
                t == token_views(tokens@),
                parent@.len() == n,
                points_back(parent@),
                roots(parent@) == labels_in_row(t, start, i as int, j as int),
            decreases n - j,
        {
            assert(t[i as int] == views(tokens@[i as int]@));
            assert(t[j as int] == views(tokens@[j as int]@));
            if tokens[i].len() > 0 && tokens[j].len() > 0 {
                let l: Likeness = likeness_of(&tokens[i], &tokens[j]);
                if 5 * l.shared >= 4 * l.total {
                    union(&mut parent, i, j);
                }
            }
            j += 1;
        }
        i += 1;
    }
    parent
}

/// A relation that holds of everything with itself, both ways, and through others.
pub open spec fn is_equivalence(e: spec_fn(int, int) -> bool, n: int) -> bool {
    &&& forall|x: int| 0 <= x < n ==> #[trigger] e(x, x)
    &&& forall|x: int, y: int| 0 <= x < n && 0 <= y < n && #[trigger] e(x, y) ==> e(y, x)
    &&& forall|x: int, y: int, z: int|
        0 <= x < n && 0 <= y < n && 0 <= z < n && #[trigger] e(x, y) && #[trigger] e(y, z) ==> e(
            x,
            z,
        )
}

/// Texts that are alike have the same label.
pub proof fn alike_texts_share_a_label(t: Seq<Seq<Seq<char>>>, i: int, j: int)
    requires
        0 <= i < j < t.len(),
        alike(t, i, j),
    ensures
        cluster_labels(t)[i] == cluster_labels(t)[j],
{
    labels_len(t, i);
    row_merges(t, labels_after(t, i), i, j, t.len() as int);
    rows_keep(t, i + 1, t.len() as int, i, j);
}

/// Every text has a label at every point.
pub proof fn labels_len(t: Seq<Seq<Seq<char>>>, n: int)
    requires
        0 <= n <= t.len(),
    ensures
        labels_after(t, n).len() == t.len(),
    decreases n,
{
    if n > 0 {
        labels_len(t, n - 1);
        row_len(t, labels_after(t, n - 1), n - 1, t.len() as int);
    }
}

proof fn row_len(t: Seq<Seq<Seq<char>>>, labels: Seq<int>, i: int, j: int)
    ensures
        labels_in_row(t, labels, i, j).len() == labels.len(),
    decreases j - i,
{
    if j > i + 1 {
        row_len(t, labels, i, j - 1);
    }
}

proof fn row_merges(t: Seq<Seq<Seq<char>>>, labels: Seq<int>, i: int, j: int, n: int)
    requires
        0 <= i < j < n <= t.len(),
        labels.len() == t.len(),
        alike(t, i, j),
    ensures
        labels_in_row(t, labels, i, n)[i] == labels_in_row(t, labels, i, n)[j],
    decreases n,
{
    row_len(t, labels, i, n - 1);
    if n - 1 > j {
        row_merges(t, labels, i, j, n - 1);
    }
}

proof fn row_keeps(t: Seq<Seq<Seq<char>>>, labels: Seq<int>, r: int, n: int, x: int, y: int)
    requires
        0 <= x < labels.len(),
        0 <= y < labels.len(),
        labels[x] == labels[y],
    ensures
        labels_in_row(t, labels, r, n)[x] == labels_in_row(t, labels, r, n)[y],
    decreases n - r,
{
    if n > r + 1 {
        row_keeps(t, labels, r, n - 1, x, y);
        row_len(t, labels, r, n - 1);
    }
}

proof fn rows_keep(t: Seq<Seq<Seq<char>>>, from: int, n: int, x: int, y: int)
    requires
        0 <= from <= n <= t.len(),
        0 <= x < t.len(),
        0 <= y < t.len(),
    ensures
        labels_after(t, from)[x] == labels_after(t, from)[y] ==> labels_after(t, n)[x]
            == labels_after(t, n)[y],
    decreases n - from,
{
    if from < n && labels_after(t, from)[x] == labels_after(t, from)[y] {
        rows_keep(t, from, n - 1, x, y);
        labels_len(t, n - 1);
        row_keeps(t, labels_after(t, n - 1), n - 1, t.len() as int, x, y);
    }
}

/// Texts have the same label only where that follows from texts being alike: whatever
/// relation holds of all texts that are alike, of everything with itself, both ways and
/// through others, holds of any two texts with the same label. Together with
/// [`alike_texts_share_a_label`] this says that the labels are those of the connected
/// groups.
pub proof fn labels_join_no_more(t: Seq<Seq<Seq<char>>>, e: spec_fn(int, int) -> bool, x: int, y: int)
    requires
        is_equivalence(e, t.len() as int),
        forall|i: int, j: int| 0 <= i < j < t.len() && #[trigger] alike(t, i, j) ==> e(i, j),
        0 <= x < t.len(),
        0 <= y < t.len(),
        cluster_labels(t)[x] == cluster_labels(t)[y],
    ensures
        e(x, y),
{
    rows_follow(t, e, t.len() as int);
}

spec fn follows(labels: Seq<int>, e: spec_fn(int, int) -> bool) -> bool {
    forall|x: int, y: int|
        0 <= x < labels.len() && 0 <= y < labels.len() && #[trigger] labels[x]
            == #[trigger] labels[y] ==> e(x, y)
}

proof fn rows_follow(t: Seq<Seq<Seq<char>>>, e: spec_fn(int, int) -> bool, n: int)
    requires
        is_equivalence(e, t.len() as int),
        forall|i: int, j: int| 0 <= i < j < t.len() && #[trigger] alike(t, i, j) ==> e(i, j),
        0 <= n <= t.len(),
    ensures
        follows(labels_after(t, n), e),
        labels_after(t, n).len() == t.len(),
    decreases n,
{
    if n > 0 {
        rows_follow(t, e, n - 1);
        row_follows(t, labels_after(t, n - 1), e, n - 1, t.len() as int);
        row_len(t, labels_after(t, n - 1), n - 1, t.len() as int);
    }
}

proof fn row_follows(
    t: Seq<Seq<Seq<char>>>,
    labels: Seq<int>,
    e: spec_fn(int, int) -> bool,
    i: int,
    n: int,
)
    requires
        is_equivalence(e, t.len() as int),
        forall|a: int, b: int| 0 <= a < b < t.len() && #[trigger] alike(t, a, b) ==> e(a, b),
        labels.len() == t.len(),
        follows(labels, e),
        0 <= i < t.len(),
        n <= t.len(),
    ensures
        follows(labels_in_row(t, labels, i, n), e),
    decreases n,
{
    if n > i + 1 {
        row_follows(t, labels, e, i, n - 1);
        row_len(t, labels, i, n - 1);
        let before = labels_in_row(t, labels, i, n - 1);
        let j = n - 1;
        if alike(t, i, j) {
            let after = merged(before, i, j);
            assert(e(i, j) && e(j, i));
            assert forall|x: int, y: int|
                0 <= x < after.len() && 0 <= y < after.len() && #[trigger] after[x]
                    == #[trigger] after[y] implies e(x, y) by {
                if before[x] != before[y] {
                    if before[x] == before[i] {
                        assert(before[y] == before[j]);
                        assert(e(x, i) && e(j, y));
                        assert(e(x, j));
                    } else {
                        assert(before[x] == before[j] && before[y] == before[i]);
                        assert(e(x, j) && e(i, y));
                        assert(e(x, i));
                    }
                }
            }
        }
    }
}

// -------------------------------------------------------------------- clusters

/// A text and its id.
#[derive(Debug, Clone)]
pub struct RedundancyChunk {
    pub id: String,
    pub text: String,
}

/// A cluster of texts that are alike.
#[derive(Debug)]
pub struct Cluster {
    /// How alike the two of them are that are most alike.
    pub best: Likeness,
    /// Their ids, in order.
    pub members: Vec<String>,
}

/// [`Cluster`] by its texts.
pub struct ClusterModel {
    pub best: LikenessModel,
    pub members: Seq<Seq<char>>,
}

impl View for Cluster {
    type V = ClusterModel;

    open spec fn view(&self) -> ClusterModel {
        ClusterModel { best: self.best@, members: views(self.members@) }
    }
}

/// The texts of a list of clusters.
pub open spec fn cluster_models(v: Seq<Cluster>) -> Seq<ClusterModel> {
    v.map_values(|c: Cluster| c@)
}

/// Which of the first `n` have the label `l`.
pub open spec fn labelled(labels: Seq<int>, l: int, n: int) -> Seq<int>
    decreases n,
{
    if n <= 0 || n > labels.len() {
        Seq::empty()
    } else {
        let before = labelled(labels, l, n - 1);
        if labels[n - 1] == l {
            before.push(n - 1)
        } else {
            before
        }
    }
}

/// The greatest likeness of `ms[a]` to those from `ms[a + 1]` up to `ms[b]`, `b`
/// excluded, and `start`.
pub open spec fn best_in_row(
    t: Seq<Seq<Seq<char>>>,
    ms: Seq<int>,
    a: int,
    b: int,
    start: LikenessModel,
) -> LikenessModel
    decreases b - a,
{
    if b <= a + 1 {
        start
    } else {
        let before = best_in_row(t, ms, a, b - 1, start);
        let l = likeness(t[ms[a]], t[ms[b - 1]]);
        if is_greater(l, before) {
            l
        } else {
            before
        }
    }
}

/// The greatest likeness between any of the first `n` of `ms` and those behind it.
pub open spec fn best_among(t: Seq<Seq<Seq<char>>>, ms: Seq<int>, n: int) -> LikenessModel
    decreases n,
{
    if n <= 0 {
        LikenessModel { shared: 0, total: 1 }
    } else {
        best_in_row(t, ms, n - 1, ms.len() as int, best_among(t, ms, n - 1))
    }
}

/// The ids of the first `n` of `ms`, in order.
pub open spec fn ids_in_order(ids: Seq<Seq<char>>, ms: Seq<int>, n: int) -> Seq<Seq<char>>
    decreases n,
{
    if n <= 0 || n > ms.len() {
        Seq::empty()
    } else {
        with_text(ids_in_order(ids, ms, n - 1), ids[ms[n - 1]])
    }
}

/// The cluster of those that have the label `l`.
pub open spec fn cluster_at(t: Seq<Seq<Seq<char>>>, ids: Seq<Seq<char>>, l: int) -> ClusterModel {
    let ms = labelled(cluster_labels(t), l, t.len() as int);
    ClusterModel {
        best: best_among(t, ms, ms.len() as int),
        members: ids_in_order(ids, ms, ms.len() as int),
    }
}

/// How many clusters at the front do not come after one whose first id is `id`.
pub open spec fn cluster_place(cs: Seq<ClusterModel>, id: Seq<char>) -> nat
    decreases cs.len(),
{
    if cs.len() > 0 && !text_less(id, cs[0].members[0]) {
        1 + cluster_place(cs.drop_first(), id)
    } else {
        0
    }
}

/// The clusters with the first `n` labels that have two members at least, in the order of
/// their first ids.
pub open spec fn clusters_upto(t: Seq<Seq<Seq<char>>>, ids: Seq<Seq<char>>, n: int) -> Seq<
    ClusterModel,
>
    decreases n,
{
    if n <= 0 {
        Seq::empty()
    } else {
        let before = clusters_upto(t, ids, n - 1);
        if labelled(cluster_labels(t), n - 1, t.len() as int).len() >= 2 {
            let c = cluster_at(t, ids, n - 1);
            before.insert(cluster_place(before, c.members[0]) as int, c)
        } else {
            before
        }
    }
}

/// The clusters of texts that are alike, in the order of their first ids.
pub open spec fn clusters(t: Seq<Seq<Seq<char>>>, ids: Seq<Seq<char>>) -> Seq<ClusterModel> {
    clusters_upto(t, ids, t.len() as int)
}

/// `(a as int)` for each index.
pub open spec fn ints(v: Seq<usize>) -> Seq<int> {
    v.map_values(|x: usize| x as int)
}

/// Which have the label `l`.
fn members_with(labels: &Vec<usize>, l: usize) -> (r: Vec<usize>)
    ensures
        ints(r@) == labelled(ints(labels@), l as int, labels@.len() as int),
        forall|k: int| 0 <= k < r@.len() ==> #[trigger] r@[k] < labels@.len() && labels@[r@[k] as int] == l,
{
    let mut r: Vec<usize> = Vec::new();
    let mut i: usize = 0;
    assert(ints(r@) =~= Seq::empty());
    while i < labels.len()
        invariant
            i <= labels.len(),
            ints(r@) == labelled(ints(labels@), l as int, i as int),
            forall|k: int|
                0 <= k < r@.len() ==> #[trigger] r@[k] < i && labels@[r@[k] as int] == l,
        decreases labels.len() - i,
    {
        assert(ints(labels@)[i as int] == labels@[i as int]);
        if labels[i] == l {
            let ghost before = r@;
            r.push(i);
            assert(ints(r@) =~= ints(before).push(i as int));
        }
        i += 1;
    }
    r
}

/// The greatest likeness between two of `ms`.
fn best_pair(tokens: &Vec<Vec<String>>, ms: &Vec<usize>) -> (r: Likeness)
    requires
        forall|k: int| 0 <= k < ms@.len() ==> #[trigger] ms@[k] < tokens@.len(),
        forall|k: int| 0 <= k < ms@.len() ==> tokens@[#[trigger] ms@[k] as int]@.len() > 0,
    ensures
        r@ == best_among(token_views(tokens@), ints(ms@), ms@.len() as int),
{
    let ghost t = token_views(tokens@);
    let ghost im = ints(ms@);
    let mut best = Likeness { shared: 0, total: 1 };
    let mut a: usize = 0;
    while a < ms.len()
        invariant
            a <= ms.len(),
            t == token_views(tokens@),
            im == ints(ms@),
            forall|k: int| 0 <= k < ms@.len() ==> #[trigger] ms@[k] < tokens@.len(),
            forall|k: int| 0 <= k < ms@.len() ==> tokens@[#[trigger] ms@[k] as int]@.len() > 0,
            best@ == best_among(t, im, a as int),
            best.total > 0,
        decreases ms.len() - a,
    {
        let ghost start = best@;
        let mut b: usize = a + 1;
        while b < ms.len()
            invariant
                a < b <= ms.len(),
                t == token_views(tokens@),
                im == ints(ms@),
                forall|k: int| 0 <= k < ms@.len() ==> #[trigger] ms@[k] < tokens@.len(),
                forall|k: int| 0 <= k < ms@.len() ==> tokens@[#[trigger] ms@[k] as int]@.len() > 0,
                best@ == best_in_row(t, im, a as int, b as int, start),
                best.total > 0,
            decreases ms.len() - b,
        {
            assert(im[a as int] == ms@[a as int] && im[b as int] == ms@[b as int]);
            assert(t[im[a as int]] == views(tokens@[ms@[a as int] as int]@));
            assert(t[im[b as int]] == views(tokens@[ms@[b as int] as int]@));
            let l: Likeness = likeness_of(&tokens[ms[a]], &tokens[ms[b]]);
            proof {
                shared_bound(t[im[a as int]], t[im[b as int]], t[im[a as int]].len() as int);
            }
            if greater_likeness(&l, &best) {
                best = l;
            }
            b += 1;
        }
        assert(im.len() == ms@.len());
        a += 1;
    }
    best
}

/// The ids of `ms`, in order.
fn member_ids(ids: &Vec<String>, ms: &Vec<usize>) -> (r: Vec<String>)
    requires
        forall|k: int| 0 <= k < ms@.len() ==> #[trigger] ms@[k] < ids@.len(),
    ensures
        views(r@) == ids_in_order(views(ids@), ints(ms@), ms@.len() as int),
        r@.len() == ms@.len(),
{
    let mut r: Vec<String> = Vec::new();
    let mut i: usize = 0;
    assert(views(r@) =~= Seq::empty());
    while i < ms.len()
        invariant
            i <= ms.len(),
            forall|k: int| 0 <= k < ms@.len() ==> #[trigger] ms@[k] < ids@.len(),
            views(r@) == ids_in_order(views(ids@), ints(ms@), i as int),
            r@.len() == i,
        decreases ms.len() - i,
    {
        assert(ints(ms@)[i as int] == ms@[i as int]);
        assert(views(ids@)[ms@[i as int] as int] == ids@[ms@[i as int] as int]@);
        let ghost before = views(r@);
        insert_text(&mut r, ids[ms[i]].clone());
        proof {
            crate::text_order::text_place_bound(before, ids@[ms@[i as int] as int]@);
            assert(views(r@).len() == r@.len());
        }
        i += 1;
    }
    r
}

/// Puts a cluster in its place.
fn insert_cluster(list: &mut Vec<Cluster>, c: Cluster)
    requires
        c.members@.len() > 0,
        forall|k: int| 0 <= k < old(list)@.len() ==> (#[trigger] old(list)@[k]).members@.len() > 0,
    ensures
        cluster_models(final(list)@) == cluster_models(old(list)@).insert(
            cluster_place(cluster_models(old(list)@), c@.members[0]) as int,
            c@,
        ),
        forall|k: int| 0 <= k < final(list)@.len() ==> (#[trigger] final(list)@[k]).members@.len() > 0,
{
    let ghost s = cluster_models(list@);
    let ghost id = c@.members[0];
    assert(id == c.members@[0]@);
    let mut n: usize = 0;
    assert(s.skip(0) =~= s);
    while n < list.len() && !less_text(c.members[0].as_str(), list[n].members[0].as_str())
        invariant
            n <= list.len(),
            list@ == old(list)@,
            s == cluster_models(list@),
            c.members@.len() > 0,
            id == c.members@[0]@,
            forall|k: int| 0 <= k < list@.len() ==> (#[trigger] list@[k]).members@.len() > 0,
            cluster_place(s, id) == n + cluster_place(s.skip(n as int), id),
        decreases list.len() - n,
    {
        assert(s.skip(n as int)[0] == list@[n as int]@);
        assert(list@[n as int]@.members[0] == list@[n as int].members@[0]@);
        assert(s.skip(n as int).drop_first() =~= s.skip(n as int + 1));
        n += 1;
    }
    proof {
        if n < list.len() {
            assert(s.skip(n as int)[0] == list@[n as int]@);
            assert(list@[n as int]@.members[0] == list@[n as int].members@[0]@);
        }
        assert(cluster_place(s.skip(n as int), id) == 0);
    }
    let ghost added = c@;
    list.insert(n, c);
    assert(cluster_models(list@) =~= s.insert(n as int, added));
}

/// What has the label of another has words: it is like some other.
proof fn grouped_texts_have_words(t: Seq<Seq<Seq<char>>>, n: int, x: int, y: int)
    requires
        0 <= n <= t.len(),
        0 <= x < t.len(),
        0 <= y < t.len(),
        x != y,
        labels_after(t, n)[x] == labels_after(t, n)[y],
    ensures
        t[x].len() > 0,
{
    let e = |a: int, b: int| a == b || (t[a].len() > 0 && t[b].len() > 0);
    assert(is_equivalence(e, t.len() as int));
    rows_follow(t, e, n);
    assert(e(x, y));
}

/// The clusters of texts whose distinct words are `tokens` and whose ids are `ids`.
pub fn clusters_of(tokens: &Vec<Vec<String>>, ids: &Vec<String>) -> (r: Vec<Cluster>)
    requires
        tokens@.len() == ids@.len(),
    ensures
        cluster_models(r@) == clusters(token_views(tokens@), views(ids@)),
{
    let ghost t = token_views(tokens@);
    let n: usize = tokens.len();
    let mut parent: Vec<usize> = label_texts(tokens);
    let ghost labels_m = cluster_labels(t);
    let mut labels: Vec<usize> = Vec::new();
    let mut i: usize = 0;
    let ghost first = parent@;
    while i < n
        invariant
            i <= n,
            n == t.len(),
            parent@.len() == n,
            first.len() == n,
            points_back(parent@),
            labels_m == roots(first),
            labels@.len() == i,
            forall|k: int| 0 <= k < n ==> #[trigger] root_of(parent@, k) == root_of(first, k),
            forall|k: int| 0 <= k < i ==> #[trigger] labels@[k] == labels_m[k],
        decreases n - i,
    {
        let ghost before = parent@;
        let l: usize = find(&mut parent, i);
        proof {
            assert(root_of(before, i as int) == root_of(first, i as int));
            assert forall|k: int| 0 <= k < n implies #[trigger] root_of(parent@, k) == root_of(
                first,
                k,
            ) by {
                assert(root_of(before, k) == root_of(first, k));
            }
        }
        labels.push(l);
        i += 1;
    }
    assert(ints(labels@) =~= labels_m);
    let mut out: Vec<Cluster> = Vec::new();
    let mut l: usize = 0;
    assert(cluster_models(out@) =~= Seq::empty());
    while l < n
        invariant
            l <= n,
            n == tokens@.len(),
            n == ids@.len(),
            n == labels@.len(),
            t == token_views(tokens@),
            labels_m == cluster_labels(t),
            ints(labels@) == labels_m,
            cluster_models(out@) == clusters_upto(t, views(ids@), l as int),
            forall|k: int| 0 <= k < out@.len() ==> (#[trigger] out@[k]).members@.len() > 0,
        decreases n - l,
    {
        let ms: Vec<usize> = members_with(&labels, l);
        assert(ints(ms@).len() == ms@.len());
        if ms.len() >= 2 {
            proof {
                assert forall|k: int| 0 <= k < ms@.len() implies tokens@[#[trigger] ms@[k] as int]@.len()
                    > 0 by {
                    let other: int = if k == 0 {
                        1
                    } else {
                        0
                    };
                    let x = ms@[k] as int;
                    let y = ms@[other] as int;
                    distinct_members(labels_m, l as int, labels_m.len() as int, k, other);
                    assert(ints(ms@)[k] == x && ints(ms@)[other] == y);
                    assert(labels_m[x] == labels@[x] && labels_m[y] == labels@[y]);
                    grouped_texts_have_words(t, t.len() as int, x, y);
                    assert(t[x] == views(tokens@[x]@));
                }
            }
            let best: Likeness = best_pair(tokens, &ms);
            let members: Vec<String> = member_ids(ids, &ms);
            let c = Cluster { best, members };
            assert(c@ == cluster_at(t, views(ids@), l as int));
            insert_cluster(&mut out, c);
        }
        l += 1;
    }
    out
}

proof fn distinct_members(labels: Seq<int>, l: int, n: int, a: int, b: int)
    requires
        0 <= n <= labels.len(),
        0 <= a < labelled(labels, l, n).len(),
        0 <= b < labelled(labels, l, n).len(),
        a != b,
    ensures
        labelled(labels, l, n)[a] != labelled(labels, l, n)[b],
    decreases n,
{
    if n > 0 {
        let before = labelled(labels, l, n - 1);
        if a < before.len() && b < before.len() {
            distinct_members(labels, l, n - 1, a, b);
        } else {
            labelled_bound(labels, l, n - 1);
        }
    }
}

proof fn labelled_bound(labels: Seq<int>, l: int, n: int)
    requires
        0 <= n <= labels.len(),
    ensures
        forall|k: int| 0 <= k < labelled(labels, l, n).len() ==> #[trigger] labelled(labels, l, n)[k] < n,
    decreases n,
{
    if n > 0 {
        labelled_bound(labels, l, n - 1);
        let before = labelled(labels, l, n - 1);
        let all = labelled(labels, l, n);
        assert forall|k: int| 0 <= k < all.len() implies #[trigger] all[k] < n by {
            if k < before.len() {
                assert(all[k] == before[k]);
            }
        }
    }
}

/// The text with every character turned into its small form, as the standard library
/// does it for Unicode.
pub uninterp spec fn lowercase(s: Seq<char>) -> Seq<char>;

/// `str::to_lowercase`: what it gives is a function of the text alone.
#[verifier::external_body]
pub(crate) fn lowered(s: &str) -> (r: String)
    ensures
        r@ == lowercase(s@),
{
    s.to_lowercase()
}

/// The distinct words of each chunk, in small letters.
pub open spec fn chunk_tokens(chunks: Seq<RedundancyChunk>) -> Seq<Seq<Seq<char>>> {
    chunks.map_values(|c: RedundancyChunk| tokens(lowercase(c.text@)))
}

/// The ids of the chunks.
pub open spec fn chunk_ids(chunks: Seq<RedundancyChunk>) -> Seq<Seq<char>> {
    chunks.map_values(|c: RedundancyChunk| c.id@)
}

/// The clusters of chunks that are alike, whatever their case.
pub fn find_redundant_clusters(chunks: &Vec<RedundancyChunk>) -> (r: Vec<Cluster>)
    ensures
        cluster_models(r@) == clusters(chunk_tokens(chunks@), chunk_ids(chunks@)),
{
    let mut tokens: Vec<Vec<String>> = Vec::new();
    let mut ids: Vec<String> = Vec::new();
    let mut i: usize = 0;
    assert(token_views(tokens@) =~= chunk_tokens(chunks@).take(0));
    assert(views(ids@) =~= chunk_ids(chunks@).take(0));
    while i < chunks.len()
        invariant
            i <= chunks.len(),
            tokens@.len() == i,
            ids@.len() == i,
            token_views(tokens@) == chunk_tokens(chunks@).take(i as int),
            views(ids@) == chunk_ids(chunks@).take(i as int),
        decreases chunks.len() - i,
    {
        let ghost ts = tokens@;
        let ghost is = ids@;
        let low: String = lowered(chunks[i].text.as_str());
        let list: Vec<String> = tokenize(low.as_str());
        tokens.push(list);
        ids.push(chunks[i].id.clone());
        proof {
            assert(token_views(tokens@) =~= token_views(ts).push(views(list@)));
            assert(chunk_tokens(chunks@).take(i as int + 1) =~= chunk_tokens(chunks@).take(
                i as int,
            ).push(chunk_tokens(chunks@)[i as int]));
            assert(views(ids@) =~= views(is).push(chunks@[i as int].id@));
            assert(chunk_ids(chunks@).take(i as int + 1) =~= chunk_ids(chunks@).take(i as int).push(
                chunk_ids(chunks@)[i as int],
            ));
        }
        i += 1;
    }
    assert(chunk_tokens(chunks@).take(i as int) =~= chunk_tokens(chunks@));
    assert(chunk_ids(chunks@).take(i as int) =~= chunk_ids(chunks@));
    clusters_of(&tokens, &ids)
}

} // verus!
