//! What holds of every cluster that is reported.
use crate::clusters::{
    alike, alike_texts_share_a_label, best_among, best_in_row, cluster_at, cluster_labels,
    is_alike, is_equivalence, is_greater, labelled, labels_join_no_more, labels_len, likeness, shared_words,
    LikenessModel,
};
use vstd::prelude::*;

verus! {

/// A share of something.
pub open spec fn is_share(l: LikenessModel) -> bool {
    l.shared >= 0 && l.total > 0
}

proof fn not_greater_transitive(x: LikenessModel, y: LikenessModel, z: LikenessModel)
    requires
        is_share(x),
        is_share(y),
        is_share(z),
        !is_greater(x, y),
        !is_greater(y, z),
    ensures
        !is_greater(x, z),
{
    let (a, b, c, d, e, f) = (x.shared, x.total, y.shared, y.total, z.shared, z.total);
    assert(a * f * d <= c * b * f) by (nonlinear_arith)
        requires
            a * d <= c * b,
            f > 0,
    ;
    assert(c * f * b <= e * d * b) by (nonlinear_arith)
        requires
            c * f <= e * d,
            b > 0,
    ;
    assert(a * f <= e * b) by (nonlinear_arith)
        requires
            a * f * d <= c * b * f,
            c * f * b <= e * d * b,
            d > 0,
    ;
}

proof fn likeness_is_share(a: Seq<Seq<char>>, b: Seq<Seq<char>>)
    requires
        a.len() > 0,
        b.len() > 0,
    ensures
        is_share(likeness(a, b)),
{
    shared_at_most(a, b, a.len() as int);
}

proof fn shared_at_most(a: Seq<Seq<char>>, b: Seq<Seq<char>>, n: int)
    requires
        0 <= n <= a.len(),
    ensures
        shared_words(a, b, n) <= n,
    decreases n,
{
    if n > 0 {
        shared_at_most(a, b, n - 1);
    }
}

spec fn have_words(t: Seq<Seq<Seq<char>>>, ms: Seq<int>) -> bool {
    forall|k: int| 0 <= k < ms.len() ==> 0 <= #[trigger] ms[k] < t.len() && t[ms[k]].len() > 0
}

proof fn row_is_best(
    t: Seq<Seq<Seq<char>>>,
    ms: Seq<int>,
    a: int,
    b: int,
    start: LikenessModel,
)
    requires
        have_words(t, ms),
        0 <= a < ms.len(),
        b <= ms.len(),
        is_share(start),
    ensures
        is_share(best_in_row(t, ms, a, b, start)),
        !is_greater(start, best_in_row(t, ms, a, b, start)),
        forall|q: int|
            a < q < b ==> !is_greater(
                #[trigger] likeness(t[ms[a]], t[ms[q]]),
                best_in_row(t, ms, a, b, start),
            ),
    decreases b - a,
{
    if b > a + 1 {
        row_is_best(t, ms, a, b - 1, start);
        let before = best_in_row(t, ms, a, b - 1, start);
        let best = best_in_row(t, ms, a, b, start);
        let l = likeness(t[ms[a]], t[ms[b - 1]]);
        assert(ms[a] < t.len() && ms[b - 1] < t.len());
        likeness_is_share(t[ms[a]], t[ms[b - 1]]);
        assert(!is_greater(before, best)) by {
            if is_greater(l, before) {
                assert(before.shared * l.total <= l.shared * before.total);
            }
        }
        assert(!is_greater(l, best));
        not_greater_transitive(start, before, best);
        assert forall|q: int| a < q < b implies !is_greater(
            #[trigger] likeness(t[ms[a]], t[ms[q]]),
            best,
        ) by {
            if q < b - 1 {
                assert(ms[q] < t.len());
                likeness_is_share(t[ms[a]], t[ms[q]]);
                not_greater_transitive(likeness(t[ms[a]], t[ms[q]]), before, best);
            }
        }
    }
}

proof fn rows_are_best(t: Seq<Seq<Seq<char>>>, ms: Seq<int>, n: int)
    requires
        have_words(t, ms),
        0 <= n <= ms.len(),
    ensures
        is_share(best_among(t, ms, n)),
        forall|p: int, q: int|
            0 <= p < n && p < q < ms.len() ==> !is_greater(
                #[trigger] likeness(t[ms[p]], t[ms[q]]),
                best_among(t, ms, n),
            ),
    decreases n,
{
    if n > 0 {
        rows_are_best(t, ms, n - 1);
        let before = best_among(t, ms, n - 1);
        row_is_best(t, ms, n - 1, ms.len() as int, before);
        let best = best_among(t, ms, n);
        assert forall|p: int, q: int| 0 <= p < n && p < q < ms.len() implies !is_greater(
            #[trigger] likeness(t[ms[p]], t[ms[q]]),
            best,
        ) by {
            if p < n - 1 {
                assert(ms[p] < t.len() && ms[q] < t.len());
                likeness_is_share(t[ms[p]], t[ms[q]]);
                not_greater_transitive(likeness(t[ms[p]], t[ms[q]]), before, best);
            }
        }
    }
}

/// Everything with the label `l` is listed, in order.
proof fn labelled_lists_all(labels: Seq<int>, l: int, n: int)
    requires
        0 <= n <= labels.len(),
    ensures
        forall|k: int|
            0 <= k < labelled(labels, l, n).len() ==> 0 <= #[trigger] labelled(labels, l, n)[k] < n
                && labels[labelled(labels, l, n)[k]] == l,
        forall|i: int| 0 <= i < n && #[trigger] labels[i] == l ==> labelled(labels, l, n).contains(i),
        forall|p: int, q: int|
            0 <= p < q < labelled(labels, l, n).len() ==> #[trigger] labelled(labels, l, n)[p]
                < #[trigger] labelled(labels, l, n)[q],
    decreases n,
{
    if n > 0 {
        labelled_lists_all(labels, l, n - 1);
        let before = labelled(labels, l, n - 1);
        let all = labelled(labels, l, n);
        assert forall|k: int| 0 <= k < all.len() implies 0 <= #[trigger] all[k] < n
            && labels[all[k]] == l by {
            if k < before.len() {
                assert(all[k] == before[k]);
            }
        }
        assert forall|i: int| 0 <= i < n && #[trigger] labels[i] == l implies all.contains(i) by {
            if i < n - 1 {
                let k = choose|k: int| 0 <= k < before.len() && before[k] == i;
                assert(all[k] == i);
            } else {
                assert(all[before.len() as int] == i);
            }
        }
        assert forall|p: int, q: int| 0 <= p < q < all.len() implies #[trigger] all[p]
            < #[trigger] all[q] by {
            if q < before.len() {
                assert(all[p] == before[p] && all[q] == before[q]);
            } else {
                assert(all[p] == before[p]);
            }
        }
    }
}

/// Two of the texts with the label `l` are alike.
spec fn has_alike_pair(t: Seq<Seq<Seq<char>>>, l: int) -> bool {
    exists|i: int, j: int|
        0 <= i < j < t.len() && #[trigger] alike(t, i, j) && cluster_labels(t)[i] == l
            && cluster_labels(t)[j] == l
}

proof fn group_has_alike_pair(t: Seq<Seq<Seq<char>>>, x: int, y: int)
    requires
        0 <= x < t.len(),
        0 <= y < t.len(),
        x != y,
        cluster_labels(t)[x] == cluster_labels(t)[y],
    ensures
        has_alike_pair(t, cluster_labels(t)[x]),
        t[x].len() > 0,
{
    let labels = cluster_labels(t);
    let e = |a: int, b: int|
        a == b || (labels[a] == labels[b] && has_alike_pair(t, labels[a]) && t[a].len() > 0
            && t[b].len() > 0);
    assert(is_equivalence(e, t.len() as int));
    assert forall|i: int, j: int| 0 <= i < j < t.len() && #[trigger] alike(t, i, j) implies e(
        i,
        j,
    ) by {
        alike_texts_share_a_label(t, i, j);
        assert(has_alike_pair(t, labels[i]));
    }
    labels_join_no_more(t, e, x, y);
    assert(e(x, y));
}

/// The likeness that is reported of a cluster of two or more is that of the two texts in
/// it that are most alike, and it always reaches the threshold.
pub proof fn reported_likeness_is_the_highest(t: Seq<Seq<Seq<char>>>, ids: Seq<Seq<char>>, l: int)
    requires
        labelled(cluster_labels(t), l, t.len() as int).len() >= 2,
    ensures
        is_alike(cluster_at(t, ids, l).best),
        forall|i: int, j: int|
            0 <= i < j < t.len() && cluster_labels(t)[i] == l && cluster_labels(t)[j] == l
                ==> !is_greater(#[trigger] likeness(t[i], t[j]), cluster_at(t, ids, l).best),
{
    let labels = cluster_labels(t);
    let ms = labelled(labels, l, t.len() as int);
    let best = cluster_at(t, ids, l).best;
    labels_len(t, t.len() as int);
    labelled_lists_all(labels, l, t.len() as int);
    assert(ms[0] < ms[1]);
    assert forall|k: int| 0 <= k < ms.len() implies 0 <= #[trigger] ms[k] < t.len() && t[ms[k]].len()
        > 0 by {
        let o: int = if k == 0 {
            1
        } else {
            0
        };
        assert(labels[ms[k]] == l && labels[ms[o]] == l);
        if k == 0 {
            assert(ms[0] < ms[1]);
        } else {
            assert(ms[0] < ms[k]);
        }
        group_has_alike_pair(t, ms[k], ms[o]);
    }
    rows_are_best(t, ms, ms.len() as int);
    assert forall|i: int, j: int|
        0 <= i < j < t.len() && labels[i] == l && labels[j] == l implies !is_greater(
        #[trigger] likeness(t[i], t[j]),
        best,
    ) by {
        assert(ms.contains(i) && ms.contains(j));
        let p = choose|p: int| 0 <= p < ms.len() && ms[p] == i;
        let q = choose|q: int| 0 <= q < ms.len() && ms[q] == j;
        if q <= p {
            if q < p {
                assert(ms[q] < ms[p]);
            }
        }
        assert(!is_greater(likeness(t[ms[p]], t[ms[q]]), best));
    }
    group_has_alike_pair(t, ms[0], ms[1]);
    let (i, j) = choose|i: int, j: int|
        0 <= i < j < t.len() && #[trigger] alike(t, i, j) && labels[i] == l && labels[j] == l;
    let x = likeness(t[i], t[j]);
    assert(!is_greater(x, best));
    likeness_is_share(t[i], t[j]);
    let (a, b, c, d) = (x.shared, x.total, best.shared, best.total);
    assert(5 * c >= 4 * d) by (nonlinear_arith)
        requires
            a * d <= c * b,
            5 * a >= 4 * b,
            b > 0,
            d > 0,
    ;
}

} // verus!
