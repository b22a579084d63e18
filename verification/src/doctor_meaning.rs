//! What the health report says, told of the index itself.
use crate::clusters::{
    alike, chunk_ids, chunk_tokens, cluster_at, cluster_labels, cluster_place, clusters,
    clusters_upto, distinct, ids_in_order, labelled, labels_len, likeness, shared_words, tokens,
    ClusterModel, RedundancyChunk,
};
use crate::doctor::{
    claim_age, claim_line, claim_there, cluster_lines, distinct_paths, missing_paths, path_lines,
    redundant_in, scope_report, scope_text, share_text, stale_count, ChunkMeta, IndexSnapshot,
    IndexState, RedundantModel, ScopeModel,
};
use crate::text::{
    all_digits, decimal, find, find_from_is_first, is_digit, is_white, join_with, leading_white,
    leading_white_bound, occurs_at, signed_decimal, text_of, trim, trim_start, trimmed_end_len,
    trimmed_end_len_bound, views, words,
};
use crate::text_laws::{all_white, numbers_are_read_as_written};
use crate::text_order::{
    text_less, text_place, text_place_bound, texts_in_order, with_text, with_text_in_order,
};
use vstd::prelude::*;

verus! {

// --------------------------------------------------------------------- the facts

/// Every indexed path at which there is no file is reported as an orphan, and no other path
/// is; the orphans stand in the order of the index.
pub proof fn every_missing_file_is_an_orphan(
    scope: Seq<char>,
    snapshot: IndexSnapshot,
    there: Seq<bool>,
    index: IndexState,
    now: i64,
    i: int,
)
    requires
        index matches IndexState::Read { snapshot: s, exists: e } && s == snapshot && e@ == there,
        there.len() == snapshot.indexed_paths@.len(),
    ensures
        ({
            let paths = views(snapshot.indexed_paths@);
            let orphans = scope_report(scope, index, now).orphan_paths;
            &&& orphans == Seq::new(paths.len(), |k: int| k).filter(
                |k: int| !there[k],
            ).map_values(|k: int| paths[k])
            &&& 0 <= i < paths.len() && !there[i] ==> orphans.contains(paths[i])
            &&& orphans.len() == there.filter(|b: bool| !b).len()
        }),
{
    let paths = views(snapshot.indexed_paths@);
    missing_so_far(paths, there, paths.len() as int);
    let all = Seq::new(paths.len(), |k: int| k);
    let gone = |k: int| !there[k];
    if 0 <= i < paths.len() && !there[i] {
        assert(all[i] == i);
        all.lemma_filter_contains(gone, i);
        let f = all.filter(gone);
        let k = choose|k: int| 0 <= k < f.len() && f[k] == i;
        assert(f.map_values(|k: int| paths[k])[k] == paths[i]);
    }
    assert(there.take(there.len() as int) =~= there);
}

proof fn missing_so_far(paths: Seq<Seq<char>>, there: Seq<bool>, n: int)
    requires
        there.len() == paths.len(),
        0 <= n <= paths.len(),
    ensures
        missing_paths(paths, there, n) == Seq::new(n as nat, |k: int| k).filter(
            |k: int| !there[k],
        ).map_values(|k: int| paths[k]),
        missing_paths(paths, there, n).len() == there.take(n).filter(|b: bool| !b).len(),
    decreases n,
{
    reveal(Seq::filter);
    let all = Seq::new(n as nat, |k: int| k);
    let gone = |k: int| !there[k];
    let at = |k: int| paths[k];
    if n == 0 {
        assert(all =~= Seq::empty());
        assert(all.filter(gone).map_values(at) =~= Seq::empty());
        assert(there.take(0) =~= Seq::empty());
    } else {
        missing_so_far(paths, there, n - 1);
        let fewer = Seq::new((n - 1) as nat, |k: int| k);
        assert(all.drop_last() =~= fewer);
        assert(all.last() == n - 1);
        assert(there.take(n).drop_last() =~= there.take(n - 1));
        assert(there.take(n).last() == there[n - 1]);
        if !there[n - 1] {
            assert(all.filter(gone).map_values(at) =~= fewer.filter(gone).map_values(at).push(
                paths[n - 1],
            ));
        }
    }
}

/// The chunks that are counted as stale are those from more than thirty days ago that were
/// never used.
pub proof fn old_unused_chunks_are_stale(chunks: Seq<ChunkMeta>, now: i64)
    ensures
        stale_count(chunks, now, chunks.len() as int) == chunks.filter(
            |c: ChunkMeta| c.created_at < now - 30 * 86_400 && c.access_count == 0,
        ).len(),
{
    stale_so_far(chunks, now, chunks.len() as int);
    assert(chunks.take(chunks.len() as int) =~= chunks);
}

proof fn stale_so_far(chunks: Seq<ChunkMeta>, now: i64, n: int)
    requires
        0 <= n <= chunks.len(),
    ensures
        stale_count(chunks, now, n) == chunks.take(n).filter(
            |c: ChunkMeta| c.created_at < now - 30 * 86_400 && c.access_count == 0,
        ).len(),
    decreases n,
{
    reveal(Seq::filter);
    if n > 0 {
        stale_so_far(chunks, now, n - 1);
        assert(chunks.take(n).drop_last() =~= chunks.take(n - 1));
        assert(chunks.take(n).last() == chunks[n - 1]);
    }
}

/// The indexed paths are those of the chunks, each of them.
pub proof fn every_path_is_indexed(chunks: Seq<ChunkMeta>, path: Seq<char>)
    ensures
        distinct_paths(chunks, chunks.len() as int).contains(path) <==> exists|i: int|
            0 <= i < chunks.len() && (#[trigger] chunks[i]).path@ == path,
{
    paths_so_far(chunks, chunks.len() as int, path);
}

proof fn paths_so_far(chunks: Seq<ChunkMeta>, n: int, path: Seq<char>)
    requires
        0 <= n <= chunks.len(),
    ensures
        distinct_paths(chunks, n).contains(path) <==> exists|i: int|
            0 <= i < n && (#[trigger] chunks[i]).path@ == path,
    decreases n,
{
    if n > 0 {
        paths_so_far(chunks, n - 1, path);
        let before = distinct_paths(chunks, n - 1);
        let t = chunks[n - 1].path@;
        if !before.contains(t) {
            with_text_has(before, t, path);
        }
        if distinct_paths(chunks, n).contains(path) {
            if before.contains(path) {
                let i = choose|i: int| 0 <= i < n - 1 && (#[trigger] chunks[i]).path@ == path;
                assert(chunks[i].path@ == path);
            } else {
                assert(chunks[n - 1].path@ == path);
            }
        }
    }
}

/// A text that is put in its place stands in the list, beside all that stood there.
pub proof fn with_text_has(s: Seq<Seq<char>>, t: Seq<char>, x: Seq<char>)
    ensures
        with_text(s, t).contains(x) <==> s.contains(x) || x == t,
        with_text(s, t).len() == s.len() + 1,
{
    text_place_bound(s, t);
    let n = text_place(s, t) as int;
    let w = with_text(s, t);
    assert(w[n] == t);
    if s.contains(x) {
        let i = s.index_of(x);
        if i < n {
            assert(w[i] == x);
        } else {
            assert(w[i + 1] == x);
        }
    }
    if w.contains(x) && x != t {
        let i = w.index_of(x);
        if i < n {
            assert(s[i] == x);
        } else {
            assert(s[i - 1] == x);
        }
    }
}

/// A report tells apart what is not there, what could not be read and what was read, and says
/// of what was read just what it holds.
pub proof fn reports_say_what_was_read(scope: Seq<char>, index: IndexState, now: i64)
    ensures
        ({
            let r = scope_report(scope, index, now);
            &&& r.scope == scope
            &&& r.index_present <==> !(index is Absent)
            &&& r.read_error == match index {
                IndexState::Unreadable(e) => Some(e@),
                _ => None,
            }
            &&& index matches IndexState::Read { snapshot, exists } ==> {
                &&& r.indexed_paths == snapshot.indexed_paths@.len()
                &&& r.reindex_claim == text_of(snapshot.reindex_claim)
                &&& r.reindex_claim_age_secs == snapshot.reindex_claim_age_secs
                &&& r.stale_chunks == stale_count(
                    snapshot.chunk_meta@,
                    now,
                    snapshot.chunk_meta@.len() as int,
                )
                &&& r.redundant_clusters == redundant_in(snapshot.redundancy_chunks@)
                &&& r.redundancy_truncated <==> snapshot.chunk_meta@.len() > 2000
            }
        }),
{
}

// --------------------------------------------------------------------- the clusters

/// The tokens of a text are its words, each once.
pub proof fn tokens_are_distinct_words(text: Seq<char>, w: Seq<char>)
    ensures
        tokens(text).no_duplicates(),
        tokens(text).contains(w) <==> words(text).contains(w),
{
    distinct_so_far(words(text), words(text).len() as int, w);
    assert(words(text).take(words(text).len() as int) =~= words(text));
}

proof fn distinct_so_far(ws: Seq<Seq<char>>, n: int, w: Seq<char>)
    requires
        0 <= n <= ws.len(),
    ensures
        distinct(ws, n).no_duplicates(),
        distinct(ws, n).contains(w) <==> ws.take(n).contains(w),
    decreases n,
{
    if n > 0 {
        distinct_so_far(ws, n - 1, w);
        distinct_so_far(ws, n - 1, ws[n - 1]);
        let before = distinct(ws, n - 1);
        assert(ws.take(n) =~= ws.take(n - 1).push(ws[n - 1]));
        if ws.take(n - 1).contains(w) {
            let i = ws.take(n - 1).index_of(w);
            assert(ws.take(n)[i] == w);
        }
        if ws.take(n).contains(w) && w != ws[n - 1] {
            let i = ws.take(n).index_of(w);
            assert(ws.take(n - 1)[i] == w);
        }
        assert(ws.take(n)[n - 1] == ws[n - 1]);
        if !before.contains(ws[n - 1]) {
            let d = before.push(ws[n - 1]);
            assert(d[before.len() as int] == ws[n - 1]);
            if before.contains(w) {
                let i = before.index_of(w);
                assert(d[i] == w);
            }
            if d.contains(w) && w != ws[n - 1] {
                let i = d.index_of(w);
                assert(before[i] == w);
            }
        }
    }
}

/// Two lists of words are as alike as the words that stand in both among all in either.
pub proof fn likeness_counts_shared_words(a: Seq<Seq<char>>, b: Seq<Seq<char>>)
    ensures
        likeness(a, b).shared == a.filter(|w: Seq<char>| b.contains(w)).len(),
        likeness(a, b).total == b.len() + a.filter(|w: Seq<char>| !b.contains(w)).len(),
{
    shared_so_far(a, b, a.len() as int);
    assert(a.take(a.len() as int) =~= a);
}

proof fn shared_so_far(a: Seq<Seq<char>>, b: Seq<Seq<char>>, n: int)
    requires
        0 <= n <= a.len(),
    ensures
        shared_words(a, b, n) == a.take(n).filter(|w: Seq<char>| b.contains(w)).len(),
        n - shared_words(a, b, n) == a.take(n).filter(|w: Seq<char>| !b.contains(w)).len(),
    decreases n,
{
    reveal(Seq::filter);
    if n > 0 {
        shared_so_far(a, b, n - 1);
        assert(a.take(n).drop_last() =~= a.take(n - 1));
        assert(a.take(n).last() == a[n - 1]);
    }
}

/// Two texts are alike where both have words and at least four fifths of all their words
/// stand in both.
pub proof fn alike_share_four_fifths(t: Seq<Seq<Seq<char>>>, i: int, j: int)
    ensures
        alike(t, i, j) <==> {
            let both = t[i].filter(|w: Seq<char>| t[j].contains(w)).len();
            &&& t[i].len() > 0
            &&& t[j].len() > 0
            &&& 5 * both >= 4 * (t[j].len() + t[i].len() - both)
        },
{
    likeness_counts_shared_words(t[i], t[j]);
    both_sides_count(t[i], t[j]);
}

proof fn both_sides_count(a: Seq<Seq<char>>, b: Seq<Seq<char>>)
    ensures
        a.len() == a.filter(|w: Seq<char>| b.contains(w)).len() + a.filter(
            |w: Seq<char>| !b.contains(w),
        ).len(),
{
    shared_so_far(a, b, a.len() as int);
    assert(a.take(a.len() as int) =~= a);
}

/// Those among the first `n` that have the label, in order.
pub open spec fn having(labels: Seq<int>, l: int, n: nat) -> Seq<int> {
    Seq::new(n, |i: int| i).filter(|i: int| labels[i] == l)
}

proof fn labelled_have(labels: Seq<int>, l: int, n: nat)
    requires
        n <= labels.len(),
    ensures
        labelled(labels, l, n as int) == having(labels, l, n),
    decreases n,
{
    reveal(Seq::filter);
    let all = Seq::new(n, |i: int| i);
    if n == 0 {
        assert(all =~= Seq::empty());
    } else {
        labelled_have(labels, l, (n - 1) as nat);
        assert(all.drop_last() =~= Seq::new((n - 1) as nat, |i: int| i));
        assert(all.last() == n - 1);
    }
}

proof fn ids_are_those(ids: Seq<Seq<char>>, ms: Seq<int>, n: int)
    requires
        0 <= n <= ms.len(),
    ensures
        ids_in_order(ids, ms, n).to_multiset() == ms.take(n).map_values(
            |i: int| ids[i],
        ).to_multiset(),
        texts_in_order(ids_in_order(ids, ms, n)),
        ids_in_order(ids, ms, n).len() == n,
    decreases n,
{
    let at = |i: int| ids[i];
    let those = ms.take(n).map_values(at);
    if n == 0 {
        assert(those =~= Seq::empty());
    } else {
        ids_are_those(ids, ms, n - 1);
        let before = ids_in_order(ids, ms, n - 1);
        let t = ids[ms[n - 1]];
        with_text_in_order(before, t);
        with_text_has(before, t, t);
        let fewer = ms.take(n - 1).map_values(at);
        assert(those =~= fewer.push(t));
        fewer.to_multiset_ensures();
    }
}

/// The cluster that the label `l` makes: its members are the ids of all that have the label,
/// in order.
pub proof fn clusters_hold_all_with_their_label(t: Seq<Seq<Seq<char>>>, ids: Seq<Seq<char>>, l: int)
    requires
        t.len() == ids.len(),
    ensures
        ({
            let c = cluster_at(t, ids, l);
            let those = having(cluster_labels(t), l, t.len()).map_values(|i: int| ids[i]);
            &&& c.members.to_multiset() == those.to_multiset()
            &&& c.members.len() == those.len()
            &&& texts_in_order(c.members)
        }),
{
    let labels = cluster_labels(t);
    labels_len(t, t.len() as int);
    labelled_have(labels, l, t.len());
    let ms = labelled(labels, l, t.len() as int);
    ids_are_those(ids, ms, ms.len() as int);
    assert(ms.take(ms.len() as int) =~= ms);
}

proof fn place_in(cs: Seq<ClusterModel>, id: Seq<char>)
    ensures
        cluster_place(cs, id) <= cs.len(),
        forall|j: int|
            0 <= j < cluster_place(cs, id) ==> !text_less(id, (#[trigger] cs[j]).members[0]),
        cluster_place(cs, id) < cs.len() ==> text_less(
            id,
            cs[cluster_place(cs, id) as int].members[0],
        ),
    decreases cs.len(),
{
    if cs.len() > 0 && !text_less(id, cs[0].members[0]) {
        let rest = cs.drop_first();
        place_in(rest, id);
        assert forall|j: int| 0 <= j < cluster_place(cs, id) implies !text_less(
            id,
            (#[trigger] cs[j]).members[0],
        ) by {
            if j > 0 {
                assert(cs[j] == rest[j - 1]);
            }
        }
    }
}

/// The labels that two texts at least have.
pub open spec fn shared_labels(t: Seq<Seq<Seq<char>>>, n: int) -> Seq<int> {
    Seq::new(n as nat, |l: int| l).filter(|l: int| having(cluster_labels(t), l, t.len()).len() >= 2)
}

/// Every label that two texts at least have makes a cluster, and nothing else does.
pub proof fn every_shared_label_makes_a_cluster(t: Seq<Seq<Seq<char>>>, ids: Seq<Seq<char>>)
    requires
        t.len() == ids.len(),
    ensures
        clusters(t, ids).to_multiset() == shared_labels(t, t.len() as int).map_values(
            |l: int| cluster_at(t, ids, l),
        ).to_multiset(),
{
    clusters_so_far(t, ids, t.len() as int);
}

proof fn clusters_so_far(t: Seq<Seq<Seq<char>>>, ids: Seq<Seq<char>>, n: int)
    requires
        t.len() == ids.len(),
        0 <= n <= t.len(),
    ensures
        clusters_upto(t, ids, n).to_multiset() == shared_labels(t, n).map_values(
            |l: int| cluster_at(t, ids, l),
        ).to_multiset(),
    decreases n,
{
    reveal(Seq::filter);
    let make = |l: int| cluster_at(t, ids, l);
    let those = shared_labels(t, n).map_values(make);
    if n == 0 {
        assert(Seq::new(0, |l: int| l) =~= Seq::<int>::empty());
        assert(those =~= Seq::empty());
    } else {
        clusters_so_far(t, ids, n - 1);
        let before = clusters_upto(t, ids, n - 1);
        let fewer = shared_labels(t, n - 1).map_values(make);
        let all = Seq::new(n as nat, |l: int| l);
        assert(all.drop_last() =~= Seq::new((n - 1) as nat, |l: int| l));
        assert(all.last() == n - 1);
        labels_len(t, t.len() as int);
        labelled_have(cluster_labels(t), n - 1, t.len());
        if having(cluster_labels(t), n - 1, t.len()).len() >= 2 {
            let c = cluster_at(t, ids, n - 1);
            place_in(before, c.members[0]);
            assert(clusters_upto(t, ids, n) == before.insert(
                cluster_place(before, c.members[0]) as int,
                c,
            ));
            vstd::seq_lib::to_multiset_insert(
                before,
                cluster_place(before, c.members[0]) as int,
                c,
            );
            assert(those =~= fewer.push(c));
            fewer.to_multiset_ensures();
            assert(those.to_multiset() =~= fewer.to_multiset().insert(c));
        } else {
            assert(those =~= fewer);
        }
    }
}

/// The report names the clusters of the newest chunks, each with its members.
pub proof fn report_names_the_clusters(chunks: Seq<RedundancyChunk>, i: int)
    requires
        0 <= i < clusters(chunk_tokens(chunks), chunk_ids(chunks)).len(),
    ensures
        ({
            let found = clusters(chunk_tokens(chunks), chunk_ids(chunks));
            &&& redundant_in(chunks).len() == found.len()
            &&& redundant_in(chunks)[i].members == found[i].members
            &&& redundant_in(chunks)[i].best == found[i].best
            &&& redundant_in(chunks)[i].similarity is None
        }),
{
}

// ---------------------------------------------------------------------- the text

/// The line on a cluster.
pub open spec fn cluster_entry(c: RedundantModel) -> Seq<char> {
    "    - ["@ + share_text(c) + "] "@ + join_with(c.members, ", "@) + "\n"@
}

/// The line on an orphan.
pub open spec fn orphan_entry(p: Seq<char>) -> Seq<char> {
    "    - "@ + p + "\n"@
}

proof fn path_lines_are(paths: Seq<Seq<char>>, n: int)
    requires
        0 <= n <= paths.len(),
    ensures
        path_lines(paths, n) == paths.take(n).map_values(|p: Seq<char>| orphan_entry(p)).flatten(),
    decreases n,
{
    let f = |p: Seq<char>| orphan_entry(p);
    let parts = paths.take(n).map_values(f);
    if n == 0 {
        assert(parts =~= Seq::empty());
        assert(parts.flatten() =~= Seq::<char>::empty());
    } else {
        path_lines_are(paths, n - 1);
        let fewer = paths.take(n - 1).map_values(f);
        assert(parts =~= fewer.push(orphan_entry(paths[n - 1])));
        fewer.lemma_flatten_push(orphan_entry(paths[n - 1]));
        assert(path_lines(paths, n) =~= fewer.flatten() + orphan_entry(paths[n - 1]));
    }
}

proof fn cluster_lines_are(cs: Seq<RedundantModel>, n: int)
    requires
        0 <= n <= cs.len(),
    ensures
        cluster_lines(cs, n) == cs.take(n).map_values(|c: RedundantModel| cluster_entry(c)).flatten(),
    decreases n,
{
    let f = |c: RedundantModel| cluster_entry(c);
    let parts = cs.take(n).map_values(f);
    if n == 0 {
        assert(parts =~= Seq::empty());
        assert(parts.flatten() =~= Seq::<char>::empty());
    } else {
        cluster_lines_are(cs, n - 1);
        let fewer = cs.take(n - 1).map_values(f);
        assert(parts =~= fewer.push(cluster_entry(cs[n - 1])));
        fewer.lemma_flatten_push(cluster_entry(cs[n - 1]));
        assert(cluster_lines(cs, n) =~= fewer.flatten() + cluster_entry(cs[n - 1]));
    }
}

/// What is said of the lock.
pub open spec fn lock_line(r: ScopeModel) -> Seq<char> {
    if r.reindex_claim is None {
        "  stuck reindex claim: none\n"@
    } else if r.reindex_claim_age_secs is None {
        "  malformed reindex claim: "@ + r.reindex_claim->0 + "\n"@
    } else if r.reindex_claim_age_secs->0 > 60 {
        "  stuck reindex claim: "@ + r.reindex_claim->0 + " (age "@ + signed_decimal(
            r.reindex_claim_age_secs->0 as int,
        ) + "s)\n"@
    } else {
        "  active reindex claim: "@ + r.reindex_claim->0 + " (age "@ + signed_decimal(
            r.reindex_claim_age_secs->0 as int,
        ) + "s)\n"@
    }
}

/// A report in words names every orphan and every cluster, each on a line of its own, and
/// says of the lock whether it is stuck: older than a minute.
pub proof fn report_names_everything(r: ScopeModel)
    requires
        r.index_present,
        r.read_error is None,
        r.indexed_paths > 0,
    ensures
        scope_text(r) == "["@ + r.scope + "]\n"@ + "  indexed paths: "@ + decimal(r.indexed_paths)
            + "\n"@ + "  orphan chunks: "@ + decimal(r.orphan_paths.len()) + "\n"@
            + r.orphan_paths.map_values(|p: Seq<char>| orphan_entry(p)).flatten()
            + "    hint: indexed files that no longer exist; a reindex will prune them.\n"@ + lock_line(
            r,
        ) + "    hint: a leftover reindex lock resets after the stale threshold.\n"@
            + "  stale / low-access chunks (>30d, 0 accesses): "@ + decimal(r.stale_chunks) + "\n"@
            + "    hint: review whether these never-accessed chunks are still useful.\n"@
            + "  suspected redundant clusters (Jaccard >= 0.80): "@ + decimal(
            r.redundant_clusters.len(),
        ) + "\n"@ + r.redundant_clusters.map_values(
            |c: RedundantModel| cluster_entry(c),
        ).flatten() + (if r.redundancy_truncated {
            "    note: only the newest 2000 chunks (by created_at desc) were compared.\n"@
        } else {
            Seq::empty()
        }) + "    hint: suspected duplicates only - review before merging.\n"@,
{
    path_lines_are(r.orphan_paths, r.orphan_paths.len() as int);
    assert(r.orphan_paths.take(r.orphan_paths.len() as int) =~= r.orphan_paths);
    cluster_lines_are(r.redundant_clusters, r.redundant_clusters.len() as int);
    assert(r.redundant_clusters.take(r.redundant_clusters.len() as int) =~= r.redundant_clusters);
    assert(claim_line(r.reindex_claim, r.reindex_claim_age_secs) =~= lock_line(r));
    let head = "["@ + r.scope + "]\n"@;
    let with = crate::doctor::with_claim(crate::doctor::with_paths(head, r), r);
    let listed = with + "  suspected redundant clusters (Jaccard >= 0.80): "@ + decimal(
        r.redundant_clusters.len(),
    ) + "\n"@ + cluster_lines(r.redundant_clusters, r.redundant_clusters.len() as int);
    if !r.redundancy_truncated {
        assert(listed + Seq::<char>::empty() =~= listed);
    }
}

/// Where there is nothing to check, and where the index could not be read, just that is said.
pub proof fn nothing_is_said_of_nothing(r: ScopeModel)
    ensures
        !r.index_present || (r.read_error is None && r.indexed_paths == 0) ==> scope_text(r) == "["@
            + r.scope + "]\n"@ + "  no index / empty\n"@
            + "  hint: nothing to check for this scope.\n"@,
        r.index_present && r.read_error is Some ==> scope_text(r) == "["@ + r.scope + "]\n"@
            + "  error reading index: "@ + r.read_error->0 + "\n"@
            + "  hint: the index exists but could not be read (corrupt or locked?).\n"@,
{
}

/// How alike the members of a cluster are is told as it was computed, or as the words shared
/// out of all.
pub proof fn shares_are_told(c: RedundantModel)
    ensures
        c.similarity is Some ==> share_text(c) == c.similarity->0,
        c.similarity is None ==> share_text(c) == decimal(c.best.shared as nat) + "/"@ + decimal(
            c.best.total as nat,
        ),
{
}

/// A lock that is only whitespace is none.
pub proof fn blank_claims_are_none(value: Seq<char>)
    ensures
        claim_there(Some(value)) == if exists|i: int|
            0 <= i < value.len() && !is_white(#[trigger] value[i]) {
            Some(value)
        } else {
            None
        },
        claim_there(None) is None,
{
}

proof fn trimmed_of_ends(a: Seq<char>, s: Seq<char>, b: Seq<char>)
    requires
        all_white(a),
        all_white(b),
        s.len() > 0,
        !is_white(s[0]),
        !is_white(s.last()),
    ensures
        trim(a + s + b) == s,
{
    let t = a + s + b;
    leading_white_bound(t);
    let n = leading_white(t) as int;
    assert(t[a.len() as int] == s[0]);
    if n < a.len() {
        assert(t[n] == a[n]);
    }
    assert(n == a.len());
    let u = trim_start(t);
    assert(u =~= s + b);
    trimmed_end_len_bound(u);
    let m = trimmed_end_len(u) as int;
    assert(u[s.len() - 1] == s.last());
    if m > s.len() {
        assert(u[m - 1] == b[m - 1 - s.len()]);
    }
    assert(trim(t) =~= s);
}

/// The age of a lock is the time since the moment behind the colon, where digits stand before
/// it.
pub proof fn claims_age_from_their_moment(
    holder: Seq<char>,
    a: Seq<char>,
    moment: nat,
    b: Seq<char>,
    now: i64,
)
    requires
        all_digits(holder),
        all_white(a),
        all_white(b),
        moment <= i64::MAX,
        i64::MIN <= now - moment,
    ensures
        claim_age(holder + seq![':'] + (a + decimal(moment) + b), now) == Some(
            (now - moment) as i64,
        ),
{
    let d = decimal(moment);
    numbers_are_read_as_written(moment);
    let rest = a + d + b;
    let claim = holder + seq![':'] + rest;
    find_from_is_first(claim, seq![':'], 0);
    let at = holder.len() as int;
    assert(claim.subrange(at, at + 1) =~= seq![':']);
    assert(occurs_at(claim, seq![':'], at));
    let i = find(claim, seq![':'])->0;
    if i < at {
        assert(claim.subrange(i, i + 1)[0] == claim[i]);
        assert(claim[i] == holder[i]);
        assert(is_digit(holder[i]));
    }
    assert(i == at);
    assert(claim.take(i) =~= holder);
    assert(claim.skip(i + 1) =~= rest);
    assert(is_digit(d[0]) && is_digit(d[d.len() - 1]));
    trimmed_of_ends(a, d, b);
}

/// A lock without a colon, or with anything but digits before it, has no age.
pub proof fn malformed_claims_have_no_age(claim: Seq<char>, now: i64, i: int)
    requires
        (forall|j: int| 0 <= j < claim.len() ==> #[trigger] claim[j] != ':') || (0 <= i
            < claim.len() && !is_digit(claim[i]) && forall|j: int|
            0 <= j <= i ==> #[trigger] claim[j] != ':'),
    ensures
        claim_age(claim, now) is None,
{
    find_from_is_first(claim, seq![':'], 0);
    if let Some(k) = find(claim, seq![':']) {
        assert(claim.subrange(k, k + 1)[0] == claim[k]);
        assert(claim[k] == ':');
        assert(claim.take(k)[i] == claim[i]);
    }
}

} // verus!
