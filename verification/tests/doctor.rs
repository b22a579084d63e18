use qidi_core::clusters::{
    clusters_of, find, find_redundant_clusters, greater_likeness, likeness_of, tokenize, union,
    Likeness, RedundancyChunk,
};
use qidi_core::doctor::{
    claim_age_secs, count_stale, diagnose, diagnose_scope, read_failure, redundancy_query,
    render_scope, snapshot_of, ChunkMeta, DoctorReport, IndexState, ReadStep, RedundantCluster,
    ScopeReport,
};

fn chunk(id: &str, text: &str) -> RedundancyChunk {
    RedundancyChunk { id: id.to_string(), text: text.to_string() }
}

fn meta(path: &str, created_at: i64, access_count: i64) -> ChunkMeta {
    ChunkMeta { path: path.to_string(), created_at, access_count }
}

#[test]
fn empty_index_yields_empty_report_without_panic() {
    let report = diagnose(IndexState::Absent, IndexState::Absent, 0);
    assert!(!report.global.index_present);
    assert!(!report.workspace.index_present);
    assert!(report.global.orphan_paths.is_empty());
    assert!(report.workspace.orphan_paths.is_empty());
    assert_eq!(report.global.stale_chunks, 0);
    assert!(report.workspace.redundant_clusters.is_empty());
    let rendered = report.render();
    assert!(rendered.starts_with("Memory doctor report"));
    assert!(rendered.contains("no index / empty"));
}

#[test]
fn detects_redundant_clusters() {
    let chunks = vec![
        chunk("a", "rust async programming patterns"),
        chunk("b", "rust async programming patterns tutorial"),
        chunk("c", "completely unrelated cooking recipe"),
    ];
    let clusters = find_redundant_clusters(&chunks);
    assert_eq!(clusters.len(), 1, "exactly one cluster expected");
    assert_eq!(clusters[0].members, vec!["a".to_string(), "b".to_string()]);
    let best = clusters[0].best;
    assert!(best.shared as f64 / best.total as f64 >= 0.8);
    assert_eq!((best.shared, best.total), (4, 5));
}

#[test]
fn clusters_join_through_others_and_ignore_case() {
    let chunks = vec![
        chunk("z", "A B C D E F G H I"),
        chunk("m", "a b c d e f g h i j"),
        chunk("b", "b c d e f g h i j k"),
        chunk("q", ""),
        chunk("r", ""),
        chunk("y", "one two"),
        chunk("x", "TWO one one"),
    ];
    let clusters = find_redundant_clusters(&chunks);
    let members: Vec<Vec<String>> = clusters.into_iter().map(|c| c.members).collect();
    assert_eq!(members, vec![vec!["b", "m", "z"], vec!["x", "y"]]);
}

#[test]
fn tokens_are_distinct_words() {
    assert_eq!(tokenize(" b a b\tc "), vec!["b", "a", "c"]);
    let v = |s: &str| tokenize(s);
    let l = likeness_of(&v("a b c"), &v("b c d e"));
    assert_eq!((l.shared, l.total), (2, 5));
    let tokens = vec![v("a"), v("a"), v("b")];
    let ids: Vec<String> = ["2", "1", "3"].iter().map(|s| s.to_string()).collect();
    let cs = clusters_of(&tokens, &ids);
    assert_eq!(cs.len(), 1);
    assert_eq!(cs[0].members, vec!["1", "2"]);
}

#[test]
fn shares_compare_exactly() {
    let l = |shared, total| Likeness { shared, total };
    assert!(greater_likeness(&l(5, 6), &l(4, 5)));
    assert!(!greater_likeness(&l(4, 5), &l(8, 10)));
    assert!(greater_likeness(&l(1, u128::MAX), &l(0, 1)));
    assert!(!greater_likeness(&l(u128::MAX - 1, u128::MAX), &l(1, 1)));
}

#[test]
fn union_find_keeps_the_earlier_root() {
    let mut parent: Vec<usize> = (0..5).collect();
    union(&mut parent, 3, 4);
    union(&mut parent, 1, 3);
    assert_eq!(find(&mut parent, 4), 1);
    assert_eq!(parent[4], 1);
    assert_eq!(find(&mut parent, 0), 0);
    assert_eq!(find(&mut parent, 2), 2);
}

#[test]
fn render_plain_text_layout() {
    let report = DoctorReport {
        global: ScopeReport {
            scope: "global".to_string(),
            index_present: true,
            read_error: None,
            indexed_paths: 4,
            orphan_paths: vec!["/mem/old.md".to_string()],
            reindex_claim: Some("4242:1700000000".to_string()),
            reindex_claim_age_secs: Some(120),
            stale_chunks: 2,
            redundant_clusters: vec![RedundantCluster {
                best: Likeness { shared: 17, total: 20 },
                similarity: Some(format!("{:.2}", 0.85)),
                members: vec!["a.md:0".to_string(), "a.md:1".to_string()],
            }],
            redundancy_truncated: false,
        },
        workspace: ScopeReport::empty("workspace"),
    };

    let rendered = report.render();
    println!("{rendered}");

    let expected = "\
Memory doctor report
====================
[global]
  indexed paths: 4
  orphan chunks: 1
    - /mem/old.md
    hint: indexed files that no longer exist; a reindex will prune them.
  stuck reindex claim: 4242:1700000000 (age 120s)
    hint: a leftover reindex lock resets after the stale threshold.
  stale / low-access chunks (>30d, 0 accesses): 2
    hint: review whether these never-accessed chunks are still useful.
  suspected redundant clusters (Jaccard >= 0.80): 1
    - [0.85] a.md:0, a.md:1
    hint: suspected duplicates only - review before merging.

[workspace]
  no index / empty
  hint: nothing to check for this scope.
";
    assert_eq!(rendered, expected);
}

#[test]
fn detects_orphan_paths_for_deleted_files() {
    let now = 100 * 86_400;
    let snapshot = snapshot_of(
        vec![meta("live.md", 0, 1), meta("doomed.md", 0, 0), meta("live.md", now, 0)],
        None,
        Vec::new(),
        now,
    );
    assert_eq!(snapshot.indexed_paths, vec!["doomed.md", "live.md"]);
    let report = diagnose_scope(
        "workspace",
        IndexState::Read { snapshot, exists: vec![false, true] },
        now,
    );
    assert_eq!(report.orphan_paths, vec!["doomed.md"]);
    assert_eq!(report.stale_chunks, 1);
    assert!(!report.redundancy_truncated);
    let rendered = render_scope(&report);
    assert!(rendered.contains("orphan chunks: 1"));
    assert!(rendered.contains("stuck reindex claim: none"));
}

#[test]
fn read_failure_is_distinct_from_empty() {
    let text = read_failure(ReadStep::Open, "not a database");
    assert_eq!(text, "cannot open index: not a database");
    let report = diagnose_scope("workspace", IndexState::Unreadable(text), 0);
    assert!(report.index_present);
    let rendered = render_scope(&report);
    assert!(rendered.contains("error reading index: cannot open index: not a database"));
    assert_eq!(read_failure(ReadStep::Chunks, "x"), "cannot read chunks: x");
}

#[test]
fn empty_but_present_index_renders_empty() {
    let snapshot = snapshot_of(Vec::new(), Some("  ".to_string()), Vec::new(), 0);
    assert!(snapshot.reindex_claim.is_none());
    let report = diagnose_scope(
        "workspace",
        IndexState::Read { snapshot, exists: Vec::new() },
        0,
    );
    assert!(report.index_present);
    let rendered = render_scope(&report);
    assert!(rendered.contains("no index / empty"), "got:\n{rendered}");
    assert!(!rendered.contains("error reading index"));
}

fn claim_line(claim: &str, now: i64) -> String {
    let snapshot =
        snapshot_of(vec![meta("n.md", now, 0)], Some(claim.to_string()), Vec::new(), now);
    let report = diagnose_scope(
        "workspace",
        IndexState::Read { snapshot, exists: vec![true] },
        now,
    );
    render_scope(&report)
}

#[test]
fn claim_staleness_is_time_aware() {
    let now = 1_700_000_000;
    let fresh = claim_line(&format!("1234:{}", now - 10), now);
    assert!(fresh.contains("active reindex claim"), "{fresh}");
    assert!(!fresh.contains("stuck"));
    let stale = claim_line(&format!("1234:{}", now - 300), now);
    assert!(stale.contains("stuck reindex claim: 1234:1699999700 (age 300s)"), "{stale}");
}

#[test]
fn malformed_claim_is_reported() {
    assert_eq!(claim_age_secs("not-a-timestamp", 1_700_000_000), None);
    let malformed = claim_line("not-a-timestamp", 1_700_000_000);
    assert!(malformed.contains("malformed reindex claim: not-a-timestamp"), "{malformed}");
    assert!(!malformed.contains("stuck"));
    let no_process = claim_line("abc:1700000000", 1_700_000_000);
    assert!(no_process.contains("malformed reindex claim: abc:1700000000"), "{no_process}");
}

#[test]
fn claim_ages_are_differences() {
    assert_eq!(claim_age_secs("1: 40 ", 100), Some(60));
    assert_eq!(claim_age_secs("1:+40", 100), Some(60));
    assert_eq!(claim_age_secs("1:-40", 100), Some(140));
    assert_eq!(claim_age_secs("1:2:3", 100), None);
    assert_eq!(claim_age_secs("40", 100), None);
    assert_eq!(claim_age_secs("1234:1699999700", 1_700_000_000), Some(300));
    assert_eq!(claim_age_secs("1234:5:6", 100), None);
    assert_eq!(claim_age_secs("abc:1700000000", 1_700_000_000), None);
    assert_eq!(claim_age_secs(":40", 100), None);
    assert_eq!(claim_age_secs(" 1:40", 100), None);
    assert_eq!(claim_age_secs("1:", 100), None);
    assert_eq!(claim_age_secs("1:-9223372036854775808", 0), None);
    assert_eq!(claim_age_secs("1:9223372036854775807", 0), Some(-9223372036854775807));
}

#[test]
fn reports_hold_the_clusters_of_the_newest_chunks() {
    let chunks = vec![
        chunk("b", "rust async programming patterns"),
        chunk("c", "completely unrelated cooking recipe"),
        chunk("a", "rust async programming patterns tutorial"),
    ];
    let snapshot = snapshot_of(vec![meta("n.md", 0, 1)], None, chunks, 0);
    let report =
        diagnose_scope("workspace", IndexState::Read { snapshot, exists: vec![true] }, 0);
    assert_eq!(
        report.redundant_clusters,
        vec![RedundantCluster {
            best: Likeness { shared: 4, total: 5 },
            similarity: None,
            members: vec!["a".to_string(), "b".to_string()],
        }]
    );
    assert!(render_scope(&report).contains("    - [4/5] a, b\n"));
}

#[test]
fn stale_chunks_are_old_and_unused() {
    let now = 40 * 86_400;
    let cutoff = 10 * 86_400;
    let v = vec![meta("a", cutoff - 1, 0), meta("b", cutoff, 0), meta("c", 0, 3)];
    assert_eq!(count_stale(&v, now), 1);
}

#[test]
fn large_indexes_are_compared_in_part() {
    let now = 0;
    let metas: Vec<ChunkMeta> = (0..2001).map(|i| meta(&format!("f{i:04}"), 0, 1)).collect();
    let snapshot = snapshot_of(metas, None, Vec::new(), now);
    let n = snapshot.indexed_paths.len();
    let report = diagnose_scope(
        "global",
        IndexState::Read { snapshot, exists: vec![true; n] },
        now,
    );
    assert!(report.redundancy_truncated);
    assert!(render_scope(&report).contains("note: only the newest 2000 chunks"));
    assert_eq!(
        redundancy_query(),
        "SELECT id, text FROM chunks ORDER BY created_at DESC LIMIT 2000"
    );
}
