//! The health report on the memory index.
//!
//! For each of the two scopes the report names indexed files that are gone, a lock that
//! was left behind, chunks that are old and were never used, and chunks that look like
//! duplicates. Nothing is ever written.
use crate::text::{
    all_digits, are_digits, chars_of, decimal, decimal_i64, decimal_u128, decimal_usize, find,
    find_chars, is_blank, is_blank_text, join_texts, join_with, parse_i64, parsed_i64,
    signed_decimal, text_of, trim, trim_chars, views,
};
use crate::clusters::{
    chunk_ids, chunk_tokens, cluster_models, clusters, find_redundant_clusters, Cluster, ClusterModel,
    Likeness, LikenessModel, RedundancyChunk,
};
use crate::text_order::{
    insert_text, text_less, text_less_irreflexive, text_less_total, text_less_transitive, text_place,
    text_place_bound, with_text, with_text_in_order,
};
use crate::evolution_backups::list_contains;
use vstd::prelude::*;
use vstd::slice::slice_subrange;
use vstd::string::StringExecFns;

verus! {

/// A chunk that is older than this many days and was never used is stale.
pub const STALE_AGE_DAYS: i64 = 30;

/// At most this many chunks are compared with each other.
pub const MAX_REDUNDANCY_CHUNKS: usize = 2000;

/// A lock that is older than this many seconds was left behind.
pub const STALE_CLAIM_SECS: i64 = 60;

/// The seconds of a day.
pub const SECS_PER_DAY: i64 = 86_400;

/// What is known of a chunk without its text.
#[derive(Debug)]
pub struct ChunkMeta {
    pub path: String,
    pub created_at: i64,
    pub access_count: i64,
}

/// What was read of an index.
#[derive(Debug)]
pub struct IndexSnapshot {
    /// The indexed paths, each once, in order.
    pub indexed_paths: Vec<String>,
    /// The value of the lock, where there is one.
    pub reindex_claim: Option<String>,
    /// The age of the lock in seconds, where its value makes sense.
    pub reindex_claim_age_secs: Option<i64>,
    /// All chunks.
    pub chunk_meta: Vec<ChunkMeta>,
    /// The newest chunks with their texts.
    pub redundancy_chunks: Vec<RedundancyChunk>,
}

/// Chunks that look like duplicates of each other.
#[derive(Debug, Clone, PartialEq, Eq)]
pub struct RedundantCluster {
    /// How alike the two of them are that are most alike.
    pub best: Likeness,
    /// The same as it is shown, where that is known; else it is shown as a fraction.
    pub similarity: Option<String>,
    /// The ids of the chunks, in order.
    pub members: Vec<String>,
}

/// [`RedundantCluster`] by its texts.
pub struct RedundantModel {
    pub best: LikenessModel,
    pub similarity: Option<Seq<char>>,
    pub members: Seq<Seq<char>>,
}

impl View for RedundantCluster {
    type V = RedundantModel;

    open spec fn view(&self) -> RedundantModel {
        RedundantModel {
            best: self.best@,
            similarity: text_of(self.similarity),
            members: views(self.members@),
        }
    }
}

/// A cluster as it is found.
pub open spec fn as_found(c: ClusterModel) -> RedundantModel {
    RedundantModel { best: c.best, similarity: None, members: c.members }
}

/// The clusters of chunks that look like duplicates.
pub open spec fn redundant_in(chunks: Seq<RedundancyChunk>) -> Seq<RedundantModel> {
    clusters(chunk_tokens(chunks), chunk_ids(chunks)).map_values(|c: ClusterModel| as_found(c))
}

/// The clusters of chunks that look like duplicates.
pub fn redundant_clusters_in(chunks: &Vec<RedundancyChunk>) -> (r: Vec<RedundantCluster>)
    ensures
        redundant_models(r@) == redundant_in(chunks@),
{
    let found: Vec<Cluster> = find_redundant_clusters(chunks);
    let ghost all = cluster_models(found@);
    let mut r: Vec<RedundantCluster> = Vec::new();
    let mut i: usize = 0;
    assert(redundant_models(r@) =~= all.take(0).map_values(|c: ClusterModel| as_found(c)));
    while i < found.len()
        invariant
            i <= found.len(),
            all == cluster_models(found@),
            redundant_models(r@) == all.take(i as int).map_values(|c: ClusterModel| as_found(c)),
        decreases found.len() - i,
    {
        let ghost before = r@;
        let members: Vec<String> = copy_texts(&found[i].members);
        let c = RedundantCluster { best: found[i].best, similarity: None, members };
        r.push(c);
        proof {
            assert(all[i as int] == found@[i as int]@);
            assert(all.take(i as int + 1) =~= all.take(i as int).push(all[i as int]));
            assert(redundant_models(r@) =~= redundant_models(before).push(c@));
            assert(all.take(i as int + 1).map_values(|c: ClusterModel| as_found(c)) =~= all.take(
                i as int,
            ).map_values(|c: ClusterModel| as_found(c)).push(as_found(all[i as int])));
        }
        i += 1;
    }
    assert(all.take(i as int) =~= all);
    r
}

fn copy_texts(v: &Vec<String>) -> (r: Vec<String>)
    ensures
        views(r@) == views(v@),
{
    let mut r: Vec<String> = Vec::new();
    let mut i: usize = 0;
    assert(views(r@) =~= views(v@).take(0));
    while i < v.len()
        invariant
            i <= v.len(),
            views(r@) == views(v@).take(i as int),
        decreases v.len() - i,
    {
        let ghost before = r@;
        r.push(v[i].clone());
        assert(views(r@) =~= views(before).push(v@[i as int]@));
        assert(views(v@).take(i as int + 1) =~= views(v@).take(i as int).push(views(v@)[i as int]));
        i += 1;
    }
    assert(views(v@).take(i as int) =~= views(v@));
    r
}

/// What was found in one scope.
#[derive(Debug, Clone, PartialEq, Eq)]
pub struct ScopeReport {
    /// The name of the scope.
    pub scope: String,
    /// There is an index.
    pub index_present: bool,
    /// Why the index could not be read.
    pub read_error: Option<String>,
    /// How many paths are indexed.
    pub indexed_paths: usize,
    /// The indexed paths at which there is no file.
    pub orphan_paths: Vec<String>,
    /// The value of the lock, where there is one.
    pub reindex_claim: Option<String>,
    /// The age of the lock in seconds, where its value makes sense.
    pub reindex_claim_age_secs: Option<i64>,
    /// How many chunks are stale.
    pub stale_chunks: usize,
    /// Chunks that look like duplicates.
    pub redundant_clusters: Vec<RedundantCluster>,
    /// Not all chunks were compared.
    pub redundancy_truncated: bool,
}

/// [`ScopeReport`] by its texts.
pub struct ScopeModel {
    pub scope: Seq<char>,
    pub index_present: bool,
    pub read_error: Option<Seq<char>>,
    pub indexed_paths: nat,
    pub orphan_paths: Seq<Seq<char>>,
    pub reindex_claim: Option<Seq<char>>,
    pub reindex_claim_age_secs: Option<i64>,
    pub stale_chunks: nat,
    pub redundant_clusters: Seq<RedundantModel>,
    pub redundancy_truncated: bool,
}

/// The texts of a list of clusters.
pub open spec fn redundant_models(v: Seq<RedundantCluster>) -> Seq<RedundantModel> {
    v.map_values(|c: RedundantCluster| c@)
}

impl View for ScopeReport {
    type V = ScopeModel;

    open spec fn view(&self) -> ScopeModel {
        ScopeModel {
            scope: self.scope@,
            index_present: self.index_present,
            read_error: text_of(self.read_error),
            indexed_paths: self.indexed_paths as nat,
            orphan_paths: views(self.orphan_paths@),
            reindex_claim: text_of(self.reindex_claim),
            reindex_claim_age_secs: self.reindex_claim_age_secs,
            stale_chunks: self.stale_chunks as nat,
            redundant_clusters: redundant_models(self.redundant_clusters@),
            redundancy_truncated: self.redundancy_truncated,
        }
    }
}

/// The report on a scope in which nothing was found.
pub open spec fn empty_scope(scope: Seq<char>) -> ScopeModel {
    ScopeModel {
        scope,
        index_present: false,
        read_error: None,
        indexed_paths: 0,
        orphan_paths: Seq::empty(),
        reindex_claim: None,
        reindex_claim_age_secs: None,
        stale_chunks: 0,
        redundant_clusters: Seq::empty(),
        redundancy_truncated: false,
    }
}

impl ScopeReport {
    /// The report on a scope in which nothing was found.
    pub fn empty(scope: &str) -> (r: Self)
        ensures
            r@ == empty_scope(scope@),
    {
        let r = ScopeReport {
            scope: scope.to_owned(),
            index_present: false,
            read_error: None,
            indexed_paths: 0,
            orphan_paths: Vec::new(),
            reindex_claim: None,
            reindex_claim_age_secs: None,
            stale_chunks: 0,
            redundant_clusters: Vec::new(),
            redundancy_truncated: false,
        };
        assert(r@.orphan_paths =~= Seq::empty());
        assert(r@.redundant_clusters =~= Seq::empty());
        r
    }
}

/// The report on both scopes.
#[derive(Debug, Clone, PartialEq, Eq)]
pub struct DoctorReport {
    pub global: ScopeReport,
    pub workspace: ScopeReport,
}

// ------------------------------------------------------------------- rendering

/// The lines on the first `n` paths.
pub open spec fn path_lines(paths: Seq<Seq<char>>, n: int) -> Seq<char>
    decreases n,
{
    if n <= 0 || n > paths.len() {
        Seq::empty()
    } else {
        path_lines(paths, n - 1) + "    - "@ + paths[n - 1] + "\n"@
    }
}

/// How alike the members of a cluster are, as it is shown.
pub open spec fn share_text(c: RedundantModel) -> Seq<char> {
    match c.similarity {
        Some(s) => s,
        None => decimal(c.best.shared as nat) + "/"@ + decimal(c.best.total as nat),
    }
}

fn share_of(c: &RedundantCluster) -> (s: String)
    ensures
        s@ == share_text(c@),
{
    match &c.similarity {
        Some(s) => s.clone(),
        None => {
            let mut s: String = decimal_u128(c.best.shared);
            s.append("/");
            s.append(decimal_u128(c.best.total).as_str());
            s
        },
    }
}

/// The lines on the first `n` clusters.
pub open spec fn cluster_lines(cs: Seq<RedundantModel>, n: int) -> Seq<char>
    decreases n,
{
    if n <= 0 || n > cs.len() {
        Seq::empty()
    } else {
        cluster_lines(cs, n - 1) + "    - ["@ + share_text(cs[n - 1]) + "] "@ + join_with(
            cs[n - 1].members,
            ", "@,
        ) + "\n"@
    }
}

/// The line on the lock.
pub open spec fn claim_line(claim: Option<Seq<char>>, age: Option<i64>) -> Seq<char> {
    match claim {
        None => "  stuck reindex claim: none\n"@,
        Some(v) => match age {
            None => "  malformed reindex claim: "@ + v + "\n"@,
            Some(a) => (if a > STALE_CLAIM_SECS {
                "  stuck reindex claim: "@
            } else {
                "  active reindex claim: "@
            }) + v + " (age "@ + signed_decimal(a as int) + "s)\n"@,
        },
    }
}

/// `head` and what is said of a scope in which there is nothing to check.
pub open spec fn nothing_to_check(head: Seq<char>) -> Seq<char> {
    head + "  no index / empty\n"@ + "  hint: nothing to check for this scope.\n"@
}

/// The report on a scope in words.
pub open spec fn scope_text(r: ScopeModel) -> Seq<char> {
    let head = "["@ + r.scope + "]\n"@;
    if !r.index_present {
        nothing_to_check(head)
    } else {
        match r.read_error {
            Some(e) => head + "  error reading index: "@ + e + "\n"@
                + "  hint: the index exists but could not be read (corrupt or locked?).\n"@,
            None => if r.indexed_paths == 0 {
                nothing_to_check(head)
            } else {
                with_redundancy(with_claim(with_paths(head, r), r), r)
            },
        }
    }
}

/// `head` and what is said of the indexed paths.
pub open spec fn with_paths(head: Seq<char>, r: ScopeModel) -> Seq<char> {
    head + "  indexed paths: "@ + decimal(r.indexed_paths) + "\n"@ + "  orphan chunks: "@ + decimal(
        r.orphan_paths.len(),
    ) + "\n"@ + path_lines(r.orphan_paths, r.orphan_paths.len() as int)
        + "    hint: indexed files that no longer exist; a reindex will prune them.\n"@
}

/// `head` and what is said of the lock and of stale chunks.
pub open spec fn with_claim(head: Seq<char>, r: ScopeModel) -> Seq<char> {
    head + claim_line(r.reindex_claim, r.reindex_claim_age_secs)
        + "    hint: a leftover reindex lock resets after the stale threshold.\n"@
        + "  stale / low-access chunks (>30d, 0 accesses): "@ + decimal(r.stale_chunks) + "\n"@
        + "    hint: review whether these never-accessed chunks are still useful.\n"@
}

/// `head` and what is said of chunks that look like duplicates.
pub open spec fn with_redundancy(head: Seq<char>, r: ScopeModel) -> Seq<char> {
    let listed = head + "  suspected redundant clusters (Jaccard >= 0.80): "@ + decimal(
        r.redundant_clusters.len(),
    ) + "\n"@ + cluster_lines(r.redundant_clusters, r.redundant_clusters.len() as int);
    (if r.redundancy_truncated {
        listed + "    note: only the newest 2000 chunks (by created_at desc) were compared.\n"@
    } else {
        listed
    }) + "    hint: suspected duplicates only - review before merging.\n"@
}

/// Appends the lines on `paths`.
fn append_paths(out: &mut String, paths: &Vec<String>)
    ensures
        final(out)@ == old(out)@ + path_lines(views(paths@), paths@.len() as int),
{
    let ghost start = out@;
    let mut i: usize = 0;
    assert(start + path_lines(views(paths@), 0) =~= start);
    while i < paths.len()
        invariant
            i <= paths.len(),
            out@ == start + path_lines(views(paths@), i as int),
        decreases paths.len() - i,
    {
        let ghost before = out@;
        out.append("    - ");
        out.append(paths[i].as_str());
        out.append("\n");
        assert(views(paths@)[i as int] == paths@[i as int]@);
        assert(out@ =~= start + path_lines(views(paths@), i as int + 1));
        i += 1;
    }
}

/// Appends the lines on `clusters`.
fn append_clusters(out: &mut String, clusters: &Vec<RedundantCluster>)
    ensures
        final(out)@ == old(out)@ + cluster_lines(
            redundant_models(clusters@),
            clusters@.len() as int,
        ),
{
    let ghost start = out@;
    let ghost all = redundant_models(clusters@);
    let mut i: usize = 0;
    assert(start + cluster_lines(all, 0) =~= start);
    while i < clusters.len()
        invariant
            i <= clusters.len(),
            all == redundant_models(clusters@),
            out@ == start + cluster_lines(all, i as int),
        decreases clusters.len() - i,
    {
        out.append("    - [");
        out.append(share_of(&clusters[i]).as_str());
        out.append("] ");
        out.append(join_texts(&clusters[i].members, ", ").as_str());
        out.append("\n");
        assert(all[i as int] == clusters@[i as int]@);
        assert(out@ =~= start + cluster_lines(all, i as int + 1));
        i += 1;
    }
}

/// Appends the line on the lock.
fn append_claim(out: &mut String, claim: &Option<String>, age: Option<i64>)
    ensures
        final(out)@ == old(out)@ + claim_line(text_of(*claim), age),
{
    match claim {
        None => {
            out.append("  stuck reindex claim: none\n");
        },
        Some(v) => match age {
            None => {
                out.append("  malformed reindex claim: ");
                out.append(v.as_str());
                out.append("\n");
            },
            Some(a) => {
                if a > STALE_CLAIM_SECS {
                    out.append("  stuck reindex claim: ");
                } else {
                    out.append("  active reindex claim: ");
                }
                out.append(v.as_str());
                out.append(" (age ");
                out.append(decimal_i64(a).as_str());
                out.append("s)\n");
            },
        },
    }
    assert(out@ =~= old(out)@ + claim_line(text_of(*claim), age));
}

/// Appends what is said of the indexed paths.
fn append_index(out: &mut String, r: &ScopeReport)
    ensures
        final(out)@ == with_paths(old(out)@, r@),
{
    assert(views(r.orphan_paths@).len() == r.orphan_paths@.len());
    out.append("  indexed paths: ");
    out.append(decimal_usize(r.indexed_paths).as_str());
    out.append("\n");
    out.append("  orphan chunks: ");
    out.append(decimal_usize(r.orphan_paths.len()).as_str());
    out.append("\n");
    append_paths(out, &r.orphan_paths);
    out.append("    hint: indexed files that no longer exist; a reindex will prune them.\n");
}

/// Appends what is said of the lock and of stale chunks.
fn append_age(out: &mut String, r: &ScopeReport)
    ensures
        final(out)@ == with_claim(old(out)@, r@),
{
    append_claim(out, &r.reindex_claim, r.reindex_claim_age_secs);
    out.append("    hint: a leftover reindex lock resets after the stale threshold.\n");
    out.append("  stale / low-access chunks (>30d, 0 accesses): ");
    out.append(decimal_usize(r.stale_chunks).as_str());
    out.append("\n");
    out.append("    hint: review whether these never-accessed chunks are still useful.\n");
}

/// Appends what is said of chunks that look like duplicates.
fn append_redundancy(out: &mut String, r: &ScopeReport)
    ensures
        final(out)@ == with_redundancy(old(out)@, r@),
{
    assert(r@.redundant_clusters.len() == r.redundant_clusters@.len());
    out.append("  suspected redundant clusters (Jaccard >= 0.80): ");
    out.append(decimal_usize(r.redundant_clusters.len()).as_str());
    out.append("\n");
    append_clusters(out, &r.redundant_clusters);
    if r.redundancy_truncated {
        out.append("    note: only the newest 2000 chunks (by created_at desc) were compared.\n");
    }
    out.append("    hint: suspected duplicates only - review before merging.\n");
}

/// The report on a scope in words.
pub fn render_scope(r: &ScopeReport) -> (s: String)
    ensures
        s@ == scope_text(r@),
{
    let mut out: String = "[".to_owned();
    out.append(r.scope.as_str());
    out.append("]\n");
    if !r.index_present {
        out.append("  no index / empty\n");
        out.append("  hint: nothing to check for this scope.\n");
        return out;
    }
    if let Some(e) = &r.read_error {
        out.append("  error reading index: ");
        out.append(e.as_str());
        out.append("\n");
        out.append("  hint: the index exists but could not be read (corrupt or locked?).\n");
        return out;
    }
    if r.indexed_paths == 0 {
        out.append("  no index / empty\n");
        out.append("  hint: nothing to check for this scope.\n");
        return out;
    }
    append_index(&mut out, r);
    append_age(&mut out, r);
    append_redundancy(&mut out, r);
    out
}

impl DoctorReport {
    /// The report in words.
    pub fn render(&self) -> (s: String)
        ensures
            s@ == "Memory doctor report\n"@ + "====================\n"@ + scope_text(self.global@)
                + "\n"@ + scope_text(self.workspace@),
    {
        let mut out: String = "Memory doctor report\n".to_owned();
        out.append("====================\n");
        out.append(render_scope(&self.global).as_str());
        out.append("\n");
        out.append(render_scope(&self.workspace).as_str());
        out
    }
}

// -------------------------------------------------------------------- snapshot

/// The age of a lock with the value `claim`, the number of a process and a time with a
/// colon between: nothing where the value makes no sense.
pub open spec fn claim_age(claim: Seq<char>, now: i64) -> Option<i64> {
    match find(claim, seq![':']) {
        Some(i) => if all_digits(claim.take(i)) {
            match parsed_i64(trim(claim.skip(i + 1))) {
                Some(ts) => if i64::MIN <= now - ts <= i64::MAX {
                    Some((now - ts) as i64)
                } else {
                    None
                },
                None => None,
            }
        } else {
            None
        },
        None => None,
    }
}

/// The age of a lock with the value `claim`.
pub fn claim_age_secs(claim: &str, now: i64) -> (r: Option<i64>)
    ensures
        r == claim_age(claim@, now),
{
    let v: Vec<char> = chars_of(claim);
    let colon: Vec<char> = vec![':'];
    assert(colon@ =~= seq![':']);
    match find_chars(&v, &colon, 0) {
        Some(i) => {
            assert(v@.subrange(0, i as int) =~= v@.take(i as int));
            assert(v@.subrange(i + 1, v@.len() as int) =~= v@.skip(i + 1));
            if !are_digits(slice_subrange(&v, 0, i)) {
                return None;
            }
            let rest: &[char] = slice_subrange(&v, i + 1, v.len());
            match parse_i64(trim_chars(rest)) {
                Some(ts) => now.checked_sub(ts),
                None => None,
            }
        },
        None => None,
    }
}

/// The paths of the first `n` chunks, each once, in order.
pub open spec fn distinct_paths(chunks: Seq<ChunkMeta>, n: int) -> Seq<Seq<char>>
    decreases n,
{
    if n <= 0 || n > chunks.len() {
        Seq::empty()
    } else {
        let before = distinct_paths(chunks, n - 1);
        if before.contains(chunks[n - 1].path@) {
            before
        } else {
            with_text(before, chunks[n - 1].path@)
        }
    }
}

/// The lock that is there: a blank value is none.
pub open spec fn claim_there(value: Option<Seq<char>>) -> Option<Seq<char>> {
    match value {
        Some(v) => if is_blank(v) {
            None
        } else {
            Some(v)
        },
        None => None,
    }
}

/// What was read of an index: its chunks, the stored value of the lock, and the newest
/// chunks with their texts.
pub fn snapshot_of(
    chunk_meta: Vec<ChunkMeta>,
    claim_value: Option<String>,
    redundancy_chunks: Vec<RedundancyChunk>,
    now: i64,
) -> (r: IndexSnapshot)
    ensures
        views(r.indexed_paths@) == distinct_paths(chunk_meta@, chunk_meta@.len() as int),
        text_of(r.reindex_claim) == claim_there(text_of(claim_value)),
        r.reindex_claim_age_secs == match claim_there(text_of(claim_value)) {
            Some(v) => claim_age(v, now),
            None => None,
        },
        r.chunk_meta == chunk_meta,
        r.redundancy_chunks == redundancy_chunks,
{
    let mut paths: Vec<String> = Vec::new();
    let mut i: usize = 0;
    assert(views(paths@) =~= Seq::empty());
    while i < chunk_meta.len()
        invariant
            i <= chunk_meta.len(),
            views(paths@) == distinct_paths(chunk_meta@, i as int),
        decreases chunk_meta.len() - i,
    {
        if !list_contains(&paths, chunk_meta[i].path.as_str()) {
            insert_text(&mut paths, chunk_meta[i].path.clone());
        }
        i += 1;
    }
    let claim: Option<String> = match claim_value {
        Some(v) => if is_blank_text(v.as_str()) {
            None
        } else {
            Some(v)
        },
        None => None,
    };
    let age: Option<i64> = match &claim {
        Some(v) => claim_age_secs(v.as_str(), now),
        None => None,
    };
    IndexSnapshot {
        indexed_paths: paths,
        reindex_claim: claim,
        reindex_claim_age_secs: age,
        chunk_meta,
        redundancy_chunks,
    }
}

/// The query for all chunks without their texts.
pub const CHUNKS_QUERY: &'static str = "SELECT id, path, created_at, access_count FROM chunks";

/// The query for the lock.
pub const CLAIM_QUERY: &'static str = "SELECT value FROM meta WHERE key = 'reindex_claim'";

/// The query for the newest chunks with their texts.
pub fn redundancy_query() -> (r: String)
    ensures
        r@ == "SELECT id, text FROM chunks ORDER BY created_at DESC LIMIT "@ + decimal(
            MAX_REDUNDANCY_CHUNKS as nat,
        ),
{
    let mut s: String = "SELECT id, text FROM chunks ORDER BY created_at DESC LIMIT ".to_owned();
    s.append(decimal_usize(MAX_REDUNDANCY_CHUNKS).as_str());
    s
}

/// A step of reading an index.
#[derive(Debug, Clone, Copy, PartialEq, Eq, Structural)]
pub enum ReadStep {
    Open,
    Chunks,
}

/// Why an index could not be read: the step that failed, and how.
pub fn read_failure(step: ReadStep, detail: &str) -> (r: String)
    ensures
        r@ == match step {
            ReadStep::Open => "cannot open index: "@,
            ReadStep::Chunks => "cannot read chunks: "@,
        } + detail@,
{
    let mut s: String = match step {
        ReadStep::Open => "cannot open index: ".to_owned(),
        ReadStep::Chunks => "cannot read chunks: ".to_owned(),
    };
    s.append(detail);
    s
}

// ------------------------------------------------------------------- diagnosis

/// The chunk is stale.
pub open spec fn is_stale(c: ChunkMeta, now: i64) -> bool {
    c.created_at < now - STALE_AGE_DAYS * SECS_PER_DAY && c.access_count == 0
}

/// How many of the first `n` chunks are stale.
pub open spec fn stale_count(chunks: Seq<ChunkMeta>, now: i64, n: int) -> nat
    decreases n,
{
    if n <= 0 || n > chunks.len() {
        0
    } else {
        stale_count(chunks, now, n - 1) + (if is_stale(chunks[n - 1], now) {
            1nat
        } else {
            0
        })
    }
}

/// The first `n` paths at which there is no file.
pub open spec fn missing_paths(paths: Seq<Seq<char>>, exists: Seq<bool>, n: int) -> Seq<Seq<char>>
    decreases n,
{
    if n <= 0 || n > paths.len() {
        Seq::empty()
    } else {
        let before = missing_paths(paths, exists, n - 1);
        if exists[n - 1] {
            before
        } else {
            before.push(paths[n - 1])
        }
    }
}

/// How many chunks are stale.
pub fn count_stale(chunks: &Vec<ChunkMeta>, now: i64) -> (r: usize)
    requires
        now >= 0,
    ensures
        r == stale_count(chunks@, now, chunks@.len() as int),
{
    let cutoff: i64 = now - STALE_AGE_DAYS * SECS_PER_DAY;
    let mut count: usize = 0;
    let mut i: usize = 0;
    while i < chunks.len()
        invariant
            i <= chunks.len(),
            count <= i,
            cutoff == now - STALE_AGE_DAYS * SECS_PER_DAY,
            count == stale_count(chunks@, now, i as int),
        decreases chunks.len() - i,
    {
        if chunks[i].created_at < cutoff && chunks[i].access_count == 0 {
            count += 1;
        }
        i += 1;
    }
    count
}

/// What was found out about the index of a scope.
#[derive(Debug)]
pub enum IndexState {
    /// There is none.
    Absent,
    /// It could not be read, for this reason.
    Unreadable(String),
    /// It was read; and for each indexed path, whether there is a file.
    Read { snapshot: IndexSnapshot, exists: Vec<bool> },
}

/// The report on a scope whose index was found to be `index`.
pub open spec fn scope_report(scope: Seq<char>, index: IndexState, now: i64) -> ScopeModel {
    match index {
        IndexState::Absent => empty_scope(scope),
        IndexState::Unreadable(e) => ScopeModel {
            index_present: true,
            read_error: Some(e@),
            ..empty_scope(scope)
        },
        IndexState::Read { snapshot, exists } => ScopeModel {
            scope,
            index_present: true,
            read_error: None,
            indexed_paths: snapshot.indexed_paths@.len(),
            orphan_paths: missing_paths(
                views(snapshot.indexed_paths@),
                exists@,
                snapshot.indexed_paths@.len() as int,
            ),
            reindex_claim: text_of(snapshot.reindex_claim),
            reindex_claim_age_secs: snapshot.reindex_claim_age_secs,
            stale_chunks: stale_count(snapshot.chunk_meta@, now, snapshot.chunk_meta@.len() as int),
            redundant_clusters: redundant_in(snapshot.redundancy_chunks@),
            redundancy_truncated: snapshot.chunk_meta@.len() > MAX_REDUNDANCY_CHUNKS,
        },
    }
}

/// The report on a scope whose index was found to be `index`.
pub fn diagnose_scope(scope: &str, index: IndexState, now: i64) -> (r: ScopeReport)
    requires
        now >= 0,
        index matches IndexState::Read { snapshot, exists } ==> exists@.len()
            == snapshot.indexed_paths@.len(),
    ensures
        r@ == scope_report(scope@, index, now),
{
    let mut report = ScopeReport::empty(scope);
    match index {
        IndexState::Absent => report,
        IndexState::Unreadable(e) => {
            report.index_present = true;
            report.read_error = Some(e);
            report
        },
        IndexState::Read { snapshot, exists } => {
            let ghost paths = views(snapshot.indexed_paths@);
            let mut i: usize = 0;
            while i < snapshot.indexed_paths.len()
                invariant
                    i <= snapshot.indexed_paths.len(),
                    exists@.len() == snapshot.indexed_paths@.len(),
                    paths == views(snapshot.indexed_paths@),
                    report@ == (ScopeModel {
                        orphan_paths: missing_paths(paths, exists@, i as int),
                        ..empty_scope(scope@)
                    }),
                decreases snapshot.indexed_paths.len() - i,
            {
                assert(paths[i as int] == snapshot.indexed_paths@[i as int]@);
                if !exists[i] {
                    let ghost before = report.orphan_paths@;
                    report.orphan_paths.push(snapshot.indexed_paths[i].clone());
                    assert(views(report.orphan_paths@) =~= views(before).push(paths[i as int]));
                }
                i += 1;
            }
            report.index_present = true;
            report.indexed_paths = snapshot.indexed_paths.len();
            report.stale_chunks = count_stale(&snapshot.chunk_meta, now);
            report.redundancy_truncated = snapshot.chunk_meta.len() > MAX_REDUNDANCY_CHUNKS;
            report.reindex_claim = snapshot.reindex_claim;
            report.reindex_claim_age_secs = snapshot.reindex_claim_age_secs;
            report.redundant_clusters = redundant_clusters_in(&snapshot.redundancy_chunks);
            report
        },
    }
}

/// The report on both scopes.
pub fn diagnose(global: IndexState, workspace: IndexState, now: i64) -> (r: DoctorReport)
    requires
        now >= 0,
        global matches IndexState::Read { snapshot, exists } ==> exists@.len()
            == snapshot.indexed_paths@.len(),
        workspace matches IndexState::Read { snapshot, exists } ==> exists@.len()
            == snapshot.indexed_paths@.len(),
    ensures
        r.global@ == scope_report("global"@, global, now),
        r.workspace@ == scope_report("workspace"@, workspace, now),
{
    DoctorReport {
        global: diagnose_scope("global", global, now),
        workspace: diagnose_scope("workspace", workspace, now),
    }
}

/// The indexed paths stand in order, none of them twice.
pub proof fn indexed_paths_are_sorted(chunks: Seq<ChunkMeta>, n: int)
    requires
        0 <= n <= chunks.len(),
    ensures
        forall|i: int, j: int|
            0 <= i < j < distinct_paths(chunks, n).len() ==> text_less(
                #[trigger] distinct_paths(chunks, n)[i],
                #[trigger] distinct_paths(chunks, n)[j],
            ),
    decreases n,
{
    if n > 0 {
        indexed_paths_are_sorted(chunks, n - 1);
        let s = distinct_paths(chunks, n - 1);
        let t = chunks[n - 1].path@;
        if !s.contains(t) {
            let w = with_text(s, t);
            assert forall|i: int, j: int| 0 <= i < j < s.len() implies !text_less(
                #[trigger] s[j],
                #[trigger] s[i],
            ) by {
                assert(text_less(s[i], s[j]));
                if text_less(s[j], s[i]) {
                    text_less_transitive(s[i], s[j], s[i]);
                    text_less_irreflexive(s[i]);
                }
            }
            with_text_in_order(s, t);
            text_place_bound(s, t);
            let p = text_place(s, t) as int;
            assert forall|i: int, j: int| 0 <= i < j < w.len() implies text_less(
                #[trigger] w[i],
                #[trigger] w[j],
            ) by {
                text_less_total(w[i], w[j]);
                assert(!text_less(w[j], w[i]));
                let x = if i < p {
                    i
                } else {
                    i - 1
                };
                let y = if j < p {
                    j
                } else {
                    j - 1
                };
                if w[i] == w[j] {
                    if i == p {
                        assert(w[j] == s[y]);
                        assert(s.contains(t));
                    } else if j == p {
                        assert(w[i] == s[x]);
                        assert(s.contains(t));
                    } else {
                        assert(w[i] == s[x] && w[j] == s[y]);
                        assert(text_less(s[x], s[y]));
                        text_less_irreflexive(s[x]);
                    }
                }
            }
        }
    }
}

/// A failure to read an index never reads like an empty index.
pub proof fn failure_is_not_empty(scope: Seq<char>, e: String, now: i64)
    ensures
        scope_text(scope_report(scope, IndexState::Unreadable(e), now)) != scope_text(
            empty_scope(scope),
        ),
{
    let head = "["@ + scope + "]\n"@;
    let n = head.len() as int;
    let a = scope_text(scope_report(scope, IndexState::Unreadable(e), now));
    let b = scope_text(empty_scope(scope));
    reveal_strlit("  error reading index: ");
    reveal_strlit("  no index / empty\n");
    assert(a[n + 2] == 'e');
    assert(b[n + 2] == 'n');
}

} // verus!
