//! Worktrees on network mounts, for machines that have none: every probe declines, and there
//! is never anything to clean up.
use crate::paths::{is_absolute, is_absolute_path, parts_of, path_parts};
use crate::text::{same_text, views};
use vstd::prelude::*;

verus! {

/// The names under which such worktrees are recorded.
pub const STRATEGY_GROVE_FUSE: &'static str = "grove-fuse";

pub const STRATEGY_GROVE_NFS: &'static str = "grove-nfs";

pub const STRATEGY_NFS: &'static str = "nfs";

/// Whether a worktree that is recorded so lies on such a mount: none does here.
pub fn is_grove_strategy(s: &str) -> (r: bool)
    ensures
        !r,
{
    false
}

/// Whether it is safe to look at the path: it always is here.
pub fn dest_is_known_unmounted(path: &str) -> (r: bool)
    ensures
        r,
{
    true
}

/// `child` is `parent` or lies below it.
pub open spec fn is_below(parent: Seq<char>, child: Seq<char>) -> bool {
    let p = path_parts(parent);
    let c = path_parts(child);
    is_absolute(parent) == is_absolute(child) && p.len() <= c.len() && c.take(p.len() as int) == p
}

/// Whether `child` is `parent` or lies below it.
pub fn dest_path_contains(parent: &str, child: &str) -> (r: bool)
    ensures
        r == is_below(parent@, child@),
{
    let p: Vec<String> = parts_of(parent);
    let c: Vec<String> = parts_of(child);
    assert(views(p@).len() == p@.len() && views(c@).len() == c@.len());
    if is_absolute_path(parent) != is_absolute_path(child) || p.len() > c.len() {
        return false;
    }
    let mut i: usize = 0;
    while i < p.len()
        invariant
            i <= p.len(),
            p.len() <= c.len(),
            views(p@) == path_parts(parent@),
            views(c@) == path_parts(child@),
            is_absolute(parent@) == is_absolute(child@),
            forall|k: int| 0 <= k < i ==> views(p@)[k] == #[trigger] views(c@)[k],
        decreases p.len() - i,
    {
        if !same_text(p[i].as_str(), c[i].as_str()) {
            assert(views(c@).take(views(p@).len() as int)[i as int] != views(p@)[i as int]);
            return false;
        }
        i += 1;
    }
    assert(views(c@).take(views(p@).len() as int) =~= views(p@));
    true
}

/// Whether a recorded worktree is gone though its path says nothing of it: never here.
pub fn nfs_record_is_dead(dest: &str, backing: Option<&str>) -> (r: bool)
    ensures
        !r,
{
    false
}

/// Where pins could be left behind: nowhere here.
pub fn candidate_data_dirs() -> (r: Vec<String>)
    ensures
        r@.len() == 0,
{
    Vec::new()
}

/// What became of pins that were left behind.
#[derive(Debug, Clone)]
pub struct PinGcReport {
    pub examined: u64,
    pub pruned: u64,
    pub deferred_grace: u64,
    pub kept_live: u64,
    pub pruned_ids: Vec<String>,
}

/// Clears up pins that were left behind: there are none here, so it always succeeds.
pub fn gc_orphan_pins(dir: &str, existing: &Vec<String>, now: i64, dry_run: bool) -> (r: Result<
    PinGcReport,
    String,
>)
    ensures
        r is Ok,
        r->Ok_0.examined == 0,
        r->Ok_0.pruned == 0,
        r->Ok_0.deferred_grace == 0,
        r->Ok_0.kept_live == 0,
        r->Ok_0.pruned_ids@.len() == 0,
{
    Ok(
        PinGcReport {
            examined: 0,
            pruned: 0,
            deferred_grace: 0,
            kept_live: 0,
            pruned_ids: Vec::new(),
        },
    )
}

} // verus!
