//! How a worktree is made: what to copy, how to create it, and what is reported.
use crate::text::{contains, contains_text, text_of, views};
use crate::worktree_host::RemoveReport;
use vstd::prelude::*;

verus! {

/// `num_cpus::get`: the number of available processors, always at least one. It
/// differs from machine to machine, so no more is stated of it.
pub assume_specification[ num_cpus::get ]() -> (n: usize)
    ensures
        n >= 1,
;

/// A snapshot that a privileged helper has made.
#[derive(Debug, Clone)]
pub struct DelegateSnapshotResult {
    /// Where the snapshot lies.
    pub snapshot_path: String,
    /// Where the worktree is reached.
    pub worktree_path: String,
    /// The worktree is bind-mounted from the snapshot.
    pub bind_mounted: bool,
}

/// A privileged helper for what the caller may not do itself.
pub trait BtrfsDelegate: Send + Sync {
    /// Makes a snapshot of `source` that is reached at `dest`.
    fn create_snapshot(&self, source: &str, dest: &str) -> Result<DelegateSnapshotResult, String>;

    /// Deletes the snapshot behind a worktree.
    fn delete_snapshot(&self, worktree_path: &str) -> Result<RemoveReport, String>;

    /// Mounts an overlay at `target`. A helper that only knows snapshots refuses.
    fn mount_overlay(&self, lower: &str, upper: &str, work: &str, target: &str) -> (r: Result<
        (),
        String,
    >)
        default_ensures
            r matches Err(e) && e@ == "overlay mount delegation not supported by this delegate"@,
    {
        Err("overlay mount delegation not supported by this delegate".to_owned())
    }

    /// Unmounts the overlay at `target`. A helper that only knows snapshots refuses.
    fn unmount_overlay(&self, target: &str) -> (r: Result<(), String>)
        default_ensures
            r matches Err(e) && e@ == "overlay unmount delegation not supported by this delegate"@,
    {
        Err("overlay unmount delegation not supported by this delegate".to_owned())
    }
}

/// What becomes of the source's working tree.
#[derive(Debug, Clone, Copy, PartialEq, Eq, Structural)]
pub enum WorkingTreeMode {
    /// It is copied as it is, local changes and untracked files included.
    PreserveWorkingTree,
    /// Tracked files are checked out clean; nothing else is copied.
    CleanTracked,
    /// As before, and untracked files are removed.
    CleanAll,
}

impl Default for WorkingTreeMode {
    fn default() -> (r: Self)
        ensures
            r == WorkingTreeMode::PreserveWorkingTree,
    {
        WorkingTreeMode::PreserveWorkingTree
    }
}

/// What becomes of ignored files.
#[derive(Debug, Clone, PartialEq, Eq)]
pub enum IgnoredFilesMode {
    /// They are not copied.
    Skip,
    /// They are copied once the worktree is ready, save for some patterns.
    Copy { skip_patterns: Vec<String> },
    /// Only they are copied, save for some patterns.
    CopyOnly { skip_patterns: Vec<String> },
}

impl Default for IgnoredFilesMode {
    fn default() -> (r: Self)
        ensures
            r is Skip,
    {
        IgnoredFilesMode::Skip
    }
}

/// Whether snapshots are used.
#[derive(Debug, Clone, Copy, PartialEq, Eq, Structural)]
pub enum BtrfsMode {
    /// Where the source is a subvolume.
    Auto,
    /// Always; it is an error where the source is no subvolume.
    Force,
    /// Never.
    Disabled,
}

impl Default for BtrfsMode {
    fn default() -> (r: Self)
        ensures
            r == BtrfsMode::Auto,
    {
        BtrfsMode::Auto
    }
}

/// How a worktree is created.
#[derive(Debug, Clone, Copy, PartialEq, Eq, Structural)]
pub enum CreationMode {
    /// A linked worktree whose files are copied in parallel.
    Linked,
    /// A repository of its own.
    Standalone,
    /// A linked worktree that git itself checks out.
    GitCheckout,
}

impl Default for CreationMode {
    fn default() -> (r: Self)
        ensures
            r == CreationMode::Linked,
    {
        CreationMode::Linked
    }
}

/// The name of a creation mode in the records.
pub open spec fn mode_name(m: CreationMode) -> Seq<char> {
    match m {
        CreationMode::Linked => "linked"@,
        CreationMode::Standalone => "standalone"@,
        CreationMode::GitCheckout => "git"@,
    }
}

impl CreationMode {
    /// The name of the mode in the records.
    pub fn as_db_str(&self) -> (r: &'static str)
        ensures
            r@ == mode_name(*self),
    {
        match self {
            CreationMode::Linked => "linked",
            CreationMode::Standalone => "standalone",
            CreationMode::GitCheckout => "git",
        }
    }
}

/// Two modes never share a name, so a record tells how its worktree was made.
pub proof fn mode_names_differ(a: CreationMode, b: CreationMode)
    ensures
        mode_name(a) == mode_name(b) ==> a == b,
{
    reveal_strlit("linked");
    reveal_strlit("standalone");
    reveal_strlit("git");
    assert("linked"@.len() == 6 && "standalone"@.len() == 10 && "git"@.len() == 3);
}

/// What the copy of the working tree found changed.
#[derive(Debug, Clone)]
pub struct DirtyFilesReport {
    pub modified: Vec<String>,
    pub untracked: Vec<String>,
    pub deleted: Vec<String>,
}

/// The counts of a copy.
#[derive(Debug)]
pub struct CopyStats {
    pub files_copied: u64,
    pub dirs_created: u64,
    pub symlinks_copied: u64,
    pub files_skipped: u64,
    pub issues: Vec<String>,
}

/// What is reported of a copy.
#[derive(Debug)]
pub struct CopyReport {
    pub files_copied: u64,
    pub dirs_created: u64,
    pub symlinks_copied: u64,
    pub files_skipped: u64,
    /// What went wrong without stopping the copy.
    pub issues: Vec<String>,
    pub dirty_files: Option<DirtyFilesReport>,
}

impl From<CopyStats> for CopyReport {
    fn from(stats: CopyStats) -> (r: Self) {
        CopyReport {
            files_copied: stats.files_copied,
            dirs_created: stats.dirs_created,
            symlinks_copied: stats.symlinks_copied,
            files_skipped: stats.files_skipped,
            issues: stats.issues,
            dirty_files: None,
        }
    }
}

impl vstd::std_specs::convert::FromSpecImpl<CopyStats> for CopyReport {
    open spec fn obeys_from_spec() -> bool {
        true
    }

    open spec fn from_spec(stats: CopyStats) -> Self {
        report_of(stats)
    }
}

/// The report of a copy with these counts.
pub open spec fn report_of(stats: CopyStats) -> CopyReport {
    CopyReport {
        files_copied: stats.files_copied,
        dirs_created: stats.dirs_created,
        symlinks_copied: stats.symlinks_copied,
        files_skipped: stats.files_skipped,
        issues: stats.issues,
        dirty_files: None,
    }
}

/// What is reported of a worktree that was made.
#[derive(Debug)]
pub struct WorktreeReport {
    pub worktree_path: String,
    pub commit: String,
    pub unignored_copy: CopyReport,
    pub ignored_copy: Option<CopyReport>,
}

/// What is to be made, step by step.
#[derive(Debug)]
pub struct WorktreePlan {
    pub source: String,
    pub dest: String,
    pub git_ref: String,
    pub parallelism: usize,
    pub channel_buffer: usize,
    pub working_tree: WorkingTreeMode,
    pub ignored_files: IgnoredFilesMode,
    pub ignored_parallelism: usize,
    pub creation_mode: CreationMode,
    pub delegate: bool,
}

/// What a worktree is recorded as, where it is recorded.
#[derive(Debug)]
pub struct Registration {
    pub kind: String,
    pub session_id: Option<String>,
    pub worktree_id: Option<String>,
    pub source: String,
    pub creation_mode: &'static str,
    pub git_ref: String,
    /// Further data as JSON.
    pub metadata: Option<String>,
}

/// What carrying out a plan gave.
#[derive(Debug)]
pub struct PlanResult {
    pub worktree_path: String,
    pub commit: String,
    pub copy_stats: CopyStats,
    pub ignored_stats: Option<CopyStats>,
    pub dirty_files_report: Option<DirtyFilesReport>,
}

/// What a worktree is made from, set piece by piece.
#[derive(Debug)]
pub struct WorktreeBuilder {
    pub source: String,
    pub dest: String,
    pub git_ref: String,
    pub parallelism: usize,
    pub channel_buffer: usize,
    pub ignored_parallelism: usize,
    pub working_tree: WorkingTreeMode,
    pub ignored_files: IgnoredFilesMode,
    pub creation_mode: CreationMode,
    pub delegate: bool,
    pub worktree_kind: Option<String>,
    pub session_id: Option<String>,
    pub worktree_id: Option<String>,
    pub metadata: Option<String>,
}

impl WorktreeBuilder {
    /// A worktree of `source` at `dest`: its `HEAD`, linked, as it stands, without
    /// ignored files, and not recorded.
    pub fn new(source: &str, dest: &str) -> (r: Self)
        ensures
            r.source@ == source@,
            r.dest@ == dest@,
            r.git_ref@ == "HEAD"@,
            r.parallelism == 0,
            r.channel_buffer == 256,
            r.ignored_parallelism == 0,
            r.working_tree == WorkingTreeMode::PreserveWorkingTree,
            r.ignored_files is Skip,
            r.creation_mode == CreationMode::Linked,
            !r.delegate,
            r.worktree_kind is None,
            r.session_id is None,
            r.worktree_id is None,
            r.metadata is None,
    {
        WorktreeBuilder {
            source: source.to_owned(),
            dest: dest.to_owned(),
            git_ref: "HEAD".to_owned(),
            parallelism: 0,
            channel_buffer: 256,
            ignored_parallelism: 0,
            working_tree: WorkingTreeMode::PreserveWorkingTree,
            ignored_files: IgnoredFilesMode::Skip,
            creation_mode: CreationMode::Linked,
            delegate: false,
            worktree_kind: None,
            session_id: None,
            worktree_id: None,
            metadata: None,
        }
    }

    /// What is checked out.
    pub fn git_ref(self, git_ref: String) -> (r: Self)
        ensures
            r == (WorktreeBuilder { git_ref, ..self }),
    {
        let mut s = self;
        s.git_ref = git_ref;
        s
    }

    /// How many workers copy files; 0 for one per processor.
    pub fn parallelism(self, parallelism: usize) -> (r: Self)
        ensures
            r == (WorktreeBuilder { parallelism, ..self }),
    {
        let mut s = self;
        s.parallelism = parallelism;
        s
    }

    /// How many workers copy ignored files; 0 for as many as copy files.
    pub fn ignored_parallelism(self, parallelism: usize) -> (r: Self)
        ensures
            r == (WorktreeBuilder { ignored_parallelism: parallelism, ..self }),
    {
        let mut s = self;
        s.ignored_parallelism = parallelism;
        s
    }

    /// How many files may wait for a worker.
    pub fn channel_buffer(self, channel_buffer: usize) -> (r: Self)
        ensures
            r == (WorktreeBuilder { channel_buffer, ..self }),
    {
        let mut s = self;
        s.channel_buffer = channel_buffer;
        s
    }

    /// What becomes of the source's working tree.
    pub fn working_tree_mode(self, mode: WorkingTreeMode) -> (r: Self)
        ensures
            r == (WorktreeBuilder { working_tree: mode, ..self }),
    {
        let mut s = self;
        s.working_tree = mode;
        s
    }

    /// What becomes of ignored files.
    pub fn ignored_files_mode(self, mode: IgnoredFilesMode) -> (r: Self)
        ensures
            r == (WorktreeBuilder { ignored_files: mode, ..self }),
    {
        let mut s = self;
        s.ignored_files = mode;
        s
    }

    /// How the worktree is created.
    pub fn creation_mode(self, mode: CreationMode) -> (r: Self)
        ensures
            r == (WorktreeBuilder { creation_mode: mode, ..self }),
    {
        let mut s = self;
        s.creation_mode = mode;
        s
    }

    /// What the worktree is recorded as; without it, it is not recorded.
    pub fn worktree_kind(self, kind: String) -> (r: Self)
        ensures
            r == (WorktreeBuilder { worktree_kind: Some(kind), ..self }),
    {
        let mut s = self;
        s.worktree_kind = Some(kind);
        s
    }

    /// The session to which the worktree belongs.
    pub fn session_id(self, session_id: String) -> (r: Self)
        ensures
            r == (WorktreeBuilder { session_id: Some(session_id), ..self }),
    {
        let mut s = self;
        s.session_id = Some(session_id);
        s
    }

    /// The id of the worktree; without it, the id comes from its path.
    pub fn worktree_id(self, id: String) -> (r: Self)
        ensures
            r == (WorktreeBuilder { worktree_id: Some(id), ..self }),
    {
        let mut s = self;
        s.worktree_id = Some(id);
        s
    }

    /// Further data for the record, as JSON.
    pub fn metadata(self, metadata: String) -> (r: Self)
        ensures
            r == (WorktreeBuilder { metadata: Some(metadata), ..self }),
    {
        let mut s = self;
        s.metadata = Some(metadata);
        s
    }

    /// A repository of its own where `standalone` says so; else no change.
    pub fn standalone(self, standalone: bool) -> (r: Self)
        ensures
            r == if standalone {
                WorktreeBuilder { creation_mode: CreationMode::Standalone, ..self }
            } else {
                self
            },
    {
        let mut s = self;
        if standalone {
            s.creation_mode = CreationMode::Standalone;
        }
        s
    }

    /// No change: whether snapshots are used follows from the creation mode.
    pub fn btrfs_mode(self, mode: BtrfsMode) -> (r: Self)
        ensures
            r == self,
    {
        self
    }

    /// There is a privileged helper to fall back on.
    pub fn btrfs_delegate(self) -> (r: Self)
        ensures
            r == (WorktreeBuilder { delegate: true, ..self }),
    {
        let mut s = self;
        s.delegate = true;
        s
    }

    /// The plan for the worktree, and what it is recorded as once it is made: nothing
    /// where no kind was set.
    pub fn create(self) -> (r: (WorktreePlan, Option<Registration>))
        ensures
            r.0.source@ == self.source@,
            r.0.dest@ == self.dest@,
            r.0.git_ref@ == self.git_ref@,
            r.0.parallelism == self.parallelism,
            r.0.channel_buffer == self.channel_buffer,
            r.0.working_tree == self.working_tree,
            r.0.ignored_files == self.ignored_files,
            r.0.ignored_parallelism == self.ignored_parallelism,
            r.0.creation_mode == self.creation_mode,
            r.0.delegate == self.delegate,
            r.1 is Some <==> self.worktree_kind is Some,
            r.1 matches Some(reg) ==> {
                &&& reg.kind == self.worktree_kind->0
                &&& reg.session_id == self.session_id
                &&& reg.worktree_id == self.worktree_id
                &&& reg.source@ == self.source@
                &&& reg.creation_mode@ == mode_name(self.creation_mode)
                &&& reg.git_ref@ == self.git_ref@
                &&& reg.metadata == self.metadata
            },
    {
        let registration = match self.worktree_kind {
            Some(kind) => Some(
                Registration {
                    kind,
                    session_id: self.session_id,
                    worktree_id: self.worktree_id,
                    source: self.source.clone(),
                    creation_mode: self.creation_mode.as_db_str(),
                    git_ref: self.git_ref.clone(),
                    metadata: self.metadata,
                },
            ),
            None => None,
        };
        let plan = WorktreePlan {
            source: self.source,
            dest: self.dest,
            git_ref: self.git_ref,
            parallelism: self.parallelism,
            channel_buffer: self.channel_buffer,
            working_tree: self.working_tree,
            ignored_files: self.ignored_files,
            ignored_parallelism: self.ignored_parallelism,
            creation_mode: self.creation_mode,
            delegate: self.delegate,
        };
        (plan, registration)
    }

    /// The plan for copying only ignored files. The number of workers is the one set
    /// for ignored files, else the one set for all, else one per processor.
    pub fn copy_ignored_only(self) -> (r: IgnoredCopyPlan)
        ensures
            r.source == self.source,
            r.dest == self.dest,
            r.num_workers >= 1,
            self.ignored_parallelism != 0 ==> r.num_workers == self.ignored_parallelism,
            self.ignored_parallelism == 0 && self.parallelism != 0 ==> r.num_workers
                == self.parallelism,
            r.channel_buffer == self.channel_buffer,
            views(r.skip_patterns@) == skip_patterns(self.ignored_files),
    {
        let cpus: usize = num_cpus::get();
        let num_workers: usize = worker_count(self.ignored_parallelism, self.parallelism, cpus);
        let patterns: Vec<String> = match self.ignored_files {
            IgnoredFilesMode::Skip => {
                let v: Vec<String> = Vec::new();
                assert(views(v@) =~= Seq::empty());
                v
            },
            IgnoredFilesMode::Copy { skip_patterns } => skip_patterns,
            IgnoredFilesMode::CopyOnly { skip_patterns } => skip_patterns,
        };
        IgnoredCopyPlan {
            source: self.source,
            dest: self.dest,
            num_workers,
            channel_buffer: self.channel_buffer,
            skip_patterns: patterns,
        }
    }
}

/// The patterns of ignored files that are not copied.
pub open spec fn skip_patterns(mode: IgnoredFilesMode) -> Seq<Seq<char>> {
    match mode {
        IgnoredFilesMode::Skip => Seq::empty(),
        IgnoredFilesMode::Copy { skip_patterns } => views(skip_patterns@),
        IgnoredFilesMode::CopyOnly { skip_patterns } => views(skip_patterns@),
    }
}

/// A copy of ignored files only.
#[derive(Debug)]
pub struct IgnoredCopyPlan {
    pub source: String,
    pub dest: String,
    pub num_workers: usize,
    pub channel_buffer: usize,
    pub skip_patterns: Vec<String>,
}

/// How many workers copy ignored files: the first of the three numbers that is set.
pub fn worker_count(ignored_parallelism: usize, parallelism: usize, cpus: usize) -> (r: usize)
    ensures
        r == if ignored_parallelism != 0 {
            ignored_parallelism
        } else if parallelism != 0 {
            parallelism
        } else {
            cpus
        },
{
    if ignored_parallelism != 0 {
        ignored_parallelism
    } else if parallelism != 0 {
        parallelism
    } else {
        cpus
    }
}

/// The report of a copy of ignored files. A copy that was cancelled stops with counts
/// of what it did: it is an error all the same.
pub fn ignored_copy_report(stats: CopyStats, cancelled: bool) -> (r: Result<CopyReport, String>)
    ensures
        match r {
            Ok(report) => !cancelled && report == report_of(stats),
            Err(e) => cancelled && e@ == "cancelled during ignored-only copy"@,
        },
{
    if cancelled {
        return Err("cancelled during ignored-only copy".to_owned());
    }
    Ok(CopyReport::from(stats))
}

/// The report of a worktree that was made.
pub fn worktree_report(result: PlanResult) -> (r: WorktreeReport)
    ensures
        r.worktree_path == result.worktree_path,
        r.commit == result.commit,
        r.unignored_copy == (CopyReport {
            dirty_files: result.dirty_files_report,
            ..report_of(result.copy_stats)
        }),
        match result.ignored_stats {
            Some(s) => r.ignored_copy == Some(report_of(s)),
            None => r.ignored_copy is None,
        },
{
    let mut unignored_copy = CopyReport::from(result.copy_stats);
    unignored_copy.dirty_files = result.dirty_files_report;
    WorktreeReport {
        worktree_path: result.worktree_path,
        commit: result.commit,
        unignored_copy,
        ignored_copy: match result.ignored_stats {
            Some(s) => Some(CopyReport::from(s)),
            None => None,
        },
    }
}

// ------------------------------------------------------------------ recording

/// Where the life of a recorded worktree stands.
#[derive(Debug, Clone, Copy, PartialEq, Eq, Structural)]
pub enum WorktreeStatus {
    Alive,
    Dead,
}

/// The record of a worktree.
#[derive(Debug)]
pub struct WorktreeRecord {
    pub id: String,
    pub path: String,
    pub source_repo: String,
    pub repo_name: String,
    pub kind: String,
    pub creation_mode: String,
    pub git_ref: Option<String>,
    pub head_commit: Option<String>,
    pub session_id: Option<String>,
    pub creator_pid: Option<u32>,
    pub created_at: i64,
    pub last_accessed_at: Option<i64>,
    pub status: WorktreeStatus,
    pub metadata: Option<String>,
}

/// The record of a worktree that was just made. Its id is the one that was set, or
/// else `path_id`, which comes from its path.
pub fn register_worktree(
    worktree_path: &str,
    commit: &str,
    registration: Registration,
    path_id: String,
    repo_name: String,
    pid: u32,
    now: i64,
) -> (r: WorktreeRecord)
    ensures
        r.id == match registration.worktree_id {
            Some(id) => id,
            None => path_id,
        },
        r.path@ == worktree_path@,
        r.source_repo == registration.source,
        r.repo_name == repo_name,
        r.kind == registration.kind,
        r.creation_mode@ == registration.creation_mode@,
        r.git_ref == Some(registration.git_ref),
        text_of(r.head_commit) == Some(commit@),
        r.session_id == registration.session_id,
        r.creator_pid == Some(pid),
        r.created_at == now,
        r.last_accessed_at is None,
        r.status == WorktreeStatus::Alive,
        r.metadata == registration.metadata,
{
    WorktreeRecord {
        id: match registration.worktree_id {
            Some(id) => id,
            None => path_id,
        },
        path: worktree_path.to_owned(),
        source_repo: registration.source,
        repo_name,
        kind: registration.kind,
        creation_mode: registration.creation_mode.to_owned(),
        git_ref: Some(registration.git_ref),
        head_commit: Some(commit.to_owned()),
        session_id: registration.session_id,
        creator_pid: Some(pid),
        created_at: now,
        last_accessed_at: None,
        status: WorktreeStatus::Alive,
        metadata: registration.metadata,
    }
}

// ------------------------------------------------------------------ full disks

/// What stands on top of an error that comes from a full disk.
pub const OUT_OF_DISK_CONTEXT: &'static str = "not enough free disk space";

/// What git prints when the disk is full.
pub const ENOSPC_OS_MESSAGE: &'static str = "No space left on device";

/// One link of a chain of errors.
#[derive(Debug)]
pub struct Cause {
    pub message: String,
    /// The operating system says that the disk is full.
    pub storage_full: bool,
}

/// The link says, in one way or the other, that the disk is full.
pub open spec fn says_full(c: Cause) -> bool {
    c.storage_full || contains(c.message@, ENOSPC_OS_MESSAGE@)
}

/// Somewhere in the chain the disk is said to be full.
pub open spec fn out_of_disk(chain: Seq<Cause>) -> bool {
    exists|i: int| 0 <= i < chain.len() && says_full(#[trigger] chain[i])
}

/// Whether the disk is said to be full somewhere in the chain.
pub fn is_out_of_disk(chain: &Vec<Cause>) -> (r: bool)
    ensures
        r == out_of_disk(chain@),
{
    let mut i: usize = 0;
    while i < chain.len()
        invariant
            i <= chain.len(),
            forall|k: int| 0 <= k < i ==> !says_full(#[trigger] chain@[k]),
        decreases chain.len() - i,
    {
        if chain[i].storage_full || contains_text(chain[i].message.as_str(), ENOSPC_OS_MESSAGE) {
            assert(says_full(chain@[i as int]));
            return true;
        }
        i += 1;
    }
    false
}

/// Puts the reason on top of a chain of errors, outermost first, that comes from a
/// full disk: whoever shows only the top then shows that. Any other chain stays as it
/// is, and what stood in the chain stays in it.
pub fn annotate_disk_full(chain: &mut Vec<Cause>)
    ensures
        out_of_disk(old(chain)@) ==> {
            &&& final(chain)@.len() == old(chain)@.len() + 1
            &&& final(chain)@[0].message@ == OUT_OF_DISK_CONTEXT@
            &&& !final(chain)@[0].storage_full
            &&& final(chain)@.skip(1) == old(chain)@
        },
        !out_of_disk(old(chain)@) ==> final(chain)@ == old(chain)@,
{
    if is_out_of_disk(chain) {
        chain.insert(0, Cause { message: OUT_OF_DISK_CONTEXT.to_owned(), storage_full: false });
        assert(chain@.skip(1) =~= old(chain)@);
    }
}

} // verus!
