//! Finding snapshots that no worktree uses any more, and deleting them.
//!
//! A snapshot is spared as long as its worktree may still be there: when its target
//! is mounted, when a link at the target leads to it, and when the directory of the
//! target is missing, since it may yet be made again.
use crate::paths::{parent, parent_of, same_path, same_path_as};
use crate::text::{text_of, views};
use crate::worktree_cleanup::{empty_report, has_room, CleanupReport};
use crate::worktree_host::{
    answers, ask, mount_models, MountEntry, MountModel, Op, Reply, ReplyModel, Request,
    RequestModel,
};
use crate::worktree_removal::{
    directly_in, lies_directly_in, link_resolved, metadata_files, metadata_files_of, resolve_link,
    storage_dirs, storage_dirs_of, SnapshotStorage,
};
use vstd::prelude::*;

verus! {

/// Where a scan stands.
#[derive(Debug, Clone, Copy, PartialEq, Eq, Structural)]
pub enum ScanStage {
    /// The table of mounts is read.
    Mounts,
    /// A storage directory is listed.
    Listing,
    /// A metadata file is read.
    ReadingMeta,
    /// A metadata file that makes no sense goes.
    DropBroken,
    /// Is the target a link?
    TargetLink,
    /// Where does the link lead?
    TargetRead,
    /// Is the directory of the target there?
    ParentProbe,
    /// May the snapshot be deleted?
    SafeProbe,
    /// Is the snapshot there?
    SnapshotProbe,
    /// Is what refers to the snapshot a link?
    ReferenceLink,
    /// The link goes.
    ReferenceUnlink,
    /// The mount goes.
    ReferenceUmount,
    /// The mount point goes.
    ReferenceRmdir,
    /// Is the snapshot still there?
    SnapshotAgain,
    /// The snapshot goes.
    Delete,
    /// The metadata file goes.
    DropMeta,
    Finished,
}

/// A scan under way.
#[derive(Debug)]
pub struct OrphanScan {
    pub storage: SnapshotStorage,
    pub stage: ScanStage,
    pub mounts: Vec<MountEntry>,
    pub dirs: Vec<String>,
    pub next_dir: usize,
    pub dir: String,
    pub files: Vec<String>,
    pub next_file: usize,
    pub meta_path: String,
    pub target: String,
    pub snapshot: String,
    pub contained: bool,
    pub report: CleanupReport,
}

/// [`OrphanScan`] by its texts.
pub struct ScanModel {
    pub subdirs: Seq<Seq<char>>,
    pub meta_suffix: Seq<char>,
    pub stage: ScanStage,
    pub mounts: Seq<MountModel>,
    /// The storage directories not looked into yet.
    pub dirs: Seq<Seq<char>>,
    /// The storage directory that is looked into.
    pub dir: Seq<char>,
    /// The metadata files of that directory not read yet.
    pub files: Seq<Seq<char>>,
    /// The metadata file that is dealt with.
    pub meta_path: Seq<char>,
    /// Where the worktree of its snapshot was reached.
    pub target: Seq<char>,
    pub snapshot: Seq<char>,
    /// The snapshot lies in the directory looked into and may be deleted.
    pub contained: bool,
    pub report: CleanupReport,
}

impl View for OrphanScan {
    type V = ScanModel;

    open spec fn view(&self) -> ScanModel {
        ScanModel {
            subdirs: views(self.storage.subdirs@),
            meta_suffix: self.storage.meta_suffix@,
            stage: self.stage,
            mounts: mount_models(self.mounts@),
            dirs: views(self.dirs@).skip(self.next_dir as int),
            dir: self.dir@,
            files: views(self.files@).skip(self.next_file as int),
            meta_path: self.meta_path@,
            target: self.target@,
            snapshot: self.snapshot@,
            contained: self.contained,
            report: self.report,
        }
    }
}

/// Something is mounted at `target`.
pub open spec fn is_mounted(mounts: Seq<MountModel>, target: Seq<char>) -> bool {
    exists|i: int| 0 <= i < mounts.len() && same_path((#[trigger] mounts[i]).mount_point, target)
}

/// Whether something is mounted at `target`.
pub fn mounted_at(mounts: &Vec<MountEntry>, target: &str) -> (r: bool)
    ensures
        r == is_mounted(mount_models(mounts@), target@),
{
    let ghost all = mount_models(mounts@);
    let mut i: usize = 0;
    while i < mounts.len()
        invariant
            i <= mounts.len(),
            all == mount_models(mounts@),
            forall|k: int| 0 <= k < i ==> !same_path((#[trigger] all[k]).mount_point, target@),
        decreases mounts.len() - i,
    {
        assert(all[i as int] == mounts@[i as int]@);
        if same_path_as(mounts[i].mount_point.as_str(), target) {
            return true;
        }
        i += 1;
    }
    false
}

/// A link at `link` that reads `read` leads to `target`.
pub open spec fn leads_to(link: Seq<char>, read: Seq<char>, target: Seq<char>) -> bool {
    same_path(link_resolved(link, read), target)
}

/// Whether the link at `link` leads to `target`: `read` is what the link reads,
/// nothing where there is no link or it cannot be read.
pub fn symlink_resolves_to(link: &str, read: &Option<String>, target: &str) -> (r: bool)
    ensures
        r == (text_of(*read) is Some && leads_to(link@, text_of(*read)->0, target@)),
{
    match read {
        Some(t) => same_path_as(resolve_link(link, t.as_str()).as_str(), target),
        None => false,
    }
}

/// On to the next stage.
pub open spec fn scan_at(m: ScanModel, stage: ScanStage) -> ScanModel {
    ScanModel { stage, ..m }
}

/// On to the next storage directory, or to the end.
pub open spec fn next_storage(m: ScanModel) -> ScanModel {
    if m.dirs.len() == 0 {
        scan_at(m, ScanStage::Finished)
    } else {
        ScanModel { stage: ScanStage::Listing, dir: m.dirs[0], dirs: m.dirs.skip(1), ..m }
    }
}

/// On to the next metadata file.
pub open spec fn next_meta(m: ScanModel) -> ScanModel {
    if m.files.len() == 0 {
        next_storage(m)
    } else {
        ScanModel {
            stage: ScanStage::ReadingMeta,
            meta_path: m.files[0],
            files: m.files.skip(1),
            ..m
        }
    }
}

/// The target is not in use: on to whether its directory is there.
pub open spec fn seems_orphaned(m: ScanModel) -> ScanModel {
    if parent(m.target) is Some {
        scan_at(m, ScanStage::ParentProbe)
    } else {
        check_storage(m)
    }
}

/// The snapshot is an orphan: on to whether it lies where snapshots lie.
pub open spec fn check_storage(m: ScanModel) -> ScanModel {
    ScanModel {
        contained: false,
        stage: if directly_in(m.snapshot, m.dir) {
            ScanStage::SafeProbe
        } else {
            ScanStage::SnapshotProbe
        },
        ..m
    }
}

/// One more snapshot could not be dealt with.
pub open spec fn with_error(m: ScanModel) -> ScanModel {
    ScanModel { report: CleanupReport { errors: (m.report.errors + 1) as u64, ..m.report }, ..m }
}

/// What the scan is waiting for.
pub open spec fn scan_request(m: ScanModel) -> RequestModel {
    match m.stage {
        ScanStage::Mounts => ask(Op::ReadMounts, m.dir),
        ScanStage::Listing => ask(Op::ListDir, m.dir),
        ScanStage::ReadingMeta => ask(Op::ReadMetadata, m.meta_path),
        ScanStage::DropBroken | ScanStage::DropMeta => ask(Op::RemoveFile, m.meta_path),
        ScanStage::TargetLink | ScanStage::ReferenceLink => ask(Op::IsSymlink, m.target),
        ScanStage::TargetRead => ask(Op::ReadLink, m.target),
        ScanStage::ParentProbe => ask(
            Op::Exists,
            match parent(m.target) {
                Some(p) => p,
                None => m.target,
            },
        ),
        ScanStage::SafeProbe => ask(Op::IsSafeTarget, m.snapshot),
        ScanStage::SnapshotProbe | ScanStage::SnapshotAgain => ask(Op::Exists, m.snapshot),
        ScanStage::ReferenceUnlink => ask(Op::RemoveFile, m.target),
        ScanStage::ReferenceUmount => ask(Op::Umount, m.target),
        ScanStage::ReferenceRmdir => ask(Op::RemoveDir, m.target),
        ScanStage::Delete => ask(Op::DeleteSnapshot, m.snapshot),
        ScanStage::Finished => ask(Op::Finish, m.dir),
    }
}

/// The scan after the answer to its request.
pub open spec fn scan_after(m: ScanModel, reply: ReplyModel) -> ScanModel {
    match (m.stage, reply) {
        (ScanStage::Mounts, ReplyModel::Mounts(t)) => match t {
            Some(mounts) => next_storage(
                ScanModel {
                    mounts,
                    dirs: storage_dirs(mounts, m.subdirs),
                    files: Seq::empty(),
                    ..m
                },
            ),
            None => scan_at(m, ScanStage::Finished),
        },
        (ScanStage::Listing, ReplyModel::Entries(n)) => match n {
            Some(names) => next_meta(
                ScanModel { files: metadata_files(m.dir, names, m.meta_suffix), ..m },
            ),
            None => next_storage(m),
        },
        (ScanStage::ReadingMeta, ReplyModel::Metadata(d)) => match d {
            Some(meta) => {
                let n = ScanModel {
                    target: meta.mount_target,
                    snapshot: meta.snapshot_path,
                    ..m
                };
                if is_mounted(m.mounts, meta.mount_target) {
                    next_meta(n)
                } else {
                    scan_at(n, ScanStage::TargetLink)
                }
            },
            None => scan_at(m, ScanStage::DropBroken),
        },
        (ScanStage::DropBroken, _) => next_meta(m),
        (ScanStage::TargetLink, ReplyModel::Flag(link)) => if link {
            scan_at(m, ScanStage::TargetRead)
        } else {
            seems_orphaned(m)
        },
        (ScanStage::TargetRead, ReplyModel::Text(t)) => if t is Some && leads_to(
            m.target,
            t->0,
            m.snapshot,
        ) {
            next_meta(m)
        } else {
            seems_orphaned(m)
        },
        (ScanStage::ParentProbe, ReplyModel::Flag(there)) => if there {
            check_storage(m)
        } else {
            next_meta(m)
        },
        (ScanStage::SafeProbe, ReplyModel::Flag(safe)) => ScanModel {
            contained: safe,
            stage: ScanStage::SnapshotProbe,
            ..m
        },
        (ScanStage::SnapshotProbe, ReplyModel::Flag(there)) => if there && !m.contained {
            next_meta(with_error(m))
        } else {
            scan_at(m, ScanStage::ReferenceLink)
        },
        (ScanStage::ReferenceLink, ReplyModel::Flag(link)) => scan_at(
            m,
            if link {
                ScanStage::ReferenceUnlink
            } else {
                ScanStage::ReferenceUmount
            },
        ),
        (ScanStage::ReferenceUmount, _) => scan_at(m, ScanStage::ReferenceRmdir),
        (ScanStage::ReferenceUnlink, _) | (ScanStage::ReferenceRmdir, _) => scan_at(
            m,
            ScanStage::SnapshotAgain,
        ),
        (ScanStage::SnapshotAgain, ReplyModel::Flag(there)) => scan_at(
            m,
            if there {
                ScanStage::Delete
            } else {
                ScanStage::DropMeta
            },
        ),
        (ScanStage::Delete, ReplyModel::Done(e)) => match e {
            Some(_) => next_meta(with_error(m)),
            None => ScanModel {
                stage: ScanStage::DropMeta,
                report: CleanupReport {
                    btrfs_deleted: (m.report.btrfs_deleted + 1) as u64,
                    ..m.report
                },
                ..m
            },
        },
        (ScanStage::DropMeta, _) => next_meta(
            ScanModel {
                report: CleanupReport { removed: (m.report.removed + 1) as u64, ..m.report },
                ..m
            },
        ),
        _ => m,
    }
}

/// A scan that has not begun.
pub open spec fn fresh_scan(subdirs: Seq<Seq<char>>, meta_suffix: Seq<char>) -> ScanModel {
    ScanModel {
        subdirs,
        meta_suffix,
        stage: ScanStage::Mounts,
        mounts: Seq::empty(),
        dirs: Seq::empty(),
        dir: Seq::empty(),
        files: Seq::empty(),
        meta_path: Seq::empty(),
        target: Seq::empty(),
        snapshot: Seq::empty(),
        contained: false,
        report: empty_report(),
    }
}

/// Begins a scan for snapshots that no worktree uses any more.
pub fn cleanup_orphaned_btrfs_snapshots(storage: SnapshotStorage) -> (r: OrphanScan)
    ensures
        r.wf(),
        r@ == fresh_scan(views(storage.subdirs@), storage.meta_suffix@),
{
    let r = OrphanScan {
        storage,
        stage: ScanStage::Mounts,
        mounts: Vec::new(),
        dirs: Vec::new(),
        next_dir: 0,
        dir: String::new(),
        files: Vec::new(),
        next_file: 0,
        meta_path: String::new(),
        target: String::new(),
        snapshot: String::new(),
        contained: false,
        report: CleanupReport::default(),
    };
    proof {
        assert(r@.mounts =~= Seq::empty());
        assert(r@.dirs =~= Seq::empty());
        assert(r@.dir =~= Seq::empty());
        assert(r@.files =~= Seq::empty());
        assert(r@.meta_path =~= Seq::empty());
        assert(r@.target =~= Seq::empty());
        assert(r@.snapshot =~= Seq::empty());
    }
    r
}

impl OrphanScan {
    /// The places in the two lists lie inside them.
    pub open spec fn wf(self) -> bool {
        self.next_dir <= self.dirs@.len() && self.next_file <= self.files@.len()
    }

    /// What the scan is waiting for.
    pub fn request(&self) -> (r: Request)
        ensures
            r@ == scan_request(self@),
    {
        match self.stage {
            ScanStage::Mounts => Request { op: Op::ReadMounts, path: self.dir.clone() },
            ScanStage::Listing => Request { op: Op::ListDir, path: self.dir.clone() },
            ScanStage::ReadingMeta => Request {
                op: Op::ReadMetadata,
                path: self.meta_path.clone(),
            },
            ScanStage::DropBroken | ScanStage::DropMeta => Request {
                op: Op::RemoveFile,
                path: self.meta_path.clone(),
            },
            ScanStage::TargetLink | ScanStage::ReferenceLink => Request {
                op: Op::IsSymlink,
                path: self.target.clone(),
            },
            ScanStage::TargetRead => Request { op: Op::ReadLink, path: self.target.clone() },
            ScanStage::ParentProbe => Request {
                op: Op::Exists,
                path: match parent_of(self.target.as_str()) {
                    Some(p) => p,
                    None => self.target.clone(),
                },
            },
            ScanStage::SafeProbe => Request { op: Op::IsSafeTarget, path: self.snapshot.clone() },
            ScanStage::SnapshotProbe | ScanStage::SnapshotAgain => Request {
                op: Op::Exists,
                path: self.snapshot.clone(),
            },
            ScanStage::ReferenceUnlink => Request {
                op: Op::RemoveFile,
                path: self.target.clone(),
            },
            ScanStage::ReferenceUmount => Request { op: Op::Umount, path: self.target.clone() },
            ScanStage::ReferenceRmdir => Request { op: Op::RemoveDir, path: self.target.clone() },
            ScanStage::Delete => Request { op: Op::DeleteSnapshot, path: self.snapshot.clone() },
            ScanStage::Finished => Request { op: Op::Finish, path: self.dir.clone() },
        }
    }

    fn next_storage(&mut self)
        requires
            old(self).wf(),
        ensures
            final(self).wf(),
            final(self)@ == next_storage(old(self)@),
    {
        if self.next_dir == self.dirs.len() {
            self.stage = ScanStage::Finished;
        } else {
            self.dir = self.dirs[self.next_dir].clone();
            self.next_dir = self.next_dir + 1;
            self.stage = ScanStage::Listing;
            assert(self@.dirs =~= old(self)@.dirs.skip(1));
        }
    }

    fn next_meta(&mut self)
        requires
            old(self).wf(),
        ensures
            final(self).wf(),
            final(self)@ == next_meta(old(self)@),
    {
        if self.next_file == self.files.len() {
            self.next_storage();
        } else {
            self.meta_path = self.files[self.next_file].clone();
            self.next_file = self.next_file + 1;
            self.stage = ScanStage::ReadingMeta;
            assert(self@.files =~= old(self)@.files.skip(1));
        }
    }

    fn check_storage(&mut self)
        ensures
            final(self).wf() == old(self).wf(),
            final(self)@ == check_storage(old(self)@),
    {
        self.contained = false;
        self.stage = if lies_directly_in(self.snapshot.as_str(), self.dir.as_str()) {
            ScanStage::SafeProbe
        } else {
            ScanStage::SnapshotProbe
        };
    }

    fn seems_orphaned(&mut self)
        ensures
            final(self).wf() == old(self).wf(),
            final(self)@ == seems_orphaned(old(self)@),
    {
        if parent_of(self.target.as_str()).is_some() {
            self.stage = ScanStage::ParentProbe;
        } else {
            self.check_storage();
        }
    }

    /// Takes in the answer to the request.
    pub fn reply(&mut self, reply: Reply)
        requires
            old(self).wf(),
            has_room(old(self).report),
            answers(scan_request(old(self)@).op, reply@),
        ensures
            final(self).wf(),
            final(self)@ == scan_after(old(self)@, reply@),
    {
        match (self.stage, reply) {
            (ScanStage::Mounts, Reply::Mounts(t)) => match t {
                Some(mounts) => {
                    self.dirs = storage_dirs_of(&mounts, &self.storage.subdirs);
                    self.next_dir = 0;
                    self.files = Vec::new();
                    self.next_file = 0;
                    self.mounts = mounts;
                    assert(self@.dirs =~= views(self.dirs@));
                    assert(self@.files =~= Seq::empty());
                    self.next_storage();
                },
                None => {
                    self.stage = ScanStage::Finished;
                },
            },
            (ScanStage::Listing, Reply::Entries(n)) => match n {
                Some(names) => {
                    self.files = metadata_files_of(
                        self.dir.as_str(),
                        &names,
                        self.storage.meta_suffix.as_str(),
                    );
                    self.next_file = 0;
                    assert(self@.files =~= views(self.files@));
                    self.next_meta();
                },
                None => self.next_storage(),
            },
            (ScanStage::ReadingMeta, Reply::Metadata(d)) => match d {
                Some(meta) => {
                    let active: bool = mounted_at(&self.mounts, meta.mount_target.as_str());
                    self.target = meta.mount_target;
                    self.snapshot = meta.snapshot_path;
                    if active {
                        self.next_meta();
                    } else {
                        self.stage = ScanStage::TargetLink;
                    }
                },
                None => {
                    self.stage = ScanStage::DropBroken;
                },
            },
            (ScanStage::DropBroken, _) => self.next_meta(),
            (ScanStage::TargetLink, Reply::Flag(link)) => {
                if link {
                    self.stage = ScanStage::TargetRead;
                } else {
                    self.seems_orphaned();
                }
            },
            (ScanStage::TargetRead, Reply::Text(t)) => {
                if symlink_resolves_to(self.target.as_str(), &t, self.snapshot.as_str()) {
                    self.next_meta();
                } else {
                    self.seems_orphaned();
                }
            },
            (ScanStage::ParentProbe, Reply::Flag(there)) => {
                if there {
                    self.check_storage();
                } else {
                    self.next_meta();
                }
            },
            (ScanStage::SafeProbe, Reply::Flag(safe)) => {
                self.contained = safe;
                self.stage = ScanStage::SnapshotProbe;
            },
            (ScanStage::SnapshotProbe, Reply::Flag(there)) => {
                if there && !self.contained {
                    self.report.errors = self.report.errors + 1;
                    self.next_meta();
                } else {
                    self.stage = ScanStage::ReferenceLink;
                }
            },
            (ScanStage::ReferenceLink, Reply::Flag(link)) => {
                self.stage = if link {
                    ScanStage::ReferenceUnlink
                } else {
                    ScanStage::ReferenceUmount
                };
            },
            (ScanStage::ReferenceUmount, _) => {
                self.stage = ScanStage::ReferenceRmdir;
            },
            (ScanStage::ReferenceUnlink, _) | (ScanStage::ReferenceRmdir, _) => {
                self.stage = ScanStage::SnapshotAgain;
            },
            (ScanStage::SnapshotAgain, Reply::Flag(there)) => {
                self.stage = if there {
                    ScanStage::Delete
                } else {
                    ScanStage::DropMeta
                };
            },
            (ScanStage::Delete, Reply::Done(e)) => match e {
                Some(_) => {
                    self.report.errors = self.report.errors + 1;
                    self.next_meta();
                },
                None => {
                    self.report.btrfs_deleted = self.report.btrfs_deleted + 1;
                    self.stage = ScanStage::DropMeta;
                },
            },
            (ScanStage::DropMeta, _) => {
                self.report.removed = self.report.removed + 1;
                self.next_meta();
            },
            _ => {},
        }
    }
}

// ---------------------------------------------------------------------- laws

/// The scan deals with a snapshot that it takes for an orphan.
pub open spec fn past_active(stage: ScanStage) -> bool {
    match stage {
        ScanStage::ParentProbe
        | ScanStage::SafeProbe
        | ScanStage::SnapshotProbe
        | ScanStage::ReferenceLink
        | ScanStage::ReferenceUnlink
        | ScanStage::ReferenceUmount
        | ScanStage::ReferenceRmdir
        | ScanStage::SnapshotAgain
        | ScanStage::Delete
        | ScanStage::DropMeta => true,
        _ => false,
    }
}

/// What a scan keeps at every stage.
pub open spec fn scan_sound(m: ScanModel) -> bool {
    &&& past_active(m.stage) || m.stage == ScanStage::TargetLink || m.stage == ScanStage::TargetRead
        ==> !is_mounted(m.mounts, m.target)
    &&& past_active(m.stage) && (m.contained || m.stage == ScanStage::SafeProbe) && m.stage
        != ScanStage::ParentProbe ==> directly_in(m.snapshot, m.dir)
    &&& m.report.overlays_unmounted == 0
    &&& m.report.btrfs_deleted <= m.report.removed + (if m.stage == ScanStage::DropMeta {
        1int
    } else {
        0
    })
}

/// Every answer keeps a scan sound. In particular no scan ever deletes the snapshot of
/// a target that is mounted, and it never reports more snapshots deleted than orphans
/// dealt with.
#[verifier::spinoff_prover]
#[verifier::rlimit(40)]
pub proof fn scan_stays_sound(m: ScanModel, reply: ReplyModel)
    requires
        scan_sound(m),
        has_room(m.report),
        answers(scan_request(m).op, reply),
    ensures
        scan_sound(scan_after(m, reply)),
{
}

/// A fresh scan is sound.
pub proof fn fresh_scan_is_sound(subdirs: Seq<Seq<char>>, meta_suffix: Seq<char>)
    ensures
        scan_sound(fresh_scan(subdirs, meta_suffix)),
{
}

/// A snapshot that may be in use is spared: when its target is mounted, when a link at
/// the target leads to it, and when the directory of the target is missing, the scan
/// goes on to the next metadata file with the report as it was.
pub proof fn used_snapshots_are_spared(m: ScanModel, reply: ReplyModel)
    requires
        answers(scan_request(m).op, reply),
        ({
            ||| m.stage == ScanStage::ReadingMeta && (reply matches ReplyModel::Metadata(Some(d))
                && is_mounted(m.mounts, d.mount_target))
            ||| m.stage == ScanStage::TargetRead && (reply matches ReplyModel::Text(Some(t))
                && leads_to(m.target, t, m.snapshot))
            ||| m.stage == ScanStage::ParentProbe && reply == ReplyModel::Flag(false)
        }),
    ensures
        ({
            let n = scan_after(m, reply);
            &&& n.report == m.report
            &&& n.stage == ScanStage::ReadingMeta || n.stage == ScanStage::Listing || n.stage
                == ScanStage::Finished
        }),
{
}

/// Nothing is done to an orphan, nor to what refers to it, where its snapshot is there
/// but does not lie directly in the storage directory looked into or is no safe target:
/// that counts as an error, and its metadata stays.
pub proof fn foreign_snapshots_are_refused(m: ScanModel)
    requires
        m.stage == ScanStage::SnapshotProbe,
        !m.contained,
        m.report.errors < u64::MAX,
    ensures
        ({
            let n = scan_after(m, ReplyModel::Flag(true));
            &&& n.report.errors == m.report.errors + 1
            &&& n.report.removed == m.report.removed
            &&& n.report.btrfs_deleted == m.report.btrfs_deleted
            &&& n.stage == ScanStage::ReadingMeta || n.stage == ScanStage::Listing || n.stage
                == ScanStage::Finished
        }),
{
}

/// How many more steps the metadata file that is dealt with can take.
pub open spec fn meta_left(stage: ScanStage) -> nat {
    match stage {
        ScanStage::ReadingMeta => 12,
        ScanStage::TargetLink => 11,
        ScanStage::TargetRead => 10,
        ScanStage::ParentProbe => 9,
        ScanStage::SafeProbe => 8,
        ScanStage::SnapshotProbe => 7,
        ScanStage::ReferenceLink => 6,
        ScanStage::ReferenceUmount => 5,
        ScanStage::ReferenceUnlink | ScanStage::ReferenceRmdir => 4,
        ScanStage::SnapshotAgain => 3,
        ScanStage::Delete => 2,
        ScanStage::DropMeta | ScanStage::DropBroken => 1,
        _ => 0,
    }
}

/// What is still to be done: the table of mounts, and then the storage directories.
pub open spec fn phase_left(stage: ScanStage) -> nat {
    match stage {
        ScanStage::Mounts => 2,
        ScanStage::Finished => 0,
        _ => 1,
    }
}

/// Whether a storage directory is still to be listed.
pub open spec fn listing_left(stage: ScanStage) -> nat {
    match stage {
        ScanStage::Listing => 1,
        _ => 0,
    }
}

/// Every answer brings a scan nearer to its end, so every scan comes to one: by storage
/// directories, by the metadata files in each, and by the steps for each file.
pub proof fn scan_moves_on(m: ScanModel, reply: ReplyModel)
    requires
        answers(scan_request(m).op, reply),
    ensures
        ({
            let n = scan_after(m, reply);
            decreases_to!(
                phase_left(m.stage),
                m.dirs.len(),
                listing_left(m.stage),
                m.files.len(),
                meta_left(m.stage) =>
                phase_left(n.stage),
                n.dirs.len(),
                listing_left(n.stage),
                n.files.len(),
                meta_left(n.stage)
            )
        }),
{
}

} // verus!
