//! Taking down every worktree below a directory.
use crate::paths::{join_path, joined};
use crate::text::views;
use crate::worktree_host::{
    answers, ask, EntryKind, Op, RemovalModel, RemovalReply, Reply, ReplyModel, Request,
    RequestModel,
};
use crate::worktree_removal::git_entry;
use vstd::prelude::*;

verus! {

/// What became of many worktrees.
#[derive(Debug, Clone, Copy, PartialEq, Eq, Structural)]
pub struct CleanupReport {
    /// How many worktrees were removed.
    pub removed: u64,
    /// How many overlay mounts were unmounted.
    pub overlays_unmounted: u64,
    /// How many snapshots were deleted.
    pub btrfs_deleted: u64,
    /// How many worktrees could not be removed.
    pub errors: u64,
}

impl Default for CleanupReport {
    fn default() -> (r: Self)
        ensures
            r == empty_report(),
    {
        CleanupReport { removed: 0, overlays_unmounted: 0, btrfs_deleted: 0, errors: 0 }
    }
}

/// Nothing was done.
pub open spec fn empty_report() -> CleanupReport {
    CleanupReport { removed: 0, overlays_unmounted: 0, btrfs_deleted: 0, errors: 0 }
}

/// Every count can still go up by one.
pub open spec fn has_room(r: CleanupReport) -> bool {
    r.removed < u64::MAX && r.overlays_unmounted < u64::MAX && r.btrfs_deleted < u64::MAX && r.errors
        < u64::MAX
}

/// Whether every count can still go up by one.
pub fn report_has_room(r: &CleanupReport) -> (b: bool)
    ensures
        b == has_room(*r),
{
    r.removed < u64::MAX && r.overlays_unmounted < u64::MAX && r.btrfs_deleted < u64::MAX
        && r.errors < u64::MAX
}

/// The report after one more removal came out as `removal`.
pub open spec fn counted_removal(r: CleanupReport, removal: RemovalModel) -> CleanupReport {
    match removal {
        RemovalModel::Removed(x) => CleanupReport {
            removed: (r.removed + 1) as u64,
            overlays_unmounted: if x.unmounted_overlay {
                (r.overlays_unmounted + 1) as u64
            } else {
                r.overlays_unmounted
            },
            btrfs_deleted: if x.used_btrfs_delete {
                (r.btrfs_deleted + 1) as u64
            } else {
                r.btrfs_deleted
            },
            errors: r.errors,
        },
        _ => CleanupReport { errors: (r.errors + 1) as u64, ..r },
    }
}

/// Counts one more removal.
pub fn cleanup_single_worktree(removal: &RemovalReply, report: &mut CleanupReport)
    requires
        has_room(*old(report)),
    ensures
        *final(report) == counted_removal(*old(report), removal@),
{
    match removal {
        RemovalReply::Removed(x) => {
            report.removed = report.removed + 1;
            if x.unmounted_overlay {
                report.overlays_unmounted = report.overlays_unmounted + 1;
            }
            if x.used_btrfs_delete {
                report.btrfs_deleted = report.btrfs_deleted + 1;
            }
        },
        _ => {
            report.errors = report.errors + 1;
        },
    }
}

/// Where a cleanup stands.
#[derive(Debug, Clone, Copy, PartialEq, Eq, Structural)]
pub enum CleanupStage {
    /// The directory is listed.
    ListRoot,
    /// An entry of it is looked at.
    Entry,
    /// A directory is looked at for its `.git`.
    GitProbe,
    /// An entry is removed as a worktree.
    RemoveEntry,
    /// A directory that is no worktree is listed.
    ListSub,
    /// An entry of that directory is looked at.
    SubEntry,
    /// That entry is removed as a worktree.
    RemoveSub,
    /// The directory goes if nothing is left in it.
    DropDir,
    Finished,
}

/// A cleanup under way.
#[derive(Debug)]
pub struct CleanupTask {
    pub dir: String,
    pub delegate: bool,
    pub stage: CleanupStage,
    pub names: Vec<String>,
    pub next_name: usize,
    pub path: String,
    pub subs: Vec<String>,
    pub next_sub: usize,
    pub sub_path: String,
    pub report: CleanupReport,
}

/// [`CleanupTask`] by its texts.
pub struct CleanupModel {
    pub dir: Seq<char>,
    /// Each removal has a privileged helper to fall back on.
    pub delegate: bool,
    pub stage: CleanupStage,
    /// The entries of the directory not dealt with yet.
    pub names: Seq<Seq<char>>,
    /// The entry that is dealt with.
    pub path: Seq<char>,
    /// The entries of that entry not dealt with yet.
    pub subs: Seq<Seq<char>>,
    /// The one that is dealt with.
    pub sub_path: Seq<char>,
    pub report: CleanupReport,
}

impl View for CleanupTask {
    type V = CleanupModel;

    open spec fn view(&self) -> CleanupModel {
        CleanupModel {
            dir: self.dir@,
            delegate: self.delegate,
            stage: self.stage,
            names: views(self.names@).skip(self.next_name as int),
            path: self.path@,
            subs: views(self.subs@).skip(self.next_sub as int),
            sub_path: self.sub_path@,
            report: self.report,
        }
    }
}

/// On to the next entry of the directory.
pub open spec fn next_entry(m: CleanupModel) -> CleanupModel {
    if m.names.len() == 0 {
        CleanupModel { stage: CleanupStage::Finished, ..m }
    } else {
        CleanupModel {
            stage: CleanupStage::Entry,
            path: joined(m.dir, m.names[0]),
            names: m.names.skip(1),
            ..m
        }
    }
}

/// On to the next entry of the entry.
pub open spec fn next_sub(m: CleanupModel) -> CleanupModel {
    if m.subs.len() == 0 {
        CleanupModel { stage: CleanupStage::DropDir, ..m }
    } else {
        CleanupModel {
            stage: CleanupStage::SubEntry,
            sub_path: joined(m.path, m.subs[0]),
            subs: m.subs.skip(1),
            ..m
        }
    }
}

/// What the cleanup is waiting for.
pub open spec fn cleanup_request(m: CleanupModel) -> RequestModel {
    match m.stage {
        CleanupStage::ListRoot => ask(Op::ListDir, m.dir),
        CleanupStage::Entry => ask(Op::EntryKind, m.path),
        CleanupStage::GitProbe => ask(Op::Exists, git_entry(m.path)),
        CleanupStage::RemoveEntry => ask(Op::RemoveWorktree, m.path),
        CleanupStage::ListSub => ask(Op::ListDir, m.path),
        CleanupStage::SubEntry => ask(Op::EntryKind, m.sub_path),
        CleanupStage::RemoveSub => ask(Op::RemoveWorktree, m.sub_path),
        CleanupStage::DropDir => ask(Op::RemoveDir, m.path),
        CleanupStage::Finished => ask(Op::Finish, m.dir),
    }
}

/// The cleanup after the answer to its request. A link is a worktree, and so is a
/// directory with a `.git`; in any other directory every link and directory is one.
pub open spec fn cleanup_after(m: CleanupModel, reply: ReplyModel) -> CleanupModel {
    match (m.stage, reply) {
        (CleanupStage::ListRoot, ReplyModel::Entries(n)) => match n {
            Some(names) => next_entry(CleanupModel { names, ..m }),
            None => CleanupModel { stage: CleanupStage::Finished, ..m },
        },
        (CleanupStage::Entry, ReplyModel::Kind(k)) => match k {
            EntryKind::Symlink => CleanupModel { stage: CleanupStage::RemoveEntry, ..m },
            EntryKind::Directory => CleanupModel { stage: CleanupStage::GitProbe, ..m },
            _ => next_entry(m),
        },
        (CleanupStage::GitProbe, ReplyModel::Flag(git)) => CleanupModel {
            stage: if git {
                CleanupStage::RemoveEntry
            } else {
                CleanupStage::ListSub
            },
            ..m
        },
        (CleanupStage::RemoveEntry, ReplyModel::Removal(r)) => next_entry(
            CleanupModel { report: counted_removal(m.report, r), ..m },
        ),
        (CleanupStage::ListSub, ReplyModel::Entries(n)) => match n {
            Some(subs) => next_sub(CleanupModel { subs, ..m }),
            None => CleanupModel { stage: CleanupStage::DropDir, ..m },
        },
        (CleanupStage::SubEntry, ReplyModel::Kind(k)) => match k {
            EntryKind::Symlink | EntryKind::Directory => CleanupModel {
                stage: CleanupStage::RemoveSub,
                ..m
            },
            _ => next_sub(m),
        },
        (CleanupStage::RemoveSub, ReplyModel::Removal(r)) => next_sub(
            CleanupModel { report: counted_removal(m.report, r), ..m },
        ),
        (CleanupStage::DropDir, _) => next_entry(m),
        _ => m,
    }
}

/// A cleanup that has not begun.
pub open spec fn fresh_cleanup(dir: Seq<char>, delegate: bool) -> CleanupModel {
    CleanupModel {
        dir,
        delegate,
        stage: CleanupStage::ListRoot,
        names: Seq::empty(),
        path: Seq::empty(),
        subs: Seq::empty(),
        sub_path: Seq::empty(),
        report: empty_report(),
    }
}

/// Begins the removal of all worktrees below `dir`.
pub fn cleanup_worktrees_in(dir: &str) -> (r: CleanupTask)
    ensures
        r.wf(),
        r@ == fresh_cleanup(dir@, false),
{
    cleanup_worktrees_in_with_delegate(dir, false)
}

/// Begins the removal of all worktrees below `dir`, each with a privileged helper to
/// fall back on where `delegate` says so.
pub fn cleanup_worktrees_in_with_delegate(dir: &str, delegate: bool) -> (r: CleanupTask)
    ensures
        r.wf(),
        r@ == fresh_cleanup(dir@, delegate),
{
    let r = CleanupTask {
        dir: dir.to_owned(),
        delegate,
        stage: CleanupStage::ListRoot,
        names: Vec::new(),
        next_name: 0,
        path: String::new(),
        subs: Vec::new(),
        next_sub: 0,
        sub_path: String::new(),
        report: CleanupReport::default(),
    };
    proof {
        assert(r@.names =~= Seq::empty());
        assert(r@.subs =~= Seq::empty());
        assert(r@.path =~= Seq::empty());
        assert(r@.sub_path =~= Seq::empty());
    }
    r
}

impl CleanupTask {
    /// The places in the two lists lie inside them.
    pub open spec fn wf(self) -> bool {
        self.next_name <= self.names@.len() && self.next_sub <= self.subs@.len()
    }

    /// What the cleanup is waiting for.
    pub fn request(&self) -> (r: Request)
        ensures
            r@ == cleanup_request(self@),
    {
        match self.stage {
            CleanupStage::ListRoot => Request { op: Op::ListDir, path: self.dir.clone() },
            CleanupStage::Entry => Request { op: Op::EntryKind, path: self.path.clone() },
            CleanupStage::GitProbe => Request {
                op: Op::Exists,
                path: join_path(self.path.as_str(), ".git"),
            },
            CleanupStage::RemoveEntry => Request {
                op: Op::RemoveWorktree,
                path: self.path.clone(),
            },
            CleanupStage::ListSub => Request { op: Op::ListDir, path: self.path.clone() },
            CleanupStage::SubEntry => Request { op: Op::EntryKind, path: self.sub_path.clone() },
            CleanupStage::RemoveSub => Request {
                op: Op::RemoveWorktree,
                path: self.sub_path.clone(),
            },
            CleanupStage::DropDir => Request { op: Op::RemoveDir, path: self.path.clone() },
            CleanupStage::Finished => Request { op: Op::Finish, path: self.dir.clone() },
        }
    }

    fn next_entry(&mut self)
        requires
            old(self).wf(),
        ensures
            final(self).wf(),
            final(self)@ == next_entry(old(self)@),
    {
        if self.next_name == self.names.len() {
            self.stage = CleanupStage::Finished;
        } else {
            self.path = join_path(self.dir.as_str(), self.names[self.next_name].as_str());
            self.next_name = self.next_name + 1;
            self.stage = CleanupStage::Entry;
            assert(self@.names =~= old(self)@.names.skip(1));
        }
    }

    fn next_sub(&mut self)
        requires
            old(self).wf(),
        ensures
            final(self).wf(),
            final(self)@ == next_sub(old(self)@),
    {
        if self.next_sub == self.subs.len() {
            self.stage = CleanupStage::DropDir;
        } else {
            self.sub_path = join_path(self.path.as_str(), self.subs[self.next_sub].as_str());
            self.next_sub = self.next_sub + 1;
            self.stage = CleanupStage::SubEntry;
            assert(self@.subs =~= old(self)@.subs.skip(1));
        }
    }

    /// Takes in the answer to the request.
    pub fn reply(&mut self, reply: Reply)
        requires
            old(self).wf(),
            has_room(old(self).report),
            answers(cleanup_request(old(self)@).op, reply@),
        ensures
            final(self).wf(),
            final(self)@ == cleanup_after(old(self)@, reply@),
    {
        match (self.stage, reply) {
            (CleanupStage::ListRoot, Reply::Entries(n)) => match n {
                Some(names) => {
                    self.names = names;
                    self.next_name = 0;
                    assert(self@.names =~= views(self.names@));
                    self.next_entry();
                },
                None => {
                    self.stage = CleanupStage::Finished;
                },
            },
            (CleanupStage::Entry, Reply::Kind(k)) => match k {
                EntryKind::Symlink => {
                    self.stage = CleanupStage::RemoveEntry;
                },
                EntryKind::Directory => {
                    self.stage = CleanupStage::GitProbe;
                },
                _ => self.next_entry(),
            },
            (CleanupStage::GitProbe, Reply::Flag(git)) => {
                self.stage = if git {
                    CleanupStage::RemoveEntry
                } else {
                    CleanupStage::ListSub
                };
            },
            (CleanupStage::RemoveEntry, Reply::Removal(r)) => {
                cleanup_single_worktree(&r, &mut self.report);
                self.next_entry();
            },
            (CleanupStage::ListSub, Reply::Entries(n)) => match n {
                Some(subs) => {
                    self.subs = subs;
                    self.next_sub = 0;
                    assert(self@.subs =~= views(self.subs@));
                    self.next_sub();
                },
                None => {
                    self.stage = CleanupStage::DropDir;
                },
            },
            (CleanupStage::SubEntry, Reply::Kind(k)) => match k {
                EntryKind::Symlink | EntryKind::Directory => {
                    self.stage = CleanupStage::RemoveSub;
                },
                _ => self.next_sub(),
            },
            (CleanupStage::RemoveSub, Reply::Removal(r)) => {
                cleanup_single_worktree(&r, &mut self.report);
                self.next_sub();
            },
            (CleanupStage::DropDir, _) => self.next_entry(),
            _ => {},
        }
    }
}

/// Every worktree that was handed out for removal is counted once, as removed or as an
/// error, and nothing else is counted.
pub proof fn every_removal_is_counted(m: CleanupModel, reply: ReplyModel)
    requires
        has_room(m.report),
        answers(cleanup_request(m).op, reply),
    ensures
        ({
            let n = cleanup_after(m, reply);
            let one: int = if cleanup_request(m).op == Op::RemoveWorktree {
                1
            } else {
                0
            };
            &&& n.report.removed + n.report.errors == m.report.removed + m.report.errors + one
            &&& one == 0 ==> n.report == m.report
            &&& m.report.btrfs_deleted <= m.report.removed ==> n.report.btrfs_deleted
                <= n.report.removed
            &&& m.report.overlays_unmounted <= m.report.removed ==> n.report.overlays_unmounted
                <= n.report.removed
        }),
{
}

/// A directory is taken for a worktree only where it has a `.git` or lies in a
/// directory that has none; nothing but links and directories is ever removed so.
pub proof fn only_worktrees_are_removed(m: CleanupModel, reply: ReplyModel)
    requires
        answers(cleanup_request(m).op, reply),
    ensures
        cleanup_request(cleanup_after(m, reply)).op == Op::RemoveWorktree ==> {
            ||| cleanup_request(m) == ask(Op::EntryKind, m.path) && reply == ReplyModel::Kind(
                EntryKind::Symlink,
            )
            ||| cleanup_request(m) == ask(Op::Exists, git_entry(m.path)) && reply
                == ReplyModel::Flag(true)
            ||| cleanup_request(m) == ask(Op::EntryKind, m.sub_path) && (reply == ReplyModel::Kind(
                EntryKind::Symlink,
            ) || reply == ReplyModel::Kind(EntryKind::Directory))
        },
{
}

/// How many more steps the entry that is dealt with can take, its own entries aside.
pub open spec fn entry_left(stage: CleanupStage) -> nat {
    match stage {
        CleanupStage::ListRoot => 6,
        CleanupStage::Entry => 5,
        CleanupStage::GitProbe => 4,
        CleanupStage::RemoveEntry | CleanupStage::ListSub => 3,
        CleanupStage::SubEntry | CleanupStage::RemoveSub => 2,
        CleanupStage::DropDir => 1,
        CleanupStage::Finished => 0,
    }
}

/// What is still to be done: the listing of the directory, and then its entries.
pub open spec fn phase_left(stage: CleanupStage) -> nat {
    match stage {
        CleanupStage::ListRoot => 2,
        CleanupStage::Finished => 0,
        _ => 1,
    }
}

/// How many more steps the entries of an entry can take.
pub open spec fn subs_left(m: CleanupModel) -> nat {
    2 * m.subs.len() + if m.stage == CleanupStage::SubEntry {
        1nat
    } else {
        0nat
    }
}

/// Every answer brings a clean-up nearer to its end, so every clean-up comes to one: by
/// entries, by the steps for each, and by what is in it.
pub proof fn cleanup_moves_on(m: CleanupModel, reply: ReplyModel)
    requires
        answers(cleanup_request(m).op, reply),
    ensures
        ({
            let n = cleanup_after(m, reply);
            decreases_to!(
                phase_left(m.stage),
                m.names.len(),
                entry_left(m.stage),
                subs_left(m) =>
                phase_left(n.stage),
                n.names.len(),
                entry_left(n.stage),
                subs_left(n)
            )
        }),
{
}

} // verus!
