//! Taking one worktree down by the fastest way that applies.
//!
//! In turn: an overlay mount, a snapshot known from stored metadata, a snapshot
//! behind a link, a bind mount or the path itself, and last a plain removal of the
//! directory together with its registration. The record of the worktree goes only
//! once the worktree itself is gone from disk.
use crate::paths::{join_path, joined, parent, parent_of, same_path, same_path_as};
use crate::text::{
    ends_with, ends_with_text, same_text, strip_prefix, strip_prefix_text, text_of, trim, trim_text,
    views,
};
use crate::worktree_host::{
    answers, ask, mount_models, Op, Reply, ReplyModel, Request, RequestModel, RemovalModel,
    RemovalReply, RemoveReport, MountEntry, MountModel, UmountOutcome, EntryKind,
};
use vstd::prelude::*;
use vstd::string::StringExecFns;

verus! {

/// Where snapshots and what is stored of them are found.
#[derive(Debug)]
pub struct SnapshotStorage {
    /// The directories below a btrfs mount in which snapshots lie.
    pub subdirs: Vec<String>,
    /// How the name of a metadata file ends.
    pub meta_suffix: String,
}

/// Where a removal stands: each stage waits for the answer to one request.
#[derive(Debug, Clone, Copy, PartialEq, Eq, Structural)]
pub enum Stage {
    OverlayLive,
    OverlayStored,
    Mounts,
    Listing,
    ReadingMeta,
    MetaSafe,
    MetaLink,
    MetaUmount,
    MetaExists,
    MetaDelete,
    MetaDelegate,
    MetaDropReference,
    MetaDropFile,
    LinkProbe,
    LinkRead,
    LinkBroken,
    LinkSubvolume,
    LinkSafe,
    LinkRefused,
    LinkDelete,
    LinkDelegate,
    LinkForget,
    LinkUnlink,
    LinkOther,
    DirectProbe,
    DirectUmount,
    DirectRmdir,
    DirectDelete,
    DirectDelegate,
    DirectForget,
    GitFile,
    GitCanonical,
    PlainKind,
    PlainUnlink,
    PlainRemove,
    RegistrationProbe,
    RegistrationRemove,
    Unregistering,
    Finished,
}

/// How a removal came out.
#[derive(Debug)]
pub enum RemovalOutcome {
    Pending,
    Removed(RemoveReport),
    Failed(String),
}

/// [`RemovalOutcome`] by its text.
pub enum OutcomeModel {
    Pending,
    Removed(RemoveReport),
    Failed(Seq<char>),
}

impl View for RemovalOutcome {
    type V = OutcomeModel;

    open spec fn view(&self) -> OutcomeModel {
        match self {
            RemovalOutcome::Pending => OutcomeModel::Pending,
            RemovalOutcome::Removed(r) => OutcomeModel::Removed(*r),
            RemovalOutcome::Failed(e) => OutcomeModel::Failed(e@),
        }
    }
}

/// A removal under way.
#[derive(Debug)]
pub struct RemovalTask {
    pub worktree: String,
    pub delegate: bool,
    pub storage: SnapshotStorage,
    pub stage: Stage,
    pub dirs: Vec<String>,
    pub next_dir: usize,
    pub dir: String,
    pub files: Vec<String>,
    pub next_file: usize,
    pub meta_path: String,
    pub snapshot: String,
    pub registration: Option<String>,
    pub contained: bool,
    pub symlink: bool,
    pub unmounted: bool,
    pub deleted: bool,
    pub refused: bool,
    pub error: String,
    pub outcome: RemovalOutcome,
}

/// [`RemovalTask`] by its texts.
pub struct TaskModel {
    /// The path of the worktree.
    pub worktree: Seq<char>,
    /// There is a privileged helper to fall back on.
    pub delegate: bool,
    pub subdirs: Seq<Seq<char>>,
    pub meta_suffix: Seq<char>,
    pub stage: Stage,
    /// The storage directories not looked into yet.
    pub dirs: Seq<Seq<char>>,
    /// The storage directory that is looked into.
    pub dir: Seq<char>,
    /// The metadata files of that directory not read yet.
    pub files: Seq<Seq<char>>,
    /// The metadata file that is read.
    pub meta_path: Seq<char>,
    /// The snapshot that is dealt with.
    pub snapshot: Seq<char>,
    /// The registration of a linked worktree.
    pub registration: Option<Seq<char>>,
    /// The snapshot lies in the directory looked into and may be deleted.
    pub contained: bool,
    /// The worktree is a link.
    pub symlink: bool,
    pub unmounted: bool,
    pub deleted: bool,
    /// The snapshot was left alone because it lies elsewhere.
    pub refused: bool,
    /// Why the snapshot could not be deleted.
    pub error: Seq<char>,
    pub outcome: OutcomeModel,
}

impl View for RemovalTask {
    type V = TaskModel;

    open spec fn view(&self) -> TaskModel {
        TaskModel {
            worktree: self.worktree@,
            delegate: self.delegate,
            subdirs: views(self.storage.subdirs@),
            meta_suffix: self.storage.meta_suffix@,
            stage: self.stage,
            dirs: views(self.dirs@).skip(self.next_dir as int),
            dir: self.dir@,
            files: views(self.files@).skip(self.next_file as int),
            meta_path: self.meta_path@,
            snapshot: self.snapshot@,
            registration: text_of(self.registration),
            contained: self.contained,
            symlink: self.symlink,
            unmounted: self.unmounted,
            deleted: self.deleted,
            refused: self.refused,
            error: self.error@,
            outcome: self.outcome@,
        }
    }
}

// -------------------------------------------------------------- the decisions

/// The path of the `.git` entry of a worktree.
pub open spec fn git_entry(worktree: Seq<char>) -> Seq<char> {
    joined(worktree, ".git"@)
}

/// The registration directory that the `.git` file of a linked worktree names.
pub open spec fn gitdir_in(content: Seq<char>, worktree: Seq<char>) -> Option<Seq<char>> {
    match strip_prefix(trim(content), "gitdir: "@) {
        Some(p) => Some(joined(worktree, p)),
        None => None,
    }
}

/// Where a link at `link` that reads `target` leads.
pub open spec fn link_resolved(link: Seq<char>, target: Seq<char>) -> Seq<char> {
    joined(
        match parent(link) {
            Some(p) => p,
            None => "/"@,
        },
        target,
    )
}

/// The storage directories below the btrfs mounts.
pub open spec fn storage_dirs(mounts: Seq<MountModel>, subdirs: Seq<Seq<char>>) -> Seq<Seq<char>>
    decreases mounts.len(),
{
    if mounts.len() == 0 {
        Seq::empty()
    } else {
        let before = storage_dirs(mounts.drop_last(), subdirs);
        let m = mounts.last();
        if m.fs_type == "btrfs"@ {
            before + subdirs.map_values(|s: Seq<char>| joined(m.mount_point, s))
        } else {
            before
        }
    }
}

/// The metadata files among the entries of a storage directory.
pub open spec fn metadata_files(dir: Seq<char>, names: Seq<Seq<char>>, suffix: Seq<char>) -> Seq<
    Seq<char>,
>
    decreases names.len(),
{
    if names.len() == 0 {
        Seq::empty()
    } else {
        let before = metadata_files(dir, names.drop_last(), suffix);
        if ends_with(names.last(), suffix) {
            before.push(joined(dir, names.last()))
        } else {
            before
        }
    }
}

/// `path` lies directly in `dir`.
pub open spec fn directly_in(path: Seq<char>, dir: Seq<char>) -> bool {
    parent(path) is Some && same_path(parent(path)->0, dir)
}

/// The worktree is gone from disk: its record can go too.
pub open spec fn succeed(m: TaskModel, report: RemoveReport) -> TaskModel {
    TaskModel { stage: Stage::Unregistering, outcome: OutcomeModel::Removed(report), ..m }
}

/// The removal has failed.
pub open spec fn fail(m: TaskModel, message: Seq<char>) -> TaskModel {
    TaskModel { stage: Stage::Finished, outcome: OutcomeModel::Failed(message), ..m }
}

/// The report of a removal in which no overlay took part.
pub open spec fn report(used_btrfs_delete: bool, unmounted_bind: bool) -> RemoveReport {
    RemoveReport { used_btrfs_delete, unmounted_bind, unmounted_overlay: false }
}

/// On to the next stage.
pub open spec fn at(m: TaskModel, stage: Stage) -> TaskModel {
    TaskModel { stage, ..m }
}

/// On to the next storage directory, or to the worktree path itself when all have
/// been looked into.
pub open spec fn next_dir(m: TaskModel) -> TaskModel {
    if m.dirs.len() == 0 {
        at(m, Stage::LinkProbe)
    } else {
        TaskModel { stage: Stage::Listing, dir: m.dirs[0], dirs: m.dirs.skip(1), ..m }
    }
}

/// On to the next metadata file, or to the next directory when all have been read.
pub open spec fn next_file(m: TaskModel) -> TaskModel {
    if m.files.len() == 0 {
        next_dir(m)
    } else {
        TaskModel { stage: Stage::ReadingMeta, meta_path: m.files[0], files: m.files.skip(1), ..m }
    }
}

/// The direct deletion of the snapshot has failed: the helper is tried where there
/// is one.
pub open spec fn after_failed_delete(m: TaskModel, e: Seq<char>, helper: Stage) -> TaskModel {
    if m.delegate {
        TaskModel { stage: helper, error: e, ..m }
    } else {
        fail(m, e)
    }
}

/// The helper has answered: its report stands; else the first failure does.
pub open spec fn after_delegate(m: TaskModel, r: RemovalModel) -> TaskModel {
    match r {
        RemovalModel::Removed(report) => succeed(m, report),
        _ => fail(m, m.error),
    }
}

/// The working tree is gone: the registration follows.
pub open spec fn after_plain(m: TaskModel) -> TaskModel {
    if m.registration is Some {
        at(m, Stage::RegistrationProbe)
    } else {
        succeed(m, report(false, false))
    }
}

/// What the task is waiting for.
pub open spec fn request_of(m: TaskModel) -> RequestModel {
    match m.stage {
        Stage::OverlayLive => ask(Op::OverlayFromMountinfo, m.worktree),
        Stage::OverlayStored => ask(Op::OverlayFromMetadata, m.worktree),
        Stage::Mounts => ask(Op::ReadMounts, m.worktree),
        Stage::Listing => ask(Op::ListDir, m.dir),
        Stage::ReadingMeta => ask(Op::ReadMetadata, m.meta_path),
        Stage::MetaSafe | Stage::LinkSafe => ask(Op::IsSafeTarget, m.snapshot),
        Stage::MetaLink | Stage::LinkProbe => ask(Op::IsSymlink, m.worktree),
        Stage::MetaUmount | Stage::DirectUmount => ask(Op::Umount, m.worktree),
        Stage::MetaExists => ask(Op::Exists, m.snapshot),
        Stage::MetaDelete | Stage::LinkDelete | Stage::DirectDelete => ask(
            Op::DeleteSnapshot,
            m.snapshot,
        ),
        Stage::MetaDelegate | Stage::LinkDelegate | Stage::DirectDelegate => ask(
            Op::DelegateDelete,
            m.worktree,
        ),
        Stage::MetaDropReference => ask(
            if m.symlink {
                Op::RemoveFile
            } else {
                Op::RemoveDir
            },
            m.worktree,
        ),
        Stage::MetaDropFile => ask(Op::RemoveFile, m.meta_path),
        Stage::LinkRead => ask(Op::ReadLink, m.worktree),
        Stage::LinkSubvolume => ask(Op::IsSubvolume, m.snapshot),
        Stage::LinkForget | Stage::DirectForget => ask(Op::ForgetSnapshot, m.snapshot),
        Stage::LinkBroken | Stage::LinkRefused | Stage::LinkUnlink | Stage::LinkOther
        | Stage::PlainUnlink => ask(Op::RemoveFile, m.worktree),
        Stage::DirectProbe => ask(Op::IsSubvolume, m.worktree),
        Stage::DirectRmdir => ask(Op::RemoveDir, m.worktree),
        Stage::GitFile => ask(Op::ReadText, git_entry(m.worktree)),
        Stage::GitCanonical => ask(
            Op::Canonicalize,
            match m.registration {
                Some(p) => p,
                None => Seq::empty(),
            },
        ),
        Stage::PlainKind => ask(Op::EntryKind, m.worktree),
        Stage::PlainRemove => ask(Op::RemoveDirAll, m.worktree),
        Stage::RegistrationProbe => ask(
            Op::Exists,
            match m.registration {
                Some(p) => p,
                None => Seq::empty(),
            },
        ),
        Stage::RegistrationRemove => ask(
            Op::RemoveDirAll,
            match m.registration {
                Some(p) => p,
                None => Seq::empty(),
            },
        ),
        Stage::Unregistering => ask(Op::Unregister, m.worktree),
        Stage::Finished => ask(Op::Finish, m.worktree),
    }
}

/// The task after an answer about overlay mounts and stored metadata.
pub open spec fn after_search(m: TaskModel, reply: ReplyModel) -> TaskModel {
    match (m.stage, reply) {
        (Stage::OverlayLive, ReplyModel::Removal(r)) => match r {
            RemovalModel::Removed(report) => succeed(m, report),
            RemovalModel::NotApplicable => at(m, Stage::OverlayStored),
            RemovalModel::Failed(e) => fail(m, e),
        },
        (Stage::OverlayStored, ReplyModel::Removal(r)) => match r {
            RemovalModel::Removed(report) => succeed(m, report),
            RemovalModel::NotApplicable => at(m, Stage::Mounts),
            RemovalModel::Failed(e) => fail(m, e),
        },
        (Stage::Mounts, ReplyModel::Mounts(t)) => match t {
            Some(mounts) => next_dir(
                TaskModel {
                    dirs: storage_dirs(mounts, m.subdirs),
                    files: Seq::empty(),
                    ..m
                },
            ),
            None => at(m, Stage::LinkProbe),
        },
        (Stage::Listing, ReplyModel::Entries(n)) => match n {
            Some(names) => next_file(
                TaskModel { files: metadata_files(m.dir, names, m.meta_suffix), ..m },
            ),
            None => next_dir(m),
        },
        (Stage::ReadingMeta, ReplyModel::Metadata(d)) => match d {
            Some(meta) => if same_path(meta.mount_target, m.worktree) {
                TaskModel {
                    snapshot: meta.snapshot_path,
                    contained: false,
                    stage: if directly_in(meta.snapshot_path, m.dir) {
                        Stage::MetaSafe
                    } else {
                        Stage::MetaLink
                    },
                    ..m
                }
            } else {
                next_file(m)
            },
            None => next_file(m),
        },
        _ => m,
    }
}

/// The task after an answer about a snapshot known from stored metadata.
pub open spec fn after_stored(m: TaskModel, reply: ReplyModel) -> TaskModel {
    match (m.stage, reply) {
        (Stage::MetaSafe, ReplyModel::Flag(safe)) => TaskModel {
            contained: safe,
            stage: Stage::MetaLink,
            ..m
        },
        (Stage::MetaLink, ReplyModel::Flag(link)) => TaskModel {
            symlink: link,
            unmounted: false,
            stage: if link {
                Stage::MetaExists
            } else {
                Stage::MetaUmount
            },
            ..m
        },
        (Stage::MetaUmount, ReplyModel::Umounted(u)) => TaskModel {
            unmounted: u == UmountOutcome::Unmounted,
            stage: Stage::MetaExists,
            ..m
        },
        (Stage::MetaExists, ReplyModel::Flag(exists)) => TaskModel {
            deleted: false,
            refused: exists && !m.contained,
            stage: if exists && m.contained {
                Stage::MetaDelete
            } else {
                Stage::MetaDropReference
            },
            ..m
        },
        (Stage::MetaDelete, ReplyModel::Done(e)) => match e {
            Some(e) => after_failed_delete(m, e, Stage::MetaDelegate),
            None => TaskModel { deleted: true, stage: Stage::MetaDropReference, ..m },
        },
        (Stage::MetaDelegate, ReplyModel::Removal(r)) => after_delegate(m, r),
        (Stage::MetaDropReference, _) => if m.refused {
            succeed(m, report(m.deleted, m.unmounted))
        } else {
            at(m, Stage::MetaDropFile)
        },
        (Stage::MetaDropFile, _) => succeed(m, report(m.deleted, m.unmounted)),
        _ => m,
    }
}

/// The task after an answer about a worktree that is a link.
pub open spec fn after_linked(m: TaskModel, reply: ReplyModel) -> TaskModel {
    match (m.stage, reply) {
        (Stage::LinkProbe, ReplyModel::Flag(link)) => at(
            m,
            if link {
                Stage::LinkRead
            } else {
                Stage::DirectProbe
            },
        ),
        (Stage::LinkRead, ReplyModel::Text(t)) => match t {
            Some(target) => TaskModel {
                snapshot: link_resolved(m.worktree, target),
                stage: Stage::LinkSubvolume,
                ..m
            },
            None => at(m, Stage::LinkBroken),
        },
        (Stage::LinkBroken, _) => at(m, Stage::GitFile),
        (Stage::LinkSubvolume, ReplyModel::Subvolume(s)) => at(
            m,
            if s is Some {
                Stage::LinkSafe
            } else {
                Stage::LinkOther
            },
        ),
        (Stage::LinkSafe, ReplyModel::Flag(safe)) => at(
            m,
            if safe {
                Stage::LinkDelete
            } else {
                Stage::LinkRefused
            },
        ),
        (Stage::LinkRefused, _) => succeed(m, report(false, false)),
        (Stage::LinkDelete, ReplyModel::Done(e)) => match e {
            Some(e) => after_failed_delete(m, e, Stage::LinkDelegate),
            None => at(m, Stage::LinkForget),
        },
        (Stage::LinkDelegate, ReplyModel::Removal(r)) => after_delegate(m, r),
        (Stage::LinkForget, _) => at(m, Stage::LinkUnlink),
        (Stage::LinkUnlink, _) => succeed(m, report(true, false)),
        (Stage::LinkOther, _) => at(m, Stage::DirectProbe),
        _ => m,
    }
}

/// The task after an answer about a worktree that is a subvolume or a bind mount.
pub open spec fn after_direct(m: TaskModel, reply: ReplyModel) -> TaskModel {
    match (m.stage, reply) {
        (Stage::DirectProbe, ReplyModel::Subvolume(s)) => match s {
            Some(Some(source)) => TaskModel {
                snapshot: source,
                unmounted: false,
                stage: Stage::DirectUmount,
                ..m
            },
            Some(None) => TaskModel {
                snapshot: m.worktree,
                unmounted: false,
                stage: Stage::DirectDelete,
                ..m
            },
            None => at(m, Stage::GitFile),
        },
        (Stage::DirectUmount, ReplyModel::Umounted(u)) => match u {
            UmountOutcome::NotRun => fail(m, "failed to execute umount"@),
            UmountOutcome::Failed => at(m, Stage::DirectDelete),
            UmountOutcome::Unmounted => TaskModel {
                unmounted: true,
                stage: Stage::DirectRmdir,
                ..m
            },
        },
        (Stage::DirectRmdir, _) => at(m, Stage::DirectDelete),
        (Stage::DirectDelete, ReplyModel::Done(e)) => match e {
            Some(e) => after_failed_delete(m, e, Stage::DirectDelegate),
            None => at(m, Stage::DirectForget),
        },
        (Stage::DirectDelegate, ReplyModel::Removal(r)) => after_delegate(m, r),
        (Stage::DirectForget, _) => succeed(m, report(true, m.unmounted)),
        _ => m,
    }
}

/// The task after an answer about a plain worktree.
pub open spec fn after_directory(m: TaskModel, reply: ReplyModel) -> TaskModel {
    match (m.stage, reply) {
        (Stage::GitFile, ReplyModel::Text(t)) => {
            let named = match t {
                Some(content) => gitdir_in(content, m.worktree),
                None => None,
            };
            TaskModel {
                registration: named,
                stage: if named is Some {
                    Stage::GitCanonical
                } else {
                    Stage::PlainKind
                },
                ..m
            }
        },
        (Stage::GitCanonical, ReplyModel::Text(t)) => TaskModel {
            registration: if t is Some {
                t
            } else {
                m.registration
            },
            stage: Stage::PlainKind,
            ..m
        },
        (Stage::PlainKind, ReplyModel::Kind(k)) => match k {
            EntryKind::Symlink => at(m, Stage::PlainUnlink),
            EntryKind::Directory | EntryKind::File => at(m, Stage::PlainRemove),
            EntryKind::Missing => after_plain(m),
        },
        (Stage::PlainUnlink, ReplyModel::Done(e)) => match e {
            Some(_) => fail(m, "failed to remove worktree symlink: "@ + m.worktree),
            None => after_plain(m),
        },
        (Stage::PlainRemove, ReplyModel::Done(e)) => match e {
            Some(_) => fail(m, "failed to remove worktree directory: "@ + m.worktree),
            None => after_plain(m),
        },
        (Stage::RegistrationProbe, ReplyModel::Flag(there)) => if there {
            at(m, Stage::RegistrationRemove)
        } else {
            succeed(m, report(false, false))
        },
        (Stage::RegistrationRemove, _) => succeed(m, report(false, false)),
        (Stage::Unregistering, _) => at(m, Stage::Finished),
        _ => m,
    }
}

/// The part of the removal to which a stage belongs.
#[derive(Debug, Clone, Copy, PartialEq, Eq, Structural)]
pub enum Part {
    Search,
    Stored,
    Linked,
    Direct,
    Directory,
}

/// The part of the removal to which a stage belongs.
pub open spec fn part_of(stage: Stage) -> Part {
    match stage {
        Stage::OverlayLive
        | Stage::OverlayStored
        | Stage::Mounts
        | Stage::Listing
        | Stage::ReadingMeta => Part::Search,
        Stage::MetaSafe
        | Stage::MetaLink
        | Stage::MetaUmount
        | Stage::MetaExists
        | Stage::MetaDelete
        | Stage::MetaDelegate
        | Stage::MetaDropReference
        | Stage::MetaDropFile => Part::Stored,
        Stage::LinkProbe
        | Stage::LinkRead
        | Stage::LinkBroken
        | Stage::LinkSubvolume
        | Stage::LinkSafe
        | Stage::LinkRefused
        | Stage::LinkDelete
        | Stage::LinkDelegate
        | Stage::LinkForget
        | Stage::LinkUnlink
        | Stage::LinkOther => Part::Linked,
        Stage::DirectProbe
        | Stage::DirectUmount
        | Stage::DirectRmdir
        | Stage::DirectDelete
        | Stage::DirectDelegate
        | Stage::DirectForget => Part::Direct,
        _ => Part::Directory,
    }
}

/// The task after the answer to its request.
pub open spec fn after_reply(m: TaskModel, reply: ReplyModel) -> TaskModel {
    match part_of(m.stage) {
        Part::Search => after_search(m, reply),
        Part::Stored => after_stored(m, reply),
        Part::Linked => after_linked(m, reply),
        Part::Direct => after_direct(m, reply),
        Part::Directory => after_directory(m, reply),
    }
}

// ------------------------------------------------------------------ the task

/// Where a link at `link` that reads `target` leads.
pub fn resolve_link(link: &str, target: &str) -> (r: String)
    ensures
        r@ == link_resolved(link@, target@),
{
    match parent_of(link) {
        Some(p) => join_path(p.as_str(), target),
        None => join_path("/", target),
    }
}

/// The registration directory that the `.git` file of a linked worktree names.
pub fn read_worktree_gitdir(content: &str, worktree_path: &str) -> (r: Option<String>)
    ensures
        text_of(r) == gitdir_in(content@, worktree_path@),
{
    let trimmed: String = trim_text(content);
    match strip_prefix_text(trimmed.as_str(), "gitdir: ") {
        Some(p) => Some(join_path(worktree_path, p.as_str())),
        None => None,
    }
}

/// The storage directories below the btrfs mounts.
pub fn storage_dirs_of(mounts: &Vec<MountEntry>, subdirs: &Vec<String>) -> (r: Vec<String>)
    ensures
        views(r@) == storage_dirs(mount_models(mounts@), views(subdirs@)),
{
    let mut r: Vec<String> = Vec::new();
    let ghost all = mount_models(mounts@);
    let ghost subs = views(subdirs@);
    let mut i: usize = 0;
    assert(all.take(0) =~= Seq::empty());
    assert(views(r@) =~= Seq::empty());
    while i < mounts.len()
        invariant
            i <= mounts.len(),
            all == mount_models(mounts@),
            subs == views(subdirs@),
            views(r@) == storage_dirs(all.take(i as int), subs),
        decreases mounts.len() - i,
    {
        proof {
            assert(all.take(i as int + 1).drop_last() =~= all.take(i as int));
            assert(all.take(i as int + 1).last() == mounts@[i as int]@);
        }
        if same_text(mounts[i].fs_type.as_str(), "btrfs") {
            let ghost before = views(r@);
            let ghost point = mounts@[i as int].mount_point@;
            let ghost added = subs.map_values(|s: Seq<char>| joined(point, s));
            let mut j: usize = 0;
            assert(added.take(0) =~= Seq::empty());
            assert(before + added.take(0) =~= before);
            while j < subdirs.len()
                invariant
                    j <= subdirs.len(),
                    i < mounts.len(),
                    subs == views(subdirs@),
                    point == mounts@[i as int].mount_point@,
                    added == subs.map_values(|s: Seq<char>| joined(point, s)),
                    views(r@) == before + added.take(j as int),
                decreases subdirs.len() - j,
            {
                let d: String = join_path(mounts[i].mount_point.as_str(), subdirs[j].as_str());
                let ghost was = r@;
                r.push(d);
                assert(views(r@) =~= views(was).push(d@));
                assert(added[j as int] == d@);
                assert(added.take(j as int + 1) =~= added.take(j as int).push(d@));
                assert(before + added.take(j as int + 1) =~= (before + added.take(j as int)).push(d@));
                j += 1;
            }
            assert(added.take(j as int) =~= added);
        }
        i += 1;
    }
    assert(all.take(i as int) =~= all);
    r
}

/// The metadata files among the entries of a storage directory.
pub fn metadata_files_of(dir: &str, names: &Vec<String>, suffix: &str) -> (r: Vec<String>)
    ensures
        views(r@) == metadata_files(dir@, views(names@), suffix@),
{
    let mut r: Vec<String> = Vec::new();
    let ghost all = views(names@);
    let mut i: usize = 0;
    assert(all.take(0) =~= Seq::empty());
    assert(views(r@) =~= Seq::empty());
    while i < names.len()
        invariant
            i <= names.len(),
            all == views(names@),
            views(r@) == metadata_files(dir@, all.take(i as int), suffix@),
        decreases names.len() - i,
    {
        proof {
            assert(all.take(i as int + 1).drop_last() =~= all.take(i as int));
            assert(all.take(i as int + 1).last() == names@[i as int]@);
        }
        if ends_with_text(names[i].as_str(), suffix) {
            let p: String = join_path(dir, names[i].as_str());
            let ghost was = r@;
            r.push(p);
            assert(views(r@) =~= views(was).push(p@));
        }
        i += 1;
    }
    assert(all.take(i as int) =~= all);
    r
}

/// Whether `path` lies directly in `dir`.
pub fn lies_directly_in(path: &str, dir: &str) -> (r: bool)
    ensures
        r == directly_in(path@, dir@),
{
    match parent_of(path) {
        Some(p) => same_path_as(p.as_str(), dir),
        None => false,
    }
}

/// A removal that has not begun.
pub open spec fn fresh_task(
    worktree: Seq<char>,
    delegate: bool,
    subdirs: Seq<Seq<char>>,
    meta_suffix: Seq<char>,
    linux: bool,
) -> TaskModel {
    TaskModel {
        worktree,
        delegate,
        subdirs,
        meta_suffix,
        stage: if linux {
            Stage::OverlayLive
        } else {
            Stage::GitFile
        },
        dirs: Seq::empty(),
        dir: Seq::empty(),
        files: Seq::empty(),
        meta_path: Seq::empty(),
        snapshot: Seq::empty(),
        registration: None,
        contained: false,
        symlink: false,
        unmounted: false,
        deleted: false,
        refused: false,
        error: Seq::empty(),
        outcome: OutcomeModel::Pending,
    }
}

/// Begins the removal of the worktree at `worktree_path`. Overlay mounts and
/// snapshots are looked for on Linux only.
pub fn remove_worktree(worktree_path: &str, storage: SnapshotStorage, linux: bool) -> (r:
    RemovalTask)
    ensures
        r@ == fresh_task(
            worktree_path@,
            false,
            views(storage.subdirs@),
            storage.meta_suffix@,
            linux,
        ),
        r.wf(),
{
    remove_worktree_with_delegate(worktree_path, false, storage, linux)
}

/// Begins the removal of the worktree at `worktree_path`, with a privileged helper
/// to fall back on where `delegate` says so.
pub fn remove_worktree_with_delegate(
    worktree_path: &str,
    delegate: bool,
    storage: SnapshotStorage,
    linux: bool,
) -> (r: RemovalTask)
    ensures
        r@ == fresh_task(
            worktree_path@,
            delegate,
            views(storage.subdirs@),
            storage.meta_suffix@,
            linux,
        ),
        r.wf(),
{
    let r = RemovalTask {
        worktree: worktree_path.to_owned(),
        delegate,
        storage,
        stage: if linux {
            Stage::OverlayLive
        } else {
            Stage::GitFile
        },
        dirs: Vec::new(),
        next_dir: 0,
        dir: String::new(),
        files: Vec::new(),
        next_file: 0,
        meta_path: String::new(),
        snapshot: String::new(),
        registration: None,
        contained: false,
        symlink: false,
        unmounted: false,
        deleted: false,
        refused: false,
        error: String::new(),
        outcome: RemovalOutcome::Pending,
    };
    proof {
        assert(r@.dirs =~= Seq::empty());
        assert(r@.files =~= Seq::empty());
        assert(r@.dir =~= Seq::empty());
        assert(r@.meta_path =~= Seq::empty());
        assert(r@.snapshot =~= Seq::empty());
        assert(r@.error =~= Seq::empty());
    }
    r
}

impl RemovalTask {
    /// The places in the two lists lie inside them.
    pub open spec fn wf(self) -> bool {
        self.next_dir <= self.dirs@.len() && self.next_file <= self.files@.len()
    }

    /// What the task is waiting for.
    pub fn request(&self) -> (r: Request)
        ensures
            r@ == request_of(self@),
    {
        let op: Op = match self.stage {
            Stage::OverlayLive => Op::OverlayFromMountinfo,
            Stage::OverlayStored => Op::OverlayFromMetadata,
            Stage::Mounts => Op::ReadMounts,
            Stage::Listing => Op::ListDir,
            Stage::ReadingMeta => Op::ReadMetadata,
            Stage::MetaSafe | Stage::LinkSafe => Op::IsSafeTarget,
            Stage::MetaLink | Stage::LinkProbe => Op::IsSymlink,
            Stage::MetaUmount | Stage::DirectUmount => Op::Umount,
            Stage::MetaExists | Stage::RegistrationProbe => Op::Exists,
            Stage::MetaDelete | Stage::LinkDelete | Stage::DirectDelete => Op::DeleteSnapshot,
            Stage::MetaDelegate | Stage::LinkDelegate | Stage::DirectDelegate => Op::DelegateDelete,
            Stage::MetaDropReference => if self.symlink {
                Op::RemoveFile
            } else {
                Op::RemoveDir
            },
            Stage::MetaDropFile
            | Stage::LinkBroken
            | Stage::LinkRefused
            | Stage::LinkUnlink
            | Stage::LinkOther
            | Stage::PlainUnlink => Op::RemoveFile,
            Stage::LinkRead => Op::ReadLink,
            Stage::LinkSubvolume | Stage::DirectProbe => Op::IsSubvolume,
            Stage::LinkForget | Stage::DirectForget => Op::ForgetSnapshot,
            Stage::DirectRmdir => Op::RemoveDir,
            Stage::GitFile => Op::ReadText,
            Stage::GitCanonical => Op::Canonicalize,
            Stage::PlainKind => Op::EntryKind,
            Stage::PlainRemove | Stage::RegistrationRemove => Op::RemoveDirAll,
            Stage::Unregistering => Op::Unregister,
            Stage::Finished => Op::Finish,
        };
        let path: String = match self.stage {
            Stage::Listing => self.dir.clone(),
            Stage::ReadingMeta | Stage::MetaDropFile => self.meta_path.clone(),
            Stage::MetaSafe
            | Stage::LinkSafe
            | Stage::MetaExists
            | Stage::MetaDelete
            | Stage::LinkDelete
            | Stage::DirectDelete
            | Stage::LinkSubvolume
            | Stage::LinkForget
            | Stage::DirectForget => self.snapshot.clone(),
            Stage::GitFile => join_path(self.worktree.as_str(), ".git"),
            Stage::GitCanonical | Stage::RegistrationProbe | Stage::RegistrationRemove => {
                match &self.registration {
                    Some(p) => p.clone(),
                    None => {
                        let s = String::new();
                        assert(s@ =~= Seq::empty());
                        s
                    },
                }
            },
            _ => self.worktree.clone(),
        };
        Request { op, path }
    }

    fn succeed(&mut self, report: RemoveReport)
        ensures
            final(self)@ == succeed(old(self)@, report),
            final(self).wf() == old(self).wf(),
    {
        self.stage = Stage::Unregistering;
        self.outcome = RemovalOutcome::Removed(report);
    }

    fn succeed_with(&mut self, used_btrfs_delete: bool, unmounted_bind: bool)
        ensures
            final(self)@ == succeed(old(self)@, report(used_btrfs_delete, unmounted_bind)),
            final(self).wf() == old(self).wf(),
    {
        self.succeed(RemoveReport { used_btrfs_delete, unmounted_bind, unmounted_overlay: false });
    }

    fn fail(&mut self, message: String)
        ensures
            final(self)@ == fail(old(self)@, message@),
            final(self).wf() == old(self).wf(),
    {
        self.stage = Stage::Finished;
        self.outcome = RemovalOutcome::Failed(message);
    }

    fn next_dir(&mut self)
        requires
            old(self).wf(),
        ensures
            final(self)@ == next_dir(old(self)@),
            final(self).wf(),
    {
        if self.next_dir == self.dirs.len() {
            self.stage = Stage::LinkProbe;
        } else {
            self.dir = self.dirs[self.next_dir].clone();
            self.next_dir = self.next_dir + 1;
            self.stage = Stage::Listing;
            assert(self@.dirs =~= old(self)@.dirs.skip(1));
        }
    }

    fn next_file(&mut self)
        requires
            old(self).wf(),
        ensures
            final(self)@ == next_file(old(self)@),
            final(self).wf(),
    {
        if self.next_file == self.files.len() {
            self.next_dir();
        } else {
            self.meta_path = self.files[self.next_file].clone();
            self.next_file = self.next_file + 1;
            self.stage = Stage::ReadingMeta;
            assert(self@.files =~= old(self)@.files.skip(1));
        }
    }

    fn after_failed_delete(&mut self, e: String, helper: Stage)
        ensures
            final(self)@ == after_failed_delete(old(self)@, e@, helper),
            final(self).wf() == old(self).wf(),
    {
        if self.delegate {
            self.error = e;
            self.stage = helper;
        } else {
            self.fail(e);
        }
    }

    fn after_delegate(&mut self, r: RemovalReply)
        ensures
            final(self)@ == after_delegate(old(self)@, r@),
            final(self).wf() == old(self).wf(),
    {
        match r {
            RemovalReply::Removed(report) => self.succeed(report),
            _ => {
                let e: String = self.error.clone();
                self.fail(e);
            },
        }
    }

    fn after_plain(&mut self)
        ensures
            final(self)@ == after_plain(old(self)@),
            final(self).wf() == old(self).wf(),
    {
        if self.registration.is_some() {
            self.stage = Stage::RegistrationProbe;
        } else {
            self.succeed_with(false, false);
        }
    }

    #[verifier::rlimit(40)]
    fn after_search(&mut self, reply: Reply)
        requires
            old(self).wf(),
            part_of(old(self).stage) == Part::Search,
            answers(request_of(old(self)@).op, reply@),
        ensures
            final(self)@ == after_search(old(self)@, reply@),
            final(self).wf(),
    {
        match (self.stage, reply) {
            (Stage::OverlayLive, Reply::Removal(r)) => match r {
                RemovalReply::Removed(report) => self.succeed(report),
                RemovalReply::NotApplicable => {
                    self.stage = Stage::OverlayStored;
                },
                RemovalReply::Failed(e) => self.fail(e),
            },
            (Stage::OverlayStored, Reply::Removal(r)) => match r {
                RemovalReply::Removed(report) => self.succeed(report),
                RemovalReply::NotApplicable => {
                    self.stage = Stage::Mounts;
                },
                RemovalReply::Failed(e) => self.fail(e),
            },
            (Stage::Mounts, Reply::Mounts(t)) => match t {
                Some(mounts) => {
                    self.dirs = storage_dirs_of(&mounts, &self.storage.subdirs);
                    self.next_dir = 0;
                    self.files = Vec::new();
                    self.next_file = 0;
                    assert(self@.dirs =~= views(self.dirs@));
                    assert(self@.files =~= Seq::empty());
                    self.next_dir();
                },
                None => {
                    self.stage = Stage::LinkProbe;
                },
            },
            (Stage::Listing, Reply::Entries(n)) => match n {
                Some(names) => {
                    self.files = metadata_files_of(
                        self.dir.as_str(),
                        &names,
                        self.storage.meta_suffix.as_str(),
                    );
                    self.next_file = 0;
                    assert(self@.files =~= views(self.files@));
                    self.next_file();
                },
                None => self.next_dir(),
            },
            (Stage::ReadingMeta, Reply::Metadata(d)) => match d {
                Some(meta) => {
                    if same_path_as(meta.mount_target.as_str(), self.worktree.as_str()) {
                        self.stage =
                        if lies_directly_in(meta.snapshot_path.as_str(), self.dir.as_str()) {
                            Stage::MetaSafe
                        } else {
                            Stage::MetaLink
                        };
                        self.snapshot = meta.snapshot_path;
                        self.contained = false;
                    } else {
                        self.next_file();
                    }
                },
                None => self.next_file(),
            },
            _ => {},
        }
    }

    fn after_stored(&mut self, reply: Reply)
        requires
            old(self).wf(),
            part_of(old(self).stage) == Part::Stored,
            answers(request_of(old(self)@).op, reply@),
        ensures
            final(self)@ == after_stored(old(self)@, reply@),
            final(self).wf(),
    {
        match (self.stage, reply) {
            (Stage::MetaSafe, Reply::Flag(safe)) => {
                self.contained = safe;
                self.stage = Stage::MetaLink;
            },
            (Stage::MetaLink, Reply::Flag(link)) => {
                self.symlink = link;
                self.unmounted = false;
                self.stage = if link {
                    Stage::MetaExists
                } else {
                    Stage::MetaUmount
                };
            },
            (Stage::MetaUmount, Reply::Umounted(u)) => {
                self.unmounted = u == UmountOutcome::Unmounted;
                self.stage = Stage::MetaExists;
            },
            (Stage::MetaExists, Reply::Flag(exists)) => {
                self.deleted = false;
                self.refused = exists && !self.contained;
                self.stage = if exists && self.contained {
                    Stage::MetaDelete
                } else {
                    Stage::MetaDropReference
                };
            },
            (Stage::MetaDelete, Reply::Done(e)) => match e {
                Some(e) => self.after_failed_delete(e, Stage::MetaDelegate),
                None => {
                    self.deleted = true;
                    self.stage = Stage::MetaDropReference;
                },
            },
            (Stage::MetaDelegate, Reply::Removal(r)) => self.after_delegate(r),
            (Stage::MetaDropReference, _) => {
                if self.refused {
                    self.succeed_with(self.deleted, self.unmounted);
                } else {
                    self.stage = Stage::MetaDropFile;
                }
            },
            (Stage::MetaDropFile, _) => self.succeed_with(self.deleted, self.unmounted),
            _ => {},
        }
    }

    fn after_linked(&mut self, reply: Reply)
        requires
            old(self).wf(),
            part_of(old(self).stage) == Part::Linked,
            answers(request_of(old(self)@).op, reply@),
        ensures
            final(self)@ == after_linked(old(self)@, reply@),
            final(self).wf(),
    {
        match (self.stage, reply) {
            (Stage::LinkProbe, Reply::Flag(link)) => {
                self.stage = if link {
                    Stage::LinkRead
                } else {
                    Stage::DirectProbe
                };
            },
            (Stage::LinkRead, Reply::Text(t)) => match t {
                Some(target) => {
                    self.snapshot = resolve_link(self.worktree.as_str(), target.as_str());
                    self.stage = Stage::LinkSubvolume;
                },
                None => {
                    self.stage = Stage::LinkBroken;
                },
            },
            (Stage::LinkBroken, _) => {
                self.stage = Stage::GitFile;
            },
            (Stage::LinkSubvolume, Reply::Subvolume(s)) => {
                self.stage = if s.is_some() {
                    Stage::LinkSafe
                } else {
                    Stage::LinkOther
                };
            },
            (Stage::LinkSafe, Reply::Flag(safe)) => {
                self.stage = if safe {
                    Stage::LinkDelete
                } else {
                    Stage::LinkRefused
                };
            },
            (Stage::LinkRefused, _) => self.succeed_with(false, false),
            (Stage::LinkDelete, Reply::Done(e)) => match e {
                Some(e) => self.after_failed_delete(e, Stage::LinkDelegate),
                None => {
                    self.stage = Stage::LinkForget;
                },
            },
            (Stage::LinkDelegate, Reply::Removal(r)) => self.after_delegate(r),
            (Stage::LinkForget, _) => {
                self.stage = Stage::LinkUnlink;
            },
            (Stage::LinkUnlink, _) => self.succeed_with(true, false),
            (Stage::LinkOther, _) => {
                self.stage = Stage::DirectProbe;
            },
            _ => {},
        }
    }

    fn after_direct(&mut self, reply: Reply)
        requires
            old(self).wf(),
            part_of(old(self).stage) == Part::Direct,
            answers(request_of(old(self)@).op, reply@),
        ensures
            final(self)@ == after_direct(old(self)@, reply@),
            final(self).wf(),
    {
        match (self.stage, reply) {
            (Stage::DirectProbe, Reply::Subvolume(s)) => match s {
                Some(Some(source)) => {
                    self.snapshot = source;
                    self.unmounted = false;
                    self.stage = Stage::DirectUmount;
                },
                Some(None) => {
                    self.snapshot = self.worktree.clone();
                    self.unmounted = false;
                    self.stage = Stage::DirectDelete;
                },
                None => {
                    self.stage = Stage::GitFile;
                },
            },
            (Stage::DirectUmount, Reply::Umounted(u)) => match u {
                UmountOutcome::NotRun => self.fail("failed to execute umount".to_owned()),
                UmountOutcome::Failed => {
                    self.stage = Stage::DirectDelete;
                },
                UmountOutcome::Unmounted => {
                    self.unmounted = true;
                    self.stage = Stage::DirectRmdir;
                },
            },
            (Stage::DirectRmdir, _) => {
                self.stage = Stage::DirectDelete;
            },
            (Stage::DirectDelete, Reply::Done(e)) => match e {
                Some(e) => self.after_failed_delete(e, Stage::DirectDelegate),
                None => {
                    self.stage = Stage::DirectForget;
                },
            },
            (Stage::DirectDelegate, Reply::Removal(r)) => self.after_delegate(r),
            (Stage::DirectForget, _) => self.succeed_with(true, self.unmounted),
            _ => {},
        }
    }

    fn after_directory(&mut self, reply: Reply)
        requires
            old(self).wf(),
            part_of(old(self).stage) == Part::Directory,
            answers(request_of(old(self)@).op, reply@),
        ensures
            final(self)@ == after_directory(old(self)@, reply@),
            final(self).wf(),
    {
        match (self.stage, reply) {
            (Stage::GitFile, Reply::Text(t)) => {
                self.registration = match t {
                    Some(content) => read_worktree_gitdir(content.as_str(), self.worktree.as_str()),
                    None => None,
                };
                self.stage = if self.registration.is_some() {
                    Stage::GitCanonical
                } else {
                    Stage::PlainKind
                };
            },
            (Stage::GitCanonical, Reply::Text(t)) => {
                if t.is_some() {
                    self.registration = t;
                }
                self.stage = Stage::PlainKind;
            },
            (Stage::PlainKind, Reply::Kind(k)) => match k {
                EntryKind::Symlink => {
                    self.stage = Stage::PlainUnlink;
                },
                EntryKind::Directory | EntryKind::File => {
                    self.stage = Stage::PlainRemove;
                },
                EntryKind::Missing => self.after_plain(),
            },
            (Stage::PlainUnlink, Reply::Done(e)) => match e {
                Some(_) => {
                    let mut m: String = "failed to remove worktree symlink: ".to_owned();
                    m.append(self.worktree.as_str());
                    self.fail(m);
                },
                None => self.after_plain(),
            },
            (Stage::PlainRemove, Reply::Done(e)) => match e {
                Some(_) => {
                    let mut m: String = "failed to remove worktree directory: ".to_owned();
                    m.append(self.worktree.as_str());
                    self.fail(m);
                },
                None => self.after_plain(),
            },
            (Stage::RegistrationProbe, Reply::Flag(there)) => {
                if there {
                    self.stage = Stage::RegistrationRemove;
                } else {
                    self.succeed_with(false, false);
                }
            },
            (Stage::RegistrationRemove, _) => self.succeed_with(false, false),
            (Stage::Unregistering, _) => {
                self.stage = Stage::Finished;
            },
            _ => {},
        }
    }

    /// Takes in the answer to the request.
    pub fn reply(&mut self, reply: Reply)
        requires
            old(self).wf(),
            answers(request_of(old(self)@).op, reply@),
        ensures
            final(self)@ == after_reply(old(self)@, reply@),
            final(self).wf(),
    {
        match self.stage {
            Stage::OverlayLive
            | Stage::OverlayStored
            | Stage::Mounts
            | Stage::Listing
            | Stage::ReadingMeta => self.after_search(reply),
            Stage::MetaSafe
            | Stage::MetaLink
            | Stage::MetaUmount
            | Stage::MetaExists
            | Stage::MetaDelete
            | Stage::MetaDelegate
            | Stage::MetaDropReference
            | Stage::MetaDropFile => self.after_stored(reply),
            Stage::LinkProbe
            | Stage::LinkRead
            | Stage::LinkBroken
            | Stage::LinkSubvolume
            | Stage::LinkSafe
            | Stage::LinkRefused
            | Stage::LinkDelete
            | Stage::LinkDelegate
            | Stage::LinkForget
            | Stage::LinkUnlink
            | Stage::LinkOther => self.after_linked(reply),
            Stage::DirectProbe
            | Stage::DirectUmount
            | Stage::DirectRmdir
            | Stage::DirectDelete
            | Stage::DirectDelegate
            | Stage::DirectForget => self.after_direct(reply),
            _ => self.after_directory(reply),
        }
    }
}

} // verus!
