//! What worktree upkeep asks of the machine it runs on, and what it is told.
//!
//! Taking worktrees down alternates between looking, deciding and doing. The
//! deciding stands in this library: each decision is a [`Request`], and what came of
//! it is handed back as a [`Reply`].
use crate::text::{text_of, views};
use vstd::prelude::*;

verus! {

/// What became of a worktree that was removed.
#[derive(Debug, Clone, Copy, PartialEq, Eq, Structural)]
pub struct RemoveReport {
    /// A snapshot was deleted as a whole.
    pub used_btrfs_delete: bool,
    /// A bind mount was unmounted first.
    pub unmounted_bind: bool,
    /// An overlay mount was unmounted first.
    pub unmounted_overlay: bool,
}

/// What a request is about; each is about one path.
#[derive(Debug, Clone, Copy, PartialEq, Eq, Structural)]
pub enum Op {
    /// Remove an overlay worktree that is mounted: answered by a report.
    OverlayFromMountinfo,
    /// Remove an overlay worktree by its stored metadata: answered by a report.
    OverlayFromMetadata,
    /// Read the table of mounts: answered by its entries.
    ReadMounts,
    /// List a directory: answered by its entries.
    ListDir,
    /// Read a snapshot's metadata file: answered by the metadata.
    ReadMetadata,
    /// May this subvolume be deleted as a snapshot: answered by a flag.
    IsSafeTarget,
    /// Is there a symbolic link here: answered by a flag.
    IsSymlink,
    /// Is there anything here, links followed: answered by a flag.
    Exists,
    /// Read where a link points: answered by a text.
    ReadLink,
    /// Read a file: answered by a text.
    ReadText,
    /// Resolve a path to its canonical form: answered by a text.
    Canonicalize,
    /// Is this a subvolume: answered by what is known of it.
    IsSubvolume,
    /// What stands here, links not followed: answered by its kind.
    EntryKind,
    /// Unmount: answered by how that went.
    Umount,
    /// Delete a snapshot.
    DeleteSnapshot,
    /// Have the privileged helper delete the snapshot behind a worktree: answered by
    /// a report.
    DelegateDelete,
    /// Drop what is stored of a snapshot.
    ForgetSnapshot,
    /// Remove a file or a link.
    RemoveFile,
    /// Remove an empty directory.
    RemoveDir,
    /// Remove a directory with all that is in it.
    RemoveDirAll,
    /// Remove a worktree: answered by a report.
    RemoveWorktree,
    /// Strike a worktree from the record.
    Unregister,
    /// Nothing more is to be done.
    Finish,
}

/// One thing to do or to look up.
#[derive(Debug)]
pub struct Request {
    pub op: Op,
    pub path: String,
}

/// [`Request`] by its text.
pub struct RequestModel {
    pub op: Op,
    pub path: Seq<char>,
}

impl View for Request {
    type V = RequestModel;

    open spec fn view(&self) -> RequestModel {
        RequestModel { op: self.op, path: self.path@ }
    }
}

/// The request for `op` on `path`.
pub open spec fn ask(op: Op, path: Seq<char>) -> RequestModel {
    RequestModel { op, path }
}

/// One entry of the table of mounts.
#[derive(Debug)]
pub struct MountEntry {
    pub fs_type: String,
    pub mount_point: String,
}

/// [`MountEntry`] by its texts.
pub struct MountModel {
    pub fs_type: Seq<char>,
    pub mount_point: Seq<char>,
}

impl View for MountEntry {
    type V = MountModel;

    open spec fn view(&self) -> MountModel {
        MountModel { fs_type: self.fs_type@, mount_point: self.mount_point@ }
    }
}

/// What is stored of a snapshot.
#[derive(Debug)]
pub struct SnapshotMetadata {
    /// Where the worktree is reached.
    pub mount_target: String,
    /// Where the snapshot lies.
    pub snapshot_path: String,
}

/// [`SnapshotMetadata`] by its texts.
pub struct MetadataModel {
    pub mount_target: Seq<char>,
    pub snapshot_path: Seq<char>,
}

impl View for SnapshotMetadata {
    type V = MetadataModel;

    open spec fn view(&self) -> MetadataModel {
        MetadataModel { mount_target: self.mount_target@, snapshot_path: self.snapshot_path@ }
    }
}

/// How an unmount went.
#[derive(Debug, Clone, Copy, PartialEq, Eq, Structural)]
pub enum UmountOutcome {
    /// The command could not be run.
    NotRun,
    /// The command ran and failed.
    Failed,
    /// The mount is gone.
    Unmounted,
}

/// What stands at a path, links not followed.
#[derive(Debug, Clone, Copy, PartialEq, Eq, Structural)]
pub enum EntryKind {
    Symlink,
    Directory,
    File,
    /// Nothing, or nothing that can be looked at.
    Missing,
}

/// How a removal that was handed out went.
#[derive(Debug)]
pub enum RemovalReply {
    /// It was done, with this report.
    Removed(RemoveReport),
    /// It was not of the kind asked for.
    NotApplicable,
    /// It failed, with this message.
    Failed(String),
}

/// [`RemovalReply`] by its text.
pub enum RemovalModel {
    Removed(RemoveReport),
    NotApplicable,
    Failed(Seq<char>),
}

impl View for RemovalReply {
    type V = RemovalModel;

    open spec fn view(&self) -> RemovalModel {
        match self {
            RemovalReply::Removed(r) => RemovalModel::Removed(*r),
            RemovalReply::NotApplicable => RemovalModel::NotApplicable,
            RemovalReply::Failed(e) => RemovalModel::Failed(e@),
        }
    }
}

/// What came of a request.
#[derive(Debug)]
pub enum Reply {
    /// It was done, or it failed with this message.
    Done(Option<String>),
    Flag(bool),
    Text(Option<String>),
    Removal(RemovalReply),
    Mounts(Option<Vec<MountEntry>>),
    /// The names in a directory, where it can be read.
    Entries(Option<Vec<String>>),
    /// The metadata in a file, where it can be read and makes sense.
    Metadata(Option<SnapshotMetadata>),
    /// Nothing for what is no subvolume; else from where it is bind-mounted, if it is.
    Subvolume(Option<Option<String>>),
    Umounted(UmountOutcome),
    Kind(EntryKind),
}

/// [`Reply`] by its texts.
pub enum ReplyModel {
    Done(Option<Seq<char>>),
    Flag(bool),
    Text(Option<Seq<char>>),
    Removal(RemovalModel),
    Mounts(Option<Seq<MountModel>>),
    Entries(Option<Seq<Seq<char>>>),
    Metadata(Option<MetadataModel>),
    Subvolume(Option<Option<Seq<char>>>),
    Umounted(UmountOutcome),
    Kind(EntryKind),
}

/// The texts of a table of mounts.
pub open spec fn mount_models(v: Seq<MountEntry>) -> Seq<MountModel> {
    v.map_values(|e: MountEntry| e@)
}

impl View for Reply {
    type V = ReplyModel;

    open spec fn view(&self) -> ReplyModel {
        match self {
            Reply::Done(e) => ReplyModel::Done(text_of(*e)),
            Reply::Flag(b) => ReplyModel::Flag(*b),
            Reply::Text(t) => ReplyModel::Text(text_of(*t)),
            Reply::Removal(r) => ReplyModel::Removal(r@),
            Reply::Mounts(m) => ReplyModel::Mounts(
                match m {
                    Some(v) => Some(mount_models(v@)),
                    None => None,
                },
            ),
            Reply::Entries(n) => ReplyModel::Entries(
                match n {
                    Some(v) => Some(views(v@)),
                    None => None,
                },
            ),
            Reply::Metadata(m) => ReplyModel::Metadata(
                match m {
                    Some(x) => Some(x@),
                    None => None,
                },
            ),
            Reply::Subvolume(s) => ReplyModel::Subvolume(
                match s {
                    Some(b) => Some(text_of(*b)),
                    None => None,
                },
            ),
            Reply::Umounted(u) => ReplyModel::Umounted(*u),
            Reply::Kind(k) => ReplyModel::Kind(*k),
        }
    }
}

/// `reply` is an answer to a request for `op`.
pub open spec fn answers(op: Op, reply: ReplyModel) -> bool {
    match op {
        Op::OverlayFromMountinfo
        | Op::OverlayFromMetadata
        | Op::DelegateDelete
        | Op::RemoveWorktree => reply is Removal,
        Op::ReadMounts => reply is Mounts,
        Op::ListDir => reply is Entries,
        Op::ReadMetadata => reply is Metadata,
        Op::IsSafeTarget | Op::IsSymlink | Op::Exists => reply is Flag,
        Op::ReadLink | Op::ReadText | Op::Canonicalize => reply is Text,
        Op::IsSubvolume => reply is Subvolume,
        Op::EntryKind => reply is Kind,
        Op::Umount => reply is Umounted,
        Op::DeleteSnapshot
        | Op::ForgetSnapshot
        | Op::RemoveFile
        | Op::RemoveDir
        | Op::RemoveDirAll
        | Op::Unregister => reply is Done,
        Op::Finish => false,
    }
}

/// Whether `reply` is an answer to a request for `op`.
pub fn is_answer(op: Op, reply: &Reply) -> (r: bool)
    ensures
        r == answers(op, reply@),
{
    match op {
        Op::OverlayFromMountinfo
        | Op::OverlayFromMetadata
        | Op::DelegateDelete
        | Op::RemoveWorktree => matches!(reply, Reply::Removal(_)),
        Op::ReadMounts => matches!(reply, Reply::Mounts(_)),
        Op::ListDir => matches!(reply, Reply::Entries(_)),
        Op::ReadMetadata => matches!(reply, Reply::Metadata(_)),
        Op::IsSafeTarget | Op::IsSymlink | Op::Exists => matches!(reply, Reply::Flag(_)),
        Op::ReadLink | Op::ReadText | Op::Canonicalize => matches!(reply, Reply::Text(_)),
        Op::IsSubvolume => matches!(reply, Reply::Subvolume(_)),
        Op::EntryKind => matches!(reply, Reply::Kind(_)),
        Op::Umount => matches!(reply, Reply::Umounted(_)),
        Op::DeleteSnapshot
        | Op::ForgetSnapshot
        | Op::RemoveFile
        | Op::RemoveDir
        | Op::RemoveDirAll
        | Op::Unregister => matches!(reply, Reply::Done(_)),
        Op::Finish => false,
    }
}

} // verus!
