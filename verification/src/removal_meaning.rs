//! What a removal that succeeds has done, and why one that fails has failed, told by what
//! was asked of the machine and what it answered.
use crate::paths::{joined, same_path};
use crate::text::{ends_with, trim};
use crate::worktree_host::{
    answers, ask, EntryKind, MetadataModel, MountModel, Op, RemovalModel, RemoveReport, ReplyModel,
    RequestModel, UmountOutcome,
};
use crate::worktree_removal::{
    after_reply, directly_in, fresh_task, gitdir_in, link_resolved, metadata_files, part_of,
    request_of, storage_dirs, OutcomeModel, Part, Stage, TaskModel,
};
use crate::worktree_removal_laws::{after_all, delegate_is_fixed, proper_run, was_told};
use vstd::prelude::*;

verus! {

// ------------------------------------------------------------------ what was done

/// It was asked, whatever came of it.
pub open spec fn asked(h: spec_fn(RequestModel, ReplyModel) -> bool, op: Op, path: Seq<char>) -> bool {
    exists|r: ReplyModel| #[trigger] h(ask(op, path), r)
}

/// It was asked and was done.
pub open spec fn did(h: spec_fn(RequestModel, ReplyModel) -> bool, op: Op, path: Seq<char>) -> bool {
    h(ask(op, path), ReplyModel::Done(None))
}

/// It was asked and answered by this flag.
pub open spec fn flagged(
    h: spec_fn(RequestModel, ReplyModel) -> bool,
    op: Op,
    path: Seq<char>,
    flag: bool,
) -> bool {
    h(ask(op, path), ReplyModel::Flag(flag))
}

/// An overlay or the helper was removed with this report.
pub open spec fn handed_out(
    w: Seq<char>,
    h: spec_fn(RequestModel, ReplyModel) -> bool,
    r: RemoveReport,
) -> bool {
    let reply = ReplyModel::Removal(RemovalModel::Removed(r));
    h(ask(Op::OverlayFromMountinfo, w), reply) || h(ask(Op::OverlayFromMetadata, w), reply) || h(
        ask(Op::DelegateDelete, w),
        reply,
    )
}

/// The worktree was a link to a snapshot: the snapshot was deleted and then the link was
/// dropped, or the snapshot may not be deleted and only the link was dropped.
pub open spec fn link_dropped(
    w: Seq<char>,
    h: spec_fn(RequestModel, ReplyModel) -> bool,
    r: RemoveReport,
    t: Seq<char>,
) -> bool {
    let p = link_resolved(w, t);
    &&& h(ask(Op::ReadLink, w), ReplyModel::Text(Some(t)))
    &&& asked(h, Op::RemoveFile, w)
    &&& !r.unmounted_bind && !r.unmounted_overlay
    &&& if r.used_btrfs_delete {
        flagged(h, Op::IsSafeTarget, p, true) && did(h, Op::DeleteSnapshot, p) && asked(
            h,
            Op::ForgetSnapshot,
            p,
        )
    } else {
        flagged(h, Op::IsSafeTarget, p, false)
    }
}

/// There was stored metadata of the worktree: its snapshot was deleted, or was gone already,
/// or may not be deleted; the worktree was dropped, and the metadata unless the snapshot
/// is still there.
pub open spec fn stored_dropped(
    w: Seq<char>,
    h: spec_fn(RequestModel, ReplyModel) -> bool,
    r: RemoveReport,
    dir: Seq<char>,
    file: Seq<char>,
    meta: MetadataModel,
) -> bool {
    let p = meta.snapshot_path;
    &&& h(ask(Op::ReadMetadata, file), ReplyModel::Metadata(Some(meta)))
    &&& same_path(meta.mount_target, w)
    &&& asked(h, Op::ListDir, dir)
    &&& asked(h, Op::RemoveFile, w) || asked(h, Op::RemoveDir, w)
    &&& r.unmounted_bind ==> h(ask(Op::Umount, w), ReplyModel::Umounted(UmountOutcome::Unmounted))
    &&& !r.unmounted_overlay
    &&& if r.used_btrfs_delete {
        directly_in(p, dir) && flagged(h, Op::IsSafeTarget, p, true) && did(
            h,
            Op::DeleteSnapshot,
            p,
        ) && asked(h, Op::RemoveFile, file)
    } else {
        ||| flagged(h, Op::Exists, p, false) && asked(h, Op::RemoveFile, file)
        ||| flagged(h, Op::Exists, p, true) && (!directly_in(p, dir) || flagged(
            h,
            Op::IsSafeTarget,
            p,
            false,
        ))
    }
}

/// The worktree was a subvolume or a bind mount of one: that subvolume was deleted.
pub open spec fn subvolume_deleted(
    w: Seq<char>,
    h: spec_fn(RequestModel, ReplyModel) -> bool,
    r: RemoveReport,
    source: Option<Seq<char>>,
) -> bool {
    let p = match source {
        Some(p) => p,
        None => w,
    };
    &&& h(ask(Op::IsSubvolume, w), ReplyModel::Subvolume(Some(source)))
    &&& did(h, Op::DeleteSnapshot, p)
    &&& asked(h, Op::ForgetSnapshot, p)
    &&& r.used_btrfs_delete && !r.unmounted_overlay
    &&& r.unmounted_bind ==> source is Some && h(
        ask(Op::Umount, w),
        ReplyModel::Umounted(UmountOutcome::Unmounted),
    )
    &&& source is Some && !r.unmounted_bind ==> h(
        ask(Op::Umount, w),
        ReplyModel::Umounted(UmountOutcome::Failed),
    )
}

/// Nothing was there, or what was there was removed.
pub open spec fn entry_removed(w: Seq<char>, h: spec_fn(RequestModel, ReplyModel) -> bool) -> bool {
    ||| h(ask(Op::EntryKind, w), ReplyModel::Kind(EntryKind::Missing))
    ||| h(ask(Op::EntryKind, w), ReplyModel::Kind(EntryKind::Symlink)) && did(h, Op::RemoveFile, w)
    ||| (h(ask(Op::EntryKind, w), ReplyModel::Kind(EntryKind::Directory)) || h(
        ask(Op::EntryKind, w),
        ReplyModel::Kind(EntryKind::File),
    )) && did(h, Op::RemoveDirAll, w)
}

/// The `.git` file of the worktree reads `t`, which names the registration `reg`, if any.
pub open spec fn registered_at(
    w: Seq<char>,
    h: spec_fn(RequestModel, ReplyModel) -> bool,
    t: Option<Seq<char>>,
    reg: Option<Seq<char>>,
) -> bool {
    &&& h(ask(Op::ReadText, joined(w, ".git"@)), ReplyModel::Text(t))
    &&& match t {
        Some(content) => match gitdir_in(content, w) {
            Some(named) => {
                ||| h(ask(Op::Canonicalize, named), ReplyModel::Text(None)) && reg == Some(named)
                ||| reg is Some && h(ask(Op::Canonicalize, named), ReplyModel::Text(reg))
            },
            None => reg is None,
        },
        None => reg is None,
    }
}

/// The worktree was a plain one: it was removed, and its registration with it.
pub open spec fn plainly_removed(
    w: Seq<char>,
    h: spec_fn(RequestModel, ReplyModel) -> bool,
    r: RemoveReport,
    t: Option<Seq<char>>,
    reg: Option<Seq<char>>,
) -> bool {
    &&& registered_at(w, h, t, reg)
    &&& entry_removed(w, h)
    &&& reg is Some ==> flagged(h, Op::Exists, reg->0, false) || (flagged(h, Op::Exists, reg->0, true)
        && asked(h, Op::RemoveDirAll, reg->0))
    &&& !r.used_btrfs_delete && !r.unmounted_bind && !r.unmounted_overlay
}

/// The worktree is gone in one of these ways, and the report says just which.
pub open spec fn is_gone(
    w: Seq<char>,
    h: spec_fn(RequestModel, ReplyModel) -> bool,
    r: RemoveReport,
) -> bool {
    ||| handed_out(w, h, r)
    ||| exists|t: Seq<char>| #[trigger] link_dropped(w, h, r, t)
    ||| exists|dir: Seq<char>, file: Seq<char>, meta: MetadataModel| #[trigger]
        stored_dropped(w, h, r, dir, file, meta)
    ||| exists|source: Option<Seq<char>>| #[trigger] subvolume_deleted(w, h, r, source)
    ||| exists|t: Option<Seq<char>>, reg: Option<Seq<char>>| #[trigger]
        plainly_removed(w, h, r, t, reg)
}

/// The snapshot at `p` could not be deleted, for this reason.
pub open spec fn not_deleted(
    h: spec_fn(RequestModel, ReplyModel) -> bool,
    p: Seq<char>,
    e: Seq<char>,
) -> bool {
    h(ask(Op::DeleteSnapshot, p), ReplyModel::Done(Some(e)))
}

/// It was asked and failed.
pub open spec fn did_not(
    h: spec_fn(RequestModel, ReplyModel) -> bool,
    op: Op,
    path: Seq<char>,
    e: Seq<char>,
) -> bool {
    h(ask(op, path), ReplyModel::Done(Some(e)))
}

/// The removal failed with this message, for this reason.
pub open spec fn has_reason(
    w: Seq<char>,
    h: spec_fn(RequestModel, ReplyModel) -> bool,
    e: Seq<char>,
) -> bool {
    let reply = ReplyModel::Removal(RemovalModel::Failed(e));
    ||| h(ask(Op::OverlayFromMountinfo, w), reply)
    ||| h(ask(Op::OverlayFromMetadata, w), reply)
    ||| exists|p: Seq<char>| #[trigger] not_deleted(h, p, e)
    ||| e == "failed to execute umount"@ && h(
        ask(Op::Umount, w),
        ReplyModel::Umounted(UmountOutcome::NotRun),
    )
    ||| e == "failed to remove worktree symlink: "@ + w && exists|x: Seq<char>| #[trigger]
        did_not(h, Op::RemoveFile, w, x)
    ||| e == "failed to remove worktree directory: "@ + w && exists|x: Seq<char>| #[trigger]
        did_not(h, Op::RemoveDirAll, w, x)
}

// -------------------------------------------------------------------- on the way

spec fn knows_metadata(s: TaskModel, h: spec_fn(RequestModel, ReplyModel) -> bool) -> bool {
    exists|meta: MetadataModel|
        #[trigger] h(ask(Op::ReadMetadata, s.meta_path), ReplyModel::Metadata(Some(meta)))
            && same_path(meta.mount_target, s.worktree) && meta.snapshot_path == s.snapshot
}

spec fn knows_link(s: TaskModel, h: spec_fn(RequestModel, ReplyModel) -> bool) -> bool {
    exists|t: Seq<char>|
        #[trigger] h(ask(Op::ReadLink, s.worktree), ReplyModel::Text(Some(t))) && s.snapshot
            == link_resolved(s.worktree, t)
}

spec fn knows_subvolume(s: TaskModel, h: spec_fn(RequestModel, ReplyModel) -> bool) -> bool {
    let u = ask(Op::Umount, s.worktree);
    ||| h(ask(Op::IsSubvolume, s.worktree), ReplyModel::Subvolume(Some(None))) && s.snapshot
        == s.worktree && !s.unmounted
    ||| h(ask(Op::IsSubvolume, s.worktree), ReplyModel::Subvolume(Some(Some(s.snapshot)))) && h(
        u,
        ReplyModel::Umounted(
            if s.unmounted {
                UmountOutcome::Unmounted
            } else {
                UmountOutcome::Failed
            },
        ),
    )
}

spec fn knows_registration(s: TaskModel, h: spec_fn(RequestModel, ReplyModel) -> bool) -> bool {
    exists|t: Option<Seq<char>>| #[trigger] registered_at(s.worktree, h, t, s.registration)
}

spec fn on_the_way(s: TaskModel, h: spec_fn(RequestModel, ReplyModel) -> bool) -> bool {
    let w = s.worktree;
    let p = s.snapshot;
    &&& s.stage == Stage::ReadingMeta ==> asked(h, Op::ListDir, s.dir)
    &&& part_of(s.stage) == Part::Stored ==> {
        &&& knows_metadata(s, h)
        &&& asked(h, Op::ListDir, s.dir)
        &&& s.stage == Stage::MetaSafe ==> directly_in(p, s.dir) && !s.contained
        &&& s.contained ==> directly_in(p, s.dir) && flagged(h, Op::IsSafeTarget, p, true)
        &&& !s.contained && s.stage != Stage::MetaSafe ==> !directly_in(p, s.dir) || flagged(
            h,
            Op::IsSafeTarget,
            p,
            false,
        )
        &&& s.stage != Stage::MetaSafe && s.stage != Stage::MetaLink && s.stage != Stage::MetaUmount
            && s.unmounted ==> h(
            ask(Op::Umount, w),
            ReplyModel::Umounted(UmountOutcome::Unmounted),
        )
        &&& s.stage == Stage::MetaDelete ==> s.contained
        &&& s.stage == Stage::MetaDelegate ==> not_deleted(h, p, s.error)
        &&& s.stage == Stage::MetaDropReference || s.stage == Stage::MetaDropFile ==> {
            ||| s.deleted && !s.refused && s.contained && did(h, Op::DeleteSnapshot, p)
            ||| !s.deleted && s.refused && !s.contained && flagged(h, Op::Exists, p, true)
            ||| !s.deleted && !s.refused && flagged(h, Op::Exists, p, false)
        }
        &&& s.stage == Stage::MetaDelete ==> !s.refused
        &&& s.stage == Stage::MetaDropFile ==> !s.refused && (asked(h, Op::RemoveFile, w) || asked(
            h,
            Op::RemoveDir,
            w,
        ))
    }
    &&& s.stage == Stage::LinkSubvolume || s.stage == Stage::LinkSafe || s.stage
        == Stage::LinkRefused || s.stage == Stage::LinkDelete || s.stage == Stage::LinkDelegate
        || s.stage == Stage::LinkForget || s.stage == Stage::LinkUnlink ==> knows_link(s, h)
    &&& s.stage == Stage::LinkRefused ==> flagged(h, Op::IsSafeTarget, p, false)
    &&& s.stage == Stage::LinkDelete || s.stage == Stage::LinkForget || s.stage == Stage::LinkUnlink
        ==> flagged(h, Op::IsSafeTarget, p, true)
    &&& s.stage == Stage::LinkForget || s.stage == Stage::LinkUnlink ==> did(
        h,
        Op::DeleteSnapshot,
        p,
    )
    &&& s.stage == Stage::LinkUnlink ==> asked(h, Op::ForgetSnapshot, p)
    &&& s.stage == Stage::LinkDelegate || s.stage == Stage::DirectDelegate ==> not_deleted(
        h,
        p,
        s.error,
    )
    &&& s.stage == Stage::DirectUmount ==> !s.unmounted && h(
        ask(Op::IsSubvolume, w),
        ReplyModel::Subvolume(Some(Some(p))),
    )
    &&& s.stage == Stage::DirectRmdir ==> s.unmounted
    &&& s.stage == Stage::DirectRmdir || s.stage == Stage::DirectDelete || s.stage
        == Stage::DirectDelegate || s.stage == Stage::DirectForget ==> knows_subvolume(s, h)
    &&& s.stage == Stage::DirectForget ==> did(h, Op::DeleteSnapshot, p)
    &&& s.stage == Stage::GitCanonical ==> s.registration is Some && exists|content: Seq<char>|
        #[trigger] h(ask(Op::ReadText, joined(w, ".git"@)), ReplyModel::Text(Some(content)))
            && gitdir_in(content, w) == s.registration
    &&& s.stage == Stage::PlainKind || s.stage == Stage::PlainUnlink || s.stage == Stage::PlainRemove
        || s.stage == Stage::RegistrationProbe || s.stage == Stage::RegistrationRemove
        ==> knows_registration(s, h)
    &&& s.stage == Stage::PlainUnlink ==> h(
        ask(Op::EntryKind, w),
        ReplyModel::Kind(EntryKind::Symlink),
    )
    &&& s.stage == Stage::PlainRemove ==> h(
        ask(Op::EntryKind, w),
        ReplyModel::Kind(EntryKind::Directory),
    ) || h(ask(Op::EntryKind, w), ReplyModel::Kind(EntryKind::File))
    &&& s.stage == Stage::RegistrationProbe || s.stage == Stage::RegistrationRemove
        ==> entry_removed(w, h) && s.registration is Some
    &&& s.stage == Stage::RegistrationRemove ==> flagged(h, Op::Exists, s.registration->0, true)
    &&& match s.outcome {
        OutcomeModel::Pending => s.stage != Stage::Unregistering && s.stage != Stage::Finished,
        OutcomeModel::Removed(r) => (s.stage == Stage::Unregistering || s.stage == Stage::Finished)
            && is_gone(w, h, r),
        OutcomeModel::Failed(e) => s.stage == Stage::Finished && has_reason(w, h, e),
    }
}

spec fn grows(
    h: spec_fn(RequestModel, ReplyModel) -> bool,
    h2: spec_fn(RequestModel, ReplyModel) -> bool,
    q: RequestModel,
    reply: ReplyModel,
) -> bool {
    &&& forall|x: RequestModel, y: ReplyModel| #[trigger] h(x, y) ==> h2(x, y)
    &&& h2(q, reply)
}

#[verifier::spinoff_prover]
#[verifier::rlimit(60)]
proof fn search_step(
    m: TaskModel,
    reply: ReplyModel,
    h: spec_fn(RequestModel, ReplyModel) -> bool,
    h2: spec_fn(RequestModel, ReplyModel) -> bool,
)
    requires
        part_of(m.stage) == Part::Search,
        answers(request_of(m).op, reply),
        on_the_way(m, h),
        grows(h, h2, request_of(m), reply),
    ensures
        on_the_way(after_reply(m, reply), h2),
{
    assert(request_of(m).op == Op::ListDir ==> asked(h2, Op::ListDir, request_of(m).path));
}

#[verifier::spinoff_prover]
#[verifier::rlimit(60)]
proof fn stored_step(
    m: TaskModel,
    reply: ReplyModel,
    h: spec_fn(RequestModel, ReplyModel) -> bool,
    h2: spec_fn(RequestModel, ReplyModel) -> bool,
)
    requires
        part_of(m.stage) == Part::Stored,
        answers(request_of(m).op, reply),
        on_the_way(m, h),
        grows(h, h2, request_of(m), reply),
    ensures
        on_the_way(after_reply(m, reply), h2),
{
    let q = request_of(m);
    let n = after_reply(m, reply);
    let meta = choose|meta: MetadataModel|
        #[trigger] h(ask(Op::ReadMetadata, m.meta_path), ReplyModel::Metadata(Some(meta)))
            && same_path(meta.mount_target, m.worktree) && meta.snapshot_path == m.snapshot;
    assert(h2(ask(Op::ReadMetadata, m.meta_path), ReplyModel::Metadata(Some(meta))));
    assert(asked(h2, q.op, q.path)) by {
        assert(ask(q.op, q.path) == q);
    }
    assert(asked(h2, Op::ListDir, m.dir));
    if m.stage == Stage::MetaDropReference && m.refused || m.stage == Stage::MetaDropFile {
        let r = n.outcome->Removed_0;
        assert(stored_dropped(m.worktree, h2, r, m.dir, m.meta_path, meta));
        assert(is_gone(m.worktree, h2, r));
    }
    if m.stage == Stage::MetaDelete && reply is Done && reply->Done_0 is Some {
        assert(not_deleted(h2, m.snapshot, reply->Done_0->0));
    }
    if m.stage == Stage::MetaDelegate {
        assert(not_deleted(h2, m.snapshot, m.error));
    }
}

#[verifier::spinoff_prover]
#[verifier::rlimit(60)]
proof fn linked_step(
    m: TaskModel,
    reply: ReplyModel,
    h: spec_fn(RequestModel, ReplyModel) -> bool,
    h2: spec_fn(RequestModel, ReplyModel) -> bool,
)
    requires
        part_of(m.stage) == Part::Linked,
        answers(request_of(m).op, reply),
        on_the_way(m, h),
        grows(h, h2, request_of(m), reply),
    ensures
        on_the_way(after_reply(m, reply), h2),
{
    let q = request_of(m);
    let n = after_reply(m, reply);
    assert(asked(h2, q.op, q.path)) by {
        assert(ask(q.op, q.path) == q);
    }
    if knows_link(m, h) {
        let t = choose|t: Seq<char>|
            #[trigger] h(ask(Op::ReadLink, m.worktree), ReplyModel::Text(Some(t))) && m.snapshot
                == link_resolved(m.worktree, t);
        assert(h2(ask(Op::ReadLink, m.worktree), ReplyModel::Text(Some(t))));
        if m.stage == Stage::LinkRefused || m.stage == Stage::LinkUnlink {
            assert(link_dropped(m.worktree, h2, n.outcome->Removed_0, t));
        }
    }
    if m.stage == Stage::LinkDelete && reply is Done && reply->Done_0 is Some {
        assert(not_deleted(h2, m.snapshot, reply->Done_0->0));
    }
    if m.stage == Stage::LinkDelegate {
        assert(not_deleted(h2, m.snapshot, m.error));
    }
}

#[verifier::spinoff_prover]
#[verifier::rlimit(60)]
proof fn direct_step(
    m: TaskModel,
    reply: ReplyModel,
    h: spec_fn(RequestModel, ReplyModel) -> bool,
    h2: spec_fn(RequestModel, ReplyModel) -> bool,
)
    requires
        part_of(m.stage) == Part::Direct,
        answers(request_of(m).op, reply),
        on_the_way(m, h),
        grows(h, h2, request_of(m), reply),
    ensures
        on_the_way(after_reply(m, reply), h2),
{
    let q = request_of(m);
    let n = after_reply(m, reply);
    assert(asked(h2, q.op, q.path)) by {
        assert(ask(q.op, q.path) == q);
    }
    if m.stage == Stage::DirectForget {
        let r = n.outcome->Removed_0;
        if h(ask(Op::IsSubvolume, m.worktree), ReplyModel::Subvolume(Some(None))) && m.snapshot
            == m.worktree && !m.unmounted {
            assert(subvolume_deleted(m.worktree, h2, r, None));
        } else {
            assert(subvolume_deleted(m.worktree, h2, r, Some(m.snapshot)));
        }
    }
    if m.stage == Stage::DirectDelete && reply is Done && reply->Done_0 is Some {
        assert(not_deleted(h2, m.snapshot, reply->Done_0->0));
    }
    if m.stage == Stage::DirectDelegate {
        assert(not_deleted(h2, m.snapshot, m.error));
    }
}

#[verifier::spinoff_prover]
#[verifier::rlimit(60)]
proof fn directory_step(
    m: TaskModel,
    reply: ReplyModel,
    h: spec_fn(RequestModel, ReplyModel) -> bool,
    h2: spec_fn(RequestModel, ReplyModel) -> bool,
)
    requires
        part_of(m.stage) == Part::Directory,
        answers(request_of(m).op, reply),
        on_the_way(m, h),
        grows(h, h2, request_of(m), reply),
        m.stage != Stage::Unregistering,
    ensures
        on_the_way(after_reply(m, reply), h2),
{
    let w = m.worktree;
    let q = request_of(m);
    let n = after_reply(m, reply);
    assert(asked(h2, q.op, q.path)) by {
        assert(ask(q.op, q.path) == q);
    }
    if m.stage == Stage::GitFile {
        if let ReplyModel::Text(t) = reply {
            if n.stage == Stage::PlainKind {
                assert(registered_at(w, h2, t, n.registration));
            }
        }
    } else if m.stage == Stage::GitCanonical {
        let content = choose|content: Seq<char>|
            #[trigger] h(ask(Op::ReadText, joined(w, ".git"@)), ReplyModel::Text(Some(content)))
                && gitdir_in(content, w) == m.registration;
        assert(h2(ask(Op::ReadText, joined(w, ".git"@)), ReplyModel::Text(Some(content))));
        assert(registered_at(w, h2, Some(content), n.registration));
    } else {
        let t = choose|t: Option<Seq<char>>| #[trigger] registered_at(w, h, t, m.registration);
        assert(registered_at(w, h, t, m.registration));
        assert(registered_at(w, h2, t, m.registration));
        if let OutcomeModel::Removed(r) = n.outcome {
            assert(plainly_removed(w, h2, r, t, m.registration));
        }
        if m.stage == Stage::PlainUnlink && n.outcome is Failed {
            assert(did_not(h2, Op::RemoveFile, w, reply->Done_0->0));
        }
        if m.stage == Stage::PlainRemove && n.outcome is Failed {
            assert(did_not(h2, Op::RemoveDirAll, w, reply->Done_0->0));
        }
    }
}

proof fn gone_stays_gone(
    w: Seq<char>,
    h: spec_fn(RequestModel, ReplyModel) -> bool,
    h2: spec_fn(RequestModel, ReplyModel) -> bool,
    r: RemoveReport,
)
    requires
        is_gone(w, h, r),
        forall|x: RequestModel, y: ReplyModel| #[trigger] h(x, y) ==> h2(x, y),
    ensures
        is_gone(w, h2, r),
{
    assert forall|op: Op, p: Seq<char>| #[trigger] asked(h, op, p) implies asked(h2, op, p) by {
        let x = choose|x: ReplyModel| #[trigger] h(ask(op, p), x);
        assert(h2(ask(op, p), x));
    }
    if handed_out(w, h, r) {
        assert(handed_out(w, h2, r));
    } else if exists|t: Seq<char>| #[trigger] link_dropped(w, h, r, t) {
        let t = choose|t: Seq<char>| #[trigger] link_dropped(w, h, r, t);
        assert(link_dropped(w, h2, r, t));
    } else if exists|dir: Seq<char>, file: Seq<char>, meta: MetadataModel| #[trigger]
        stored_dropped(w, h, r, dir, file, meta) {
        let (dir, file, meta) = choose|dir: Seq<char>, file: Seq<char>, meta: MetadataModel|
            #[trigger] stored_dropped(w, h, r, dir, file, meta);
        assert(stored_dropped(w, h2, r, dir, file, meta));
    } else if exists|source: Option<Seq<char>>| #[trigger] subvolume_deleted(w, h, r, source) {
        let source = choose|source: Option<Seq<char>>| #[trigger] subvolume_deleted(w, h, r, source);
        assert(subvolume_deleted(w, h2, r, source));
    } else {
        let (t, reg) = choose|t: Option<Seq<char>>, reg: Option<Seq<char>>| #[trigger]
            plainly_removed(w, h, r, t, reg);
        assert(plainly_removed(w, h, r, t, reg));
        assert(registered_at(w, h2, t, reg));
        assert(entry_removed(w, h2));
        assert(plainly_removed(w, h2, r, t, reg));
    }
}

/// What the machine was asked and answered in a run.
pub open spec fn history(m: TaskModel, replies: Seq<ReplyModel>) -> spec_fn(
    RequestModel,
    ReplyModel,
) -> bool {
    |q: RequestModel, r: ReplyModel| was_told(m, replies, q, r)
}

proof fn runs_are_on_the_way(m: TaskModel, replies: Seq<ReplyModel>)
    requires
        m.outcome is Pending,
        m.stage == Stage::OverlayLive || m.stage == Stage::GitFile,
        proper_run(m, replies),
    ensures
        on_the_way(after_all(m, replies), history(m, replies)),
    decreases replies.len(),
{
    if replies.len() > 0 {
        let past = replies.drop_last();
        runs_are_on_the_way(m, past);
        let b = after_all(m, past);
        let h = history(m, past);
        let h2 = history(m, replies);
        let reply = replies.last();
        assert(grows(h, h2, request_of(b), reply));
        match part_of(b.stage) {
            Part::Search => search_step(b, reply, h, h2),
            Part::Stored => stored_step(b, reply, h, h2),
            Part::Linked => linked_step(b, reply, h, h2),
            Part::Direct => direct_step(b, reply, h, h2),
            Part::Directory => {
                if b.stage == Stage::Unregistering {
                    gone_stays_gone(b.worktree, h, h2, b.outcome->Removed_0);
                } else {
                    directory_step(b, reply, h, h2);
                }
            },
        }
    }
}

/// A removal that has succeeded has done what it reports: the worktree is gone in just one
/// of the ways in which a worktree goes. Only then is its record struck. So a report that a
/// snapshot was deleted means that the machine was asked to delete it and said that it
/// did, unless an overlay or the helper has reported it.
pub proof fn removed_worktrees_are_gone(
    worktree: Seq<char>,
    delegate: bool,
    subdirs: Seq<Seq<char>>,
    suffix: Seq<char>,
    linux: bool,
    replies: Seq<ReplyModel>,
)
    requires
        proper_run(fresh_task(worktree, delegate, subdirs, suffix, linux), replies),
    ensures
        ({
            let start = fresh_task(worktree, delegate, subdirs, suffix, linux);
            let s = after_all(start, replies);
            let h = history(start, replies);
            &&& s.outcome matches OutcomeModel::Removed(r) ==> is_gone(worktree, h, r)
            &&& request_of(s).op == Op::Unregister ==> s.outcome is Removed && request_of(s).path
                == worktree
            &&& request_of(s).op == Op::Finish ==> !(s.outcome is Pending)
        }),
{
    let start = fresh_task(worktree, delegate, subdirs, suffix, linux);
    runs_are_on_the_way(start, replies);
    delegate_is_fixed(start, replies);
}

/// A removal fails only because something that it asked for has failed, and its message is
/// that of the failure.
pub proof fn failed_removals_have_a_reason(
    worktree: Seq<char>,
    delegate: bool,
    subdirs: Seq<Seq<char>>,
    suffix: Seq<char>,
    linux: bool,
    replies: Seq<ReplyModel>,
)
    requires
        proper_run(fresh_task(worktree, delegate, subdirs, suffix, linux), replies),
    ensures
        ({
            let start = fresh_task(worktree, delegate, subdirs, suffix, linux);
            let s = after_all(start, replies);
            s.outcome matches OutcomeModel::Failed(e) ==> has_reason(
                worktree,
                history(start, replies),
                e,
            )
        }),
{
    let start = fresh_task(worktree, delegate, subdirs, suffix, linux);
    runs_are_on_the_way(start, replies);
    delegate_is_fixed(start, replies);
}

// -------------------------------------------------------------------- the search

/// The metadata file was read, and it is none of this worktree.
pub open spec fn read_in_vain(
    w: Seq<char>,
    h: spec_fn(RequestModel, ReplyModel) -> bool,
    file: Seq<char>,
) -> bool {
    ||| h(ask(Op::ReadMetadata, file), ReplyModel::Metadata(None))
    ||| exists|meta: MetadataModel|
        #[trigger] h(ask(Op::ReadMetadata, file), ReplyModel::Metadata(Some(meta))) && !same_path(
            meta.mount_target,
            w,
        )
}

/// The directory was listed, and each metadata file in it was read in vain.
pub open spec fn searched_in_vain(
    w: Seq<char>,
    h: spec_fn(RequestModel, ReplyModel) -> bool,
    suffix: Seq<char>,
    dir: Seq<char>,
) -> bool {
    ||| h(ask(Op::ListDir, dir), ReplyModel::Entries(None))
    ||| exists|names: Seq<Seq<char>>|
        #[trigger] h(ask(Op::ListDir, dir), ReplyModel::Entries(Some(names))) && forall|i: int|
            0 <= i < names.len() && ends_with(#[trigger] names[i], suffix) ==> read_in_vain(
                w,
                h,
                joined(dir, names[i]),
            )
}

/// Overlays were looked for in vain, and metadata in every storage directory below every
/// btrfs mount.
pub open spec fn looked_everywhere(
    w: Seq<char>,
    h: spec_fn(RequestModel, ReplyModel) -> bool,
    subdirs: Seq<Seq<char>>,
    suffix: Seq<char>,
) -> bool {
    &&& h(
        ask(Op::OverlayFromMountinfo, w),
        ReplyModel::Removal(RemovalModel::NotApplicable),
    )
    &&& h(ask(Op::OverlayFromMetadata, w), ReplyModel::Removal(RemovalModel::NotApplicable))
    &&& {
        ||| h(ask(Op::ReadMounts, w), ReplyModel::Mounts(None))
        ||| exists|ms: Seq<MountModel>|
            #[trigger] h(ask(Op::ReadMounts, w), ReplyModel::Mounts(Some(ms))) && forall|i: int, k: int|
                0 <= i < ms.len() && ms[i].fs_type == "btrfs"@ && 0 <= k < subdirs.len()
                    ==> searched_in_vain(
                    w,
                    h,
                    suffix,
                    #[trigger] joined(ms[i].mount_point, subdirs[k]),
                )
    }
}

/// The storage directories are those below the btrfs mounts, each of them.
pub proof fn every_storage_is_known(ms: Seq<MountModel>, subdirs: Seq<Seq<char>>, dir: Seq<char>)
    ensures
        storage_dirs(ms, subdirs).contains(dir) <==> exists|i: int, k: int|
            0 <= i < ms.len() && ms[i].fs_type == "btrfs"@ && 0 <= k < subdirs.len() && dir
                == #[trigger] joined(ms[i].mount_point, subdirs[k]),
    decreases ms.len(),
{
    let all = storage_dirs(ms, subdirs);
    if ms.len() > 0 {
        let before = storage_dirs(ms.drop_last(), subdirs);
        let m = ms.last();
        every_storage_is_known(ms.drop_last(), subdirs, dir);
        let here = subdirs.map_values(|s: Seq<char>| joined(m.mount_point, s));
        if all.contains(dir) {
            let x = all.index_of(dir);
            if x < before.len() {
                assert(before[x] == dir);
                let (i, k) = choose|i: int, k: int|
                    0 <= i < ms.drop_last().len() && ms.drop_last()[i].fs_type == "btrfs"@ && 0 <= k
                        < subdirs.len() && dir == #[trigger] joined(
                        ms.drop_last()[i].mount_point,
                        subdirs[k],
                    );
                assert(dir == joined(ms[i].mount_point, subdirs[k]));
            } else {
                assert(here[x - before.len()] == dir);
                assert(dir == joined(ms[ms.len() - 1].mount_point, subdirs[x - before.len()]));
            }
        }
        if exists|i: int, k: int|
            0 <= i < ms.len() && ms[i].fs_type == "btrfs"@ && 0 <= k < subdirs.len() && dir
                == #[trigger] joined(ms[i].mount_point, subdirs[k]) {
            let (i, k) = choose|i: int, k: int|
                0 <= i < ms.len() && ms[i].fs_type == "btrfs"@ && 0 <= k < subdirs.len() && dir
                    == #[trigger] joined(ms[i].mount_point, subdirs[k]);
            if i < ms.len() - 1 {
                assert(dir == joined(ms.drop_last()[i].mount_point, subdirs[k]));
                let x = before.index_of(dir);
                assert(all[x] == dir);
            } else {
                assert(here[k] == dir);
                assert(all[before.len() + k] == dir);
            }
        }
    }
}

/// The metadata files are the entries whose names end so, each of them.
pub proof fn every_metadata_file_is_known(
    dir: Seq<char>,
    names: Seq<Seq<char>>,
    suffix: Seq<char>,
    file: Seq<char>,
)
    ensures
        metadata_files(dir, names, suffix).contains(file) <==> exists|i: int|
            0 <= i < names.len() && ends_with(#[trigger] names[i], suffix) && file == joined(
                dir,
                names[i],
            ),
    decreases names.len(),
{
    let all = metadata_files(dir, names, suffix);
    if names.len() > 0 {
        let fewer = names.drop_last();
        let before = metadata_files(dir, fewer, suffix);
        every_metadata_file_is_known(dir, fewer, suffix, file);
        if all.contains(file) {
            let x = all.index_of(file);
            if x < before.len() {
                assert(before[x] == file);
                let i = choose|i: int|
                    0 <= i < fewer.len() && ends_with(#[trigger] fewer[i], suffix) && file == joined(
                        dir,
                        fewer[i],
                    );
                assert(names[i] == fewer[i]);
            } else {
                assert(names[names.len() - 1] == names.last());
            }
        }
        if exists|i: int|
            0 <= i < names.len() && ends_with(#[trigger] names[i], suffix) && file == joined(
                dir,
                names[i],
            ) {
            let i = choose|i: int|
                0 <= i < names.len() && ends_with(#[trigger] names[i], suffix) && file == joined(
                    dir,
                    names[i],
                );
            if i < fewer.len() {
                assert(fewer[i] == names[i]);
                let x = before.index_of(file);
                assert(all[x] == file);
            } else {
                assert(all[before.len() as int] == file);
            }
        }
    }
}

spec fn in_storage(
    s: TaskModel,
    h: spec_fn(RequestModel, ReplyModel) -> bool,
    ms: Seq<MountModel>,
    k: int,
) -> bool {
    let all = storage_dirs(ms, s.subdirs);
    &&& h(ask(Op::ReadMounts, s.worktree), ReplyModel::Mounts(Some(ms)))
    &&& 1 <= k <= all.len()
    &&& s.dirs == all.skip(k)
    &&& s.dir == all[k - 1]
    &&& forall|i: int|
        0 <= i < k - 1 ==> searched_in_vain(s.worktree, h, s.meta_suffix, #[trigger] all[i])
}

spec fn in_files(
    s: TaskModel,
    h: spec_fn(RequestModel, ReplyModel) -> bool,
    names: Seq<Seq<char>>,
    j: int,
) -> bool {
    let all = metadata_files(s.dir, names, s.meta_suffix);
    &&& h(ask(Op::ListDir, s.dir), ReplyModel::Entries(Some(names)))
    &&& 1 <= j <= all.len()
    &&& s.files == all.skip(j)
    &&& s.meta_path == all[j - 1]
    &&& forall|i: int| 0 <= i < j - 1 ==> read_in_vain(s.worktree, h, #[trigger] all[i])
}

spec fn overlays_in_vain(s: TaskModel, h: spec_fn(RequestModel, ReplyModel) -> bool) -> bool {
    &&& h(
        ask(Op::OverlayFromMountinfo, s.worktree),
        ReplyModel::Removal(RemovalModel::NotApplicable),
    )
    &&& h(
        ask(Op::OverlayFromMetadata, s.worktree),
        ReplyModel::Removal(RemovalModel::NotApplicable),
    )
}

spec fn searching(s: TaskModel, h: spec_fn(RequestModel, ReplyModel) -> bool) -> bool {
    let w = s.worktree;
    &&& s.stage == Stage::OverlayStored ==> h(
        ask(Op::OverlayFromMountinfo, w),
        ReplyModel::Removal(RemovalModel::NotApplicable),
    )
    &&& s.stage == Stage::Mounts || s.stage == Stage::Listing || s.stage == Stage::ReadingMeta
        ==> overlays_in_vain(s, h)
    &&& s.stage == Stage::Listing || s.stage == Stage::ReadingMeta
        ==> exists|ms: Seq<MountModel>, k: int| #[trigger] in_storage(s, h, ms, k)
    &&& s.stage == Stage::ReadingMeta ==> exists|names: Seq<Seq<char>>, j: int| #[trigger]
        in_files(s, h, names, j)
    &&& s.outcome is Pending && (part_of(s.stage) == Part::Linked || part_of(s.stage) == Part::Direct
        || part_of(s.stage) == Part::Directory) ==> looked_everywhere(
        w,
        h,
        s.subdirs,
        s.meta_suffix,
    )
    &&& s.stage == Stage::LinkRead ==> flagged(h, Op::IsSymlink, w, true)
    &&& s.stage == Stage::LinkBroken ==> flagged(h, Op::IsSymlink, w, true) && h(
        ask(Op::ReadLink, w),
        ReplyModel::Text(None),
    )
    &&& s.outcome is Pending && part_of(s.stage) == Part::Directory ==> no_snapshot(w, h)
}

/// The worktree is no snapshot, and no link to one that can be read.
pub open spec fn no_snapshot(w: Seq<char>, h: spec_fn(RequestModel, ReplyModel) -> bool) -> bool {
    ||| h(ask(Op::IsSubvolume, w), ReplyModel::Subvolume(None))
    ||| flagged(h, Op::IsSymlink, w, true) && h(ask(Op::ReadLink, w), ReplyModel::Text(None))
}

proof fn vain_stays_vain(
    w: Seq<char>,
    h: spec_fn(RequestModel, ReplyModel) -> bool,
    h2: spec_fn(RequestModel, ReplyModel) -> bool,
    suffix: Seq<char>,
)
    requires
        forall|x: RequestModel, y: ReplyModel| #[trigger] h(x, y) ==> h2(x, y),
    ensures
        forall|f: Seq<char>| #[trigger] read_in_vain(w, h, f) ==> read_in_vain(w, h2, f),
        forall|d: Seq<char>| #[trigger]
            searched_in_vain(w, h, suffix, d) ==> searched_in_vain(w, h2, suffix, d),
{
    assert forall|f: Seq<char>| #[trigger] read_in_vain(w, h, f) implies read_in_vain(w, h2, f) by {
        if !h(ask(Op::ReadMetadata, f), ReplyModel::Metadata(None)) {
            let meta = choose|meta: MetadataModel|
                #[trigger] h(ask(Op::ReadMetadata, f), ReplyModel::Metadata(Some(meta)))
                    && !same_path(meta.mount_target, w);
            assert(h2(ask(Op::ReadMetadata, f), ReplyModel::Metadata(Some(meta))));
        }
    }
    assert forall|d: Seq<char>| #[trigger] searched_in_vain(w, h, suffix, d) implies searched_in_vain(
        w,
        h2,
        suffix,
        d,
    ) by {
        if !h(ask(Op::ListDir, d), ReplyModel::Entries(None)) {
            let names = choose|names: Seq<Seq<char>>|
                #[trigger] h(ask(Op::ListDir, d), ReplyModel::Entries(Some(names))) && forall|i: int|
                    0 <= i < names.len() && ends_with(#[trigger] names[i], suffix) ==> read_in_vain(
                        w,
                        h,
                        joined(d, names[i]),
                    );
            assert(h2(ask(Op::ListDir, d), ReplyModel::Entries(Some(names))));
        }
    }
}

proof fn everywhere_stays_everywhere(
    w: Seq<char>,
    h: spec_fn(RequestModel, ReplyModel) -> bool,
    h2: spec_fn(RequestModel, ReplyModel) -> bool,
    subdirs: Seq<Seq<char>>,
    suffix: Seq<char>,
)
    requires
        looked_everywhere(w, h, subdirs, suffix),
        forall|x: RequestModel, y: ReplyModel| #[trigger] h(x, y) ==> h2(x, y),
    ensures
        looked_everywhere(w, h2, subdirs, suffix),
{
    vain_stays_vain(w, h, h2, suffix);
    if !h(ask(Op::ReadMounts, w), ReplyModel::Mounts(None)) {
        let ms = choose|ms: Seq<MountModel>|
            #[trigger] h(ask(Op::ReadMounts, w), ReplyModel::Mounts(Some(ms))) && forall|i: int, k: int|
                0 <= i < ms.len() && ms[i].fs_type == "btrfs"@ && 0 <= k < subdirs.len()
                    ==> searched_in_vain(
                    w,
                    h,
                    suffix,
                    #[trigger] joined(ms[i].mount_point, subdirs[k]),
                );
        assert(h2(ask(Op::ReadMounts, w), ReplyModel::Mounts(Some(ms))));
    }
}

/// All storage directories have been searched in vain.
proof fn search_is_over(
    s: TaskModel,
    h: spec_fn(RequestModel, ReplyModel) -> bool,
    ms: Seq<MountModel>,
)
    requires
        overlays_in_vain(s, h),
        h(ask(Op::ReadMounts, s.worktree), ReplyModel::Mounts(Some(ms))),
        forall|i: int|
            0 <= i < storage_dirs(ms, s.subdirs).len() ==> searched_in_vain(
                s.worktree,
                h,
                s.meta_suffix,
                #[trigger] storage_dirs(ms, s.subdirs)[i],
            ),
    ensures
        looked_everywhere(s.worktree, h, s.subdirs, s.meta_suffix),
{
    let all = storage_dirs(ms, s.subdirs);
    assert forall|i: int, k: int|
        0 <= i < ms.len() && ms[i].fs_type == "btrfs"@ && 0 <= k < s.subdirs.len() implies searched_in_vain(
        s.worktree,
        h,
        s.meta_suffix,
        #[trigger] joined(ms[i].mount_point, s.subdirs[k]),
    ) by {
        let d = joined(ms[i].mount_point, s.subdirs[k]);
        every_storage_is_known(ms, s.subdirs, d);
        let x = all.index_of(d);
        assert(all[x] == d);
    }
}

/// The directory that is looked into has been searched in vain: on to the next.
proof fn storage_goes_on(
    s: TaskModel,
    n: TaskModel,
    h: spec_fn(RequestModel, ReplyModel) -> bool,
    ms: Seq<MountModel>,
    k: int,
)
    requires
        overlays_in_vain(s, h),
        in_storage(s, h, ms, k),
        searched_in_vain(s.worktree, h, s.meta_suffix, s.dir),
        n == crate::worktree_removal::next_dir(s) || exists|fs: Seq<Seq<char>>|
            #![auto]
            n == crate::worktree_removal::next_dir(TaskModel { files: fs, ..s }),
        s.outcome is Pending,
    ensures
        searching(n, h),
{
    let all = storage_dirs(ms, s.subdirs);
    assert forall|i: int| 0 <= i < k implies searched_in_vain(
        s.worktree,
        h,
        s.meta_suffix,
        #[trigger] all[i],
    ) by {
        if i == k - 1 {
            assert(all[i] == s.dir);
        }
    }
    if s.dirs.len() == 0 {
        search_is_over(s, h, ms);
    } else {
        assert(all.skip(k)[0] == all[k]);
        assert(all.skip(k).skip(1) =~= all.skip(k + 1));
        assert(in_storage(n, h, ms, k + 1));
    }
}

proof fn files_are_read(
    s: TaskModel,
    h: spec_fn(RequestModel, ReplyModel) -> bool,
    names: Seq<Seq<char>>,
)
    requires
        h(ask(Op::ListDir, s.dir), ReplyModel::Entries(Some(names))),
        forall|i: int|
            0 <= i < metadata_files(s.dir, names, s.meta_suffix).len() ==> read_in_vain(
                s.worktree,
                h,
                #[trigger] metadata_files(s.dir, names, s.meta_suffix)[i],
            ),
    ensures
        searched_in_vain(s.worktree, h, s.meta_suffix, s.dir),
{
    let all = metadata_files(s.dir, names, s.meta_suffix);
    assert forall|i: int| 0 <= i < names.len() && ends_with(#[trigger] names[i], s.meta_suffix) implies read_in_vain(
        s.worktree,
        h,
        joined(s.dir, names[i]),
    ) by {
        let f = joined(s.dir, names[i]);
        every_metadata_file_is_known(s.dir, names, s.meta_suffix, f);
        let x = all.index_of(f);
        assert(all[x] == f);
    }
}

#[verifier::spinoff_prover]
#[verifier::rlimit(80)]
proof fn search_goes_on(
    m: TaskModel,
    reply: ReplyModel,
    h: spec_fn(RequestModel, ReplyModel) -> bool,
    h2: spec_fn(RequestModel, ReplyModel) -> bool,
)
    requires
        part_of(m.stage) == Part::Search,
        m.outcome is Pending,
        answers(request_of(m).op, reply),
        searching(m, h),
        grows(h, h2, request_of(m), reply),
    ensures
        searching(after_reply(m, reply), h2),
{
    let w = m.worktree;
    let n = after_reply(m, reply);
    vain_stays_vain(w, h, h2, m.meta_suffix);
    match m.stage {
        Stage::Mounts => {
            if let ReplyModel::Mounts(Some(ms)) = reply {
                let all = storage_dirs(ms, m.subdirs);
                if all.len() == 0 {
                    search_is_over(n, h2, ms);
                } else {
                    assert(in_storage(n, h2, ms, 1));
                }
            }
        },
        Stage::Listing => {
            let (ms, k) = choose|ms: Seq<MountModel>, k: int| #[trigger] in_storage(m, h, ms, k);
            assert(in_storage(m, h2, ms, k));
            if let ReplyModel::Entries(e) = reply {
                match e {
                    Some(names) => {
                        let all = metadata_files(m.dir, names, m.meta_suffix);
                        if all.len() == 0 {
                            files_are_read(m, h2, names);
                            storage_goes_on(m, n, h2, ms, k);
                        } else {
                            assert(in_storage(n, h2, ms, k));
                            assert(in_files(n, h2, names, 1));
                        }
                    },
                    None => storage_goes_on(m, n, h2, ms, k),
                }
            }
        },
        Stage::ReadingMeta => {
            let (ms, k) = choose|ms: Seq<MountModel>, k: int| #[trigger] in_storage(m, h, ms, k);
            assert(in_storage(m, h2, ms, k));
            let (names, j) = choose|names: Seq<Seq<char>>, j: int| #[trigger] in_files(m, h, names, j);
            assert(in_files(m, h2, names, j));
            if let ReplyModel::Metadata(d) = reply {
                if d is Some && same_path(d->0.mount_target, w) {
                } else {
                    let all = metadata_files(m.dir, names, m.meta_suffix);
                    assert(read_in_vain(w, h2, m.meta_path));
                    assert forall|i: int| 0 <= i < j implies read_in_vain(w, h2, #[trigger] all[i]) by {
                        if i == j - 1 {
                            assert(all[i] == m.meta_path);
                        }
                    }
                    if m.files.len() == 0 {
                        files_are_read(m, h2, names);
                        storage_goes_on(m, n, h2, ms, k);
                    } else {
                        assert(all.skip(j)[0] == all[j]);
                        assert(all.skip(j).skip(1) =~= all.skip(j + 1));
                        assert(in_storage(n, h2, ms, k));
                        assert(in_files(n, h2, names, j + 1));
                    }
                }
            }
        },
        _ => {},
    }
}

#[verifier::spinoff_prover]
#[verifier::rlimit(60)]
proof fn rest_goes_on(
    m: TaskModel,
    reply: ReplyModel,
    h: spec_fn(RequestModel, ReplyModel) -> bool,
    h2: spec_fn(RequestModel, ReplyModel) -> bool,
)
    requires
        part_of(m.stage) != Part::Search,
        answers(request_of(m).op, reply),
        searching(m, h),
        grows(h, h2, request_of(m), reply),
        m.outcome is Pending || m.stage == Stage::Unregistering,
    ensures
        searching(after_reply(m, reply), h2),
{
    if m.outcome is Pending && part_of(m.stage) != Part::Stored {
        everywhere_stays_everywhere(m.worktree, h, h2, m.subdirs, m.meta_suffix);
    }
    match part_of(m.stage) {
        Part::Stored => {},
        Part::Linked => {},
        Part::Direct => {},
        _ => {},
    }
}

#[verifier::spinoff_prover]
#[verifier::rlimit(40)]
proof fn storage_is_fixed(m: TaskModel, reply: ReplyModel)
    ensures
        after_reply(m, reply).subdirs == m.subdirs,
        after_reply(m, reply).meta_suffix == m.meta_suffix,
{
}

proof fn runs_search(m: TaskModel, replies: Seq<ReplyModel>)
    requires
        m.outcome is Pending,
        m.stage == Stage::OverlayLive,
        proper_run(m, replies),
    ensures
        searching(after_all(m, replies), history(m, replies)),
        after_all(m, replies).subdirs == m.subdirs,
        after_all(m, replies).meta_suffix == m.meta_suffix,
    decreases replies.len(),
{
    if replies.len() > 0 {
        let past = replies.drop_last();
        runs_search(m, past);
        runs_are_on_the_way(m, past);
        let b = after_all(m, past);
        let h = history(m, past);
        let h2 = history(m, replies);
        let reply = replies.last();
        assert(grows(h, h2, request_of(b), reply));
        storage_is_fixed(b, reply);
        if part_of(b.stage) == Part::Search {
            search_goes_on(b, reply, h, h2);
        } else {
            rest_goes_on(b, reply, h, h2);
        }
    }
}

/// A worktree is looked at as a link or a plain directory only where overlays were looked for
/// in vain, and metadata in every storage directory below every btrfs mount; and it
/// is removed as a plain directory only where it is no snapshot either.
pub proof fn fast_ways_are_tried_first(
    worktree: Seq<char>,
    delegate: bool,
    subdirs: Seq<Seq<char>>,
    suffix: Seq<char>,
    replies: Seq<ReplyModel>,
)
    requires
        proper_run(fresh_task(worktree, delegate, subdirs, suffix, true), replies),
    ensures
        ({
            let start = fresh_task(worktree, delegate, subdirs, suffix, true);
            let op = request_of(after_all(start, replies)).op;
            let h = history(start, replies);
            &&& op == Op::ReadLink || op == Op::IsSubvolume || op == Op::EntryKind || op
                == Op::RemoveDirAll ==> looked_everywhere(worktree, h, subdirs, suffix)
            &&& op == Op::EntryKind || op == Op::RemoveDirAll ==> no_snapshot(worktree, h)
        }),
{
    let start = fresh_task(worktree, delegate, subdirs, suffix, true);
    runs_search(start, replies);
    runs_are_on_the_way(start, replies);
    delegate_is_fixed(start, replies);
}

/// The `.git` file of a linked worktree names its registration behind `gitdir: `; nothing else
/// does.
pub proof fn registration_is_named(content: Seq<char>, w: Seq<char>, p: Seq<char>)
    ensures
        trim(content) == "gitdir: "@ + p ==> gitdir_in(content, w) == Some(joined(w, p)),
        gitdir_in(content, w) is Some ==> exists|q: Seq<char>|
            trim(content) == "gitdir: "@ + q && gitdir_in(content, w) == Some(#[trigger] joined(w, q)),
{
    let g = "gitdir: "@;
    let t = trim(content);
    if t == g + p {
        assert(t.subrange(0, g.len() as int) =~= g);
        assert(t.skip(g.len() as int) =~= p);
    }
    if gitdir_in(content, w) is Some {
        let q = t.skip(g.len() as int);
        assert(t =~= g + q);
        assert(gitdir_in(content, w) == Some(joined(w, q)));
    }
}

// ------------------------------------------------------------------ one after another

/// A link that cannot be read or leads to no subvolume is dropped before anything else is
/// tried, and a mount point once nothing is mounted there; what was deleted is forgotten, what
/// could not be deleted is handed to the helper where there is one, and a worktree that is
/// gone is struck from the records.
#[verifier::spinoff_prover]
#[verifier::rlimit(40)]
pub proof fn one_step_follows_another(m: TaskModel, reply: ReplyModel)
    requires
        answers(request_of(m).op, reply),
    ensures
        ({
            let w = m.worktree;
            let n = after_reply(m, reply);
            let q = request_of(m);
            let next = request_of(n);
            &&& q == ask(Op::ReadLink, w) && reply == ReplyModel::Text(None) ==> next == ask(
                Op::RemoveFile,
                w,
            )
            &&& m.stage == Stage::LinkSubvolume && reply == ReplyModel::Subvolume(None) ==> next
                == ask(Op::RemoveFile, w)
            &&& m.stage == Stage::DirectUmount && reply == ReplyModel::Umounted(
                UmountOutcome::Unmounted,
            ) ==> next == ask(Op::RemoveDir, w)
            &&& m.stage == Stage::MetaLink && reply == ReplyModel::Flag(false) ==> next == ask(
                Op::Umount,
                w,
            )
            &&& q == ask(Op::DeleteSnapshot, m.snapshot) && reply == ReplyModel::Done(None) && m.stage
                != Stage::MetaDelete ==> next == ask(Op::ForgetSnapshot, m.snapshot)
            &&& q.op == Op::DeleteSnapshot && reply != ReplyModel::Done(None) && m.delegate ==> next
                == ask(Op::DelegateDelete, w)
            &&& q.op == Op::DeleteSnapshot && reply != ReplyModel::Done(None) && !m.delegate
                ==> next.op == Op::Finish && n.outcome is Failed
            &&& n.outcome is Removed && !(m.outcome is Removed) ==> next == ask(Op::Unregister, w)
            &&& q.op == Op::Unregister ==> next.op == Op::Finish && n.outcome == m.outcome
        }),
{
}

} // verus!
