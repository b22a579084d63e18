//! What holds of every removal of a worktree, whatever the machine answers.
use crate::worktree_host::{answers, ask, Op, ReplyModel, RequestModel};
use crate::worktree_removal::{
    after_reply, directly_in, fresh_task, part_of, request_of, Part, Stage, TaskModel,
};
use vstd::prelude::*;

verus! {

/// The task `m` after a run of answers.
pub open spec fn after_all(m: TaskModel, replies: Seq<ReplyModel>) -> TaskModel
    decreases replies.len(),
{
    if replies.len() == 0 {
        m
    } else {
        after_reply(after_all(m, replies.drop_last()), replies.last())
    }
}

/// Each answer of the run is one to the request it was given for.
pub open spec fn proper_run(m: TaskModel, replies: Seq<ReplyModel>) -> bool
    decreases replies.len(),
{
    replies.len() == 0 || (proper_run(m, replies.drop_last()) && answers(
        request_of(after_all(m, replies.drop_last())).op,
        replies.last(),
    ))
}

/// Somewhere in the run `request` was made and `reply` was the answer.
pub open spec fn was_told(
    m: TaskModel,
    replies: Seq<ReplyModel>,
    request: RequestModel,
    reply: ReplyModel,
) -> bool
    decreases replies.len(),
{
    replies.len() > 0 && (was_told(m, replies.drop_last(), request, reply) || (request_of(
        after_all(m, replies.drop_last()),
    ) == request && replies.last() == reply))
}

/// Somewhere in the run, its end included, `op` was asked for.
pub open spec fn was_asked(m: TaskModel, replies: Seq<ReplyModel>, op: Op) -> bool
    decreases replies.len(),
{
    request_of(after_all(m, replies)).op == op || (replies.len() > 0 && was_asked(
        m,
        replies.drop_last(),
        op,
    ))
}

/// What a task is sure of at its stage: `safe` that its snapshot was found to be a safe
/// target, `deleted` that it was deleted, `failed` that deleting it failed with the
/// error the task holds.
pub open spec fn sure_of(s: TaskModel, safe: bool, deleted: bool, failed: bool) -> bool {
    &&& part_of(s.stage) == Part::Stored && s.contained ==> safe
    &&& part_of(s.stage) == Part::Stored && (s.contained || s.stage == Stage::MetaSafe)
        ==> directly_in(s.snapshot, s.dir)
    &&& s.stage == Stage::MetaDelete || s.stage == Stage::MetaDelegate ==> s.contained
    &&& (s.stage == Stage::MetaDropReference || s.stage == Stage::MetaDropFile) && s.deleted
        ==> deleted
    &&& s.stage == Stage::MetaDropFile ==> !s.refused
    &&& s.stage == Stage::LinkDelete || s.stage == Stage::LinkDelegate || s.stage
        == Stage::LinkForget || s.stage == Stage::LinkUnlink ==> safe
    &&& s.stage == Stage::LinkForget || s.stage == Stage::LinkUnlink || s.stage
        == Stage::DirectForget ==> deleted
    &&& s.stage == Stage::MetaDelegate || s.stage == Stage::LinkDelegate || s.stage
        == Stage::DirectDelegate ==> s.delegate && failed
    &&& s.stage == Stage::Unregistering ==> s.outcome is Removed
    &&& s.stage == Stage::Finished ==> !(s.outcome is Pending)
    &&& s.outcome is Pending || s.stage == Stage::Unregistering || s.stage == Stage::Finished
}

/// What is known of the snapshot before an answer carries over to what is known after
/// it: as long as the snapshot is the same, and by the answer itself.
spec fn carries_over(
    m: TaskModel,
    reply: ReplyModel,
    safe: bool,
    safe2: bool,
    deleted: bool,
    deleted2: bool,
    failed: bool,
    failed2: bool,
) -> bool {
    let n = after_reply(m, reply);
    &&& n.snapshot == m.snapshot && safe ==> safe2
    &&& n.snapshot == m.snapshot && deleted ==> deleted2
    &&& n.snapshot == m.snapshot && n.error == m.error && failed ==> failed2
    &&& request_of(m) == ask(Op::IsSafeTarget, n.snapshot) && reply == ReplyModel::Flag(true)
        ==> safe2
    &&& request_of(m) == ask(Op::DeleteSnapshot, n.snapshot) && reply == ReplyModel::Done(None)
        ==> deleted2
    &&& request_of(m) == ask(Op::DeleteSnapshot, n.snapshot) && reply == ReplyModel::Done(
        Some(n.error),
    ) ==> failed2
}

#[verifier::spinoff_prover]
#[verifier::rlimit(40)]
proof fn search_stays_sure(
    m: TaskModel,
    reply: ReplyModel,
    safe: bool,
    safe2: bool,
    deleted: bool,
    deleted2: bool,
    failed: bool,
    failed2: bool,
)
    requires
        part_of(m.stage) == Part::Search,
        answers(request_of(m).op, reply),
        sure_of(m, safe, deleted, failed),
        carries_over(m, reply, safe, safe2, deleted, deleted2, failed, failed2),
    ensures
        sure_of(after_reply(m, reply), safe2, deleted2, failed2),
{
}

#[verifier::spinoff_prover]
#[verifier::rlimit(40)]
proof fn stored_stays_sure(
    m: TaskModel,
    reply: ReplyModel,
    safe: bool,
    safe2: bool,
    deleted: bool,
    deleted2: bool,
    failed: bool,
    failed2: bool,
)
    requires
        part_of(m.stage) == Part::Stored,
        answers(request_of(m).op, reply),
        sure_of(m, safe, deleted, failed),
        carries_over(m, reply, safe, safe2, deleted, deleted2, failed, failed2),
    ensures
        sure_of(after_reply(m, reply), safe2, deleted2, failed2),
{
}

#[verifier::spinoff_prover]
#[verifier::rlimit(40)]
proof fn linked_stays_sure(
    m: TaskModel,
    reply: ReplyModel,
    safe: bool,
    safe2: bool,
    deleted: bool,
    deleted2: bool,
    failed: bool,
    failed2: bool,
)
    requires
        part_of(m.stage) == Part::Linked,
        answers(request_of(m).op, reply),
        sure_of(m, safe, deleted, failed),
        carries_over(m, reply, safe, safe2, deleted, deleted2, failed, failed2),
    ensures
        sure_of(after_reply(m, reply), safe2, deleted2, failed2),
{
}

#[verifier::spinoff_prover]
#[verifier::rlimit(40)]
proof fn direct_stays_sure(
    m: TaskModel,
    reply: ReplyModel,
    safe: bool,
    safe2: bool,
    deleted: bool,
    deleted2: bool,
    failed: bool,
    failed2: bool,
)
    requires
        part_of(m.stage) == Part::Direct,
        answers(request_of(m).op, reply),
        sure_of(m, safe, deleted, failed),
        carries_over(m, reply, safe, safe2, deleted, deleted2, failed, failed2),
    ensures
        sure_of(after_reply(m, reply), safe2, deleted2, failed2),
{
}

#[verifier::spinoff_prover]
#[verifier::rlimit(40)]
proof fn directory_stays_sure(
    m: TaskModel,
    reply: ReplyModel,
    safe: bool,
    safe2: bool,
    deleted: bool,
    deleted2: bool,
    failed: bool,
    failed2: bool,
)
    requires
        part_of(m.stage) == Part::Directory,
        answers(request_of(m).op, reply),
        sure_of(m, safe, deleted, failed),
        carries_over(m, reply, safe, safe2, deleted, deleted2, failed, failed2),
    ensures
        sure_of(after_reply(m, reply), safe2, deleted2, failed2),
        part_of(after_reply(m, reply).stage) == Part::Directory,
        m.stage == Stage::Unregistering ==> after_reply(m, reply).outcome == m.outcome,
{
}

/// What the run has come to know of the snapshot it deals with.
pub open spec fn run_sound(m: TaskModel, replies: Seq<ReplyModel>) -> bool {
    let s = after_all(m, replies);
    sure_of(
        s,
        was_told(m, replies, ask(Op::IsSafeTarget, s.snapshot), ReplyModel::Flag(true)),
        was_told(m, replies, ask(Op::DeleteSnapshot, s.snapshot), ReplyModel::Done(None)),
        was_told(m, replies, ask(Op::DeleteSnapshot, s.snapshot), ReplyModel::Done(Some(s.error))),
    )
}

#[verifier::spinoff_prover]
#[verifier::rlimit(40)]
proof fn run_stays_sound(m: TaskModel, replies: Seq<ReplyModel>)
    requires
        replies.len() > 0,
        proper_run(m, replies),
        run_sound(m, replies.drop_last()),
    ensures
        run_sound(m, replies),
{
    let past = replies.drop_last();
    let b = after_all(m, past);
    let s = after_all(m, replies);
    let reply = replies.last();
    let safe = was_told(m, past, ask(Op::IsSafeTarget, b.snapshot), ReplyModel::Flag(true));
    let safe2 = was_told(m, replies, ask(Op::IsSafeTarget, s.snapshot), ReplyModel::Flag(true));
    let deleted = was_told(m, past, ask(Op::DeleteSnapshot, b.snapshot), ReplyModel::Done(None));
    let deleted2 = was_told(m, replies, ask(Op::DeleteSnapshot, s.snapshot), ReplyModel::Done(None));
    let failed = was_told(
        m,
        past,
        ask(Op::DeleteSnapshot, b.snapshot),
        ReplyModel::Done(Some(b.error)),
    );
    let failed2 = was_told(
        m,
        replies,
        ask(Op::DeleteSnapshot, s.snapshot),
        ReplyModel::Done(Some(s.error)),
    );
    assert(s == after_reply(b, reply));
    assert(carries_over(b, reply, safe, safe2, deleted, deleted2, failed, failed2));
    match part_of(b.stage) {
        Part::Search => search_stays_sure(b, reply, safe, safe2, deleted, deleted2, failed, failed2),
        Part::Stored => stored_stays_sure(b, reply, safe, safe2, deleted, deleted2, failed, failed2),
        Part::Linked => linked_stays_sure(b, reply, safe, safe2, deleted, deleted2, failed, failed2),
        Part::Direct => direct_stays_sure(b, reply, safe, safe2, deleted, deleted2, failed, failed2),
        Part::Directory => directory_stays_sure(
            b,
            reply,
            safe,
            safe2,
            deleted,
            deleted2,
            failed,
            failed2,
        ),
    }
}

proof fn runs_are_sound(m: TaskModel, replies: Seq<ReplyModel>)
    requires
        m.outcome is Pending,
        m.stage == Stage::OverlayLive || m.stage == Stage::GitFile,
        proper_run(m, replies),
    ensures
        run_sound(m, replies),
    decreases replies.len(),
{
    if replies.len() > 0 {
        runs_are_sound(m, replies.drop_last());
        run_stays_sound(m, replies);
    }
}

/// A snapshot that is reached through a link or through stored metadata is deleted
/// only once it was found to be a safe target, and one known from metadata only where
/// it lies directly in the storage directory in which the metadata was found.
pub proof fn deletion_is_guarded(
    worktree: Seq<char>,
    delegate: bool,
    subdirs: Seq<Seq<char>>,
    suffix: Seq<char>,
    linux: bool,
    replies: Seq<ReplyModel>,
)
    requires
        proper_run(fresh_task(worktree, delegate, subdirs, suffix, linux), replies),
    ensures
        ({
            let start = fresh_task(worktree, delegate, subdirs, suffix, linux);
            let s = after_all(start, replies);
            request_of(s).op == Op::DeleteSnapshot && part_of(s.stage) != Part::Direct ==> {
                &&& was_told(
                    start,
                    replies,
                    ask(Op::IsSafeTarget, request_of(s).path),
                    ReplyModel::Flag(true),
                )
                &&& part_of(s.stage) == Part::Stored ==> directly_in(request_of(s).path, s.dir)
            }
        }),
{
    runs_are_sound(fresh_task(worktree, delegate, subdirs, suffix, linux), replies);
}

/// The privileged helper is asked only where there is one and the direct deletion of
/// the snapshot has failed.
pub proof fn helper_is_a_fallback(
    worktree: Seq<char>,
    delegate: bool,
    subdirs: Seq<Seq<char>>,
    suffix: Seq<char>,
    linux: bool,
    replies: Seq<ReplyModel>,
)
    requires
        proper_run(fresh_task(worktree, delegate, subdirs, suffix, linux), replies),
    ensures
        ({
            let start = fresh_task(worktree, delegate, subdirs, suffix, linux);
            let s = after_all(start, replies);
            request_of(s).op == Op::DelegateDelete ==> delegate && was_told(
                start,
                replies,
                ask(Op::DeleteSnapshot, s.snapshot),
                ReplyModel::Done(Some(s.error)),
            )
        }),
{
    let start = fresh_task(worktree, delegate, subdirs, suffix, linux);
    runs_are_sound(start, replies);
    delegate_is_fixed(start, replies);
}

#[verifier::spinoff_prover]
#[verifier::rlimit(40)]
pub proof fn delegate_is_fixed(m: TaskModel, replies: Seq<ReplyModel>)
    ensures
        after_all(m, replies).delegate == m.delegate,
        after_all(m, replies).worktree == m.worktree,
    decreases replies.len(),
{
    if replies.len() > 0 {
        delegate_is_fixed(m, replies.drop_last());
    }
}

/// The link to a snapshot goes only after the snapshot: as long as the deletion has
/// not succeeded, the link still leads to what is to be deleted. Stored metadata goes
/// only where its snapshot was not left alone.
pub proof fn reference_outlives_snapshot(
    worktree: Seq<char>,
    delegate: bool,
    subdirs: Seq<Seq<char>>,
    suffix: Seq<char>,
    linux: bool,
    replies: Seq<ReplyModel>,
)
    requires
        proper_run(fresh_task(worktree, delegate, subdirs, suffix, linux), replies),
    ensures
        ({
            let start = fresh_task(worktree, delegate, subdirs, suffix, linux);
            let s = after_all(start, replies);
            &&& s.stage == Stage::LinkUnlink ==> was_told(
                start,
                replies,
                ask(Op::DeleteSnapshot, s.snapshot),
                ReplyModel::Done(None),
            )
            &&& s.stage == Stage::MetaDropReference && s.deleted ==> was_told(
                start,
                replies,
                ask(Op::DeleteSnapshot, s.snapshot),
                ReplyModel::Done(None),
            )
            &&& s.stage == Stage::MetaDropFile ==> !s.refused
        }),
{
    runs_are_sound(fresh_task(worktree, delegate, subdirs, suffix, linux), replies);
}

#[verifier::spinoff_prover]
#[verifier::rlimit(40)]
proof fn unregister_means_removed(m: TaskModel, replies: Seq<ReplyModel>)
    requires
        m.outcome is Pending,
        m.stage == Stage::OverlayLive || m.stage == Stage::GitFile,
        proper_run(m, replies),
        was_asked(m, replies, Op::Unregister),
    ensures
        after_all(m, replies).outcome is Removed,
        after_all(m, replies).stage == Stage::Unregistering || after_all(m, replies).stage
            == Stage::Finished,
    decreases replies.len(),
{
    runs_are_sound(m, replies);
    if request_of(after_all(m, replies)).op != Op::Unregister {
        unregister_means_removed(m, replies.drop_last());
        let b = after_all(m, replies.drop_last());
        assert(after_all(m, replies) == after_reply(b, replies.last()));
    }
}

#[verifier::spinoff_prover]
#[verifier::rlimit(40)]
proof fn finished_removed_was_unregistered(m: TaskModel, replies: Seq<ReplyModel>)
    requires
        m.outcome is Pending,
        m.stage == Stage::OverlayLive || m.stage == Stage::GitFile,
        proper_run(m, replies),
        after_all(m, replies).stage == Stage::Finished,
        after_all(m, replies).outcome is Removed,
    ensures
        was_asked(m, replies, Op::Unregister),
{
    let past = replies.drop_last();
    let b = after_all(m, past);
    runs_are_sound(m, past);
    assert(after_all(m, replies) == after_reply(b, replies.last()));
    removed_finish(b, replies.last());
    assert(was_asked(m, past, Op::Unregister));
}

#[verifier::spinoff_prover]
#[verifier::rlimit(40)]
proof fn removed_finish(m: TaskModel, reply: ReplyModel)
    requires
        answers(request_of(m).op, reply),
        m.outcome is Pending || m.stage == Stage::Unregistering || m.stage == Stage::Finished,
        after_reply(m, reply).stage == Stage::Finished,
        after_reply(m, reply).outcome is Removed,
    ensures
        m.stage == Stage::Unregistering,
{
    match part_of(m.stage) {
        Part::Search => {},
        Part::Stored => {},
        Part::Linked => {},
        Part::Direct => {},
        Part::Directory => {},
    }
}

/// The record of a worktree is struck only once the worktree is gone: a removal that
/// fails has never asked for it.
pub proof fn record_outlives_failed_removal(
    worktree: Seq<char>,
    delegate: bool,
    subdirs: Seq<Seq<char>>,
    suffix: Seq<char>,
    linux: bool,
    replies: Seq<ReplyModel>,
)
    requires
        proper_run(fresh_task(worktree, delegate, subdirs, suffix, linux), replies),
    ensures
        ({
            let start = fresh_task(worktree, delegate, subdirs, suffix, linux);
            let s = after_all(start, replies);
            &&& was_asked(start, replies, Op::Unregister) ==> s.outcome is Removed
            &&& s.outcome is Failed ==> !was_asked(start, replies, Op::Unregister)
            &&& s.stage == Stage::Finished && s.outcome is Removed ==> was_asked(
                start,
                replies,
                Op::Unregister,
            )
        }),
{
    let start = fresh_task(worktree, delegate, subdirs, suffix, linux);
    if was_asked(start, replies, Op::Unregister) {
        unregister_means_removed(start, replies);
    }
    let s = after_all(start, replies);
    if s.stage == Stage::Finished && s.outcome is Removed {
        finished_removed_was_unregistered(start, replies);
    }
}

#[verifier::spinoff_prover]
#[verifier::rlimit(40)]
proof fn directory_stays_directory(m: TaskModel, reply: ReplyModel)
    requires
        part_of(m.stage) == Part::Directory,
        answers(request_of(m).op, reply),
    ensures
        part_of(after_reply(m, reply).stage) == Part::Directory,
{
}

/// Off Linux neither a snapshot nor a mount is ever touched.
pub proof fn plain_removal_off_linux(
    worktree: Seq<char>,
    delegate: bool,
    subdirs: Seq<Seq<char>>,
    suffix: Seq<char>,
    replies: Seq<ReplyModel>,
)
    requires
        proper_run(fresh_task(worktree, delegate, subdirs, suffix, false), replies),
    ensures
        part_of(
            after_all(fresh_task(worktree, delegate, subdirs, suffix, false), replies).stage,
        ) == Part::Directory,
    decreases replies.len(),
{
    if replies.len() > 0 {
        let start = fresh_task(worktree, delegate, subdirs, suffix, false);
        let past = replies.drop_last();
        plain_removal_off_linux(worktree, delegate, subdirs, suffix, past);
        runs_are_sound(start, past);
        directory_stays_directory(after_all(start, past), replies.last());
    }
}

/// How far a stage is from the end of the removal.
pub open spec fn distance(stage: Stage) -> nat {
    match stage {
        Stage::OverlayLive => 40,
        Stage::OverlayStored => 39,
        Stage::Mounts => 38,
        Stage::Listing | Stage::ReadingMeta => 37,
        Stage::MetaSafe => 36,
        Stage::MetaLink => 35,
        Stage::MetaUmount => 34,
        Stage::MetaExists => 33,
        Stage::MetaDelete => 32,
        Stage::MetaDelegate => 31,
        Stage::MetaDropReference => 30,
        Stage::MetaDropFile => 29,
        Stage::LinkProbe => 28,
        Stage::LinkRead => 27,
        Stage::LinkSubvolume => 26,
        Stage::LinkSafe => 25,
        Stage::LinkRefused => 24,
        Stage::LinkDelete => 23,
        Stage::LinkDelegate => 22,
        Stage::LinkForget => 21,
        Stage::LinkUnlink => 20,
        Stage::LinkOther => 19,
        Stage::DirectProbe => 18,
        Stage::DirectUmount => 17,
        Stage::DirectRmdir => 16,
        Stage::DirectDelete => 15,
        Stage::DirectDelegate => 14,
        Stage::DirectForget => 13,
        Stage::LinkBroken => 12,
        Stage::GitFile => 11,
        Stage::GitCanonical => 10,
        Stage::PlainKind => 9,
        Stage::PlainUnlink => 8,
        Stage::PlainRemove => 7,
        Stage::RegistrationProbe => 6,
        Stage::RegistrationRemove => 5,
        Stage::Unregistering => 4,
        Stage::Finished => 0,
    }
}

/// Every answer brings a removal nearer to its end, so every removal comes to one: by
/// stages, and inside the search by directories and then by files.
pub proof fn removal_moves_on(m: TaskModel, reply: ReplyModel)
    requires
        answers(request_of(m).op, reply),
    ensures
        nearer(m, after_reply(m, reply)),
{
    match part_of(m.stage) {
        Part::Search => search_moves_on(m, reply),
        Part::Stored => stored_moves_on(m, reply),
        Part::Linked => linked_moves_on(m, reply),
        Part::Direct => direct_moves_on(m, reply),
        Part::Directory => directory_moves_on(m, reply),
    }
}

/// `n` is nearer to the end of the removal than `m`.
pub open spec fn nearer(m: TaskModel, n: TaskModel) -> bool {
    ||| distance(n.stage) < distance(m.stage)
    ||| {
        &&& distance(n.stage) == distance(m.stage)
        &&& n.dirs.len() < m.dirs.len()
    }
    ||| {
        &&& distance(n.stage) == distance(m.stage)
        &&& n.dirs.len() == m.dirs.len()
        &&& m.stage == Stage::Listing
        &&& n.stage == Stage::ReadingMeta
    }
    ||| {
        &&& n.stage == m.stage
        &&& n.dirs.len() == m.dirs.len()
        &&& n.files.len() < m.files.len()
    }
}

#[verifier::spinoff_prover]
#[verifier::rlimit(40)]
proof fn search_moves_on(m: TaskModel, reply: ReplyModel)
    requires
        part_of(m.stage) == Part::Search,
        answers(request_of(m).op, reply),
    ensures
        nearer(m, after_reply(m, reply)),
{
}

#[verifier::spinoff_prover]
#[verifier::rlimit(40)]
proof fn stored_moves_on(m: TaskModel, reply: ReplyModel)
    requires
        part_of(m.stage) == Part::Stored,
        answers(request_of(m).op, reply),
    ensures
        nearer(m, after_reply(m, reply)),
{
}

#[verifier::spinoff_prover]
#[verifier::rlimit(40)]
proof fn linked_moves_on(m: TaskModel, reply: ReplyModel)
    requires
        part_of(m.stage) == Part::Linked,
        answers(request_of(m).op, reply),
    ensures
        nearer(m, after_reply(m, reply)),
{
}

#[verifier::spinoff_prover]
#[verifier::rlimit(40)]
proof fn direct_moves_on(m: TaskModel, reply: ReplyModel)
    requires
        part_of(m.stage) == Part::Direct,
        answers(request_of(m).op, reply),
    ensures
        nearer(m, after_reply(m, reply)),
{
}

#[verifier::spinoff_prover]
#[verifier::rlimit(40)]
proof fn directory_moves_on(m: TaskModel, reply: ReplyModel)
    requires
        part_of(m.stage) == Part::Directory,
        answers(request_of(m).op, reply),
    ensures
        nearer(m, after_reply(m, reply)),
{
}

} // verus!
