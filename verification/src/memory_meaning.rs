//! What a snapshot of the memory directory that succeeds has done, and why one that fails
//! has failed, told by what was asked of the machine and what it answered.
use crate::memory_backup::{
    backup_after, backup_answers, backup_request, BackupOp, BackupReplyModel, BackupRequestModel,
    BackupStage, GitOutputModel, SnapshotModel,
};
use crate::paths::joined;
use crate::text::{contains, is_white, join_with, trim};
use vstd::prelude::*;

verus! {

/// A snapshot that has not begun.
pub open spec fn fresh_snapshot(root: Seq<char>, message: Seq<char>) -> SnapshotModel {
    SnapshotModel { root, message, stage: BackupStage::Root, error: Seq::empty() }
}

/// The snapshot after all the answers.
pub open spec fn snapped(m: SnapshotModel, replies: Seq<BackupReplyModel>) -> SnapshotModel
    decreases replies.len(),
{
    if replies.len() == 0 {
        m
    } else {
        backup_after(snapped(m, replies.drop_last()), replies.last())
    }
}

/// What was asked and answered on the way.
pub open spec fn snapping(m: SnapshotModel, replies: Seq<BackupReplyModel>) -> Seq<
    (BackupRequestModel, BackupReplyModel),
>
    decreases replies.len(),
{
    if replies.len() == 0 {
        Seq::empty()
    } else {
        snapping(m, replies.drop_last()).push(
            (backup_request(snapped(m, replies.drop_last())), replies.last()),
        )
    }
}

/// Every answer is one to what was asked.
pub open spec fn all_answered(m: SnapshotModel, replies: Seq<BackupReplyModel>) -> bool
    decreases replies.len(),
{
    replies.len() > 0 ==> all_answered(m, replies.drop_last()) && backup_answers(
        backup_request(snapped(m, replies.drop_last())).op,
        replies.last(),
    )
}

// -------------------------------------------------------------------- what was done

/// Whether it was seen.
pub open spec fn seen(
    h: Seq<(BackupRequestModel, BackupReplyModel)>,
    op: BackupOp,
    path: Seq<char>,
    there: bool,
) -> bool {
    h.contains(
        (BackupRequestModel { op, path, args: Seq::empty() }, BackupReplyModel::Flag(there)),
    )
}

/// Git was run with these arguments, and this came of it.
pub open spec fn ran(
    h: Seq<(BackupRequestModel, BackupReplyModel)>,
    root: Seq<char>,
    args: Seq<Seq<char>>,
    r: Result<GitOutputModel, Seq<char>>,
) -> bool {
    h.contains(
        (BackupRequestModel { op: BackupOp::Git, path: root, args }, BackupReplyModel::Git(r)),
    )
}

/// Git was run with these arguments and ended with this code.
pub open spec fn ended(
    h: Seq<(BackupRequestModel, BackupReplyModel)>,
    root: Seq<char>,
    args: Seq<Seq<char>>,
    code: i32,
) -> bool {
    exists|o: GitOutputModel| #[trigger] ran(h, root, args, Ok(o)) && o.code == Some(code)
}

/// The list of what is not tracked was to be written.
pub open spec fn ignore_written(
    h: Seq<(BackupRequestModel, BackupReplyModel)>,
    path: Seq<char>,
    reply: BackupReplyModel,
) -> bool {
    h.contains(
        (BackupRequestModel { op: BackupOp::WriteIgnore, path, args: Seq::empty() }, reply),
    )
}

/// There is a repository: it was there, or was made.
pub open spec fn has_repository(
    root: Seq<char>,
    h: Seq<(BackupRequestModel, BackupReplyModel)>,
) -> bool {
    let git = joined(root, ".git"@);
    ||| seen(h, BackupOp::Exists, git, true)
    ||| seen(h, BackupOp::Exists, git, false) && ended(h, root, seq!["init"@, "-q"@], 0)
}

/// The list was written.
pub open spec fn is_written(
    h: Seq<(BackupRequestModel, BackupReplyModel)>,
    path: Seq<char>,
) -> bool {
    exists|r: BackupReplyModel| #[trigger]
        ignore_written(h, path, r) && (r matches BackupReplyModel::Done(d) && d is Ok)
}

/// There is a list of what is not tracked: it was there, or was written.
pub open spec fn has_ignore(
    root: Seq<char>,
    h: Seq<(BackupRequestModel, BackupReplyModel)>,
) -> bool {
    let path = joined(root, ".gitignore"@);
    seen(h, BackupOp::Exists, path, true) || (seen(h, BackupOp::Exists, path, false) && is_written(
        h,
        path,
    ))
}

/// The output is more than whitespace.
pub open spec fn says_something(s: Seq<char>) -> bool {
    exists|i: int| 0 <= i < s.len() && !is_white(#[trigger] s[i])
}

/// The arguments by which a setting is looked up.
pub open spec fn lookup(key: Seq<char>) -> Seq<Seq<char>> {
    seq!["config"@, "--local"@, key]
}

/// The setting has a value.
pub open spec fn has_value(
    root: Seq<char>,
    h: Seq<(BackupRequestModel, BackupReplyModel)>,
    key: Seq<char>,
) -> bool {
    exists|o: GitOutputModel| #[trigger]
        ran(h, root, lookup(key), Ok(o)) && o.code == Some(0i32)
            && says_something(o.stdout)
}

/// The setting was there, or was set.
pub open spec fn has_setting(
    root: Seq<char>,
    h: Seq<(BackupRequestModel, BackupReplyModel)>,
    key: Seq<char>,
    value: Seq<char>,
) -> bool {
    has_value(root, h, key) || ended(h, root, seq!["config"@, "--local"@, key, value], 0)
}

/// Git took the commit, or found that there is nothing to commit.
pub open spec fn commit_accepted(o: GitOutputModel) -> bool {
    ||| o.code == Some(0i32)
    ||| contains(o.stdout + o.stderr, "nothing to commit"@)
    ||| contains(o.stdout + o.stderr, "no changes added to commit"@)
}

/// A commit was made.
pub open spec fn committed(
    root: Seq<char>,
    h: Seq<(BackupRequestModel, BackupReplyModel)>,
    args: Seq<Seq<char>>,
) -> bool {
    exists|o: GitOutputModel| #[trigger] ran(h, root, args, Ok(o)) && commit_accepted(o)
}

/// There is no history yet.
pub open spec fn no_history(
    root: Seq<char>,
    h: Seq<(BackupRequestModel, BackupReplyModel)>,
) -> bool {
    let args = seq!["rev-parse"@, "--verify"@, "--quiet"@, "HEAD"@];
    exists|r: Result<GitOutputModel, Seq<char>>| #[trigger]
        ran(h, root, args, r) && !(r matches Ok(o) && o.code == Some(0i32))
}

/// All that has to come before a commit was done.
pub open spec fn is_staged(
    root: Seq<char>,
    h: Seq<(BackupRequestModel, BackupReplyModel)>,
) -> bool {
    &&& seen(h, BackupOp::IsDir, root, true)
    &&& has_repository(root, h)
    &&& has_ignore(root, h)
    &&& has_setting(root, h, "user.name"@, "qidi-memory"@)
    &&& has_setting(root, h, "user.email"@, "qidi-memory@local"@)
    &&& ended(h, root, seq!["add"@, "-A"@], 0)
}

/// What was staged is in the history: there was nothing new and there is history already, or
/// there was none and a first commit was made, or there was something new and a commit was
/// made.
pub open spec fn is_kept(
    root: Seq<char>,
    message: Seq<char>,
    h: Seq<(BackupRequestModel, BackupReplyModel)>,
) -> bool {
    let diff = seq!["diff"@, "--cached"@, "--quiet"@];
    ||| ended(h, root, diff, 0) && ended(
        h,
        root,
        seq!["rev-parse"@, "--verify"@, "--quiet"@, "HEAD"@],
        0,
    )
    ||| ended(h, root, diff, 0) && no_history(root, h) && committed(
        root,
        h,
        seq!["commit"@, "-q"@, "--allow-empty"@, "-m"@, message],
    )
    ||| ended(h, root, diff, 1) && committed(root, h, seq!["commit"@, "-q"@, "-m"@, message])
}

/// Git could not be run, and this is said of it.
pub open spec fn not_run(
    root: Seq<char>,
    h: Seq<(BackupRequestModel, BackupReplyModel)>,
    args: Seq<Seq<char>>,
    e: Seq<char>,
    said: Seq<char>,
    error: Seq<char>,
) -> bool {
    ran(h, root, args, Err(e)) && error == "failed to run git "@ + said + ": "@ + e
}

/// Git was run and failed, and this is said of it.
pub open spec fn not_done(
    root: Seq<char>,
    h: Seq<(BackupRequestModel, BackupReplyModel)>,
    args: Seq<Seq<char>>,
    o: GitOutputModel,
    error: Seq<char>,
) -> bool {
    &&& ran(h, root, args, Ok(o))
    &&& o.code != Some(0i32)
    &&& {
        ||| error == "git "@ + join_with(args, " "@) + " failed: "@ + trim(o.stderr)
        ||| error == "git diff --cached failed: "@ + trim(o.stderr) && o.code != Some(1i32) && args
            == seq!["diff"@, "--cached"@, "--quiet"@]
        ||| error == "git commit failed: "@ + trim(o.stdout + o.stderr) && !commit_accepted(o)
    }
}

/// The list could not be written.
pub open spec fn not_written(
    h: Seq<(BackupRequestModel, BackupReplyModel)>,
    path: Seq<char>,
    r: BackupReplyModel,
    error: Seq<char>,
) -> bool {
    ignore_written(h, path, r) && (r matches BackupReplyModel::Done(d) && d is Err && error
        == "failed to write .gitignore: "@ + d->Err_0)
}

/// Why the snapshot failed.
pub open spec fn has_reason(
    root: Seq<char>,
    h: Seq<(BackupRequestModel, BackupReplyModel)>,
    error: Seq<char>,
) -> bool {
    ||| seen(h, BackupOp::IsDir, root, false) && error == "memory root is not a directory: "@ + root
    ||| exists|r: BackupReplyModel| #[trigger]
        not_written(h, joined(root, ".gitignore"@), r, error)
    ||| exists|args: Seq<Seq<char>>, e: Seq<char>, said: Seq<char>| #[trigger]
        not_run(root, h, args, e, said, error)
    ||| exists|args: Seq<Seq<char>>, o: GitOutputModel| #[trigger]
        not_done(root, h, args, o, error)
}

// --------------------------------------------------------------------- on the way

spec fn on_the_way(m: SnapshotModel, h: Seq<(BackupRequestModel, BackupReplyModel)>) -> bool {
    let s = m.stage;
    let root = m.root;
    let committing = s == BackupStage::Diff || s == BackupStage::Head || s
        == BackupStage::FirstCommit || s == BackupStage::Commit || s == BackupStage::Done;
    let mail = s == BackupStage::EmailGet || s == BackupStage::EmailSet;
    let named = s == BackupStage::NameGet || s == BackupStage::NameSet;
    let diff = seq!["diff"@, "--cached"@, "--quiet"@];
    &&& s == BackupStage::Failed ==> has_reason(root, h, m.error)
    &&& s != BackupStage::Failed && s != BackupStage::Root ==> seen(h, BackupOp::IsDir, root, true)
    &&& s == BackupStage::Init ==> seen(h, BackupOp::Exists, joined(root, ".git"@), false)
    &&& s == BackupStage::Ignore || s == BackupStage::WriteIgnore || named || mail || s
        == BackupStage::Add ==> has_repository(root, h)
    &&& s == BackupStage::WriteIgnore ==> seen(
        h,
        BackupOp::Exists,
        joined(root, ".gitignore"@),
        false,
    )
    &&& named || mail || s == BackupStage::Add ==> has_ignore(root, h)
    &&& mail || s == BackupStage::Add ==> has_setting(root, h, "user.name"@, "qidi-memory"@)
    &&& s == BackupStage::Add ==> has_setting(root, h, "user.email"@, "qidi-memory@local"@)
    &&& committing ==> is_staged(root, h)
    &&& s == BackupStage::Head || s == BackupStage::FirstCommit ==> ended(h, root, diff, 0)
    &&& s == BackupStage::FirstCommit ==> no_history(root, h)
    &&& s == BackupStage::Commit ==> ended(h, root, diff, 1)
    &&& s == BackupStage::Done ==> is_kept(root, m.message, h)
}

proof fn done_stays(
    h: Seq<(BackupRequestModel, BackupReplyModel)>,
    q: BackupRequestModel,
    reply: BackupReplyModel,
    root: Seq<char>,
)
    ensures
        ({
            let g = h.push((q, reply));
            &&& g.contains((q, reply))
            &&& forall|op: BackupOp, path: Seq<char>, there: bool| #[trigger]
                seen(h, op, path, there) ==> seen(g, op, path, there)
            &&& forall|args: Seq<Seq<char>>, code: i32| #[trigger]
                ended(h, root, args, code) ==> ended(g, root, args, code)
            &&& forall|path: Seq<char>| #[trigger] is_written(h, path) ==> is_written(g, path)
            &&& forall|key: Seq<char>| #[trigger]
                has_value(root, h, key) ==> has_value(root, g, key)
            &&& no_history(root, h) ==> no_history(root, g)
            &&& is_staged(root, h) ==> is_staged(root, g)
        }),
{
    let g = h.push((q, reply));
    assert(g[h.len() as int] == (q, reply));
    assert forall|x: (BackupRequestModel, BackupReplyModel)| h.contains(x) implies #[trigger]
        g.contains(x) by {
        assert(g[h.index_of(x)] == x);
    }
    assert forall|args: Seq<Seq<char>>, code: i32| #[trigger]
        ended(h, root, args, code) implies ended(g, root, args, code) by {
        let o = choose|o: GitOutputModel| #[trigger]
            ran(h, root, args, Ok(o)) && o.code == Some(code);
        assert(ran(g, root, args, Ok(o)));
    }
    assert forall|path: Seq<char>| #[trigger] is_written(h, path) implies is_written(g, path) by {
        let r = choose|r: BackupReplyModel| #[trigger]
            ignore_written(h, path, r) && (r matches BackupReplyModel::Done(d) && d is Ok);
        assert(ignore_written(g, path, r));
    }
    assert forall|key: Seq<char>| #[trigger] has_value(root, h, key) implies has_value(
        root,
        g,
        key,
    ) by {
        let o = choose|o: GitOutputModel| #[trigger]
            ran(h, root, lookup(key), Ok(o)) && o.code == Some(0i32)
                && says_something(o.stdout);
        assert(ran(g, root, lookup(key), Ok(o)));
    }
    if no_history(root, h) {
        let args = seq!["rev-parse"@, "--verify"@, "--quiet"@, "HEAD"@];
        let r = choose|r: Result<GitOutputModel, Seq<char>>| #[trigger]
            ran(h, root, args, r) && !(r matches Ok(o) && o.code == Some(0i32));
        assert(ran(g, root, args, r));
    }
}

#[verifier::spinoff_prover]
#[verifier::rlimit(100)]
proof fn stays_on_the_way(
    m: SnapshotModel,
    h: Seq<(BackupRequestModel, BackupReplyModel)>,
    reply: BackupReplyModel,
)
    requires
        on_the_way(m, h),
        backup_answers(backup_request(m).op, reply),
    ensures
        on_the_way(backup_after(m, reply), h.push((backup_request(m), reply))),
{
    let q = backup_request(m);
    let g = h.push((q, reply));
    let n = backup_after(m, reply);
    let root = m.root;
    done_stays(h, q, reply, root);
    match reply {
        BackupReplyModel::Git(r) => {
            assert(ran(g, root, q.args, r));
            match r {
                Ok(o) => {
                    assert(ran(g, root, q.args, Ok(o)));
                    if n.stage == BackupStage::Failed {
                        assert(not_done(root, g, q.args, o, n.error));
                    }
                    if o.code == Some(0i32) {
                        assert(ended(g, root, q.args, 0));
                    }
                    if o.code == Some(1i32) {
                        assert(ended(g, root, q.args, 1));
                    }
                },
                Err(e) => {
                    let line = join_with(q.args, " "@);
                    if n.stage == BackupStage::Failed {
                        parts_of_error(e);
                        let said = match m.stage {
                            BackupStage::NameGet | BackupStage::EmailGet => "config"@,
                            BackupStage::Diff => "diff"@,
                            BackupStage::FirstCommit | BackupStage::Commit => "commit"@,
                            _ => line,
                        };
                        assert(not_run(root, g, q.args, e, said, n.error));
                    }
                },
            }
        },
        BackupReplyModel::Done(r) => {
            assert(ignore_written(g, joined(root, ".gitignore"@), reply));
            if n.stage == BackupStage::Failed {
                assert(not_written(g, joined(root, ".gitignore"@), reply, n.error));
            } else {
                assert(is_written(g, joined(root, ".gitignore"@)));
            }
        },
        BackupReplyModel::Flag(there) => {
            assert(seen(g, q.op, q.path, there));
        },
    }
}

/// The short forms of the message.
proof fn parts_of_error(e: Seq<char>)
    ensures
        "failed to run git config: "@ + e == "failed to run git "@ + "config"@ + ": "@ + e,
        "failed to run git diff: "@ + e == "failed to run git "@ + "diff"@ + ": "@ + e,
        "failed to run git commit: "@ + e == "failed to run git "@ + "commit"@ + ": "@ + e,
{
    reveal_strlit("failed to run git ");
    reveal_strlit("failed to run git config: ");
    reveal_strlit("failed to run git diff: ");
    reveal_strlit("failed to run git commit: ");
    reveal_strlit("config");
    reveal_strlit("diff");
    reveal_strlit("commit");
    reveal_strlit(": ");
    assert("failed to run git config: "@ =~= "failed to run git "@ + "config"@ + ": "@);
    assert("failed to run git diff: "@ =~= "failed to run git "@ + "diff"@ + ": "@);
    assert("failed to run git commit: "@ =~= "failed to run git "@ + "commit"@ + ": "@);
}

proof fn runs_are_on_the_way(m: SnapshotModel, replies: Seq<BackupReplyModel>)
    requires
        m.stage == BackupStage::Root,
        all_answered(m, replies),
    ensures
        on_the_way(snapped(m, replies), snapping(m, replies)),
        snapped(m, replies).root == m.root,
        snapped(m, replies).message == m.message,
    decreases replies.len(),
{
    if replies.len() > 0 {
        runs_are_on_the_way(m, replies.drop_last());
        stays_on_the_way(
            snapped(m, replies.drop_last()),
            snapping(m, replies.drop_last()),
            replies.last(),
        );
    }
}

/// A snapshot that is done has staged everything in a repository with its list and its
/// settings, and what was staged is in the history; one that failed says why.
pub proof fn snapshots_are_kept(
    root: Seq<char>,
    message: Seq<char>,
    replies: Seq<BackupReplyModel>,
)
    requires
        all_answered(fresh_snapshot(root, message), replies),
    ensures
        ({
            let m = snapped(fresh_snapshot(root, message), replies);
            let h = snapping(fresh_snapshot(root, message), replies);
            &&& m.stage == BackupStage::Done ==> is_staged(root, h) && is_kept(root, message, h)
            &&& m.stage == BackupStage::Failed ==> has_reason(root, h, m.error)
        }),
{
    runs_are_on_the_way(fresh_snapshot(root, message), replies);
}

} // verus!
