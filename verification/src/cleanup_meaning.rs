//! What a clean-up has done when it is over, told by what was asked of the machine and what
//! it answered.
use crate::paths::joined;
use crate::worktree_cleanup::{
    cleanup_after, cleanup_request, fresh_cleanup, has_room, CleanupModel, CleanupStage,
};
use crate::worktree_host::{answers, ask, EntryKind, Op, RemovalModel, ReplyModel, RequestModel};
use vstd::prelude::*;

verus! {

/// This was asked, and this was the answer.
pub open spec fn told(
    h: Seq<(RequestModel, ReplyModel)>,
    op: Op,
    path: Seq<char>,
    reply: ReplyModel,
) -> bool {
    h.contains((ask(op, path), reply))
}

/// This was asked, whatever came of it.
pub open spec fn tried(h: Seq<(RequestModel, ReplyModel)>, op: Op, path: Seq<char>) -> bool {
    exists|r: ReplyModel| #[trigger] told(h, op, path, r)
}

/// What was asked and answered stays so.
pub proof fn told_stays(h: Seq<(RequestModel, ReplyModel)>, q: RequestModel, reply: ReplyModel)
    ensures
        told(h.push((q, reply)), q.op, q.path, reply),
        tried(h.push((q, reply)), q.op, q.path),
        forall|op: Op, path: Seq<char>, r: ReplyModel| #[trigger]
            told(h, op, path, r) ==> told(h.push((q, reply)), op, path, r),
        forall|op: Op, path: Seq<char>| #[trigger]
            tried(h, op, path) ==> tried(h.push((q, reply)), op, path),
{
    let g = h.push((q, reply));
    assert(g[h.len() as int] == (ask(q.op, q.path), reply));
    assert(told(g, q.op, q.path, reply));
    assert forall|op: Op, path: Seq<char>, r: ReplyModel| #[trigger] told(h, op, path, r) implies told(
        g,
        op,
        path,
        r,
    ) by {
        let i = h.index_of((ask(op, path), r));
        assert(g[i] == (ask(op, path), r));
    }
    assert forall|op: Op, path: Seq<char>| #[trigger] tried(h, op, path) implies tried(
        g,
        op,
        path,
    ) by {
        let r = choose|r: ReplyModel| #[trigger] told(h, op, path, r);
        assert(told(g, op, path, r));
    }
}

// ---------------------------------------------------------------------- the runs

/// The clean-up after all the answers.
pub open spec fn cleaned(m: CleanupModel, replies: Seq<ReplyModel>) -> CleanupModel
    decreases replies.len(),
{
    if replies.len() == 0 {
        m
    } else {
        cleanup_after(cleaned(m, replies.drop_last()), replies.last())
    }
}

/// What was asked and answered on the way.
pub open spec fn cleaning(m: CleanupModel, replies: Seq<ReplyModel>) -> Seq<
    (RequestModel, ReplyModel),
>
    decreases replies.len(),
{
    if replies.len() == 0 {
        Seq::empty()
    } else {
        cleaning(m, replies.drop_last()).push(
            (cleanup_request(cleaned(m, replies.drop_last())), replies.last()),
        )
    }
}

/// Every answer is one to what was asked.
pub open spec fn all_answered(m: CleanupModel, replies: Seq<ReplyModel>) -> bool
    decreases replies.len(),
{
    replies.len() > 0 ==> all_answered(m, replies.drop_last()) && answers(
        cleanup_request(cleaned(m, replies.drop_last())).op,
        replies.last(),
    )
}

// -------------------------------------------------------------------- what is done

/// What lies in a directory that is no worktree was handed out for removal if it is a link or
/// a directory.
pub open spec fn inner_settled(h: Seq<(RequestModel, ReplyModel)>, q: Seq<char>) -> bool {
    ||| told(h, Op::EntryKind, q, ReplyModel::Kind(EntryKind::File))
    ||| told(h, Op::EntryKind, q, ReplyModel::Kind(EntryKind::Missing))
    ||| (told(h, Op::EntryKind, q, ReplyModel::Kind(EntryKind::Symlink)) || told(
        h,
        Op::EntryKind,
        q,
        ReplyModel::Kind(EntryKind::Directory),
    )) && tried(h, Op::RemoveWorktree, q)
}

/// Everything in the directory is settled.
pub open spec fn all_inside(
    h: Seq<(RequestModel, ReplyModel)>,
    p: Seq<char>,
    subs: Seq<Seq<char>>,
    n: int,
) -> bool {
    forall|j: int| 0 <= j < n ==> inner_settled(h, joined(p, #[trigger] subs[j]))
}

/// The directory could not be listed, or everything in it is settled.
pub open spec fn inside_settled(h: Seq<(RequestModel, ReplyModel)>, p: Seq<char>) -> bool {
    ||| told(h, Op::ListDir, p, ReplyModel::Entries(None))
    ||| exists|subs: Seq<Seq<char>>|
        told(h, Op::ListDir, p, ReplyModel::Entries(Some(subs))) && #[trigger] all_inside(
            h,
            p,
            subs,
            subs.len() as int,
        )
}

/// A link was handed out for removal, and so was a directory with a `.git`; from any other
/// directory all links and directories were, and it was dropped then.
pub open spec fn settled(h: Seq<(RequestModel, ReplyModel)>, p: Seq<char>) -> bool {
    ||| told(h, Op::EntryKind, p, ReplyModel::Kind(EntryKind::File))
    ||| told(h, Op::EntryKind, p, ReplyModel::Kind(EntryKind::Missing))
    ||| told(h, Op::EntryKind, p, ReplyModel::Kind(EntryKind::Symlink)) && tried(
        h,
        Op::RemoveWorktree,
        p,
    )
    ||| told(h, Op::EntryKind, p, ReplyModel::Kind(EntryKind::Directory)) && told(
        h,
        Op::Exists,
        joined(p, ".git"@),
        ReplyModel::Flag(true),
    ) && tried(h, Op::RemoveWorktree, p)
    ||| told(h, Op::EntryKind, p, ReplyModel::Kind(EntryKind::Directory)) && told(
        h,
        Op::Exists,
        joined(p, ".git"@),
        ReplyModel::Flag(false),
    ) && inside_settled(h, p) && tried(h, Op::RemoveDir, p)
}

/// The first `n` are settled.
pub open spec fn all_settled(
    h: Seq<(RequestModel, ReplyModel)>,
    dir: Seq<char>,
    names: Seq<Seq<char>>,
    n: int,
) -> bool {
    forall|i: int| 0 <= i < n ==> settled(h, joined(dir, #[trigger] names[i]))
}

/// The directory could not be listed, or everything that was listed is settled.
pub open spec fn all_cleaned(h: Seq<(RequestModel, ReplyModel)>, dir: Seq<char>) -> bool {
    ||| told(h, Op::ListDir, dir, ReplyModel::Entries(None))
    ||| exists|names: Seq<Seq<char>>|
        told(h, Op::ListDir, dir, ReplyModel::Entries(Some(names))) && #[trigger] all_settled(
            h,
            dir,
            names,
            names.len() as int,
        )
}

proof fn settled_stays(h: Seq<(RequestModel, ReplyModel)>, q: RequestModel, reply: ReplyModel)
    ensures
        forall|p: Seq<char>| #[trigger]
            inner_settled(h, p) ==> inner_settled(h.push((q, reply)), p),
        forall|p: Seq<char>, subs: Seq<Seq<char>>, n: int| #[trigger]
            all_inside(h, p, subs, n) ==> all_inside(h.push((q, reply)), p, subs, n),
        forall|p: Seq<char>| #[trigger]
            inside_settled(h, p) ==> inside_settled(h.push((q, reply)), p),
        forall|p: Seq<char>| #[trigger] settled(h, p) ==> settled(h.push((q, reply)), p),
        forall|p: Seq<char>, names: Seq<Seq<char>>, n: int| #[trigger]
            all_settled(h, p, names, n) ==> all_settled(h.push((q, reply)), p, names, n),
{
    told_stays(h, q, reply);
    let g = h.push((q, reply));
    assert forall|p: Seq<char>| #[trigger] inside_settled(h, p) implies inside_settled(g, p) by {
        if !told(h, Op::ListDir, p, ReplyModel::Entries(None)) {
            let subs = choose|subs: Seq<Seq<char>>|
                told(h, Op::ListDir, p, ReplyModel::Entries(Some(subs))) && #[trigger] all_inside(
                    h,
                    p,
                    subs,
                    subs.len() as int,
                );
            assert(all_inside(g, p, subs, subs.len() as int));
        }
    }
}

// --------------------------------------------------------------------- on the way

spec fn is_inside(stage: CleanupStage) -> bool {
    stage == CleanupStage::SubEntry || stage == CleanupStage::RemoveSub
}

spec fn inside_at(
    m: CleanupModel,
    h: Seq<(RequestModel, ReplyModel)>,
    subs: Seq<Seq<char>>,
    j: int,
) -> bool {
    &&& told(h, Op::ListDir, m.path, ReplyModel::Entries(Some(subs)))
    &&& 0 < j <= subs.len()
    &&& m.subs == subs.skip(j)
    &&& m.sub_path == joined(m.path, subs[j - 1])
    &&& all_inside(h, m.path, subs, j - 1)
}

spec fn entry_at(m: CleanupModel, h: Seq<(RequestModel, ReplyModel)>) -> bool {
    let directory = told(h, Op::EntryKind, m.path, ReplyModel::Kind(EntryKind::Directory));
    let link = told(h, Op::EntryKind, m.path, ReplyModel::Kind(EntryKind::Symlink));
    let git = joined(m.path, ".git"@);
    &&& m.stage == CleanupStage::GitProbe ==> directory
    &&& m.stage == CleanupStage::RemoveEntry ==> link || (directory && told(
        h,
        Op::Exists,
        git,
        ReplyModel::Flag(true),
    ))
    &&& m.stage == CleanupStage::ListSub || is_inside(m.stage) || m.stage == CleanupStage::DropDir
        ==> directory && told(h, Op::Exists, git, ReplyModel::Flag(false))
    &&& is_inside(m.stage) ==> exists|subs: Seq<Seq<char>>, j: int| #[trigger]
        inside_at(m, h, subs, j)
    &&& m.stage == CleanupStage::RemoveSub ==> told(
        h,
        Op::EntryKind,
        m.sub_path,
        ReplyModel::Kind(EntryKind::Symlink),
    ) || told(h, Op::EntryKind, m.sub_path, ReplyModel::Kind(EntryKind::Directory))
    &&& m.stage == CleanupStage::DropDir ==> inside_settled(h, m.path)
}

spec fn root_at(
    m: CleanupModel,
    h: Seq<(RequestModel, ReplyModel)>,
    names: Seq<Seq<char>>,
    k: int,
) -> bool {
    &&& told(h, Op::ListDir, m.dir, ReplyModel::Entries(Some(names)))
    &&& 0 < k <= names.len()
    &&& m.names == names.skip(k)
    &&& m.path == joined(m.dir, names[k - 1])
    &&& all_settled(h, m.dir, names, k - 1)
}

spec fn on_the_way(m: CleanupModel, h: Seq<(RequestModel, ReplyModel)>) -> bool {
    match m.stage {
        CleanupStage::ListRoot => true,
        CleanupStage::Finished => all_cleaned(h, m.dir),
        _ => entry_at(m, h) && exists|names: Seq<Seq<char>>, k: int| #[trigger]
            root_at(m, h, names, k),
    }
}

/// The entry is settled: on to the next.
proof fn entry_ends(
    m: CleanupModel,
    h: Seq<(RequestModel, ReplyModel)>,
    names: Seq<Seq<char>>,
    k: int,
    n: CleanupModel,
)
    requires
        root_at(m, h, names, k),
        settled(h, m.path),
        n.dir == m.dir,
        n.names == m.names,
    ensures
        on_the_way(crate::worktree_cleanup::next_entry(n), h),
{
    let o = crate::worktree_cleanup::next_entry(n);
    assert(all_settled(h, m.dir, names, k));
    if m.names.len() == 0 {
        assert(k == names.len());
        assert(all_settled(h, m.dir, names, names.len() as int));
    } else {
        assert(o.path == joined(o.dir, names[k]));
        assert(o.names =~= names.skip(k + 1));
        assert(root_at(o, h, names, k + 1));
    }
}

/// One in the entry is settled: on to the next.
proof fn inner_ends(
    m: CleanupModel,
    h: Seq<(RequestModel, ReplyModel)>,
    subs: Seq<Seq<char>>,
    j: int,
    n: CleanupModel,
)
    requires
        told(h, Op::EntryKind, m.path, ReplyModel::Kind(EntryKind::Directory)),
        told(h, Op::Exists, joined(m.path, ".git"@), ReplyModel::Flag(false)),
        told(h, Op::ListDir, m.path, ReplyModel::Entries(Some(subs))),
        0 <= j <= subs.len(),
        n.subs == subs.skip(j),
        n.path == m.path,
        all_inside(h, m.path, subs, j),
    ensures
        entry_at(crate::worktree_cleanup::next_sub(n), h),
{
    let o = crate::worktree_cleanup::next_sub(n);
    if n.subs.len() == 0 {
        assert(j == subs.len());
        assert(all_inside(h, m.path, subs, subs.len() as int));
        assert(inside_settled(h, m.path));
    } else {
        assert(o.sub_path == joined(o.path, subs[j]));
        assert(o.subs =~= subs.skip(j + 1));
        assert(inside_at(o, h, subs, j + 1));
    }
}

#[verifier::spinoff_prover]
#[verifier::rlimit(60)]
proof fn stays_on_the_way(m: CleanupModel, h: Seq<(RequestModel, ReplyModel)>, reply: ReplyModel)
    requires
        on_the_way(m, h),
        answers(cleanup_request(m).op, reply),
    ensures
        on_the_way(cleanup_after(m, reply), h.push((cleanup_request(m), reply))),
{
    let q = cleanup_request(m);
    let g = h.push((q, reply));
    let n = cleanup_after(m, reply);
    told_stays(h, q, reply);
    settled_stays(h, q, reply);
    if m.stage == CleanupStage::ListRoot {
        if let ReplyModel::Entries(Some(names)) = reply {
            if names.len() == 0 {
                assert(all_settled(g, m.dir, names, names.len() as int));
            } else {
                assert(names.skip(1) =~= n.names);
                assert(root_at(n, g, names, 1));
            }
        }
    } else if m.stage != CleanupStage::Finished {
        let (names, k) = choose|names: Seq<Seq<char>>, k: int| #[trigger] root_at(m, h, names, k);
        assert(root_at(m, g, names, k));
        match (m.stage, reply) {
            (CleanupStage::Entry, ReplyModel::Kind(kind)) => {
                if kind is Symlink || kind is Directory {
                    assert(root_at(n, g, names, k));
                } else {
                    entry_ends(m, g, names, k, m);
                }
            },
            (CleanupStage::GitProbe, ReplyModel::Flag(_)) => {
                assert(root_at(n, g, names, k));
            },
            (CleanupStage::RemoveEntry, ReplyModel::Removal(r)) => {
                entry_ends(
                    m,
                    g,
                    names,
                    k,
                    CleanupModel {
                        report: crate::worktree_cleanup::counted_removal(m.report, r),
                        ..m
                    },
                );
            },
            (CleanupStage::ListSub, ReplyModel::Entries(e)) => {
                assert(root_at(n, g, names, k));
                if let Some(subs) = e {
                    assert(subs.skip(0) =~= subs);
                    inner_ends(m, g, subs, 0, CleanupModel { subs, ..m });
                }
            },
            (CleanupStage::SubEntry, ReplyModel::Kind(kind)) => {
                assert(root_at(n, g, names, k));
                let (subs, j) = choose|subs: Seq<Seq<char>>, j: int| #[trigger]
                    inside_at(m, h, subs, j);
                if kind is Symlink || kind is Directory {
                    assert(inside_at(n, g, subs, j));
                } else {
                    assert(all_inside(g, m.path, subs, j));
                    inner_ends(m, g, subs, j, m);
                }
            },
            (CleanupStage::RemoveSub, ReplyModel::Removal(r)) => {
                assert(root_at(n, g, names, k));
                let (subs, j) = choose|subs: Seq<Seq<char>>, j: int| #[trigger]
                    inside_at(m, h, subs, j);
                assert(all_inside(g, m.path, subs, j));
                inner_ends(
                    m,
                    g,
                    subs,
                    j,
                    CleanupModel {
                        report: crate::worktree_cleanup::counted_removal(m.report, r),
                        ..m
                    },
                );
            },
            (CleanupStage::DropDir, _) => {
                entry_ends(m, g, names, k, m);
            },
            _ => {},
        }
    }
}

proof fn runs_are_on_the_way(m: CleanupModel, replies: Seq<ReplyModel>)
    requires
        m.stage == CleanupStage::ListRoot,
        all_answered(m, replies),
    ensures
        on_the_way(cleaned(m, replies), cleaning(m, replies)),
        cleaned(m, replies).dir == m.dir,
        cleaned(m, replies).delegate == m.delegate,
    decreases replies.len(),
{
    if replies.len() > 0 {
        runs_are_on_the_way(m, replies.drop_last());
        stays_on_the_way(
            cleaned(m, replies.drop_last()),
            cleaning(m, replies.drop_last()),
            replies.last(),
        );
    }
}

/// A clean-up that is over has dealt with every entry of the directory: each link and each
/// directory with a `.git` was handed out for removal, and so was every link and directory in
/// each other directory, which was dropped then.
pub proof fn every_worktree_is_handed_out(dir: Seq<char>, delegate: bool, replies: Seq<ReplyModel>)
    requires
        all_answered(fresh_cleanup(dir, delegate), replies),
        cleaned(fresh_cleanup(dir, delegate), replies).stage == CleanupStage::Finished,
    ensures
        all_cleaned(cleaning(fresh_cleanup(dir, delegate), replies), dir),
        cleaned(fresh_cleanup(dir, delegate), replies).delegate == delegate,
{
    runs_are_on_the_way(fresh_cleanup(dir, delegate), replies);
}

// ----------------------------------------------------------------------- the counts

/// A removal that came out well.
pub open spec fn well_removed(x: (RequestModel, ReplyModel)) -> bool {
    x.0.op == Op::RemoveWorktree && (x.1 matches ReplyModel::Removal(RemovalModel::Removed(_)))
}

/// A removal that did not come out well.
pub open spec fn badly_removed(x: (RequestModel, ReplyModel)) -> bool {
    x.0.op == Op::RemoveWorktree && !(x.1 matches ReplyModel::Removal(RemovalModel::Removed(_)))
}

/// A removal that unmounted an overlay.
pub open spec fn overlay_removed(x: (RequestModel, ReplyModel)) -> bool {
    x.0.op == Op::RemoveWorktree && (x.1 matches ReplyModel::Removal(RemovalModel::Removed(r))
        && r.unmounted_overlay)
}

/// A removal that deleted a snapshot.
pub open spec fn snapshot_removed(x: (RequestModel, ReplyModel)) -> bool {
    x.0.op == Op::RemoveWorktree && (x.1 matches ReplyModel::Removal(RemovalModel::Removed(r))
        && r.used_btrfs_delete)
}

/// The report of a clean-up counts the removals that came out well and those that did not,
/// and among the former the overlays and the snapshots.
pub proof fn report_counts_removals(dir: Seq<char>, delegate: bool, replies: Seq<ReplyModel>)
    requires
        all_answered(fresh_cleanup(dir, delegate), replies),
        replies.len() < u64::MAX,
    ensures
        ({
            let r = cleaned(fresh_cleanup(dir, delegate), replies).report;
            let h = cleaning(fresh_cleanup(dir, delegate), replies);
            &&& r.removed == h.filter(|x: (RequestModel, ReplyModel)| well_removed(x)).len()
            &&& r.errors == h.filter(|x: (RequestModel, ReplyModel)| badly_removed(x)).len()
            &&& r.overlays_unmounted == h.filter(
                |x: (RequestModel, ReplyModel)| overlay_removed(x),
            ).len()
            &&& r.btrfs_deleted == h.filter(
                |x: (RequestModel, ReplyModel)| snapshot_removed(x),
            ).len()
            &&& h.len() == replies.len()
            &&& r.removed + r.errors <= replies.len()
            &&& r.overlays_unmounted <= replies.len() && r.btrfs_deleted <= replies.len()
        }),
    decreases replies.len(),
{
    reveal(Seq::filter);
    let start = fresh_cleanup(dir, delegate);
    if replies.len() > 0 {
        report_counts_removals(dir, delegate, replies.drop_last());
        let m = cleaned(start, replies.drop_last());
        let h = cleaning(start, replies.drop_last());
        let x = (cleanup_request(m), replies.last());
        assert(h.push(x).drop_last() =~= h);
        assert(h.push(x).last() == x);
        assert(has_room(m.report));
    }
}

} // verus!
