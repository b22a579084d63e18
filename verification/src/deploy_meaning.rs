//! What a deployment finds, does and refuses, told by what was asked of the file system and
//! what it answered.
use crate::deploy_laws::{deploy_sound, fresh_deployment_is_sound, place_bound, still_staging};
use crate::deploy_runs::{deploy_fits, deploy_run, empty_run, longer_run, run_is_sound};
use crate::deploy_task::{
    backup_path, deploy_after, deploy_answers, deploy_request, fresh_deployment, member_place,
    next_directory, next_staged, nth_place, target_path, with_member, DeployModel, DeployOp,
    DeployOutcomeModel, DeployReplyModel, DeployRequestModel, DeployStage, StagedKind, LAST_PLACE,
};
use crate::paths::{is_absolute, joined};
use crate::skill_deploy::{
    limit_error, safe_member, size_error, total_size, valid_name, ErrorModel, MemberModel,
};
use vstd::prelude::*;

verus! {

/// The request for `op` on `path`.
pub open spec fn want(op: DeployOp, path: Seq<char>) -> DeployRequestModel {
    DeployRequestModel { op, path, to: Seq::empty() }
}

/// Somewhere in the run `q` was asked and `r` was the answer.
pub open spec fn was_told(
    m: DeployModel,
    replies: Seq<DeployReplyModel>,
    q: DeployRequestModel,
    r: DeployReplyModel,
) -> bool
    decreases replies.len(),
{
    replies.len() > 0 && (was_told(m, replies.drop_last(), q, r) || (deploy_request(
        deploy_run(m, replies.drop_last()),
    ) == q && replies.last() == r))
}

/// What was asked and answered in a run.
pub open spec fn history(m: DeployModel, replies: Seq<DeployReplyModel>) -> spec_fn(
    DeployRequestModel,
    DeployReplyModel,
) -> bool {
    |q: DeployRequestModel, r: DeployReplyModel| was_told(m, replies, q, r)
}

/// The directory was listed.
pub open spec fn listed(
    h: spec_fn(DeployRequestModel, DeployReplyModel) -> bool,
    dir: Seq<char>,
    names: Seq<Seq<char>>,
) -> bool {
    h(want(DeployOp::ListDir, dir), DeployReplyModel::Names(Ok(names)))
}

/// The entry was looked at and is of this kind.
pub open spec fn found(
    h: spec_fn(DeployRequestModel, DeployReplyModel) -> bool,
    path: Seq<char>,
    kind: StagedKind,
) -> bool {
    h(want(DeployOp::Stat, path), DeployReplyModel::Stat(Ok(kind)))
}

/// The entry was looked at, and is no link.
pub open spec fn looked_at(
    h: spec_fn(DeployRequestModel, DeployReplyModel) -> bool,
    path: Seq<char>,
) -> bool {
    exists|kind: StagedKind| #[trigger] found(h, path, kind) && !(kind is Symlink)
}

/// A member stands for this file.
pub open spec fn has_member(members: Seq<MemberModel>, source: Seq<char>, size: u64) -> bool {
    exists|i: int|
        0 <= i < members.len() && (#[trigger] members[i]).source == source && members[i].size == size
}

/// All that lies below the staging directory was found, at any depth: the directory itself
/// was listed; each entry of each directory that was listed was looked at; each of
/// them that is a directory was listed in turn; and the members are just the files among
/// them, each with its path as seen from the staging directory.
pub open spec fn all_found(
    staging: Seq<char>,
    h: spec_fn(DeployRequestModel, DeployReplyModel) -> bool,
    members: Seq<MemberModel>,
) -> bool {
    &&& exists|names: Seq<Seq<char>>| #[trigger] listed(h, staging, names)
    &&& forall|dir: Seq<char>, names: Seq<Seq<char>>, i: int|
        #[trigger] listed(h, dir, names) && 0 <= i < names.len() ==> #[trigger] looked_at(
            h,
            joined(dir, names[i]),
        )
    &&& forall|p: Seq<char>| #[trigger]
        found(h, p, StagedKind::Directory) ==> exists|names: Seq<Seq<char>>| #[trigger]
            listed(h, p, names)
    &&& forall|p: Seq<char>, size: u64| #[trigger]
        found(h, p, StagedKind::File(size)) ==> has_member(members, p, size)
    &&& forall|i: int| 0 <= i < members.len() ==> is_found(staging, h, #[trigger] members[i])
}

/// The member stands for a file that was found.
pub open spec fn is_found(
    staging: Seq<char>,
    h: spec_fn(DeployRequestModel, DeployReplyModel) -> bool,
    x: MemberModel,
) -> bool {
    &&& found(h, x.source, StagedKind::File(x.size))
    &&& safe_member(x.relative)
    &&& x.source == joined(staging, x.relative)
}

// -------------------------------------------------------------------- on the way

spec fn is_placed(staging: Seq<char>, path: Seq<char>, relative: Seq<char>) -> bool {
    ||| path == staging && relative.len() == 0
    ||| safe_member(relative) && path == joined(staging, relative)
}

spec fn is_pending(m: DeployModel, p: Seq<char>) -> bool {
    exists|i: int| 0 <= i < m.pending.len() && (#[trigger] m.pending[i]).0 == p
}

spec fn in_names(
    m: DeployModel,
    h: spec_fn(DeployRequestModel, DeployReplyModel) -> bool,
    names: Seq<Seq<char>>,
    k: int,
) -> bool {
    &&& 1 <= k <= names.len()
    &&& m.names == names.skip(k)
    &&& m.entry_path == joined(m.dir_path, names[k - 1])
    &&& forall|i: int| 0 <= i < k - 1 ==> looked_at(h, joined(m.dir_path, #[trigger] names[i]))
}

spec fn is_known_dir(
    m: DeployModel,
    h: spec_fn(DeployRequestModel, DeployReplyModel) -> bool,
    p: Seq<char>,
) -> bool {
    ||| exists|names: Seq<Seq<char>>| #[trigger] listed(h, p, names)
    ||| is_pending(m, p)
    ||| m.stage == DeployStage::Listing && m.dir_path == p
}

spec fn is_read(
    m: DeployModel,
    h: spec_fn(DeployRequestModel, DeployReplyModel) -> bool,
    dir: Seq<char>,
    names: Seq<Seq<char>>,
    now: Seq<Seq<char>>,
) -> bool {
    ||| forall|i: int| 0 <= i < names.len() ==> looked_at(h, joined(dir, #[trigger] names[i]))
    ||| m.stage == DeployStage::Entry && dir == m.dir_path && names == now
}

spec fn finding(
    m: DeployModel,
    h: spec_fn(DeployRequestModel, DeployReplyModel) -> bool,
    now: Seq<Seq<char>>,
    k: int,
) -> bool {
    &&& m.stage == DeployStage::Entry ==> in_names(m, h, now, k)
    &&& match m.stage {
        DeployStage::Staging | DeployStage::SkillMd => m.pending == seq![
            (m.staging, Seq::<char>::empty()),
        ],
        DeployStage::Listing => m.dir_path == m.staging || exists|names: Seq<Seq<char>>| #[trigger]
            listed(h, m.staging, names),
        _ => exists|names: Seq<Seq<char>>| #[trigger] listed(h, m.staging, names),
    }
    &&& forall|p: Seq<char>| #[trigger] found(h, p, StagedKind::Directory) ==> is_known_dir(m, h, p)
    &&& forall|dir: Seq<char>, names: Seq<Seq<char>>| #[trigger]
        listed(h, dir, names) ==> is_read(m, h, dir, names, now)
    &&& forall|p: Seq<char>, size: u64| #[trigger]
        found(h, p, StagedKind::File(size)) ==> has_member(m.members, p, size)
    &&& forall|i: int| 0 <= i < m.members.len() ==> is_found(m.staging, h, #[trigger] m.members[i])
    &&& forall|i: int|
        0 <= i < m.pending.len() ==> is_placed(
            m.staging,
            (#[trigger] m.pending[i]).0,
            m.pending[i].1,
        )
    &&& m.stage == DeployStage::Listing || m.stage == DeployStage::Entry ==> is_placed(
        m.staging,
        m.dir_path,
        m.dir_relative,
    )
    &&& m.stage == DeployStage::Entry ==> safe_member(m.entry_relative) && m.entry_path == joined(
        m.staging,
        m.entry_relative,
    )
    &&& !still_staging(m.stage) ==> m.pending.len() == 0
}

/// `h2` is `h` and this one answer.
spec fn adds(
    h: spec_fn(DeployRequestModel, DeployReplyModel) -> bool,
    h2: spec_fn(DeployRequestModel, DeployReplyModel) -> bool,
    q: DeployRequestModel,
    reply: DeployReplyModel,
) -> bool {
    forall|x: DeployRequestModel, y: DeployReplyModel| #[trigger]
        h2(x, y) <==> h(x, y) || (x == q && y == reply)
}

proof fn seen_stays_seen(
    h: spec_fn(DeployRequestModel, DeployReplyModel) -> bool,
    h2: spec_fn(DeployRequestModel, DeployReplyModel) -> bool,
    q: DeployRequestModel,
    reply: DeployReplyModel,
)
    requires
        adds(h, h2, q, reply),
    ensures
        forall|p: Seq<char>| #[trigger] looked_at(h, p) ==> looked_at(h2, p),
        forall|p: Seq<char>, n: Seq<Seq<char>>| #[trigger] listed(h, p, n) ==> listed(h2, p, n),
        forall|p: Seq<char>, k: StagedKind| #[trigger] found(h, p, k) ==> found(h2, p, k),
{
    assert forall|p: Seq<char>| #[trigger] looked_at(h, p) implies looked_at(h2, p) by {
        let kind = choose|kind: StagedKind| #[trigger] found(h, p, kind) && !(kind is Symlink);
        assert(found(h2, p, kind));
    }
}

/// What lies below a placed directory is placed.
proof fn below_is_placed(
    staging: Seq<char>,
    path: Seq<char>,
    relative: Seq<char>,
    name: Seq<char>,
)
    requires
        is_placed(staging, path, relative),
        safe_member(joined(relative, name)),
    ensures
        joined(path, name) == joined(staging, joined(relative, name)),
{
    let r = joined(relative, name);
    if relative.len() > 0 {
        assert(!is_absolute(name));
        assert(r.len() > 0 && r[0] == relative[0]);
        assert(path.len() > 0);
        assert(path.last() == relative.last());
        assert(joined(path, name) =~= joined(staging, r));
    }
}

/// Going on to the next name or directory keeps what was found: `m` has no entry under way.
#[verifier::spinoff_prover]
#[verifier::rlimit(80)]
proof fn going_on_keeps_finding(
    m: DeployModel,
    h: spec_fn(DeployRequestModel, DeployReplyModel) -> bool,
    now: Seq<Seq<char>>,
    k: int,
)
    requires
        m.stage == DeployStage::Entry || m.stage == DeployStage::Listing,
        forall|p: Seq<char>| #[trigger]
            found(h, p, StagedKind::Directory) ==> {
                ||| exists|names: Seq<Seq<char>>| #[trigger] listed(h, p, names)
                ||| is_pending(m, p)
            },
        exists|names: Seq<Seq<char>>| #[trigger] listed(h, m.staging, names),
        0 <= k <= now.len(),
        m.names == now.skip(k),
        forall|i: int| 0 <= i < k ==> looked_at(h, joined(m.dir_path, #[trigger] now[i])),
        forall|dir: Seq<char>, names: Seq<Seq<char>>| #[trigger]
            listed(h, dir, names) ==> {
                ||| forall|i: int| 0 <= i < names.len() ==> looked_at(h, joined(dir, #[trigger] names[i]))
                ||| dir == m.dir_path && names == now
            },
        forall|p: Seq<char>, size: u64| #[trigger]
            found(h, p, StagedKind::File(size)) ==> has_member(m.members, p, size),
        forall|i: int| 0 <= i < m.members.len() ==> is_found(m.staging, h, #[trigger] m.members[i]),
        forall|i: int|
            0 <= i < m.pending.len() ==> is_placed(
                m.staging,
                (#[trigger] m.pending[i]).0,
                m.pending[i].1,
            ),
        is_placed(m.staging, m.dir_path, m.dir_relative),
    ensures
        !(next_staged(m).outcome is Refused) ==> finding(next_staged(m), h, now, k + 1),
{
    let n = next_staged(m);
    if m.names.len() == 0 {
        assert(k == now.len());
        if m.pending.len() > 0 {
            assert forall|p: Seq<char>| is_pending(m, p) implies is_pending(n, p) || n.dir_path == p by {
                let i = choose|i: int| 0 <= i < m.pending.len() && (#[trigger] m.pending[i]).0 == p;
                if i < m.pending.len() - 1 {
                    assert(n.pending[i].0 == p);
                }
            }
            assert(m.pending[m.pending.len() - 1] == m.pending.last());
        }
        assert forall|dir: Seq<char>, names: Seq<Seq<char>>| #[trigger] listed(h, dir, names) implies is_read(
            n,
            h,
            dir,
            names,
            now,
        ) by {}
    } else {
        let name = now[k];
        assert(m.names[0] == name);
        assert(now.skip(k).skip(1) =~= now.skip(k + 1));
        if !(n.outcome is Refused) {
            below_is_placed(m.staging, m.dir_path, m.dir_relative, name);
            assert(in_names(n, h, now, k + 1));
            assert forall|p: Seq<char>| is_pending(m, p) implies is_pending(n, p) by {
                let i = choose|i: int| 0 <= i < m.pending.len() && (#[trigger] m.pending[i]).0 == p;
                assert(n.pending[i].0 == p);
            }
            assert forall|dir: Seq<char>, names: Seq<Seq<char>>| #[trigger]
                listed(h, dir, names) implies is_read(n, h, dir, names, now) by {}
        }
    }
}

proof fn with_member_has(members: Seq<MemberModel>, x: MemberModel)
    ensures
        forall|p: Seq<char>, size: u64| #[trigger]
            has_member(with_member(members, x), p, size) <==> has_member(members, p, size) || (p
                == x.source && size == x.size),
        forall|i: int|
            0 <= i < with_member(members, x).len() ==> (#[trigger] with_member(members, x)[i]) == x
                || members.contains(with_member(members, x)[i]),
        with_member(members, x).len() == members.len() + 1,
{
    place_bound(members, x.relative);
    let n = member_place(members, x.relative) as int;
    let w = with_member(members, x);
    assert forall|i: int| 0 <= i < w.len() implies (#[trigger] w[i]) == x || members.contains(w[i]) by {
        if i < n {
            assert(w[i] == members[i]);
        } else if i > n {
            assert(w[i] == members[i - 1]);
        }
    }
    assert forall|p: Seq<char>, size: u64| #[trigger] has_member(w, p, size) <==> has_member(
        members,
        p,
        size,
    ) || (p == x.source && size == x.size) by {
        assert(w[n] == x);
        if has_member(w, p, size) {
            let i = choose|i: int| 0 <= i < w.len() && (#[trigger] w[i]).source == p && w[i].size == size;
            if w[i] != x {
                let j = members.index_of(w[i]);
                assert(members[j] == w[i]);
            }
        }
        if has_member(members, p, size) {
            let i = choose|i: int|
                0 <= i < members.len() && (#[trigger] members[i]).source == p && members[i].size == size;
            if i < n {
                assert(w[i] == members[i]);
            } else {
                assert(w[i + 1] == members[i]);
            }
        }
    }
}

#[verifier::spinoff_prover]
#[verifier::rlimit(80)]
proof fn listing_keeps_finding(
    m: DeployModel,
    names: Seq<Seq<char>>,
    h: spec_fn(DeployRequestModel, DeployReplyModel) -> bool,
    h2: spec_fn(DeployRequestModel, DeployReplyModel) -> bool,
    now: Seq<Seq<char>>,
    k: int,
)
    requires
        m.stage == DeployStage::Listing,
        finding(m, h, now, k),
        adds(h, h2, deploy_request(m), DeployReplyModel::Names(Ok(names))),
    ensures
        ({
            let n = next_staged(DeployModel { names, ..m });
            !(n.outcome is Refused) ==> finding(n, h2, names, 1)
        }),
{
    let q = deploy_request(m);
    let reply = DeployReplyModel::Names(Ok(names));
    let a = DeployModel { names, ..m };
    seen_stays_seen(h, h2, q, reply);
    assert(q == want(DeployOp::ListDir, m.dir_path));
    assert(listed(h2, m.dir_path, names));
    assert(names.skip(0) =~= names);
    assert forall|p: Seq<char>| is_pending(m, p) implies is_pending(a, p) by {
        let i = choose|i: int| 0 <= i < m.pending.len() && (#[trigger] m.pending[i]).0 == p;
        assert(a.pending[i].0 == p);
    }
    assert forall|p: Seq<char>| is_known_dir(m, h, p) implies {
        ||| exists|ns: Seq<Seq<char>>| #[trigger] listed(h2, p, ns)
        ||| is_pending(a, p)
    } by {
        if exists|ns: Seq<Seq<char>>| #[trigger] listed(h, p, ns) {
            let ns = choose|ns: Seq<Seq<char>>| #[trigger] listed(h, p, ns);
            assert(listed(h2, p, ns));
        }
    }
    assert forall|p: Seq<char>| #[trigger] found(h2, p, StagedKind::Directory) implies {
        ||| exists|ns: Seq<Seq<char>>| #[trigger] listed(h2, p, ns)
        ||| is_pending(a, p)
    } by {
        assert(found(h, p, StagedKind::Directory));
    }
    assert forall|dir: Seq<char>, ns: Seq<Seq<char>>| #[trigger] listed(h2, dir, ns) implies {
        ||| forall|i: int| 0 <= i < ns.len() ==> looked_at(h2, joined(dir, #[trigger] ns[i]))
        ||| dir == a.dir_path && ns == names
    } by {
        if !(dir == m.dir_path && ns == names) {
            assert(listed(h, dir, ns));
            assert(is_read(m, h, dir, ns, now));
        }
    }
    assert forall|p: Seq<char>, size: u64| #[trigger] found(h2, p, StagedKind::File(size)) implies has_member(
        a.members,
        p,
        size,
    ) by {
        assert(found(h, p, StagedKind::File(size)));
    }
    assert forall|i: int| 0 <= i < a.members.len() implies is_found(m.staging, h2, #[trigger] a.members[i]) by {
        assert(is_found(m.staging, h, m.members[i]));
    }
    if m.dir_path != m.staging {
        let ns = choose|ns: Seq<Seq<char>>| #[trigger] listed(h, m.staging, ns);
        assert(listed(h2, m.staging, ns));
    }
    going_on_keeps_finding(a, h2, names, 0);
}


#[verifier::spinoff_prover]
#[verifier::rlimit(80)]
proof fn entry_keeps_finding(
    m: DeployModel,
    reply: DeployReplyModel,
    h: spec_fn(DeployRequestModel, DeployReplyModel) -> bool,
    h2: spec_fn(DeployRequestModel, DeployReplyModel) -> bool,
    now: Seq<Seq<char>>,
    k: int,
)
    requires
        m.stage == DeployStage::Entry,
        deploy_answers(deploy_request(m).op, reply),
        finding(m, h, now, k),
        adds(h, h2, deploy_request(m), reply),
        !(deploy_after(m, reply).outcome is Refused),
    ensures
        finding(deploy_after(m, reply), h2, now, k + 1),
{
    let q = deploy_request(m);
    seen_stays_seen(h, h2, q, reply);
    assert(q == want(DeployOp::Stat, m.entry_path));
    let kind = reply->Stat_0->Ok_0;
    assert(reply is Stat && reply->Stat_0 is Ok && !(kind is Symlink));
    assert(reply == DeployReplyModel::Stat(Ok(kind)));
    assert(found(h2, m.entry_path, kind));
    assert(looked_at(h2, m.entry_path));
    let root = choose|ns: Seq<Seq<char>>| #[trigger] listed(h, m.staging, ns);
    assert(listed(h2, m.staging, root));
    let a = match kind {
        StagedKind::Directory => DeployModel {
            pending: m.pending.push((m.entry_path, m.entry_relative)),
            ..m
        },
        StagedKind::File(size) => DeployModel {
            members: with_member(
                m.members,
                MemberModel { relative: m.entry_relative, source: m.entry_path, size },
            ),
            ..m
        },
        _ => m,
    };
    assert(deploy_after(m, reply) == next_staged(a));
    if let StagedKind::File(size) = kind {
        with_member_has(
            m.members,
            MemberModel { relative: m.entry_relative, source: m.entry_path, size },
        );
    }
    assert forall|p: Seq<char>| is_pending(m, p) implies is_pending(a, p) by {
        let i = choose|i: int| 0 <= i < m.pending.len() && (#[trigger] m.pending[i]).0 == p;
        assert(a.pending[i].0 == p);
    }
    assert forall|p: Seq<char>| #[trigger] found(h2, p, StagedKind::Directory) implies {
        ||| exists|ns: Seq<Seq<char>>| #[trigger] listed(h2, p, ns)
        ||| is_pending(a, p)
    } by {
        if found(h, p, StagedKind::Directory) {
            assert(is_known_dir(m, h, p));
            if exists|ns: Seq<Seq<char>>| #[trigger] listed(h, p, ns) {
                let ns = choose|ns: Seq<Seq<char>>| #[trigger] listed(h, p, ns);
                assert(listed(h2, p, ns));
            }
        } else {
            assert(kind is Directory && p == m.entry_path);
            assert(a.pending[m.pending.len() as int].0 == p);
        }
    }
    assert forall|p: Seq<char>, size: u64| #[trigger] found(h2, p, StagedKind::File(size)) implies has_member(
        a.members,
        p,
        size,
    ) by {
        if found(h, p, StagedKind::File(size)) {
            assert(has_member(m.members, p, size));
        } else {
            assert(kind == StagedKind::File(size) && p == m.entry_path);
        }
    }
    assert forall|i: int| 0 <= i < a.members.len() implies is_found(m.staging, h2, #[trigger] a.members[i]) by {
        let x = a.members[i];
        if m.members.contains(x) {
            let j = m.members.index_of(x);
            assert(is_found(m.staging, h, m.members[j]));
        }
    }
    assert forall|i: int| 0 <= i < k implies looked_at(h2, joined(m.dir_path, #[trigger] now[i])) by {
        if i < k - 1 {
            assert(looked_at(h, joined(m.dir_path, now[i])));
        }
    }
    assert forall|dir: Seq<char>, ns: Seq<Seq<char>>| #[trigger] listed(h2, dir, ns) implies {
        ||| forall|i: int| 0 <= i < ns.len() ==> looked_at(h2, joined(dir, #[trigger] ns[i]))
        ||| dir == a.dir_path && ns == now
    } by {
        assert(listed(h, dir, ns));
        assert(is_read(m, h, dir, ns, now));
    }
    going_on_keeps_finding(a, h2, now, k);
}

#[verifier::spinoff_prover]
#[verifier::rlimit(60)]
proof fn start_keeps_finding(
    m: DeployModel,
    reply: DeployReplyModel,
    h: spec_fn(DeployRequestModel, DeployReplyModel) -> bool,
    h2: spec_fn(DeployRequestModel, DeployReplyModel) -> bool,
    now: Seq<Seq<char>>,
    k: int,
)
    requires
        m.stage == DeployStage::Staging || m.stage == DeployStage::SkillMd,
        deploy_answers(deploy_request(m).op, reply),
        finding(m, h, now, k),
        adds(h, h2, deploy_request(m), reply),
        !(deploy_after(m, reply).outcome is Refused),
    ensures
        finding(deploy_after(m, reply), h2, now, k),
{
    let n = deploy_after(m, reply);
    let q = deploy_request(m);
    seen_stays_seen(h, h2, q, reply);
    assert(n.stage == DeployStage::Listing ==> n.pending =~= Seq::empty());
    keeps_by_other(m, n, h, h2, now, k);
}

/// An answer to another question changes nothing that was found.
#[verifier::spinoff_prover]
#[verifier::rlimit(60)]
proof fn keeps_by_other(
    m: DeployModel,
    n: DeployModel,
    h: spec_fn(DeployRequestModel, DeployReplyModel) -> bool,
    h2: spec_fn(DeployRequestModel, DeployReplyModel) -> bool,
    now: Seq<Seq<char>>,
    k: int,
)
    requires
        finding(m, h, now, k),
        exists|q: DeployRequestModel, reply: DeployReplyModel| #[trigger]
            adds(h, h2, q, reply) && q.op != DeployOp::Stat && q.op != DeployOp::ListDir,
        m.stage != DeployStage::Entry && m.stage != DeployStage::Listing,
        n.stage != DeployStage::Entry,
        n.members == m.members,
        n.staging == m.staging,
        still_staging(m.stage) ==> m.pending == seq![(m.staging, Seq::<char>::empty())],
        n.stage == DeployStage::Listing ==> still_staging(m.stage) && n.pending.len() == 0
            && n.dir_path == m.staging && n.dir_relative.len() == 0,
        n.stage == DeployStage::Staging || n.stage == DeployStage::SkillMd ==> still_staging(m.stage)
            && n.pending == m.pending,
        !still_staging(n.stage) ==> !still_staging(m.stage) && n.pending == m.pending,
    ensures
        finding(n, h2, now, k),
{
    let (q, reply) = choose|q: DeployRequestModel, reply: DeployReplyModel| #[trigger]
        adds(h, h2, q, reply) && q.op != DeployOp::Stat && q.op != DeployOp::ListDir;
    seen_stays_seen(h, h2, q, reply);
    assert forall|p: Seq<char>, ns: Seq<Seq<char>>| #[trigger] listed(h2, p, ns) implies listed(
        h,
        p,
        ns,
    ) by {}
    assert forall|p: Seq<char>, kind: StagedKind| #[trigger] found(h2, p, kind) implies found(
        h,
        p,
        kind,
    ) by {}
    assert forall|p: Seq<char>| #[trigger] found(h2, p, StagedKind::Directory) implies is_known_dir(
        n,
        h2,
        p,
    ) by {
        assert(found(h, p, StagedKind::Directory));
        assert(is_known_dir(m, h, p));
        if exists|ns: Seq<Seq<char>>| #[trigger] listed(h, p, ns) {
            let ns = choose|ns: Seq<Seq<char>>| #[trigger] listed(h, p, ns);
            assert(listed(h2, p, ns));
        } else {
            assert(is_pending(m, p));
            let i = choose|i: int| 0 <= i < m.pending.len() && (#[trigger] m.pending[i]).0 == p;
            assert(p == m.staging);
            if n.stage != DeployStage::Listing {
                assert(n.pending[i].0 == p);
            }
        }
    }
    assert forall|dir: Seq<char>, ns: Seq<Seq<char>>| #[trigger] listed(h2, dir, ns) implies is_read(
        n,
        h2,
        dir,
        ns,
        now,
    ) by {
        assert(listed(h, dir, ns));
        assert(is_read(m, h, dir, ns, now));
    }
    assert forall|p: Seq<char>, size: u64| #[trigger] found(h2, p, StagedKind::File(size)) implies has_member(
        n.members,
        p,
        size,
    ) by {
        assert(found(h, p, StagedKind::File(size)));
    }
    assert forall|i: int| 0 <= i < n.members.len() implies is_found(n.staging, h2, #[trigger] n.members[i]) by {
        assert(is_found(m.staging, h, m.members[i]));
    }
    if !still_staging(n.stage) {
        let ns = choose|ns: Seq<Seq<char>>| #[trigger] listed(h, m.staging, ns);
        assert(listed(h2, m.staging, ns));
    }
}

#[verifier::spinoff_prover]
#[verifier::rlimit(60)]
proof fn later_step_shape(m: DeployModel, reply: DeployReplyModel)
    requires
        !still_staging(m.stage),
        m.stage != DeployStage::Finished,
        deploy_answers(deploy_request(m).op, reply),
    ensures
        deploy_request(m).op != DeployOp::Stat,
        deploy_request(m).op != DeployOp::ListDir,
        deploy_after(m, reply).members == m.members,
        deploy_after(m, reply).staging == m.staging,
        deploy_after(m, reply).pending == m.pending,
        !still_staging(deploy_after(m, reply).stage),
{
}

proof fn adds_one(m: DeployModel, replies: Seq<DeployReplyModel>)
    requires
        replies.len() > 0,
    ensures
        adds(
            history(m, replies.drop_last()),
            history(m, replies),
            deploy_request(deploy_run(m, replies.drop_last())),
            replies.last(),
        ),
{
}

#[verifier::spinoff_prover]
#[verifier::rlimit(40)]
proof fn refused_is_over(m: DeployModel, reply: DeployReplyModel)
    requires
        m.outcome is Refused,
        deploy_sound(m),
    ensures
        !deploy_answers(deploy_request(m).op, reply),
{
}

proof fn runs_find(m: DeployModel, replies: Seq<DeployReplyModel>) -> (at: (Seq<Seq<char>>, int))
    requires
        deploy_fits(m, replies),
        deploy_sound(m),
        m.stage == DeployStage::Staging,
        m.pending == seq![(m.staging, Seq::<char>::empty())],
        m.members.len() == 0,
    ensures
        !(deploy_run(m, replies).outcome is Refused) ==> finding(
            deploy_run(m, replies),
            history(m, replies),
            at.0,
            at.1,
        ),
        deploy_run(m, replies).staging == m.staging,
    decreases replies.len(),
{
    if replies.len() == 0 {
        empty_run(m, replies);
        assert(is_placed(m.staging, m.pending[0].0, m.pending[0].1));
        (Seq::empty(), 0)
    } else {
        longer_run(m, replies);
        let past = replies.drop_last();
        let (now, k) = runs_find(m, past);
        let b = deploy_run(m, past);
        let reply = replies.last();
        let h = history(m, past);
        let h2 = history(m, replies);
        run_is_sound(m, past);
        adds_one(m, replies);
        staging_is_fixed(b, reply);
        if b.outcome is Refused {
            refused_is_over(b, reply);
        }
        let n = deploy_after(b, reply);
        if n.outcome is Refused {
            (now, k)
        } else if b.stage == DeployStage::Listing {
            let names = reply->Names_0->Ok_0;
            assert(reply is Names && reply->Names_0 is Ok);
            assert(reply == DeployReplyModel::Names(Ok(names)));
            listing_keeps_finding(b, names, h, h2, now, k);
            (names, 1)
        } else if b.stage == DeployStage::Entry {
            entry_keeps_finding(b, reply, h, h2, now, k);
            (now, k + 1)
        } else if still_staging(b.stage) {
            start_keeps_finding(b, reply, h, h2, now, k);
            (now, k)
        } else {
            later_step_shape(b, reply);
            assert(adds(h, h2, deploy_request(b), reply));
            keeps_by_other(b, n, h, h2, now, k);
            (now, k)
        }
    }
}

#[verifier::spinoff_prover]
#[verifier::rlimit(40)]
proof fn staging_is_fixed(m: DeployModel, reply: DeployReplyModel)
    ensures
        deploy_after(m, reply).staging == m.staging,
{
}

/// Whatever a deployment goes on with, once all that is staged is known, is all that lies
/// below the staging directory, at any depth; the files that it installs are these.
pub proof fn all_that_is_staged_is_found(
    staging: Seq<char>,
    name: Seq<char>,
    force: bool,
    home: Seq<char>,
    replies: Seq<DeployReplyModel>,
)
    requires
        deploy_fits(fresh_deployment(staging, name, force, home), replies),
    ensures
        ({
            let m = fresh_deployment(staging, name, force, home);
            let n = deploy_run(m, replies);
            !still_staging(n.stage) && !(n.outcome is Refused) ==> all_found(
                staging,
                history(m, replies),
                n.members,
            )
        }),
{
    let m = fresh_deployment(staging, name, force, home);
    let n = deploy_run(m, replies);
    let h = history(m, replies);
    fresh_deployment_is_sound(staging, name, force, home);
    if valid_name(name) {
        let (now, k) = runs_find(m, replies);
        if !still_staging(n.stage) && !(n.outcome is Refused) {
            assert forall|dir: Seq<char>, names: Seq<Seq<char>>, i: int|
                #[trigger] listed(h, dir, names) && 0 <= i < names.len() implies #[trigger] looked_at(
                h,
                joined(dir, names[i]),
            ) by {
                assert(is_read(n, h, dir, names, now));
            }
            assert forall|p: Seq<char>| #[trigger] found(h, p, StagedKind::Directory) implies exists|
                names: Seq<Seq<char>>,
            | #[trigger] listed(h, p, names) by {
                assert(is_known_dir(n, h, p));
            }
        }
    } else {
        crate::deploy_runs::finished_is_not_answered(m, replies);
        empty_run(m, replies);
    }
}

// ------------------------------------------------------------------ how it comes out

/// What was asked for was done.
pub open spec fn done(
    h: spec_fn(DeployRequestModel, DeployReplyModel) -> bool,
    q: DeployRequestModel,
) -> bool {
    exists|r: Result<(), Seq<char>>| #[trigger] h(q, DeployReplyModel::Done(r)) && r is Ok
}

/// What was asked for failed.
pub open spec fn failed(
    h: spec_fn(DeployRequestModel, DeployReplyModel) -> bool,
    q: DeployRequestModel,
    e: Seq<char>,
) -> bool {
    h(q, DeployReplyModel::Done(Err(e)))
}

/// It was asked and answered by this flag.
pub open spec fn flagged(
    h: spec_fn(DeployRequestModel, DeployReplyModel) -> bool,
    op: DeployOp,
    path: Seq<char>,
    flag: bool,
) -> bool {
    h(want(op, path), DeployReplyModel::Flag(flag))
}

/// The file has this hash.
pub open spec fn hashed(
    h: spec_fn(DeployRequestModel, DeployReplyModel) -> bool,
    path: Seq<char>,
    hash: Seq<char>,
) -> bool {
    h(want(DeployOp::Hash, path), DeployReplyModel::Hash(Ok(hash)))
}

/// Where a skill is installed.
pub open spec fn installed_at(home: Seq<char>, name: Seq<char>) -> Seq<char> {
    joined(joined(home, "skills"@), "user-"@ + name)
}

/// What is installed has a `SKILL.md` with the hash of the staged one.
pub open spec fn same_hash(
    h: spec_fn(DeployRequestModel, DeployReplyModel) -> bool,
    staging: Seq<char>,
    target: Seq<char>,
    x: Seq<char>,
) -> bool {
    &&& flagged(h, DeployOp::IsFile, joined(target, "SKILL.md"@), true)
    &&& hashed(h, joined(staging, "SKILL.md"@), x)
    &&& hashed(h, joined(target, "SKILL.md"@), x)
}

/// What is installed has no `SKILL.md`, or one with another hash.
pub open spec fn other_content(
    h: spec_fn(DeployRequestModel, DeployReplyModel) -> bool,
    staging: Seq<char>,
    target: Seq<char>,
    x: Seq<char>,
    y: Seq<char>,
) -> bool {
    ||| flagged(h, DeployOp::IsFile, joined(target, "SKILL.md"@), false)
    ||| x != y && hashed(h, joined(staging, "SKILL.md"@), x) && hashed(
        h,
        joined(target, "SKILL.md"@),
        y,
    )
}

/// A skill with other content is installed.
pub open spec fn conflicts(
    h: spec_fn(DeployRequestModel, DeployReplyModel) -> bool,
    staging: Seq<char>,
    target: Seq<char>,
) -> bool {
    &&& flagged(h, DeployOp::Exists, target, true)
    &&& exists|x: Seq<char>, y: Seq<char>| #[trigger] other_content(h, staging, target, x, y)
}

/// Where a backup of the skill from that second goes: below the backups, named after the
/// second and the skill, and numbered where others stand there.
pub open spec fn backup_at(home: Seq<char>, name: Seq<char>, seconds: u64, n: int) -> Seq<char> {
    nth_place(
        joined(
            joined(joined(home, "evolution"@), "backups"@),
            crate::timestamp::stamp_of(seconds as int) + "-"@ + name,
        ),
        n,
    )
}

/// The place was found free, those with smaller numbers being taken; or all were taken.
pub open spec fn chosen_place(
    h: spec_fn(DeployRequestModel, DeployReplyModel) -> bool,
    home: Seq<char>,
    name: Seq<char>,
    seconds: u64,
    n: int,
) -> bool {
    &&& h(want(DeployOp::Clock, Seq::empty()), DeployReplyModel::Seconds(seconds))
    &&& {
        ||| n >= 0 && flagged(h, DeployOp::Exists, backup_at(home, name, seconds, n), false)
            && forall|i: int|
            0 <= i < n ==> flagged(
                h,
                DeployOp::Exists,
                #[trigger] backup_at(home, name, seconds, i),
                true,
            )
        ||| n == 0 && forall|i: int|
            0 <= i <= 9999 ==> flagged(
                h,
                DeployOp::Exists,
                #[trigger] backup_at(home, name, seconds, i),
                true,
            )
    }
}

/// The installed skill was moved to a place of its own among the backups.
pub open spec fn moved_away(
    h: spec_fn(DeployRequestModel, DeployReplyModel) -> bool,
    home: Seq<char>,
    name: Seq<char>,
    seconds: u64,
    n: int,
) -> bool {
    &&& chosen_place(h, home, name, seconds, n)
    &&& done(
        h,
        DeployRequestModel {
            op: DeployOp::Rename,
            path: installed_at(home, name),
            to: backup_at(home, name, seconds, n),
        },
    )
}

/// The deployment was right to succeed, and reports what it did.
pub open spec fn rightly_deployed(
    m: DeployModel,
    h: spec_fn(DeployRequestModel, DeployReplyModel) -> bool,
    r: crate::skill_deploy::ReportModel,
) -> bool {
    let target = installed_at(m.home, m.name);
    &&& r.target_dir == target
    &&& r.file_count == m.members.len()
    &&& flagged(h, DeployOp::IsDir, m.staging, true)
    &&& flagged(h, DeployOp::IsFile, joined(m.staging, "SKILL.md"@), true)
    &&& if r.idempotent {
        &&& r.backup_dir is None
        &&& flagged(h, DeployOp::Exists, target, true)
        &&& exists|x: Seq<char>| #[trigger] same_hash(h, m.staging, target, x)
    } else {
        &&& done(h, want(DeployOp::CreateDirs, target))
        &&& {
            ||| r.backup_dir is None && flagged(h, DeployOp::Exists, target, false)
            ||| m.force && conflicts(h, m.staging, target) && exists|seconds: u64, n: int|
                #[trigger] moved_away(h, m.home, m.name, seconds, n) && r.backup_dir == Some(
                    backup_at(m.home, m.name, seconds, n),
                )
        }
    }
}

/// The file system failed with this message.
pub open spec fn io_failed(
    h: spec_fn(DeployRequestModel, DeployReplyModel) -> bool,
    q: DeployRequestModel,
    e: Seq<char>,
) -> bool {
    ||| h(q, DeployReplyModel::Names(Err(e)))
    ||| h(q, DeployReplyModel::Stat(Err(e)))
    ||| failed(h, q, e)
    ||| exists|x: Seq<char>|
        #[trigger] h(q, DeployReplyModel::Hash(Err(x))) && e == q.path + ": "@ + x
}

/// An entry of a staged directory has a path that leads out of it.
pub open spec fn leads_out(
    staging: Seq<char>,
    h: spec_fn(DeployRequestModel, DeployReplyModel) -> bool,
    dir: Seq<char>,
    names: Seq<Seq<char>>,
    i: int,
    below: Seq<char>,
    relative: Seq<char>,
) -> bool {
    &&& listed(h, dir, names) && 0 <= i < names.len()
    &&& dir == staging && below.len() == 0 || dir == joined(staging, below)
    &&& relative == joined(below, names[i])
    &&& !safe_member(relative)
}

/// The deployment was right to refuse.
pub open spec fn rightly_refused(
    m: DeployModel,
    h: spec_fn(DeployRequestModel, DeployReplyModel) -> bool,
    e: ErrorModel,
) -> bool {
    let target = installed_at(m.home, m.name);
    match e {
        ErrorModel::InvalidName(n) => n == m.name && !valid_name(n),
        ErrorModel::StagingNotFound(p) => p == m.staging && flagged(h, DeployOp::IsDir, p, false),
        ErrorModel::MissingSkillMd(p) => p == joined(m.staging, "SKILL.md"@) && flagged(
            h,
            DeployOp::IsFile,
            p,
            false,
        ),
        ErrorModel::UnsafeMember(relative) => is_unsafe(m.staging, h, relative),
        ErrorModel::TooManyFiles(_) => passes_limit(m.members, e),
        ErrorModel::FileTooLarge { path, bytes } => passes_limit(m.members, e),
        ErrorModel::TotalTooLarge(_) => passes_limit(m.members, e),
        ErrorModel::TargetConflict(p) => p == target && !m.force && conflicts(h, m.staging, target),
        ErrorModel::Io(x) => some_io_failed(h, x),
    }
}

/// Something that was asked of the file system failed with this message.
pub open spec fn some_io_failed(
    h: spec_fn(DeployRequestModel, DeployReplyModel) -> bool,
    e: Seq<char>,
) -> bool {
    exists|q: DeployRequestModel| #[trigger] io_failed(h, q, e)
}

/// The entry is a link, or its path leads out of the staging directory.
pub open spec fn is_unsafe(
    staging: Seq<char>,
    h: spec_fn(DeployRequestModel, DeployReplyModel) -> bool,
    relative: Seq<char>,
) -> bool {
    ||| found(h, joined(staging, relative), StagedKind::Symlink)
    ||| exists|dir: Seq<char>, names: Seq<Seq<char>>, i: int, below: Seq<char>| #[trigger]
        leads_out(staging, h, dir, names, i, below, relative)
}

/// The sizes of members together.
pub open spec fn size_of_all(members: Seq<MemberModel>) -> int {
    members.map_values(|x: MemberModel| x.size as int).fold_left(0, |a: int, b: int| a + b)
}

/// The members pass the limit that the error names: they are too many; or this one is too
/// large, all before it being within the limits; or with this one they are too large together.
pub open spec fn passes_limit(members: Seq<MemberModel>, e: ErrorModel) -> bool {
    match e {
        ErrorModel::TooManyFiles(n) => n == members.len() && n > 200,
        ErrorModel::FileTooLarge { path, bytes } => members.len() <= 200 && exists|i: int|
            0 <= i < members.len() && (#[trigger] members[i]).relative == path && members[i].size
                == bytes && bytes > 1048576 && forall|j: int|
                0 <= j < i ==> (#[trigger] members[j]).size <= 1048576,
        ErrorModel::TotalTooLarge(n) => members.len() <= 200 && n > 10485760 && exists|k: int|
            0 < k <= members.len() && n == size_of_all(#[trigger] members.take(k)) && size_of_all(
                members.take(k - 1),
            ) <= 10485760,
        _ => false,
    }
}

proof fn total_is_sum(members: Seq<MemberModel>, n: int)
    requires
        0 <= n <= members.len(),
    ensures
        total_size(members, n) == size_of_all(members.take(n)),
    decreases n,
{
    let sizes = members.take(n).map_values(|x: MemberModel| x.size as int);
    if n > 0 {
        total_is_sum(members, n - 1);
        assert(sizes.drop_last() =~= members.take(n - 1).map_values(|x: MemberModel| x.size as int));
        assert(sizes.last() == members[n - 1].size);
    } else {
        assert(sizes =~= Seq::empty());
    }
}

proof fn size_error_is_limit(members: Seq<MemberModel>, i: int)
    requires
        0 <= i <= members.len() <= 200,
        total_size(members, i) <= 10485760,
        forall|j: int| 0 <= j < i ==> (#[trigger] members[j]).size <= 1048576,
    ensures
        size_error(members, i) matches Some(e) ==> passes_limit(members, e),
        size_error(members, i) is None ==> size_of_all(members) <= 10485760 && forall|j: int|
            0 <= j < members.len() ==> (#[trigger] members[j]).size <= 1048576,
    decreases members.len() - i,
{
    total_is_sum(members, i);
    if i < members.len() {
        total_is_sum(members, i + 1);
        if members[i].size > 1048576 {
        } else if total_size(members, i + 1) > 10485760 {
            assert(size_of_all(members.take(i + 1)) == total_size(members, i + 1));
        } else {
            size_error_is_limit(members, i + 1);
        }
    } else {
        assert(members.take(i) =~= members);
    }
}

/// A skill is refused for its size just where it passes a limit, and the error names the limit
/// that is passed first: no more than 200 files, none of more than a mebibyte, and no
/// more than ten of these together.
pub proof fn limits_are_told(members: Seq<MemberModel>)
    ensures
        limit_error(members) matches Some(e) ==> passes_limit(members, e),
        limit_error(members) is None <==> members.len() <= 200 && size_of_all(members) <= 10485760
            && forall|j: int| 0 <= j < members.len() ==> (#[trigger] members[j]).size <= 1048576,
{
    if members.len() <= 200 {
        size_error_is_limit(members, 0);
        if limit_error(members) is Some {
            let e = limit_error(members)->0;
            match e {
                ErrorModel::TotalTooLarge(n) => {
                    let k = choose|k: int|
                        0 < k <= members.len() && n == size_of_all(#[trigger] members.take(k))
                            && size_of_all(members.take(k - 1)) <= 10485760;
                    sums_grow(members, k);
                },
                _ => {},
            }
        }
    }
}

proof fn sums_grow(members: Seq<MemberModel>, k: int)
    requires
        0 <= k <= members.len(),
    ensures
        size_of_all(members.take(k)) <= size_of_all(members),
    decreases members.len() - k,
{
    if k < members.len() {
        sums_grow(members, k + 1);
        total_is_sum(members, k);
        total_is_sum(members, k + 1);
    } else {
        assert(members.take(k) =~= members);
    }
}

spec fn placing(
    m: DeployModel,
    h: spec_fn(DeployRequestModel, DeployReplyModel) -> bool,
    seconds: u64,
) -> bool {
    &&& h(want(DeployOp::Clock, Seq::empty()), DeployReplyModel::Seconds(seconds))
    &&& m.backup == backup_path(m.home, m.name, seconds)
    &&& 0 <= m.place <= LAST_PLACE
    &&& forall|i: int|
        0 <= i < m.place ==> flagged(
            h,
            DeployOp::Exists,
            #[trigger] backup_at(m.home, m.name, seconds, i),
            true,
        )
}

spec fn has_way(m: DeployModel, h: spec_fn(DeployRequestModel, DeployReplyModel) -> bool) -> bool {
    let target = installed_at(m.home, m.name);
    ||| !m.backed_up && flagged(h, DeployOp::Exists, target, false)
    ||| m.backed_up && m.force && conflicts(h, m.staging, target) && exists|seconds: u64|
        #[trigger] moved_away(h, m.home, m.name, seconds, m.place) && m.backup == backup_path(
            m.home,
            m.name,
            seconds,
        )
}

spec fn progress(m: DeployModel, h: spec_fn(DeployRequestModel, DeployReplyModel) -> bool) -> bool {
    let target = installed_at(m.home, m.name);
    &&& m.stage != DeployStage::Staging && m.stage != DeployStage::Finished ==> flagged(
        h,
        DeployOp::IsDir,
        m.staging,
        true,
    )
    &&& m.stage != DeployStage::Staging && m.stage != DeployStage::SkillMd && m.stage
        != DeployStage::Finished ==> flagged(
        h,
        DeployOp::IsFile,
        joined(m.staging, "SKILL.md"@),
        true,
    )
    &&& m.stage == DeployStage::InstalledMd || m.stage == DeployStage::StagedHash || m.stage
        == DeployStage::InstalledHash ==> flagged(h, DeployOp::Exists, target, true)
    &&& m.stage == DeployStage::StagedHash || m.stage == DeployStage::InstalledHash ==> flagged(
        h,
        DeployOp::IsFile,
        joined(target, "SKILL.md"@),
        true,
    )
    &&& m.stage == DeployStage::InstalledHash ==> hashed(
        h,
        joined(m.staging, "SKILL.md"@),
        m.staged_hash,
    )
    &&& m.stage == DeployStage::BackupsDir || m.stage == DeployStage::Clock || m.stage
        == DeployStage::BackupPlace || m.stage == DeployStage::MoveAway ==> m.force && conflicts(
        h,
        m.staging,
        target,
    )
    &&& m.stage == DeployStage::BackupPlace ==> exists|seconds: u64| #[trigger] placing(m, h, seconds)
    &&& m.stage == DeployStage::MoveAway ==> exists|seconds: u64|
        m.backup == backup_path(m.home, m.name, seconds) && #[trigger] chosen_place(
            h,
            m.home,
            m.name,
            seconds,
            m.place,
        )
    &&& m.stage == DeployStage::MakeTarget || m.stage == DeployStage::MakeParent || m.stage
        == DeployStage::CopyFile ==> has_way(m, h)
    &&& m.stage == DeployStage::MakeParent || m.stage == DeployStage::CopyFile ==> done(
        h,
        want(DeployOp::CreateDirs, target),
    )
    &&& m.stage == DeployStage::Discard ==> exists|q: DeployRequestModel| #[trigger]
        failed(h, q, m.error)
    &&& match m.outcome {
        DeployOutcomeModel::Pending => true,
        DeployOutcomeModel::Deployed(r) => rightly_deployed(m, h, r),
        DeployOutcomeModel::Refused(e) => rightly_refused(m, h, e),
    }
    &&& still_staging(m.stage) ==> !m.backed_up
    &&& m.stage == DeployStage::Target || m.stage == DeployStage::InstalledMd || m.stage
        == DeployStage::StagedHash || m.stage == DeployStage::InstalledHash || m.stage
        == DeployStage::BackupsDir || m.stage == DeployStage::Clock || m.stage
        == DeployStage::BackupPlace || m.stage == DeployStage::MoveAway ==> !m.backed_up
}

proof fn flags_stay(
    h: spec_fn(DeployRequestModel, DeployReplyModel) -> bool,
    h2: spec_fn(DeployRequestModel, DeployReplyModel) -> bool,
    q: DeployRequestModel,
    reply: DeployReplyModel,
)
    requires
        adds(h, h2, q, reply),
    ensures
        forall|x: DeployRequestModel| #[trigger] done(h, x) ==> done(h2, x),
        forall|s: Seq<char>, t: Seq<char>| #[trigger] conflicts(h, s, t) ==> conflicts(h2, s, t),
        forall|a: Seq<char>, b: Seq<char>, c: u64, n: int| #[trigger]
            chosen_place(h, a, b, c, n) ==> chosen_place(h2, a, b, c, n),
        forall|a: Seq<char>, b: Seq<char>, c: u64, n: int| #[trigger]
            moved_away(h, a, b, c, n) ==> moved_away(h2, a, b, c, n),
{
    assert forall|x: DeployRequestModel| #[trigger] done(h, x) implies done(h2, x) by {
        let r = choose|r: Result<(), Seq<char>>| #[trigger] h(x, DeployReplyModel::Done(r)) && r is Ok;
        assert(h2(x, DeployReplyModel::Done(r)));
    }
    assert forall|s: Seq<char>, t: Seq<char>| #[trigger] conflicts(h, s, t) implies conflicts(h2, s, t) by {
        let (x, y) = choose|x: Seq<char>, y: Seq<char>| #[trigger] other_content(h, s, t, x, y);
        assert(other_content(h2, s, t, x, y));
    }
    assert forall|a: Seq<char>, b: Seq<char>, c: u64, n: int| #[trigger]
        chosen_place(h, a, b, c, n) implies chosen_place(h2, a, b, c, n) by {}
}

proof fn io_is_reason(
    m: DeployModel,
    h: spec_fn(DeployRequestModel, DeployReplyModel) -> bool,
    q: DeployRequestModel,
    e: Seq<char>,
)
    requires
        io_failed(h, q, e),
    ensures
        rightly_refused(m, h, ErrorModel::Io(e)),
{
    assert(some_io_failed(h, e));
}

#[verifier::spinoff_prover]
#[verifier::rlimit(100)]
proof fn staged_progress(
    m: DeployModel,
    reply: DeployReplyModel,
    h: spec_fn(DeployRequestModel, DeployReplyModel) -> bool,
    h2: spec_fn(DeployRequestModel, DeployReplyModel) -> bool,
    now: Seq<Seq<char>>,
    k: int,
)
    requires
        still_staging(m.stage),
        deploy_answers(deploy_request(m).op, reply),
        finding(m, h, now, k),
        progress(m, h),
        deploy_sound(m),
        adds(h, h2, deploy_request(m), reply),
        m.stage == DeployStage::Entry ==> listed(h, m.dir_path, now),
    ensures
        progress(deploy_after(m, reply), h2),
{
    let q = deploy_request(m);
    let n = deploy_after(m, reply);
    flags_stay(h, h2, q, reply);
    if m.stage == DeployStage::Listing {
        assert(q == want(DeployOp::ListDir, m.dir_path));
        if let DeployReplyModel::Names(Err(e)) = reply {
            assert(io_failed(h2, q, e));
        }
        if let DeployReplyModel::Names(Ok(names)) = reply {
            assert(listed(h2, m.dir_path, names));
            let a = DeployModel { names, ..m };
            if names.len() == 0 {
                next_directory_progress(a, h2, n);
            } else if n.outcome is Refused {
                assert(leads_out(
                    m.staging,
                    h2,
                    m.dir_path,
                    names,
                    0,
                    m.dir_relative,
                    n.entry_relative,
                ));
            }
        }
    } else if m.stage == DeployStage::Entry {
        assert(q == want(DeployOp::Stat, m.entry_path));
        if let DeployReplyModel::Stat(Err(e)) = reply {
            assert(io_failed(h2, q, e));
        }
        if let DeployReplyModel::Stat(Ok(kind)) = reply {
            assert(found(h2, m.entry_path, kind));
            if !(kind is Symlink) {
                let a = match kind {
                    StagedKind::Directory => DeployModel {
                        pending: m.pending.push((m.entry_path, m.entry_relative)),
                        ..m
                    },
                    StagedKind::File(size) => DeployModel {
                        members: with_member(
                            m.members,
                            MemberModel { relative: m.entry_relative, source: m.entry_path, size },
                        ),
                        ..m
                    },
                    _ => m,
                };
                assert(n == next_staged(a));
                if a.names.len() == 0 {
                    next_directory_progress(a, h2, n);
                } else if n.outcome is Refused {
                    assert(listed(h2, m.dir_path, now));
                    assert(now[k] == m.names[0]);
                    assert(leads_out(
                        m.staging,
                        h2,
                        m.dir_path,
                        now,
                        k,
                        m.dir_relative,
                        n.entry_relative,
                    ));
                }
            }
        }
    } else if let DeployReplyModel::Flag(there) = reply {
        if m.stage == DeployStage::SkillMd {
            assert(q == want(DeployOp::IsFile, joined(m.staging, "SKILL.md"@)));
            assert(flagged(h2, DeployOp::IsFile, joined(m.staging, "SKILL.md"@), there));
            if there {
                next_directory_progress(m, h2, n);
            }
        } else {
            assert(q == want(DeployOp::IsDir, m.staging));
            assert(flagged(h2, DeployOp::IsDir, m.staging, there));
        }
    }
}

proof fn next_directory_progress(
    m: DeployModel,
    h: spec_fn(DeployRequestModel, DeployReplyModel) -> bool,
    n: DeployModel,
)
    requires
        n == next_directory(m),
        m.outcome is Pending,
        !m.backed_up,
        flagged(h, DeployOp::IsDir, m.staging, true),
        flagged(h, DeployOp::IsFile, joined(m.staging, "SKILL.md"@), true),
    ensures
        progress(n, h),
{
    limits_are_told(m.members);
}

#[verifier::spinoff_prover]
#[verifier::rlimit(100)]
proof fn installed_progress(
    m: DeployModel,
    reply: DeployReplyModel,
    h: spec_fn(DeployRequestModel, DeployReplyModel) -> bool,
    h2: spec_fn(DeployRequestModel, DeployReplyModel) -> bool,
)
    requires
        !still_staging(m.stage),
        !is_copying(m.stage),
        deploy_answers(deploy_request(m).op, reply),
        progress(m, h),
        deploy_sound(m),
        adds(h, h2, deploy_request(m), reply),
    ensures
        progress(deploy_after(m, reply), h2),
{
    let q = deploy_request(m);
    let n = deploy_after(m, reply);
    let target = installed_at(m.home, m.name);
    assert(target == target_path(m.home, m.name));
    flags_stay(h, h2, q, reply);
    match m.stage {
        DeployStage::InstalledMd => {
            if reply == DeployReplyModel::Flag(false) {
                assert(other_content(h2, m.staging, target, Seq::empty(), Seq::empty()));
            }
        },
        DeployStage::StagedHash => {
            if let DeployReplyModel::Hash(Err(e)) = reply {
                assert(h2(q, DeployReplyModel::Hash(Err(e))));
                assert(io_failed(h2, q, q.path + ": "@ + e));
            }
        },
        DeployStage::InstalledHash => {
            if let DeployReplyModel::Hash(Err(e)) = reply {
                assert(h2(q, DeployReplyModel::Hash(Err(e))));
                assert(io_failed(h2, q, q.path + ": "@ + e));
            }
            if let DeployReplyModel::Hash(Ok(x)) = reply {
                if x == m.staged_hash {
                    assert(same_hash(h2, m.staging, target, x));
                } else {
                    assert(other_content(h2, m.staging, target, m.staged_hash, x));
                }
            }
        },
        DeployStage::BackupsDir => {
            if let DeployReplyModel::Done(Err(e)) = reply {
                assert(failed(h2, q, e));
                assert(io_failed(h2, q, e));
            }
        },
        DeployStage::Clock => {
            if let DeployReplyModel::Seconds(s) = reply {
                assert(q == want(DeployOp::Clock, Seq::empty()));
                assert(placing(n, h2, s));
            }
        },
        DeployStage::BackupPlace => {
            let s = choose|s: u64| #[trigger] placing(m, h, s);
            assert(nth_place(m.backup, m.place) == backup_at(m.home, m.name, s, m.place));
            if let DeployReplyModel::Flag(taken) = reply {
                assert(flagged(h2, DeployOp::Exists, backup_at(m.home, m.name, s, m.place), taken));
                if !taken {
                    assert(chosen_place(h2, n.home, n.name, s, n.place));
                } else if m.place < LAST_PLACE {
                    assert(placing(n, h2, s));
                } else {
                    assert(chosen_place(h2, n.home, n.name, s, n.place));
                }
            }
        },
        DeployStage::MoveAway => {
            let s = choose|s: u64|
                m.backup == backup_path(m.home, m.name, s) && #[trigger] chosen_place(
                    h,
                    m.home,
                    m.name,
                    s,
                    m.place,
                );
            if let DeployReplyModel::Done(r) = reply {
                if r is Ok {
                    assert(h2(q, DeployReplyModel::Done(r)));
                    assert(done(h2, q));
                    assert(moved_away(h2, n.home, n.name, s, n.place));
                    assert(has_way(n, h2));
                } else {
                    assert(failed(h2, q, r->Err_0));
                    assert(io_failed(h2, q, r->Err_0));
                }
            }
        },
        _ => {},
    }
}

#[verifier::spinoff_prover]
#[verifier::rlimit(100)]
proof fn copying_progress(
    m: DeployModel,
    reply: DeployReplyModel,
    h: spec_fn(DeployRequestModel, DeployReplyModel) -> bool,
    h2: spec_fn(DeployRequestModel, DeployReplyModel) -> bool,
)
    requires
        is_copying(m.stage),
        deploy_answers(deploy_request(m).op, reply),
        progress(m, h),
        deploy_sound(m),
        adds(h, h2, deploy_request(m), reply),
    ensures
        progress(deploy_after(m, reply), h2),
{
    let q = deploy_request(m);
    let n = deploy_after(m, reply);
    let target = installed_at(m.home, m.name);
    assert(target == target_path(m.home, m.name));
    flags_stay(h, h2, q, reply);
    if m.stage == DeployStage::Discard {
        let x = choose|x: DeployRequestModel| #[trigger] failed(h, x, m.error);
        assert(failed(h2, x, m.error));
        assert(io_failed(h2, x, m.error));
        assert(n.outcome == DeployOutcomeModel::Refused(ErrorModel::Io(m.error)));
        assert(rightly_refused(n, h2, ErrorModel::Io(m.error)));
    } else {
        way_stays(m, n, h, h2, q, reply);
        if let DeployReplyModel::Done(r) = reply {
            assert(h2(q, DeployReplyModel::Done(r)));
            if r is Ok {
                assert(done(h2, q));
            } else {
                assert(failed(h2, q, r->Err_0));
                assert(n.stage == DeployStage::Discard && n.error == r->Err_0);
            }
        }
        if let DeployOutcomeModel::Deployed(r) = n.outcome {
            if m.backed_up {
                let s = choose|s: u64|
                    #[trigger] moved_away(h2, n.home, n.name, s, n.place) && n.backup == backup_path(
                        n.home,
                        n.name,
                        s,
                    );
                assert(moved_away(h2, n.home, n.name, s, n.place));
                assert(nth_place(m.backup, m.place) == backup_at(n.home, n.name, s, n.place));
            }
            assert(rightly_deployed(n, h2, r));
        }
    }
}

spec fn is_copying(stage: DeployStage) -> bool {
    stage == DeployStage::MakeTarget || stage == DeployStage::MakeParent || stage
        == DeployStage::CopyFile || stage == DeployStage::Discard
}

proof fn way_stays(
    m: DeployModel,
    n: DeployModel,
    h: spec_fn(DeployRequestModel, DeployReplyModel) -> bool,
    h2: spec_fn(DeployRequestModel, DeployReplyModel) -> bool,
    q: DeployRequestModel,
    reply: DeployReplyModel,
)
    requires
        has_way(m, h),
        adds(h, h2, q, reply),
        n.home == m.home,
        n.name == m.name,
        n.staging == m.staging,
        n.force == m.force,
        n.backed_up == m.backed_up,
        n.backup == m.backup,
        n.place == m.place,
    ensures
        has_way(n, h2),
{
    flags_stay(h, h2, q, reply);
    if m.backed_up {
        let s = choose|s: u64|
            #[trigger] moved_away(h, m.home, m.name, s, m.place) && m.backup == backup_path(
                m.home,
                m.name,
                s,
            );
        assert(moved_away(h2, n.home, n.name, s, n.place));
    }
}

proof fn runs_progress(m: DeployModel, replies: Seq<DeployReplyModel>) -> (at: (Seq<Seq<char>>, int))
    requires
        deploy_fits(m, replies),
        deploy_sound(m),
        m.stage == DeployStage::Staging,
        !m.backed_up,
        m.pending == seq![(m.staging, Seq::<char>::empty())],
        m.members.len() == 0,
    ensures
        progress(deploy_run(m, replies), history(m, replies)),
        !(deploy_run(m, replies).outcome is Refused) ==> finding(
            deploy_run(m, replies),
            history(m, replies),
            at.0,
            at.1,
        ),
        !(deploy_run(m, replies).outcome is Refused) && deploy_run(m, replies).stage
            == DeployStage::Entry ==> listed(
            history(m, replies),
            deploy_run(m, replies).dir_path,
            at.0,
        ),
    decreases replies.len(),
{
    if replies.len() == 0 {
        empty_run(m, replies);
        assert(is_placed(m.staging, m.pending[0].0, m.pending[0].1));
        (Seq::empty(), 0)
    } else {
        longer_run(m, replies);
        let past = replies.drop_last();
        let (now, k) = runs_progress(m, past);
        let b = deploy_run(m, past);
        let reply = replies.last();
        let h = history(m, past);
        let h2 = history(m, replies);
        run_is_sound(m, past);
        adds_one(m, replies);
        if b.outcome is Refused {
            refused_is_over(b, reply);
        }
        let n = deploy_after(b, reply);
        if still_staging(b.stage) {
            staged_progress(b, reply, h, h2, now, k);
        } else if is_copying(b.stage) {
            copying_progress(b, reply, h, h2);
        } else {
            installed_progress(b, reply, h, h2);
        }
        seen_stays_seen(h, h2, deploy_request(b), reply);
        if n.outcome is Refused {
            (now, k)
        } else if b.stage == DeployStage::Listing {
            let names = reply->Names_0->Ok_0;
            assert(reply is Names && reply->Names_0 is Ok);
            assert(reply == DeployReplyModel::Names(Ok(names)));
            assert(deploy_request(b) == want(DeployOp::ListDir, b.dir_path));
            assert(listed(h2, b.dir_path, names));
            listing_keeps_finding(b, names, h, h2, now, k);
            (names, 1)
        } else if b.stage == DeployStage::Entry {
            entry_keeps_finding(b, reply, h, h2, now, k);
            same_listing(b, reply);
            (now, k + 1)
        } else if still_staging(b.stage) {
            start_keeps_finding(b, reply, h, h2, now, k);
            (now, k)
        } else {
            later_step_shape(b, reply);
            assert(adds(h, h2, deploy_request(b), reply));
            keeps_by_other(b, n, h, h2, now, k);
            (now, k)
        }
    }
}

proof fn same_listing(m: DeployModel, reply: DeployReplyModel)
    requires
        m.stage == DeployStage::Entry,
        deploy_answers(deploy_request(m).op, reply),
    ensures
        deploy_after(m, reply).stage == DeployStage::Entry ==> deploy_after(m, reply).dir_path
            == m.dir_path,
{
}

/// A deployment that succeeds was right to, and reports what it did: it says that nothing was
/// to be done just where the installed `SKILL.md` has the hash of the staged one; else
/// what was installed with other content is among the backups, where it was allowed to go. A
/// deployment that is refused is refused for a reason, and the error names it.
pub proof fn deployments_come_out_rightly(
    staging: Seq<char>,
    name: Seq<char>,
    force: bool,
    home: Seq<char>,
    replies: Seq<DeployReplyModel>,
)
    requires
        deploy_fits(fresh_deployment(staging, name, force, home), replies),
    ensures
        ({
            let m = fresh_deployment(staging, name, force, home);
            let n = deploy_run(m, replies);
            let h = history(m, replies);
            &&& n.outcome matches DeployOutcomeModel::Deployed(r) ==> rightly_deployed(n, h, r)
            &&& n.outcome matches DeployOutcomeModel::Refused(e) ==> rightly_refused(n, h, e)
            &&& deploy_request(n).op == DeployOp::Finish ==> !(n.outcome is Pending)
            &&& n.staging == staging && n.name == name && n.force == force && n.home == home
        }),
{
    let m = fresh_deployment(staging, name, force, home);
    fresh_deployment_is_sound(staging, name, force, home);
    run_is_sound(m, replies);
    inputs_are_fixed(m, replies);
    if valid_name(name) {
        let at = runs_progress(m, replies);
    } else {
        crate::deploy_runs::finished_is_not_answered(m, replies);
        empty_run(m, replies);
    }
}

#[verifier::spinoff_prover]
#[verifier::rlimit(40)]
proof fn inputs_stay(m: DeployModel, reply: DeployReplyModel)
    ensures
        deploy_after(m, reply).staging == m.staging,
        deploy_after(m, reply).name == m.name,
        deploy_after(m, reply).force == m.force,
        deploy_after(m, reply).home == m.home,
{
}

proof fn inputs_are_fixed(m: DeployModel, replies: Seq<DeployReplyModel>)
    ensures
        deploy_run(m, replies).staging == m.staging,
        deploy_run(m, replies).name == m.name,
        deploy_run(m, replies).force == m.force,
        deploy_run(m, replies).home == m.home,
    decreases replies.len(),
{
    if replies.len() == 0 {
        empty_run(m, replies);
    } else {
        longer_run(m, replies);
        inputs_are_fixed(m, replies.drop_last());
        inputs_stay(deploy_run(m, replies.drop_last()), replies.last());
    }
}

} // verus!
