//! What holds of every deployment of a skill, whatever the file system answers.
use crate::deploy_task::{
    backup_path, backups_path, deploy_after, deploy_answers, deploy_request, destination,
    fresh_deployment, member_place, nth_place, parts_less, path_less, target_path, with_member,
    DeployModel, DeployOp, DeployOutcomeModel, DeployReplyModel, DeployStage, LAST_PLACE,
};
use crate::path_laws::{
    decimal_has_no_slash, entry_is_safe, entry_lies_inside, lies_inside, member_lies_inside,
    members_stay_inside, parent_lies_inside, root_lies_inside, stamp_is_entry, valid_name_is_entry,
};
use crate::paths::{joined, path_parts};
use crate::skill_deploy::{limit_error, safe_member, valid_name, ErrorModel, MemberModel};
use crate::text::decimal;
use crate::text_order::{text_less_irreflexive, text_less_transitive};
use crate::timestamp::stamp_of;
use vstd::prelude::*;

verus! {

/// All members are safe.
pub open spec fn all_safe(members: Seq<MemberModel>) -> bool {
    forall|i: int| 0 <= i < members.len() ==> safe_member((#[trigger] members[i]).relative)
}

/// The deployment still looks at what is staged.
pub open spec fn still_staging(stage: DeployStage) -> bool {
    stage == DeployStage::Staging || stage == DeployStage::SkillMd || stage == DeployStage::Listing
        || stage == DeployStage::Entry
}

/// The place for the backup is named after a moment and the skill.
pub open spec fn is_backup_base(m: DeployModel) -> bool {
    exists|seconds: u64| m.backup == #[trigger] backup_path(m.home, m.name, seconds)
}

/// What a deployment keeps at every stage.
pub open spec fn deploy_sound(m: DeployModel) -> bool {
    &&& all_safe(m.members)
    &&& m.stage == DeployStage::Entry ==> safe_member(m.entry_relative)
    &&& m.stage != DeployStage::Finished ==> valid_name(m.name) && m.outcome is Pending
    &&& m.stage == DeployStage::Finished ==> !(m.outcome is Pending)
    &&& !still_staging(m.stage) && m.stage != DeployStage::Finished ==> limit_error(m.members) is None
    &&& m.stage == DeployStage::BackupsDir || m.stage == DeployStage::Clock || m.stage
        == DeployStage::BackupPlace || m.stage == DeployStage::MoveAway ==> m.force
    &&& m.backed_up ==> m.force
    &&& m.stage == DeployStage::BackupPlace || m.stage == DeployStage::MoveAway
        ==> is_backup_base(m)
    &&& m.stage == DeployStage::MakeParent || m.stage == DeployStage::CopyFile ==> 0
        <= m.next_member < m.members.len()
}

/// A fresh deployment is sound.
pub proof fn fresh_deployment_is_sound(
    staging: Seq<char>,
    name: Seq<char>,
    force: bool,
    home: Seq<char>,
)
    ensures
        deploy_sound(fresh_deployment(staging, name, force, home)),
{
}

proof fn inserted_stays_safe(members: Seq<MemberModel>, x: MemberModel)
    requires
        all_safe(members),
        safe_member(x.relative),
    ensures
        all_safe(with_member(members, x)),
{
    place_bound(members, x.relative);
    let n = member_place(members, x.relative) as int;
    let w = with_member(members, x);
    assert forall|i: int| 0 <= i < w.len() implies safe_member((#[trigger] w[i]).relative) by {
        if i < n {
            assert(w[i] == members[i]);
        } else if i > n {
            assert(w[i] == members[i - 1]);
        }
    }
}

pub proof fn place_bound(members: Seq<MemberModel>, relative: Seq<char>)
    ensures
        member_place(members, relative) <= members.len(),
        forall|j: int|
            0 <= j < member_place(members, relative) ==> !path_less(
                relative,
                (#[trigger] members[j]).relative,
            ),
        member_place(members, relative) < members.len() ==> path_less(
            relative,
            members[member_place(members, relative) as int].relative,
        ),
    decreases members.len(),
{
    if members.len() > 0 && !path_less(relative, members[0].relative) {
        let rest = members.drop_first();
        place_bound(rest, relative);
        assert forall|j: int| 0 <= j < member_place(members, relative) implies !path_less(
            relative,
            (#[trigger] members[j]).relative,
        ) by {
            if j > 0 {
                assert(members[j] == rest[j - 1]);
            }
        }
    }
}

/// Every answer keeps a deployment sound.
#[verifier::spinoff_prover]
#[verifier::rlimit(40)]
pub proof fn deployment_stays_sound(m: DeployModel, reply: DeployReplyModel)
    requires
        deploy_sound(m),
        deploy_answers(deploy_request(m).op, reply),
    ensures
        deploy_sound(deploy_after(m, reply)),
{
    if m.stage == DeployStage::Entry {
        if let DeployReplyModel::Stat(Ok(crate::deploy_task::StagedKind::File(size))) = reply {
            inserted_stays_safe(
                m.members,
                MemberModel { relative: m.entry_relative, source: m.entry_path, size },
            );
        }
    }
    if m.stage == DeployStage::Clock {
        if let DeployReplyModel::Seconds(s) = reply {
            let n = deploy_after(m, reply);
            assert(n.backup == backup_path(n.home, n.name, s));
            assert(is_backup_base(n));
        }
    }
    if m.stage == DeployStage::BackupPlace {
        let s = choose|s: u64| m.backup == #[trigger] backup_path(m.home, m.name, s);
        let n = deploy_after(m, reply);
        assert(n.backup == backup_path(n.home, n.name, s));
        assert(is_backup_base(n));
    }
}

/// The request changes the file system.
pub open spec fn writes(op: DeployOp) -> bool {
    op == DeployOp::CreateDirs || op == DeployOp::Rename || op == DeployOp::Copy || op
        == DeployOp::RemoveDirAll
}

/// Nothing is written before everything is checked: whatever a deployment writes, its
/// name is a skill name, all its members are safe and keep to the limits. Nothing that
/// was installed is moved unless that was asked for.
pub proof fn checked_before_written(m: DeployModel)
    requires
        deploy_sound(m),
    ensures
        writes(deploy_request(m).op) ==> valid_name(m.name) && all_safe(m.members) && limit_error(
            m.members,
        ) is None,
        deploy_request(m).op == DeployOp::Rename ==> m.force,
{
}

/// A copy that breaks off leaves nothing behind: the next thing done is to remove what
/// is there of the skill, and what is reported is why the copy broke off.
pub proof fn broken_copy_is_discarded(m: DeployModel, e: Seq<char>, reply: DeployReplyModel)
    requires
        m.stage == DeployStage::MakeTarget || m.stage == DeployStage::MakeParent || m.stage
            == DeployStage::CopyFile,
    ensures
        ({
            let n = deploy_after(m, DeployReplyModel::Done(Err(e)));
            &&& deploy_request(n).op == DeployOp::RemoveDirAll
            &&& deploy_request(n).path == target_path(m.home, m.name)
            &&& deploy_after(n, reply).stage == DeployStage::Finished
            &&& deploy_after(n, reply).outcome == DeployOutcomeModel::Refused(ErrorModel::Io(e))
        }),
{
}

// ------------------------------------------------------------- inside the home

/// The directories of skills and of backups lie inside the home.
pub proof fn dirs_lie_inside(home: Seq<char>)
    ensures
        lies_inside(joined(home, "skills"@), home),
        lies_inside(joined(home, "evolution"@), home),
        lies_inside(backups_path(home), home),
{
    reveal_strlit("skills");
    reveal_strlit("evolution");
    reveal_strlit("backups");
    root_lies_inside(home);
    entry_lies_inside(home, "skills"@, home);
    entry_lies_inside(home, "evolution"@, home);
    entry_lies_inside(joined(home, "evolution"@), "backups"@, home);
}

/// The place of a skill lies inside the home, and below the directory of skills.
pub proof fn target_lies_inside(home: Seq<char>, name: Seq<char>)
    requires
        valid_name(name),
    ensures
        lies_inside(target_path(home, name), home),
        path_parts(target_path(home, name)).len() > path_parts(home).len(),
{
    reveal_strlit("user-");
    dirs_lie_inside(home);
    valid_name_is_entry(name);
    let leaf = "user-"@ + name;
    entry_lies_inside(joined(home, "skills"@), leaf, home);
    entry_is_safe(leaf);
    members_stay_inside(joined(home, "skills"@), leaf);
}

proof fn backup_lies_inside(home: Seq<char>, name: Seq<char>, seconds: u64, n: int)
    requires
        valid_name(name),
    ensures
        lies_inside(nth_place(backup_path(home, name, seconds), n), home),
{
    reveal_strlit("-");
    reveal_strlit("~");
    dirs_lie_inside(home);
    valid_name_is_entry(name);
    stamp_is_entry(seconds as int);
    decimal_has_no_slash(n as nat);
    let leaf = stamp_of(seconds as int) + "-"@ + name;
    let numbered = leaf + "~"@ + decimal(n as nat);
    entry_lies_inside(backups_path(home), leaf, home);
    entry_lies_inside(backups_path(home), numbered, home);
    assert(joined(backups_path(home), leaf) + "~"@ + decimal(n as nat) =~= joined(
        backups_path(home),
        numbered,
    ));
}

/// Whatever a deployment writes lies inside the home: the directories that it makes, both
/// ends of the move into the backups, the files that it copies, and what it removes of a
/// copy that has failed.
pub proof fn writes_stay_inside(m: DeployModel)
    requires
        deploy_sound(m),
    ensures
        ({
            let r = deploy_request(m);
            &&& r.op == DeployOp::CreateDirs || r.op == DeployOp::RemoveDirAll ==> lies_inside(
                r.path,
                m.home,
            )
            &&& r.op == DeployOp::Rename ==> lies_inside(r.path, m.home) && lies_inside(r.to, m.home)
            &&& r.op == DeployOp::Copy ==> lies_inside(r.to, m.home)
        }),
{
    if m.stage != DeployStage::Finished {
        dirs_lie_inside(m.home);
        target_lies_inside(m.home, m.name);
        if m.stage == DeployStage::MoveAway {
            let seconds = choose|seconds: u64|
                m.backup == #[trigger] backup_path(m.home, m.name, seconds);
            backup_lies_inside(m.home, m.name, seconds, m.place);
        }
        if m.stage == DeployStage::MakeParent || m.stage == DeployStage::CopyFile {
            let relative = m.members[m.next_member].relative;
            let target = target_path(m.home, m.name);
            member_lies_inside(target, relative, m.home);
            members_stay_inside(target, relative);
            parent_lies_inside(destination(m), m.home);
        }
    }
}

// ------------------------------------------------------------- members in order

/// Nothing comes before itself.
pub proof fn parts_less_irreflexive(a: Seq<Seq<char>>)
    ensures
        !parts_less(a, a),
    decreases a.len(),
{
    if a.len() > 0 {
        parts_less_irreflexive(a.skip(1));
    }
}

/// What comes before what comes before comes before.
pub proof fn parts_less_transitive(a: Seq<Seq<char>>, b: Seq<Seq<char>>, c: Seq<Seq<char>>)
    requires
        parts_less(a, b),
        parts_less(b, c),
    ensures
        parts_less(a, c),
    decreases a.len(),
{
    if a.len() > 0 {
        if a[0] == b[0] && b[0] == c[0] {
            parts_less_transitive(a.skip(1), b.skip(1), c.skip(1));
        } else if a[0] != b[0] && b[0] != c[0] {
            text_less_transitive(a[0], b[0], c[0]);
            text_less_irreflexive(a[0]);
        }
    }
}

/// No member stands before one that comes before it.
pub open spec fn in_order(members: Seq<MemberModel>) -> bool {
    forall|i: int, j: int|
        0 <= i < j < members.len() ==> !path_less(
            (#[trigger] members[j]).relative,
            (#[trigger] members[i]).relative,
        )
}

/// The members are copied in the order of their paths, whatever the order in which the
/// file system lists them: taking one more in keeps them in order.
pub proof fn members_stay_in_order(members: Seq<MemberModel>, x: MemberModel)
    requires
        in_order(members),
    ensures
        in_order(with_member(members, x)),
{
    place_bound(members, x.relative);
    let n = member_place(members, x.relative) as int;
    let w = with_member(members, x);
    let px = path_parts(x.relative);
    assert forall|i: int, j: int| 0 <= i < j < w.len() implies !path_less(
        (#[trigger] w[j]).relative,
        (#[trigger] w[i]).relative,
    ) by {
        if j < n {
            assert(w[i] == members[i] && w[j] == members[j]);
        } else if j == n {
            assert(w[i] == members[i]);
        } else if i > n {
            assert(w[i] == members[i - 1] && w[j] == members[j - 1]);
        } else {
            assert(w[j] == members[j - 1]);
            let pj = path_parts(members[j - 1].relative);
            let pn = path_parts(members[n].relative);
            if i == n {
                if parts_less(pj, px) {
                    parts_less_transitive(pj, px, pn);
                    if j - 1 > n {
                        assert(!path_less(members[j - 1].relative, members[n].relative));
                    } else {
                        parts_less_irreflexive(pn);
                    }
                }
            } else {
                assert(w[i] == members[i]);
            }
        }
    }
}

// -------------------------------------------------------------------- to the end

/// How far a stage behind the staging is from the end of the deployment.
pub open spec fn stage_left(stage: DeployStage) -> nat {
    match stage {
        DeployStage::Target => 11,
        DeployStage::InstalledMd => 10,
        DeployStage::StagedHash => 9,
        DeployStage::InstalledHash => 8,
        DeployStage::BackupsDir => 7,
        DeployStage::Clock => 6,
        DeployStage::BackupPlace => 5,
        DeployStage::MoveAway => 4,
        DeployStage::MakeTarget => 3,
        DeployStage::MakeParent | DeployStage::CopyFile => 2,
        DeployStage::Discard => 1,
        _ => 0,
    }
}

/// How many more places can be tried, or how many more steps the copy can take.
pub open spec fn rounds_left(m: DeployModel) -> int {
    match m.stage {
        DeployStage::BackupPlace => if m.place < LAST_PLACE {
            LAST_PLACE - m.place
        } else {
            0
        },
        DeployStage::MakeParent => 2 * (m.members.len() - m.next_member) + 1,
        DeployStage::CopyFile => 2 * (m.members.len() - m.next_member),
        _ => 0,
    }
}

/// Once all that is staged is known, every answer brings a deployment nearer to its end, so
/// every deployment of a finite tree comes to one.
#[verifier::spinoff_prover]
#[verifier::rlimit(40)]
pub proof fn deployment_moves_on(m: DeployModel, reply: DeployReplyModel)
    requires
        deploy_sound(m),
        deploy_answers(deploy_request(m).op, reply),
        !still_staging(m.stage),
    ensures
        ({
            let n = deploy_after(m, reply);
            decreases_to!(
                stage_left(m.stage), rounds_left(m) => stage_left(n.stage), rounds_left(n)
            )
        }),
        !still_staging(deploy_after(m, reply).stage),
{
}

} // verus!
