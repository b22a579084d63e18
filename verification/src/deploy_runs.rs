//! Whole deployments: what two of them in a row do.
use crate::deploy_laws::{
    deploy_sound, deployment_stays_sound, fresh_deployment_is_sound, still_staging, writes,
};
use crate::deploy_task::{
    complete, deploy_after, deploy_answers, deploy_request, fresh_deployment, target_path,
    DeployModel, DeployOp, DeployOutcomeModel, DeployReplyModel, DeployRequestModel, DeployStage,
};
use crate::paths::joined;
use crate::skill_deploy::ReportModel;
use vstd::prelude::*;

verus! {

/// The deployment `m` after a run of answers.
#[verifier::opaque]
pub open spec fn deploy_run(m: DeployModel, replies: Seq<DeployReplyModel>) -> DeployModel
    decreases replies.len(),
{
    if replies.len() == 0 {
        m
    } else {
        deploy_after(deploy_run(m, replies.drop_last()), replies.last())
    }
}

/// Each answer of the run is one to the request it was given for.
#[verifier::opaque]
pub open spec fn deploy_fits(m: DeployModel, replies: Seq<DeployReplyModel>) -> bool
    decreases replies.len(),
{
    replies.len() == 0 || (deploy_fits(m, replies.drop_last()) && deploy_answers(
        deploy_request(deploy_run(m, replies.drop_last())).op,
        replies.last(),
    ))
}

/// No request of the run changes the file system.
#[verifier::opaque]
pub open spec fn writes_nothing(m: DeployModel, replies: Seq<DeployReplyModel>) -> bool
    decreases replies.len(),
{
    replies.len() == 0 || (writes_nothing(m, replies.drop_last()) && !writes(
        deploy_request(deploy_run(m, replies.drop_last())).op,
    ))
}

/// The answers about what is staged, and then those on a disk where the skill is installed
/// with a `SKILL.md` that has the hash `h`, as the staged one has.
pub open spec fn unchanged_answers(staged: Seq<DeployReplyModel>, h: Seq<char>) -> Seq<
    DeployReplyModel,
> {
    staged.push(DeployReplyModel::Flag(true)).push(DeployReplyModel::Flag(true)).push(
        DeployReplyModel::Hash(Ok(h)),
    ).push(DeployReplyModel::Hash(Ok(h)))
}

pub proof fn empty_run(m: DeployModel, replies: Seq<DeployReplyModel>)
    requires
        replies.len() == 0,
    ensures
        deploy_run(m, replies) == m,
        deploy_fits(m, replies),
        writes_nothing(m, replies),
{
    reveal(deploy_run);
    reveal(deploy_fits);
    reveal(writes_nothing);
}

pub proof fn longer_run(m: DeployModel, replies: Seq<DeployReplyModel>)
    requires
        replies.len() > 0,
    ensures
        deploy_run(m, replies) == deploy_after(
            deploy_run(m, replies.drop_last()),
            replies.last(),
        ),
        deploy_fits(m, replies) == (deploy_fits(m, replies.drop_last()) && deploy_answers(
            deploy_request(deploy_run(m, replies.drop_last())).op,
            replies.last(),
        )),
        writes_nothing(m, replies) == (writes_nothing(m, replies.drop_last()) && !writes(
            deploy_request(deploy_run(m, replies.drop_last())).op,
        )),
{
    reveal(deploy_run);
    reveal(deploy_fits);
    reveal(writes_nothing);
}

pub proof fn run_is_sound(m: DeployModel, replies: Seq<DeployReplyModel>)
    requires
        deploy_sound(m),
        deploy_fits(m, replies),
    ensures
        deploy_sound(deploy_run(m, replies)),
    decreases replies.len(),
{
    if replies.len() > 0 {
        longer_run(m, replies);
        run_is_sound(m, replies.drop_last());
        deployment_stays_sound(deploy_run(m, replies.drop_last()), replies.last());
    } else {
        empty_run(m, replies);
    }
}

/// Once the staging is over, it does not come again.
#[verifier::spinoff_prover]
#[verifier::rlimit(40)]
proof fn staging_comes_once(m: DeployModel, reply: DeployReplyModel)
    requires
        deploy_answers(deploy_request(m).op, reply),
        !still_staging(m.stage),
    ensures
        !still_staging(deploy_after(m, reply).stage),
        deploy_after(m, reply).stage != DeployStage::Target,
{
}

/// What is looked at while staging does not depend on `force`, and nothing is written.
#[verifier::spinoff_prover]
#[verifier::rlimit(60)]
proof fn staging_ignores_force(m: DeployModel, reply: DeployReplyModel, force: bool)
    requires
        still_staging(m.stage),
        deploy_answers(deploy_request(m).op, reply),
    ensures
        deploy_request(DeployModel { force, ..m }) == deploy_request(m),
        deploy_after(DeployModel { force, ..m }, reply) == (DeployModel {
            force,
            ..deploy_after(m, reply)
        }),
        !writes(deploy_request(m).op),
{
}

/// A run that has just got through the staging was staging all the time.
proof fn staging_run(m: DeployModel, staged: Seq<DeployReplyModel>, force: bool)
    requires
        deploy_fits(m, staged),
        still_staging(deploy_run(m, staged).stage) || deploy_run(m, staged).stage
            == DeployStage::Target,
    ensures
        deploy_fits(DeployModel { force, ..m }, staged),
        deploy_run(DeployModel { force, ..m }, staged) == (DeployModel {
            force,
            ..deploy_run(m, staged)
        }),
        writes_nothing(DeployModel { force, ..m }, staged),
    decreases staged.len(),
{
    if staged.len() > 0 {
        longer_run(m, staged);
        longer_run(DeployModel { force, ..m }, staged);
        let before = staged.drop_last();
        let n = deploy_run(m, before);
        if !still_staging(n.stage) {
            staging_comes_once(n, staged.last());
        }
        staging_run(m, before, force);
        staging_ignores_force(n, staged.last(), force);
    } else {
        empty_run(m, staged);
        empty_run(DeployModel { force, ..m }, staged);
    }
}

#[verifier::spinoff_prover]
#[verifier::rlimit(40)]
proof fn target_is_there(m: DeployModel, s: Seq<DeployReplyModel>)
    requires
        deploy_fits(m, s),
        writes_nothing(m, s),
        deploy_run(m, s).stage == DeployStage::Target,
    ensures
        ({
            let n = deploy_run(m, s);
            let t = s.push(DeployReplyModel::Flag(true));
            &&& deploy_fits(m, t)
            &&& writes_nothing(m, t)
            &&& deploy_run(m, t) == (DeployModel { stage: DeployStage::InstalledMd, ..n })
        }),
{
    let t = s.push(DeployReplyModel::Flag(true));
    longer_run(m, t);
    assert(t.drop_last() =~= s);
}

#[verifier::spinoff_prover]
#[verifier::rlimit(40)]
proof fn installed_md_is_there(m: DeployModel, s: Seq<DeployReplyModel>)
    requires
        deploy_fits(m, s),
        writes_nothing(m, s),
        deploy_run(m, s).stage == DeployStage::InstalledMd,
    ensures
        ({
            let n = deploy_run(m, s);
            let t = s.push(DeployReplyModel::Flag(true));
            &&& deploy_fits(m, t)
            &&& writes_nothing(m, t)
            &&& deploy_run(m, t) == (DeployModel { stage: DeployStage::StagedHash, ..n })
        }),
{
    let t = s.push(DeployReplyModel::Flag(true));
    longer_run(m, t);
    assert(t.drop_last() =~= s);
}

#[verifier::spinoff_prover]
#[verifier::rlimit(40)]
proof fn staged_hash_is_known(m: DeployModel, s: Seq<DeployReplyModel>, h: Seq<char>)
    requires
        deploy_fits(m, s),
        writes_nothing(m, s),
        deploy_run(m, s).stage == DeployStage::StagedHash,
    ensures
        ({
            let n = deploy_run(m, s);
            let t = s.push(DeployReplyModel::Hash(Ok(h)));
            &&& deploy_fits(m, t)
            &&& writes_nothing(m, t)
            &&& deploy_run(m, t) == (DeployModel {
                stage: DeployStage::InstalledHash,
                staged_hash: h,
                ..n
            })
        }),
{
    let t = s.push(DeployReplyModel::Hash(Ok(h)));
    longer_run(m, t);
    assert(t.drop_last() =~= s);
}

#[verifier::spinoff_prover]
#[verifier::rlimit(40)]
proof fn installed_hash_is_the_same(m: DeployModel, s: Seq<DeployReplyModel>)
    requires
        deploy_fits(m, s),
        writes_nothing(m, s),
        deploy_run(m, s).stage == DeployStage::InstalledHash,
    ensures
        ({
            let n = deploy_run(m, s);
            let t = s.push(DeployReplyModel::Hash(Ok(deploy_run(m, s).staged_hash)));
            &&& deploy_fits(m, t)
            &&& writes_nothing(m, t)
            &&& deploy_run(m, t) == complete(n, true)
        }),
{
    let t = s.push(DeployReplyModel::Hash(Ok(deploy_run(m, s).staged_hash)));
    longer_run(m, t);
    assert(t.drop_last() =~= s);
}

/// An installed skill with the content that is staged is left alone, whether or not it may
/// be replaced: the deployment writes nothing at all, and reports the skill that is there.
pub proof fn installed_skill_is_left_alone(
    staging: Seq<char>,
    name: Seq<char>,
    force: bool,
    home: Seq<char>,
    staged: Seq<DeployReplyModel>,
    h: Seq<char>,
)
    requires
        deploy_fits(fresh_deployment(staging, name, force, home), staged),
        deploy_run(fresh_deployment(staging, name, force, home), staged).stage
            == DeployStage::Target,
    ensures
        ({
            let m = fresh_deployment(staging, name, force, home);
            let replies = unchanged_answers(staged, h);
            &&& deploy_fits(m, replies)
            &&& writes_nothing(m, replies)
            &&& deploy_run(m, replies).stage == DeployStage::Finished
            &&& deploy_run(m, replies).outcome == DeployOutcomeModel::Deployed(
                ReportModel {
                    target_dir: target_path(home, name),
                    file_count: deploy_run(m, staged).members.len() as int,
                    backup_dir: None,
                    idempotent: true,
                },
            )
        }),
{
    let m = fresh_deployment(staging, name, force, home);
    staging_run(m, staged, force);
    staging_keeps_names(m, staged);
    assert(DeployModel { force, ..m } == m);
    let a = staged.push(DeployReplyModel::Flag(true));
    let b = a.push(DeployReplyModel::Flag(true));
    let c = b.push(DeployReplyModel::Hash(Ok(h)));
    target_is_there(m, staged);
    installed_md_is_there(m, a);
    staged_hash_is_known(m, b, h);
    installed_hash_is_the_same(m, c);
    assert(unchanged_answers(staged, h) == c.push(DeployReplyModel::Hash(Ok(h))));
}

#[verifier::spinoff_prover]
#[verifier::rlimit(40)]
proof fn step_keeps_names(m: DeployModel, reply: DeployReplyModel)
    ensures
        deploy_after(m, reply).home == m.home,
        deploy_after(m, reply).name == m.name,
{
}

proof fn staging_keeps_names(m: DeployModel, replies: Seq<DeployReplyModel>)
    ensures
        deploy_run(m, replies).home == m.home,
        deploy_run(m, replies).name == m.name,
    decreases replies.len(),
{
    if replies.len() > 0 {
        longer_run(m, replies);
        staging_keeps_names(m, replies.drop_last());
        step_keeps_names(deploy_run(m, replies.drop_last()), replies.last());
    } else {
        empty_run(m, replies);
    }
}

/// What a deployment reports, once it does: where the skill is, and how many members it has.
pub open spec fn reports_members(m: DeployModel) -> bool {
    m.outcome matches DeployOutcomeModel::Deployed(r) ==> r.target_dir == target_path(
        m.home,
        m.name,
    ) && r.file_count == m.members.len()
}

#[verifier::spinoff_prover]
#[verifier::rlimit(40)]
proof fn members_are_settled(m: DeployModel, reply: DeployReplyModel)
    requires
        !still_staging(m.stage),
        reports_members(m),
    ensures
        deploy_after(m, reply).members == m.members,
        reports_members(deploy_after(m, reply)),
        deploy_answers(deploy_request(m).op, reply) ==> !still_staging(deploy_after(m, reply).stage),
{
}

proof fn rest_keeps_members(m: DeployModel, rest: Seq<DeployReplyModel>)
    requires
        !still_staging(m.stage),
        reports_members(m),
        deploy_fits(m, rest),
    ensures
        deploy_run(m, rest).members == m.members,
        reports_members(deploy_run(m, rest)),
        !still_staging(deploy_run(m, rest).stage),
    decreases rest.len(),
{
    if rest.len() > 0 {
        longer_run(m, rest);
        rest_keeps_members(m, rest.drop_last());
        members_are_settled(deploy_run(m, rest.drop_last()), rest.last());
    } else {
        empty_run(m, rest);
    }
}

proof fn run_in_two_parts(
    m: DeployModel,
    a: Seq<DeployReplyModel>,
    b: Seq<DeployReplyModel>,
)
    ensures
        deploy_run(m, a + b) == deploy_run(deploy_run(m, a), b),
        deploy_fits(m, a + b) <==> deploy_fits(m, a) && deploy_fits(deploy_run(m, a), b),
    decreases b.len(),
{
    if b.len() == 0 {
        assert(a + b =~= a);
        empty_run(deploy_run(m, a), b);
    } else {
        longer_run(m, a + b);
        longer_run(deploy_run(m, a), b);
        assert((a + b).drop_last() =~= a + b.drop_last());
        assert((a + b).last() == b.last());
        run_in_two_parts(m, a, b.drop_last());
    }
}

#[verifier::spinoff_prover]
#[verifier::rlimit(40)]
proof fn staging_leads_to_target(m: DeployModel, reply: DeployReplyModel)
    requires
        deploy_sound(m),
        still_staging(m.stage),
        deploy_answers(deploy_request(m).op, reply),
    ensures
        ({
            let n = deploy_after(m, reply);
            still_staging(n.stage) || n.stage == DeployStage::Target || n.outcome is Refused
        }),
{
}

/// Somewhere in the run all that is staged is known.
pub open spec fn gets_through_staging(m: DeployModel, replies: Seq<DeployReplyModel>) -> bool {
    exists|k: int|
        0 <= k <= replies.len() && deploy_run(m, #[trigger] replies.take(k)).stage
            == DeployStage::Target
}

proof fn run_so_far(m: DeployModel, replies: Seq<DeployReplyModel>)
    requires
        still_staging(m.stage),
        deploy_sound(m),
        deploy_fits(m, replies),
    ensures
        still_staging(deploy_run(m, replies).stage) || gets_through_staging(m, replies)
            || deploy_run(m, replies).outcome is Refused,
    decreases replies.len(),
{
    if replies.len() > 0 {
        longer_run(m, replies);
        let before = replies.drop_last();
        let n = deploy_run(m, before);
        run_so_far(m, before);
        run_is_sound(m, before);
        if still_staging(n.stage) {
            staging_leads_to_target(n, replies.last());
            assert(replies.take(replies.len() as int) =~= replies);
        } else if gets_through_staging(m, before) {
            let k = choose|k: int|
                0 <= k <= before.len() && deploy_run(m, #[trigger] before.take(k)).stage
                    == DeployStage::Target;
            assert(replies.take(k) =~= before.take(k));
        }
    } else {
        empty_run(m, replies);
    }
}

pub proof fn finished_is_not_answered(m: DeployModel, replies: Seq<DeployReplyModel>)
    requires
        m.stage == DeployStage::Finished,
        deploy_fits(m, replies),
    ensures
        replies.len() == 0,
    decreases replies.len(),
{
    if replies.len() > 0 {
        longer_run(m, replies);
        finished_is_not_answered(m, replies.drop_last());
        empty_run(m, replies.drop_last());
    }
}

/// Every deployment that succeeds has got through all that is staged.
pub proof fn deployed_skills_were_staged(
    staging: Seq<char>,
    name: Seq<char>,
    force: bool,
    home: Seq<char>,
    replies: Seq<DeployReplyModel>,
)
    requires
        deploy_fits(fresh_deployment(staging, name, force, home), replies),
        deploy_run(fresh_deployment(staging, name, force, home), replies).outcome is Deployed,
    ensures
        gets_through_staging(fresh_deployment(staging, name, force, home), replies),
{
    let m = fresh_deployment(staging, name, force, home);
    fresh_deployment_is_sound(staging, name, force, home);
    if !still_staging(m.stage) {
        finished_is_not_answered(m, replies);
        empty_run(m, replies);
        assert(false);
    }
    run_so_far(m, replies);
    run_is_sound(m, replies);
}

/// A second deployment of what is staged, with nothing changed since the first succeeded,
/// changes nothing: whatever the first had to do, and whether or not the second may replace
/// the skill, the second writes nothing and reports the same place and as many files. Nothing
/// having changed, the second is told the same of what is staged, finds the skill installed,
/// and finds that the installed `SKILL.md` has the hash of the staged one.
pub proof fn second_deployment_changes_nothing(
    staging: Seq<char>,
    name: Seq<char>,
    first_force: bool,
    second_force: bool,
    home: Seq<char>,
    first: Seq<DeployReplyModel>,
    k: int,
    h: Seq<char>,
)
    requires
        deploy_fits(fresh_deployment(staging, name, first_force, home), first),
        deploy_run(fresh_deployment(staging, name, first_force, home), first).outcome is Deployed,
        0 <= k <= first.len(),
        deploy_run(fresh_deployment(staging, name, first_force, home), first.take(k)).stage
            == DeployStage::Target,
    ensures
        ({
            let r1 = deploy_run(
                fresh_deployment(staging, name, first_force, home),
                first,
            ).outcome->Deployed_0;
            let m = fresh_deployment(staging, name, second_force, home);
            let second = unchanged_answers(first.take(k), h);
            &&& deploy_fits(m, second)
            &&& writes_nothing(m, second)
            &&& deploy_run(m, second).stage == DeployStage::Finished
            &&& deploy_run(m, second).outcome matches DeployOutcomeModel::Deployed(r2)
                && r2.idempotent && r2.backup_dir is None && r2.target_dir == r1.target_dir
                && r2.file_count == r1.file_count
        }),
{
    let m1 = fresh_deployment(staging, name, first_force, home);
    let m2 = fresh_deployment(staging, name, second_force, home);
    let staged = first.take(k);
    let rest = first.skip(k);
    assert(staged + rest =~= first);
    run_in_two_parts(m1, staged, rest);
    fresh_deployment_is_sound(staging, name, first_force, home);
    run_is_sound(m1, staged);
    staging_run(m1, staged, second_force);
    assert(DeployModel { force: second_force, ..m1 } == m2);
    staging_keeps_names(m1, staged);
    staging_keeps_names(m1, first);
    rest_keeps_members(deploy_run(m1, staged), rest);
    installed_skill_is_left_alone(staging, name, second_force, home, staged, h);
}

// ------------------------------------------------------------------- what is copied

/// What was asked for was done.
pub open spec fn is_done(reply: DeployReplyModel) -> bool {
    reply matches DeployReplyModel::Done(r) && r is Ok
}

/// In the run, the file at `source` was copied to `to`.
pub open spec fn was_copied(
    m: DeployModel,
    replies: Seq<DeployReplyModel>,
    source: Seq<char>,
    to: Seq<char>,
) -> bool {
    exists|j: int|
        0 <= j < replies.len() && deploy_request(deploy_run(m, #[trigger] replies.take(j)))
            == (DeployRequestModel { op: DeployOp::Copy, path: source, to }) && is_done(replies[j])
}

/// In the run, the first `count` of the members that `n` knows were copied.
pub open spec fn were_copied(
    m: DeployModel,
    replies: Seq<DeployReplyModel>,
    n: DeployModel,
    count: int,
) -> bool {
    forall|i: int|
        0 <= i < count && i < n.members.len() ==> was_copied(
            m,
            replies,
            (#[trigger] n.members[i]).source,
            joined(target_path(n.home, n.name), n.members[i].relative),
        )
}

/// What has been copied so far.
spec fn copied_so_far(m: DeployModel, replies: Seq<DeployReplyModel>) -> bool {
    let n = deploy_run(m, replies);
    &&& n.stage == DeployStage::MakeParent || n.stage == DeployStage::CopyFile ==> were_copied(
        m,
        replies,
        n,
        n.next_member,
    )
    &&& n.outcome matches DeployOutcomeModel::Deployed(r) ==> !r.idempotent ==> were_copied(
        m,
        replies,
        n,
        n.members.len() as int,
    )
}

proof fn copies_stay(
    m: DeployModel,
    replies: Seq<DeployReplyModel>,
    source: Seq<char>,
    to: Seq<char>,
)
    requires
        replies.len() > 0,
        was_copied(m, replies.drop_last(), source, to),
    ensures
        was_copied(m, replies, source, to),
{
    let before = replies.drop_last();
    let j = choose|j: int|
        0 <= j < before.len() && deploy_request(deploy_run(m, #[trigger] before.take(j)))
            == (DeployRequestModel { op: DeployOp::Copy, path: source, to }) && is_done(before[j]);
    assert(replies.take(j) =~= before.take(j));
    assert(replies[j] == before[j]);
}

/// How a step bears on what is copied: the copy begins with the first member, goes on by one
/// where one was copied, and ends once all were.
#[verifier::spinoff_prover]
#[verifier::rlimit(60)]
proof fn copying_step(m: DeployModel, reply: DeployReplyModel)
    requires
        deploy_sound(m),
        deploy_answers(deploy_request(m).op, reply),
    ensures
        ({
            let n = deploy_after(m, reply);
            let copying = n.stage == DeployStage::MakeParent || n.stage == DeployStage::CopyFile;
            let deployed = n.outcome is Deployed && !n.outcome->Deployed_0.idempotent;
            let count = if copying {
                n.next_member
            } else {
                n.members.len() as int
            };
            copying || deployed ==> {
                &&& n.members == m.members
                &&& n.home == m.home
                &&& n.name == m.name
                &&& {
                    ||| m.stage == DeployStage::MakeTarget && count == 0
                    ||| m.stage == DeployStage::MakeParent && count == m.next_member
                    ||| {
                        &&& m.stage == DeployStage::CopyFile
                        &&& count == m.next_member + 1
                        &&& is_done(reply)
                        &&& deploy_request(m) == (DeployRequestModel {
                            op: DeployOp::Copy,
                            path: m.members[m.next_member].source,
                            to: joined(
                                target_path(m.home, m.name),
                                m.members[m.next_member].relative,
                            ),
                        })
                    }
                }
            }
        }),
{
}

proof fn copies_add_up(m: DeployModel, replies: Seq<DeployReplyModel>)
    requires
        still_staging(m.stage),
        deploy_sound(m),
        deploy_fits(m, replies),
    ensures
        copied_so_far(m, replies),
    decreases replies.len(),
{
    if replies.len() == 0 {
        empty_run(m, replies);
    } else {
        let before = replies.drop_last();
        longer_run(m, replies);
        copies_add_up(m, before);
        run_is_sound(m, before);
        let a = deploy_run(m, before);
        let n = deploy_run(m, replies);
        copying_step(a, replies.last());
        let copying = n.stage == DeployStage::MakeParent || n.stage == DeployStage::CopyFile;
        let deployed = n.outcome is Deployed && !n.outcome->Deployed_0.idempotent;
        let count = if copying {
            n.next_member
        } else {
            n.members.len() as int
        };
        if copying || deployed {
            assert forall|i: int| 0 <= i < count && i < n.members.len() implies was_copied(
                m,
                replies,
                (#[trigger] n.members[i]).source,
                joined(target_path(n.home, n.name), n.members[i].relative),
            ) by {
                let source = n.members[i].source;
                let to = joined(target_path(n.home, n.name), n.members[i].relative);
                if a.stage == DeployStage::CopyFile && i == a.next_member {
                    let j = replies.len() - 1;
                    assert(replies.take(j) =~= before);
                    assert(replies[j] == replies.last());
                } else {
                    assert(a.members[i] == n.members[i]);
                    assert(was_copied(m, before, source, to));
                    copies_stay(m, replies, source, to);
                }
            }
            assert(were_copied(m, replies, n, count));
        }
    }
}

/// A deployment that installs a skill has copied every member from where it is staged to its
/// place below the target: so what is installed is what was staged.
pub proof fn deployed_members_were_copied(
    staging: Seq<char>,
    name: Seq<char>,
    force: bool,
    home: Seq<char>,
    replies: Seq<DeployReplyModel>,
)
    requires
        deploy_fits(fresh_deployment(staging, name, force, home), replies),
    ensures
        ({
            let m = fresh_deployment(staging, name, force, home);
            let n = deploy_run(m, replies);
            n.outcome matches DeployOutcomeModel::Deployed(r) ==> !r.idempotent ==> r.file_count
                == n.members.len() && were_copied(m, replies, n, n.members.len() as int)
        }),
{
    let m = fresh_deployment(staging, name, force, home);
    let n = deploy_run(m, replies);
    fresh_deployment_is_sound(staging, name, force, home);
    if n.outcome is Deployed {
        deployed_skills_were_staged(staging, name, force, home, replies);
        if !still_staging(m.stage) {
            finished_is_not_answered(m, replies);
            empty_run(m, replies);
        } else {
            copies_add_up(m, replies);
            let k = choose|k: int|
                0 <= k <= replies.len() && deploy_run(m, #[trigger] replies.take(k)).stage
                    == DeployStage::Target;
            assert(replies.take(k) + replies.skip(k) =~= replies);
            run_in_two_parts(m, replies.take(k), replies.skip(k));
            run_is_sound(m, replies.take(k));
            rest_keeps_members(deploy_run(m, replies.take(k)), replies.skip(k));
        }
    }
}

} // verus!
