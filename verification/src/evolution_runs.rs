//! Whole rollbacks: how a second one takes back the first.
use crate::deploy_task::{backups_path, target_path};
use crate::evolution_backups::{
    all_backups_of, backup_name, backups_of, is_backup_of, is_known, rollback_site_is_a_backup,
    InventoryModel,
};
use crate::evolution_command::{
    evolution_after, evolution_answers, evolution_request, fresh_evolution, site_path,
    EvolutionModel, EvolutionOp, EvolutionReplyModel, EvolutionRequestModel, EvolutionStage,
    EvolutionVerb, SITE_ATTEMPTS,
};
use crate::paths::joined;
use crate::skill_deploy::valid_name;
use crate::text_order::{
    text_less, text_place, text_place_bound, texts_in_order, with_text, with_text_in_order,
};
use crate::timestamp::{every_moment_has_a_stamp, stamp_of};
use crate::timestamp_laws::{last_four_digit_second, less_stays, stamps_have_shape};
use vstd::prelude::*;

verus! {

/// The command `m` after a run of answers.
#[verifier::opaque]
pub open spec fn evolution_run(
    m: EvolutionModel,
    replies: Seq<EvolutionReplyModel>,
) -> EvolutionModel
    decreases replies.len(),
{
    if replies.len() == 0 {
        m
    } else {
        evolution_after(evolution_run(m, replies.drop_last()), replies.last())
    }
}

/// Each answer of the run is one to the request it was given for.
#[verifier::opaque]
pub open spec fn evolution_fits(m: EvolutionModel, replies: Seq<EvolutionReplyModel>) -> bool
    decreases replies.len(),
{
    replies.len() == 0 || (evolution_fits(m, replies.drop_last()) && evolution_answers(
        evolution_request(evolution_run(m, replies.drop_last())).op,
        replies.last(),
    ))
}

/// What the command asks for after the first `n` answers of the run.
pub open spec fn asked_after(
    m: EvolutionModel,
    replies: Seq<EvolutionReplyModel>,
    n: nat,
) -> EvolutionRequestModel {
    evolution_request(evolution_run(m, replies.take(n as int)))
}

/// The move of a directory.
pub open spec fn a_move(from: Seq<char>, to: Seq<char>) -> EvolutionRequestModel {
    EvolutionRequestModel { op: EvolutionOp::Rename, path: from, to }
}

/// The answers to a rollback of a skill that is deployed and not disabled, up to the search
/// for a free place: what is on disk, and the time.
pub open spec fn rollback_begins(inv: InventoryModel, seconds: u64) -> Seq<EvolutionReplyModel> {
    seq![
        EvolutionReplyModel::Flag(false),
        EvolutionReplyModel::Inventory(inv),
        EvolutionReplyModel::Flag(true),
        EvolutionReplyModel::Seconds(seconds),
    ]
}

/// So many places are taken.
pub open spec fn places_taken(taken: nat) -> Seq<EvolutionReplyModel> {
    Seq::new(taken, |i: int| EvolutionReplyModel::Flag(true))
}

/// The answers to a rollback that succeeds: the place behind the first `taken` is free, and
/// both moves are made.
pub open spec fn rollback_answers(inv: InventoryModel, seconds: u64, taken: nat) -> Seq<
    EvolutionReplyModel,
> {
    (rollback_begins(inv, seconds) + places_taken(taken)).push(
        EvolutionReplyModel::Flag(false),
    ).push(EvolutionReplyModel::Done(Ok(()))).push(EvolutionReplyModel::Done(Ok(())))
}

proof fn one_more(m: EvolutionModel, s: Seq<EvolutionReplyModel>, x: EvolutionReplyModel)
    ensures
        evolution_run(m, s.push(x)) == evolution_after(evolution_run(m, s), x),
        evolution_fits(m, s.push(x)) == (evolution_fits(m, s) && evolution_answers(
            evolution_request(evolution_run(m, s)).op,
            x,
        )),
{
    reveal(evolution_run);
    reveal(evolution_fits);
    assert(s.push(x).drop_last() =~= s);
}

/// The search for a free place, with the newest backup found.
spec fn searching(
    root: Seq<char>,
    name: Seq<char>,
    quote: Seq<char>,
    latest: Seq<char>,
    now: int,
    tried: int,
) -> EvolutionModel {
    EvolutionModel {
        stage: EvolutionStage::RollbackSite,
        latest,
        now,
        tried,
        ..fresh_evolution(EvolutionVerb::Rollback, root, name, quote)
    }
}

#[verifier::spinoff_prover]
#[verifier::rlimit(60)]
proof fn rollback_has_begun(
    root: Seq<char>,
    name: Seq<char>,
    quote: Seq<char>,
    inv: InventoryModel,
    seconds: u64,
)
    requires
        valid_name(name),
        all_backups_of(inv, name).len() > 0,
        seconds <= u64::MAX - SITE_ATTEMPTS,
    ensures
        ({
            let m = fresh_evolution(EvolutionVerb::Rollback, root, name, quote);
            let latest = joined(backups_path(root), all_backups_of(inv, name).last());
            &&& evolution_fits(m, rollback_begins(inv, seconds))
            &&& evolution_run(m, rollback_begins(inv, seconds)) == searching(
                root,
                name,
                quote,
                latest,
                seconds as int,
                0,
            )
        }),
{
    let m = fresh_evolution(EvolutionVerb::Rollback, root, name, quote);
    let none = Seq::<EvolutionReplyModel>::empty();
    let a = none.push(EvolutionReplyModel::Flag(false));
    let b = a.push(EvolutionReplyModel::Inventory(inv));
    let c = b.push(EvolutionReplyModel::Flag(true));
    let d = c.push(EvolutionReplyModel::Seconds(seconds));
    assert(evolution_run(m, none) == m && evolution_fits(m, none)) by {
        reveal(evolution_run);
        reveal(evolution_fits);
    }
    one_more(m, none, EvolutionReplyModel::Flag(false));
    one_more(m, a, EvolutionReplyModel::Inventory(inv));
    one_more(m, b, EvolutionReplyModel::Flag(true));
    one_more(m, c, EvolutionReplyModel::Seconds(seconds));
    assert(evolution_run(m, a).stage == EvolutionStage::RollbackBackups);
    assert(evolution_run(m, b).stage == EvolutionStage::RollbackDeployed);
    assert(evolution_run(m, c).stage == EvolutionStage::RollbackClock);
    assert(d =~= rollback_begins(inv, seconds));
}

#[verifier::spinoff_prover]
#[verifier::rlimit(60)]
proof fn search_goes_on(
    root: Seq<char>,
    name: Seq<char>,
    quote: Seq<char>,
    inv: InventoryModel,
    seconds: u64,
    taken: nat,
)
    requires
        valid_name(name),
        all_backups_of(inv, name).len() > 0,
        seconds <= u64::MAX - SITE_ATTEMPTS,
        taken < SITE_ATTEMPTS,
    ensures
        ({
            let m = fresh_evolution(EvolutionVerb::Rollback, root, name, quote);
            let latest = joined(backups_path(root), all_backups_of(inv, name).last());
            let s = rollback_begins(inv, seconds) + places_taken(taken);
            &&& evolution_fits(m, s)
            &&& evolution_run(m, s) == searching(root, name, quote, latest, seconds + taken, taken as int)
        }),
    decreases taken,
{
    let m = fresh_evolution(EvolutionVerb::Rollback, root, name, quote);
    let begins = rollback_begins(inv, seconds);
    if taken == 0 {
        rollback_has_begun(root, name, quote, inv, seconds);
        assert(begins + places_taken(0) =~= begins);
    } else {
        let fewer = (taken - 1) as nat;
        search_goes_on(root, name, quote, inv, seconds, fewer);
        let s = begins + places_taken(fewer);
        one_more(m, s, EvolutionReplyModel::Flag(true));
        assert(s.push(EvolutionReplyModel::Flag(true)) =~= begins + places_taken(taken));
    }
}

/// A rollback that is answered so makes two moves, of what is deployed to the free place and
/// of the newest backup to where skills are deployed, and says that it is done.
#[verifier::spinoff_prover]
#[verifier::rlimit(60)]
pub proof fn rollback_moves_twice(
    root: Seq<char>,
    name: Seq<char>,
    quote: Seq<char>,
    inv: InventoryModel,
    seconds: u64,
    taken: nat,
)
    requires
        valid_name(name),
        all_backups_of(inv, name).len() > 0,
        seconds <= u64::MAX - SITE_ATTEMPTS,
        taken < SITE_ATTEMPTS,
    ensures
        ({
            let m = fresh_evolution(EvolutionVerb::Rollback, root, name, quote);
            let replies = rollback_answers(inv, seconds, taken);
            &&& evolution_fits(m, replies)
            &&& asked_after(m, replies, taken + 5) == a_move(
                target_path(root, name),
                site_path(root, name, seconds + taken),
            )
            &&& asked_after(m, replies, taken + 6) == a_move(
                joined(backups_path(root), all_backups_of(inv, name).last()),
                target_path(root, name),
            )
            &&& evolution_run(m, replies).stage == EvolutionStage::Finished
            &&& evolution_run(m, replies).result is Message
        }),
{
    let m = fresh_evolution(EvolutionVerb::Rollback, root, name, quote);
    let s = rollback_begins(inv, seconds) + places_taken(taken);
    let a = s.push(EvolutionReplyModel::Flag(false));
    let b = a.push(EvolutionReplyModel::Done(Ok(())));
    let c = b.push(EvolutionReplyModel::Done(Ok(())));
    search_goes_on(root, name, quote, inv, seconds, taken);
    one_more(m, s, EvolutionReplyModel::Flag(false));
    one_more(m, a, EvolutionReplyModel::Done(Ok(())));
    one_more(m, b, EvolutionReplyModel::Done(Ok(())));
    assert(s.len() == taken + 4);
    assert(c.take((taken + 5) as int) =~= a);
    assert(c.take((taken + 6) as int) =~= b);
    assert(evolution_run(m, a).stage == EvolutionStage::RollbackMoveAway);
    assert(evolution_run(m, b).stage == EvolutionStage::RollbackRestore);
}

// ------------------------------------------------------------------ the newest backup

proof fn backups_are_sorted(inv: InventoryModel, name: Seq<char>, n: int)
    requires
        0 <= n <= inv.backups.len(),
    ensures
        texts_in_order(backups_of(inv, name, n)),
        forall|i: int|
            0 <= i < backups_of(inv, name, n).len() ==> inv.backups.contains(
                #[trigger] backups_of(inv, name, n)[i],
            ) && is_backup_of(inv, backups_of(inv, name, n)[i], name),
        forall|j: int|
            0 <= j < n && is_backup_of(inv, #[trigger] inv.backups[j], name) ==> backups_of(
                inv,
                name,
                n,
            ).contains(inv.backups[j]),
    decreases n,
{
    if n > 0 {
        backups_are_sorted(inv, name, n - 1);
        let before = backups_of(inv, name, n - 1);
        let t = inv.backups[n - 1];
        if is_backup_of(inv, t, name) {
            with_text_in_order(before, t);
            text_place_bound(before, t);
            let at = text_place(before, t) as int;
            let w = with_text(before, t);
            assert(w == backups_of(inv, name, n));
            assert forall|i: int| 0 <= i < w.len() implies inv.backups.contains(#[trigger] w[i])
                && is_backup_of(inv, w[i], name) by {
                if i < at {
                    assert(w[i] == before[i]);
                } else if i > at {
                    assert(w[i] == before[i - 1]);
                } else {
                    assert(w[i] == t);
                }
            }
            assert forall|j: int|
                0 <= j < n && is_backup_of(inv, #[trigger] inv.backups[j], name) implies w.contains(
                inv.backups[j],
            ) by {
                if j == n - 1 {
                    assert(w[at] == t);
                } else {
                    let k = before.index_of(inv.backups[j]);
                    assert(before.contains(inv.backups[j]));
                    if k < at {
                        assert(w[k] == before[k]);
                    } else {
                        assert(w[k + 1] == before[k]);
                    }
                }
            }
        }
    }
}

/// The backup whose name is the greatest of all is taken for the newest.
pub proof fn greatest_backup_is_newest(inv: InventoryModel, name: Seq<char>, leaf: Seq<char>)
    requires
        inv.backups.contains(leaf),
        is_backup_of(inv, leaf, name),
        forall|i: int|
            0 <= i < inv.backups.len() && is_backup_of(inv, #[trigger] inv.backups[i], name)
                && inv.backups[i] != leaf ==> text_less(inv.backups[i], leaf),
    ensures
        all_backups_of(inv, name).len() > 0,
        all_backups_of(inv, name).last() == leaf,
{
    backups_are_sorted(inv, name, inv.backups.len() as int);
    let all = all_backups_of(inv, name);
    let at = inv.backups.index_of(leaf);
    assert(inv.backups[at] == leaf);
    assert(all.contains(leaf));
    let k = all.index_of(leaf);
    let last = all[all.len() - 1];
    if last != leaf {
        let i = inv.backups.index_of(last);
        assert(inv.backups[i] == last);
        assert(!text_less(all[all.len() - 1], all[k]));
        assert(false);
    }
}

/// Every backup of the skill is of an earlier moment than `seconds`.
pub open spec fn backups_are_older(inv: InventoryModel, name: Seq<char>, seconds: int) -> bool {
    forall|i: int|
        0 <= i < inv.backups.len() && is_backup_of(inv, #[trigger] inv.backups[i], name)
            ==> text_less(inv.backups[i].take(15), stamp_of(seconds))
}

/// `after` is what is on disk once a rollback has put the skill aside at `site` and restored
/// `restored`: the same skills are known, and of the backups the one has gone and the
/// other has come.
pub open spec fn follows_rollback(
    before: InventoryModel,
    after: InventoryModel,
    site: Seq<char>,
    restored: Seq<char>,
) -> bool {
    &&& forall|n: Seq<char>| is_known(after, n) == #[trigger] is_known(before, n)
    &&& forall|d: Seq<char>| #[trigger]
        after.backups.contains(d) <==> d == site || (before.backups.contains(d) && d != restored)
}

/// A rollback can be taken back by a second one: the second restores what the first put
/// aside, from just the place where the first put it, and both say that they are done.
/// That holds in the same second too. The backups that were there before are of earlier
/// moments than the place to which the first puts the skill aside.
pub proof fn second_rollback_undoes_the_first(
    root: Seq<char>,
    name: Seq<char>,
    quote: Seq<char>,
    before: InventoryModel,
    first_seconds: u64,
    first_taken: nat,
    after: InventoryModel,
    second_seconds: u64,
    second_taken: nat,
)
    requires
        valid_name(name),
        all_backups_of(before, name).len() > 0,
        first_taken < SITE_ATTEMPTS,
        second_taken < SITE_ATTEMPTS,
        first_seconds + first_taken <= last_four_digit_second(),
        second_seconds <= u64::MAX - SITE_ATTEMPTS,
        backups_are_older(before, name, first_seconds + first_taken),
        follows_rollback(
            before,
            after,
            backup_name(stamp_of(first_seconds + first_taken), name, "-pre-rollback"@),
            all_backups_of(before, name).last(),
        ),
    ensures
        ({
            let m = fresh_evolution(EvolutionVerb::Rollback, root, name, quote);
            let first = rollback_answers(before, first_seconds, first_taken);
            let second = rollback_answers(after, second_seconds, second_taken);
            let deployed = target_path(root, name);
            let aside = site_path(root, name, first_seconds + first_taken);
            &&& evolution_fits(m, first)
            &&& evolution_fits(m, second)
            &&& evolution_run(m, first).result is Message
            &&& evolution_run(m, second).result is Message
            &&& asked_after(m, first, first_taken + 5) == a_move(deployed, aside)
            &&& asked_after(m, second, second_taken + 6) == a_move(aside, deployed)
        }),
{
    let now = first_seconds + first_taken;
    let stamp = stamp_of(now);
    let leaf = backup_name(stamp, name, "-pre-rollback"@);
    every_moment_has_a_stamp(now);
    stamps_have_shape(stamp, now);
    rollback_site_is_a_backup(after, now, stamp, name);
    assert(after.backups.contains(leaf));
    assert forall|i: int|
        0 <= i < after.backups.len() && is_backup_of(after, #[trigger] after.backups[i], name)
            && after.backups[i] != leaf implies text_less(after.backups[i], leaf) by {
        let d = after.backups[i];
        assert(after.backups.contains(d));
        assert(before.backups.contains(d));
        let j = before.backups.index_of(d);
        assert(before.backups[j] == d);
        same_backups(before, after, d, name);
        let behind = leaf.skip(15);
        assert(leaf.take(15) =~= stamp);
        assert(leaf =~= stamp + behind);
        assert(d =~= d.take(15) + d.skip(15));
        less_stays(d.take(15), stamp, d.skip(15), behind);
    }
    greatest_backup_is_newest(after, name, leaf);
    assert(site_path(root, name, now) == joined(backups_path(root), leaf));
    rollback_moves_twice(root, name, quote, before, first_seconds, first_taken);
    rollback_moves_twice(root, name, quote, after, second_seconds, second_taken);
}

proof fn same_backups(before: InventoryModel, after: InventoryModel, d: Seq<char>, name: Seq<char>)
    requires
        forall|n: Seq<char>| is_known(after, n) == #[trigger] is_known(before, n),
        is_backup_of(after, d, name),
    ensures
        is_backup_of(before, d, name),
        d.len() >= 17,
{
}

} // verus!
