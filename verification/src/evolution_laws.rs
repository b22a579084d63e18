//! What holds of every `/evolution` command, whatever the file system answers.
use crate::deploy_laws::{dirs_lie_inside, target_lies_inside};
use crate::deploy_task::backups_path;
use crate::evolution_backups::{all_backups_of, backups_of, is_backup_of, InventoryModel};
use crate::evolution_command::{
    disabled_place, disabled_root, evolution_after, evolution_answers, evolution_request,
    fresh_evolution, site_path, EvolutionModel, EvolutionOp, EvolutionReplyModel, EvolutionStage,
    EvolutionVerb, SITE_ATTEMPTS,
};
use crate::path_laws::{
    entry_lies_inside, is_entry, lies_inside, stamp_is_entry, valid_name_is_entry,
};
use crate::paths::joined;
use crate::skill_deploy::valid_name;
use crate::text::strip_prefix;
use crate::text_order::{text_place, text_place_bound, with_text};
use crate::timestamp::stamp_of;
use vstd::prelude::*;

verus! {

/// A backup of a skill is an entry.
proof fn backup_is_entry(inv: InventoryModel, dir: Seq<char>, name: Seq<char>)
    requires
        valid_name(name),
        is_backup_of(inv, dir, name),
    ensures
        is_entry(dir),
{
    reveal_strlit("-pre-rollback");
    let rest = dir.skip(16);
    let tail = strip_prefix(rest, name)->0;
    assert forall|i: int| 0 <= i < dir.len() implies (#[trigger] dir[i]) != '/' by {
        if i < 15 {
            assert(dir.take(15)[i] == dir[i]);
        } else if i >= 16 {
            assert(rest[i - 16] == dir[i]);
            if i - 16 < name.len() {
                assert(rest.subrange(0, name.len() as int)[i - 16] == name[i - 16]);
            } else {
                let k = i - 16 - name.len();
                assert(tail[k] == dir[i]);
                if k > 0 && tail != "-pre-rollback"@ {
                    assert(tail.skip(1)[k - 1] == tail[k]);
                }
            }
        }
    }
    assert(dir.take(15)[0] == dir[0]);
}

proof fn all_are_backups(inv: InventoryModel, name: Seq<char>, n: int)
    ensures
        forall|i: int|
            0 <= i < backups_of(inv, name, n).len() ==> is_backup_of(
                inv,
                #[trigger] backups_of(inv, name, n)[i],
                name,
            ),
    decreases n,
{
    if 0 < n <= inv.backups.len() {
        all_are_backups(inv, name, n - 1);
        let before = backups_of(inv, name, n - 1);
        let t = inv.backups[n - 1];
        if is_backup_of(inv, t, name) {
            text_place_bound(before, t);
            let at = text_place(before, t) as int;
            assert forall|i: int| 0 <= i < with_text(before, t).len() implies is_backup_of(
                inv,
                #[trigger] with_text(before, t)[i],
                name,
            ) by {
                if i < at {
                    assert(with_text(before, t)[i] == before[i]);
                } else if i > at {
                    assert(with_text(before, t)[i] == before[i - 1]);
                }
            }
        }
    }
}

// ------------------------------------------------------------------- every command

/// The command knows the backup that it restores.
pub open spec fn has_backup(stage: EvolutionStage) -> bool {
    stage == EvolutionStage::RollbackDeployed || stage == EvolutionStage::RollbackClock || stage
        == EvolutionStage::RollbackSite || stage == EvolutionStage::RollbackMoveAway || stage
        == EvolutionStage::RollbackRestore
}

/// What a command keeps at every stage.
pub open spec fn evolution_sound(m: EvolutionModel) -> bool {
    &&& m.stage != EvolutionStage::Finished ==> valid_name(m.name)
    &&& m.now >= 0
    &&& has_backup(m.stage) ==> lies_inside(m.latest, m.root)
    &&& m.stage == EvolutionStage::ShowSize || m.stage == EvolutionStage::ShowFile ==> m.files.len()
        > 0
}

/// A fresh command is sound.
pub proof fn fresh_evolution_is_sound(
    verb: EvolutionVerb,
    root: Seq<char>,
    name: Seq<char>,
    quote: Seq<char>,
)
    ensures
        evolution_sound(fresh_evolution(verb, root, name, quote)),
{
}

/// A sound command stays sound, whatever is answered.
#[verifier::spinoff_prover]
#[verifier::rlimit(60)]
pub proof fn evolution_stays_sound(m: EvolutionModel, reply: EvolutionReplyModel)
    requires
        evolution_sound(m),
        evolution_answers(evolution_request(m).op, reply),
    ensures
        evolution_sound(evolution_after(m, reply)),
        evolution_after(m, reply).root == m.root,
{
    if m.stage == EvolutionStage::RollbackBackups {
        if let EvolutionReplyModel::Inventory(inv) = reply {
            let backups = all_backups_of(inv, m.name);
            if backups.len() > 0 {
                all_are_backups(inv, m.name, inv.backups.len() as int);
                backup_is_entry(inv, backups.last(), m.name);
                dirs_lie_inside(m.root);
                entry_lies_inside(backups_path(m.root), backups.last(), m.root);
            }
        }
    }
}

/// Whatever a command changes lies inside its root: the directories that it makes, and
/// both ends of each move.
pub proof fn changes_stay_inside(m: EvolutionModel)
    requires
        evolution_sound(m),
    ensures
        evolution_request(m).op == EvolutionOp::CreateDirs ==> lies_inside(
            evolution_request(m).path,
            m.root,
        ),
        evolution_request(m).op == EvolutionOp::Rename ==> lies_inside(
            evolution_request(m).path,
            m.root,
        ) && lies_inside(evolution_request(m).to, m.root),
{
    if m.stage != EvolutionStage::Finished {
        reveal_strlit("-");
        reveal_strlit("-pre-rollback");
        reveal_strlit("disabled");
        dirs_lie_inside(m.root);
        target_lies_inside(m.root, m.name);
        valid_name_is_entry(m.name);
        stamp_is_entry(m.now);
        entry_lies_inside(joined(m.root, "evolution"@), "disabled"@, m.root);
        entry_lies_inside(disabled_root(m.root), m.name, m.root);
        entry_lies_inside(
            backups_path(m.root),
            stamp_of(m.now) + "-"@ + m.name + "-pre-rollback"@,
            m.root,
        );
        assert(disabled_place(m.root, m.name) == joined(disabled_root(m.root), m.name));
        assert(site_path(m.root, m.name, m.now) == joined(
            backups_path(m.root),
            stamp_of(m.now) + "-"@ + m.name + "-pre-rollback"@,
        ));
    }
}

/// How far a stage is from the end of the command.
pub open spec fn stage_left(stage: EvolutionStage) -> nat {
    match stage {
        EvolutionStage::ShowDeployed => 6,
        EvolutionStage::ShowDisabled => 5,
        EvolutionStage::ShowBackups => 4,
        EvolutionStage::ShowRead => 3,
        EvolutionStage::ShowList => 2,
        EvolutionStage::ShowSize | EvolutionStage::ShowFile => 1,
        EvolutionStage::RollbackDisabled => 7,
        EvolutionStage::RollbackBackups => 6,
        EvolutionStage::RollbackDeployed => 5,
        EvolutionStage::RollbackClock => 4,
        EvolutionStage::RollbackSite => 3,
        EvolutionStage::RollbackMoveAway => 2,
        EvolutionStage::RollbackRestore => 1,
        EvolutionStage::DisableDeployed | EvolutionStage::EnableDisabled => 4,
        EvolutionStage::DisableTarget | EvolutionStage::EnableTarget => 3,
        EvolutionStage::DisableMake | EvolutionStage::EnableMake => 2,
        EvolutionStage::DisableMove | EvolutionStage::EnableMove => 1,
        EvolutionStage::Finished => 0,
    }
}

/// How many more steps the companion files can take, or the search for a free place.
pub open spec fn rounds_left(m: EvolutionModel) -> int {
    match m.stage {
        EvolutionStage::ShowSize => (2 * m.files.len() + 1) as int,
        EvolutionStage::ShowFile => (2 * m.files.len()) as int,
        EvolutionStage::RollbackSite => if m.tried < SITE_ATTEMPTS {
            SITE_ATTEMPTS - m.tried
        } else {
            0
        },
        _ => 0,
    }
}

/// Every answer brings a command nearer to its end, so every command comes to one.
#[verifier::spinoff_prover]
#[verifier::rlimit(40)]
pub proof fn command_moves_on(m: EvolutionModel, reply: EvolutionReplyModel)
    requires
        evolution_sound(m),
        evolution_answers(evolution_request(m).op, reply),
    ensures
        ({
            let n = evolution_after(m, reply);
            decreases_to!(
                stage_left(m.stage), rounds_left(m) => stage_left(n.stage), rounds_left(n)
            )
        }),
{
}

} // verus!
