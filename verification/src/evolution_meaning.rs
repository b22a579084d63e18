//! What the `/evolution` command does, told by what is on disk, by what was asked of the
//! machine and by what it answered.
use crate::deploy_laws::{parts_less_irreflexive, parts_less_transitive};
use crate::deploy_task::path_less;
use crate::doctor_meaning::with_text_has;
use crate::evolution_backups::{
    all_backups_of, backups_of, deployed_names, is_backup_of, is_known, is_number, skill_of,
    InventoryModel, SkillEntryModel,
};
use crate::evolution_command::{
    companions, list_text, path_place, skill_lines, with_files, with_path, EvolutionVerb,
    ListedSkill, TreeModel,
};
use crate::evolution_task::{call_of, CallModel, EVOLUTION_USAGE};
use crate::paths::{joined, path_parts};
use crate::skill_deploy::valid_name;
use crate::text::decimal;
use crate::text_laws::stripping_undoes_adding;
use crate::text_order::{texts_in_order, with_text_in_order};
use crate::timestamp_laws::stamp_shape;
use vstd::prelude::*;

verus! {

// --------------------------------------------------------------------- the lists

/// A skill is deployed where its directory is one, is named for it and holds a `SKILL.md`.
pub open spec fn holds_skill(e: SkillEntryModel, name: Seq<char>) -> bool {
    e.is_dir && e.has_skill_md && e.dir_name == "user-"@ + name
}

/// The deployed skills are those with a directory of their own, each of them, in order.
pub proof fn every_deployed_skill_is_named(entries: Seq<SkillEntryModel>, name: Seq<char>)
    ensures
        deployed_names(entries).contains(name) <==> exists|i: int|
            0 <= i < entries.len() && holds_skill(#[trigger] entries[i], name),
        texts_in_order(deployed_names(entries)),
        deployed_names(entries).len() == entries.filter(
            |e: SkillEntryModel| skill_of(e) is Some,
        ).len(),
    decreases entries.len(),
{
    reveal(Seq::filter);
    if entries.len() > 0 {
        let rest = entries.drop_last();
        let e = entries.last();
        every_deployed_skill_is_named(rest, name);
        let before = deployed_names(rest);
        stripping_undoes_adding("user-"@, name, e.dir_name);
        match skill_of(e) {
            Some(t) => {
                with_text_has(before, t, name);
                with_text_in_order(before, t);
                assert(e.dir_name == "user-"@ + t);
            },
            None => {},
        }
        if exists|i: int| 0 <= i < rest.len() && holds_skill(#[trigger] rest[i], name) {
            let i = choose|i: int| 0 <= i < rest.len() && holds_skill(#[trigger] rest[i], name);
            assert(holds_skill(entries[i], name));
        }
        if holds_skill(e, name) {
            assert(holds_skill(entries[entries.len() - 1], name));
        }
        if exists|i: int| 0 <= i < entries.len() && holds_skill(#[trigger] entries[i], name) {
            let i = choose|i: int|
                0 <= i < entries.len() && holds_skill(#[trigger] entries[i], name);
            if i < rest.len() {
                assert(holds_skill(rest[i], name));
            }
        }
    }
}

/// The backups of a skill are those of its own that are on disk, each of them, in order.
pub proof fn every_backup_is_named(inv: InventoryModel, name: Seq<char>, dir: Seq<char>)
    ensures
        all_backups_of(inv, name).contains(dir) <==> inv.backups.contains(dir) && is_backup_of(
            inv,
            dir,
            name,
        ),
        texts_in_order(all_backups_of(inv, name)),
{
    backups_so_far(inv, name, dir, inv.backups.len() as int);
    assert(inv.backups.take(inv.backups.len() as int) =~= inv.backups);
}

proof fn backups_so_far(inv: InventoryModel, name: Seq<char>, dir: Seq<char>, n: int)
    requires
        0 <= n <= inv.backups.len(),
    ensures
        backups_of(inv, name, n).contains(dir) <==> inv.backups.take(n).contains(dir)
            && is_backup_of(inv, dir, name),
        texts_in_order(backups_of(inv, name, n)),
    decreases n,
{
    if n > 0 {
        backups_so_far(inv, name, dir, n - 1);
        let before = backups_of(inv, name, n - 1);
        let t = inv.backups[n - 1];
        let less = inv.backups.take(n - 1);
        assert(inv.backups.take(n) =~= less.push(t));
        assert(less.push(t).contains(dir) <==> less.contains(dir) || dir == t) by {
            assert(less.push(t)[n - 1] == t);
            if less.contains(dir) {
                assert(less.push(t)[less.index_of(dir)] == dir);
            }
            if less.push(t).contains(dir) && dir != t {
                assert(less[less.push(t).index_of(dir)] == dir);
            }
        }
        if is_backup_of(inv, t, name) {
            with_text_has(before, t, dir);
            with_text_in_order(before, t);
        }
    }
}

/// What is a backup of a skill is named so: a stamp, a dash and the name, and behind that
/// nothing, the word for a rollback, or a number after a tilde or, where no skill of that
/// name is known, after a dash.
pub proof fn backups_are_told_by_name(
    inv: InventoryModel,
    stamp: Seq<char>,
    name: Seq<char>,
    tail: Seq<char>,
)
    requires
        valid_name(name),
        stamp.len() == 15,
    ensures
        is_backup_of(inv, stamp + "-"@ + name + tail, name) <==> stamp_shape(stamp) && {
            ||| tail.len() == 0
            ||| tail == "-pre-rollback"@
            ||| exists|d: Seq<char>| tail == #[trigger] ("~"@ + d) && is_number(d)
            ||| exists|d: Seq<char>|
                tail == #[trigger] ("-"@ + d) && is_number(d) && !is_known(inv, name + "-"@ + d)
        },
{
    reveal_strlit("-");
    reveal_strlit("~");
    let dir = stamp + "-"@ + name + tail;
    assert(dir.take(15) =~= stamp);
    assert(dir[15] == '-');
    assert(dir.skip(16) =~= name + tail);
    stripping_undoes_adding(name, tail, name + tail);
    if tail.len() > 1 && tail[0] == '~' {
        assert(tail =~= "~"@ + tail.skip(1));
    }
    if tail.len() > 1 && tail[0] == '-' {
        assert(tail =~= "-"@ + tail.skip(1));
        assert(name + "-"@ + tail.skip(1) =~= name + tail);
    }
    if exists|d: Seq<char>| tail == #[trigger] ("~"@ + d) && is_number(d) {
        let d = choose|d: Seq<char>| tail == #[trigger] ("~"@ + d) && is_number(d);
        assert(tail.skip(1) =~= d);
    }
    if exists|d: Seq<char>|
        tail == #[trigger] ("-"@ + d) && is_number(d) && !is_known(inv, name + "-"@ + d) {
        let d = choose|d: Seq<char>|
            tail == #[trigger] ("-"@ + d) && is_number(d) && !is_known(inv, name + "-"@ + d);
        assert(tail.skip(1) =~= d);
        assert(name + "-"@ + d =~= name + tail);
    }
}

/// The line on a skill.
pub open spec fn skill_entry(s: ListedSkill) -> Seq<char> {
    "\n  "@ + s.name@ + "  ("@ + decimal(s.entries as nat) + " entries)  show: /evolution show "@
        + s.name@
}

proof fn skill_lines_are(skills: Seq<ListedSkill>, n: int)
    requires
        0 <= n <= skills.len(),
    ensures
        skill_lines(skills, n) == skills.take(n).map_values(|s: ListedSkill| skill_entry(s)).flatten(),
    decreases n,
{
    let f = |s: ListedSkill| skill_entry(s);
    let parts = skills.take(n).map_values(f);
    if n == 0 {
        assert(parts =~= Seq::empty());
        assert(parts.flatten() =~= Seq::<char>::empty());
    } else {
        skill_lines_are(skills, n - 1);
        let fewer = skills.take(n - 1).map_values(f);
        assert(parts =~= fewer.push(skill_entry(skills[n - 1])));
        fewer.lemma_flatten_push(skill_entry(skills[n - 1]));
    }
}

/// The list names every deployed skill, and says how many there are, how many are disabled
/// and how many backups are kept.
pub proof fn list_names_every_skill(skills: Seq<ListedSkill>, disabled: nat, backups: nat)
    ensures
        list_text(skills, disabled, backups) == (if skills.len() > 0 {
            "Deployed (skills/user-*): "@ + decimal(skills.len()) + skills.map_values(
                |s: ListedSkill| skill_entry(s),
            ).flatten()
        } else {
            "No evolved skills deployed (`skills/user-*` is empty)."@
        }) + "\nDisabled: "@ + decimal(disabled) + "  |  Backups kept: "@ + decimal(backups)
            + "\nUsage: /evolution show <name> | rollback <name> | disable <name> | enable <name>"@,
{
    skill_lines_are(skills, skills.len() as int);
    assert(skills.take(skills.len() as int) =~= skills);
}

// ----------------------------------------------------------------- the companions

/// The companions that an entry holds.
pub open spec fn entry_files(dir: Seq<char>, e: TreeModel) -> Seq<Seq<char>> {
    if e.name != "SKILL.md"@ && e.is_file {
        seq![joined(dir, e.name)]
    } else if e.name != "SKILL.md"@ && e.is_dir {
        e.files.map_values(|f: Seq<char>| joined(joined(dir, e.name), f))
    } else {
        Seq::empty()
    }
}

/// No path comes before one in front of it.
pub open spec fn paths_in_order(s: Seq<Seq<char>>) -> bool {
    forall|i: int, j: int| 0 <= i < j < s.len() ==> !path_less(#[trigger] s[j], #[trigger] s[i])
}

proof fn path_place_splits(s: Seq<Seq<char>>, p: Seq<char>)
    ensures
        path_place(s, p) <= s.len(),
        forall|i: int| 0 <= i < path_place(s, p) ==> !path_less(p, #[trigger] s[i]),
        path_place(s, p) < s.len() ==> path_less(p, s[path_place(s, p) as int]),
    decreases s.len(),
{
    if s.len() > 0 && !path_less(p, s[0]) {
        let rest = s.drop_first();
        path_place_splits(rest, p);
        assert forall|i: int| 0 <= i < path_place(s, p) implies !path_less(p, #[trigger] s[i]) by {
            if i > 0 {
                assert(s[i] == rest[i - 1]);
            }
        }
    }
}

proof fn with_path_has(s: Seq<Seq<char>>, p: Seq<char>)
    requires
        paths_in_order(s),
    ensures
        paths_in_order(with_path(s, p)),
        with_path(s, p).to_multiset() == s.to_multiset().insert(p),
{
    path_place_splits(s, p);
    let k = path_place(s, p) as int;
    vstd::seq_lib::to_multiset_insert(s, k, p);
    let w = with_path(s, p);
    assert forall|i: int, j: int| 0 <= i < j < w.len() implies !path_less(
        #[trigger] w[j],
        #[trigger] w[i],
    ) by {
        if j < k {
            assert(w[i] == s[i] && w[j] == s[j]);
        } else if j == k {
            assert(w[i] == s[i]);
        } else {
            assert(w[j] == s[j - 1]);
            if i > k {
                assert(w[i] == s[i - 1]);
            } else if i == k {
                // What stands at the place comes after `p`, and nothing behind it before it.
                if path_less(s[j - 1], p) {
                    parts_less_transitive(path_parts(s[j - 1]), path_parts(p), path_parts(s[k]));
                    if j - 1 == k {
                        parts_less_irreflexive(path_parts(s[k]));
                    }
                }
            } else {
                assert(w[i] == s[i]);
            }
        }
    }
}

proof fn files_are_put_in(s: Seq<Seq<char>>, dir: Seq<char>, files: Seq<Seq<char>>, n: int)
    requires
        paths_in_order(s),
        0 <= n <= files.len(),
    ensures
        paths_in_order(with_files(s, dir, files, n)),
        with_files(s, dir, files, n).to_multiset() == s.to_multiset().add(
            files.take(n).map_values(|f: Seq<char>| joined(dir, f)).to_multiset(),
        ),
    decreases n,
{
    let at = |f: Seq<char>| joined(dir, f);
    let those = files.take(n).map_values(at);
    if n == 0 {
        assert(those =~= Seq::empty());
        those.to_multiset_ensures();
        assert forall|x: Seq<char>| those.to_multiset().count(x) == 0 by {
            assert(!those.contains(x));
        }
        assert(s.to_multiset().add(those.to_multiset()) =~= s.to_multiset());
    } else {
        files_are_put_in(s, dir, files, n - 1);
        let before = with_files(s, dir, files, n - 1);
        let p = joined(dir, files[n - 1]);
        with_path_has(before, p);
        let fewer = files.take(n - 1).map_values(at);
        assert(those =~= fewer.push(p));
        fewer.to_multiset_ensures();
        assert(those.to_multiset() =~= fewer.to_multiset().insert(p));
        assert(s.to_multiset().add(fewer.to_multiset()).insert(p) =~= s.to_multiset().add(
            fewer.to_multiset().insert(p),
        ));
    }
}

/// The companions of a skill are the files in its directory but for its `SKILL.md`, and all
/// files one level below, in the order of their paths.
pub proof fn every_companion_is_listed(dir: Seq<char>, entries: Seq<TreeModel>)
    ensures
        companions(dir, entries, entries.len() as int).to_multiset() == entries.map_values(
            |e: TreeModel| entry_files(dir, e),
        ).flatten().to_multiset(),
        paths_in_order(companions(dir, entries, entries.len() as int)),
{
    companions_so_far(dir, entries, entries.len() as int);
    assert(entries.take(entries.len() as int) =~= entries);
}

#[verifier::spinoff_prover]
#[verifier::rlimit(60)]
proof fn companions_so_far(dir: Seq<char>, entries: Seq<TreeModel>, n: int)
    requires
        0 <= n <= entries.len(),
    ensures
        companions(dir, entries, n).to_multiset() == entries.take(n).map_values(
            |e: TreeModel| entry_files(dir, e),
        ).flatten().to_multiset(),
        paths_in_order(companions(dir, entries, n)),
    decreases n,
{
    let f = |e: TreeModel| entry_files(dir, e);
    let parts = entries.take(n).map_values(f);
    if n == 0 {
        assert(parts =~= Seq::empty());
        assert(parts.flatten() =~= Seq::<Seq<char>>::empty());
    } else {
        companions_so_far(dir, entries, n - 1);
        let before = companions(dir, entries, n - 1);
        let e = entries[n - 1];
        let here = entry_files(dir, e);
        let fewer = entries.take(n - 1).map_values(f);
        assert(parts =~= fewer.push(here));
        fewer.lemma_flatten_push(here);
        vstd::seq_lib::lemma_multiset_commutative(fewer.flatten(), here);
        let b = before.to_multiset();
        if e.name != "SKILL.md"@ && e.is_file {
            let p = joined(dir, e.name);
            with_path_has(before, p);
            let none = Seq::<Seq<char>>::empty();
            assert(here =~= none.push(p));
            none.to_multiset_ensures();
            assert(b.add(here.to_multiset()) =~= b.insert(p));
        } else if e.name != "SKILL.md"@ && e.is_dir {
            files_are_put_in(before, joined(dir, e.name), e.files, e.files.len() as int);
            assert(e.files.take(e.files.len() as int) =~= e.files);
        } else {
            assert(here =~= Seq::empty());
            here.to_multiset_ensures();
            assert forall|x: Seq<char>| here.to_multiset().count(x) == 0 by {
                assert(!here.contains(x));
            }
            assert(b.add(here.to_multiset()) =~= b);
        }
    }
}

// ------------------------------------------------------------------------ the call

/// Without arguments the skills are listed; a verb is carried out on the skill that is named
/// behind it, and refused where none is; anything else is unknown.
pub proof fn words_call_verbs(args: Seq<Seq<char>>, quote: Seq<char>, name: Seq<char>)
    ensures
        call_of(Seq::empty(), quote) == CallModel::List,
        args.len() > 0 && args[0] == "list"@ ==> call_of(args, quote) == CallModel::List,
        args.len() > 1 && args[1] == name ==> {
            &&& args[0] == "show"@ ==> call_of(args, quote) == CallModel::Do(
                EvolutionVerb::Show,
                name,
            )
            &&& args[0] == "rollback"@ ==> call_of(args, quote) == CallModel::Do(
                EvolutionVerb::Rollback,
                name,
            )
            &&& args[0] == "disable"@ ==> call_of(args, quote) == CallModel::Do(
                EvolutionVerb::Disable,
                name,
            )
            &&& args[0] == "enable"@ ==> call_of(args, quote) == CallModel::Do(
                EvolutionVerb::Enable,
                name,
            )
        },
        args.len() == 1 && (args[0] == "show"@ || args[0] == "rollback"@ || args[0] == "disable"@
            || args[0] == "enable"@) ==> call_of(args, quote) == CallModel::Error(
            "`/"@ + args[0] + "` requires a skill name. "@ + EVOLUTION_USAGE@,
        ),
        args.len() > 0 && args[0] != "list"@ && args[0] != "show"@ && args[0] != "rollback"@
            && args[0] != "disable"@ && args[0] != "enable"@ ==> call_of(args, quote)
            == CallModel::Error("unknown subcommand "@ + quote + ". "@ + EVOLUTION_USAGE@),
{
    reveal_strlit("list");
    reveal_strlit("show");
    reveal_strlit("rollback");
    reveal_strlit("disable");
    reveal_strlit("enable");
    assert("list"@[0] == 'l' && "show"@[0] == 's' && "rollback"@[0] == 'r' && "disable"@[0] == 'd'
        && "enable"@[0] == 'e');
}

/// A skill is known where it is in use or out of use.
pub proof fn skills_are_known(inv: InventoryModel, name: Seq<char>)
    ensures
        is_known(inv, name) <==> (exists|i: int|
            0 <= i < inv.skills.len() && holds_skill(#[trigger] inv.skills[i], name))
            || inv.disabled.contains(name),
{
    every_deployed_skill_is_named(inv.skills, name);
}

} // verus!
