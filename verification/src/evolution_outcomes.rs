//! What the `/evolution` command says it has done, and what was asked of the machine and
//! answered before it says so.
use crate::evolution_backups::{all_backups_of, InventoryModel};
use crate::evolution_command::{
    companions, evolution_after, evolution_answers, evolution_request, fresh_evolution,
    next_companion, seen_from, EvolutionModel, EvolutionOp, EvolutionReplyModel,
    EvolutionRequestModel, EvolutionResultModel, EvolutionStage, EvolutionVerb, TreeModel,
};
use crate::evolution_runs::{evolution_fits, evolution_run};
use crate::paths::joined;
use crate::skill_deploy::valid_name;
use crate::timestamp::stamp_of;
use vstd::prelude::*;

verus! {

/// This was asked, and this was the answer.
pub open spec fn said(
    h: Seq<(EvolutionRequestModel, EvolutionReplyModel)>,
    op: EvolutionOp,
    path: Seq<char>,
    reply: EvolutionReplyModel,
) -> bool {
    h.contains((EvolutionRequestModel { op, path, to: Seq::empty() }, reply))
}

/// A move was asked for, and this was the answer.
pub open spec fn move_said(
    h: Seq<(EvolutionRequestModel, EvolutionReplyModel)>,
    from: Seq<char>,
    to: Seq<char>,
    reply: EvolutionReplyModel,
) -> bool {
    h.contains((EvolutionRequestModel { op: EvolutionOp::Rename, path: from, to }, reply))
}

/// It was done.
pub open spec fn is_done(reply: EvolutionReplyModel) -> bool {
    reply matches EvolutionReplyModel::Done(r) && r is Ok
}

/// It failed, and this is why.
pub open spec fn failed_by(reply: EvolutionReplyModel, e: Seq<char>) -> bool {
    reply matches EvolutionReplyModel::Done(r) && r is Err && r->Err_0 == e
}

/// It was moved.
pub open spec fn moved_well(
    h: Seq<(EvolutionRequestModel, EvolutionReplyModel)>,
    from: Seq<char>,
    to: Seq<char>,
) -> bool {
    exists|r: EvolutionReplyModel| #[trigger] move_said(h, from, to, r) && is_done(r)
}

/// It could not be moved, and this is said of it.
pub open spec fn move_failed(
    h: Seq<(EvolutionRequestModel, EvolutionReplyModel)>,
    from: Seq<char>,
    to: Seq<char>,
    more: Seq<char>,
    text: Seq<char>,
) -> bool {
    exists|r: EvolutionReplyModel, e: Seq<char>| #[trigger]
        move_said(h, from, to, r) && #[trigger] failed_by(r, e) && text == "rename "@ + from
            + " -> "@ + to + " failed: "@ + e + more
}

/// A directory was to be made.
pub open spec fn made(
    h: Seq<(EvolutionRequestModel, EvolutionReplyModel)>,
    dir: Seq<char>,
) -> bool {
    exists|r: EvolutionReplyModel| #[trigger] said(h, EvolutionOp::CreateDirs, dir, r)
}

/// What was asked and answered on the way.
pub open spec fn conversation(m: EvolutionModel, replies: Seq<EvolutionReplyModel>) -> Seq<
    (EvolutionRequestModel, EvolutionReplyModel),
>
    decreases replies.len(),
{
    if replies.len() == 0 {
        Seq::empty()
    } else {
        conversation(m, replies.drop_last()).push(
            (evolution_request(evolution_run(m, replies.drop_last())), replies.last()),
        )
    }
}

// --------------------------------------------------------------------- the places

/// Where a skill in use lies.
pub open spec fn in_use(root: Seq<char>, name: Seq<char>) -> Seq<char> {
    joined(joined(root, "skills"@), "user-"@ + name)
}

/// Where a skill out of use lies.
pub open spec fn out_of_use(root: Seq<char>, name: Seq<char>) -> Seq<char> {
    joined(joined(joined(root, "evolution"@), "disabled"@), name)
}

/// Where the backup lies.
pub open spec fn backup_at(root: Seq<char>, leaf: Seq<char>) -> Seq<char> {
    joined(joined(joined(root, "evolution"@), "backups"@), leaf)
}

/// Where a rollback of this moment puts aside what it replaces.
pub open spec fn aside(root: Seq<char>, name: Seq<char>, seconds: int) -> Seq<char> {
    backup_at(root, stamp_of(seconds) + "-"@ + name + "-pre-rollback"@)
}

// ------------------------------------------------------------------------- showing

/// The newest backup is at `dir`.
pub open spec fn newest_at(
    root: Seq<char>,
    name: Seq<char>,
    h: Seq<(EvolutionRequestModel, EvolutionReplyModel)>,
    inv: InventoryModel,
    dir: Seq<char>,
) -> bool {
    &&& said(h, EvolutionOp::ReadInventory, root, EvolutionReplyModel::Inventory(inv))
    &&& all_backups_of(inv, name).len() > 0
    &&& dir == backup_at(root, all_backups_of(inv, name).last())
}

/// There is none.
pub open spec fn no_backup(
    root: Seq<char>,
    name: Seq<char>,
    h: Seq<(EvolutionRequestModel, EvolutionReplyModel)>,
    inv: InventoryModel,
) -> bool {
    &&& said(h, EvolutionOp::ReadInventory, root, EvolutionReplyModel::Inventory(inv))
    &&& all_backups_of(inv, name).len() == 0
}

/// Whether a `SKILL.md` was seen in the directory.
pub open spec fn md_seen(
    h: Seq<(EvolutionRequestModel, EvolutionReplyModel)>,
    dir: Seq<char>,
    there: bool,
) -> bool {
    said(h, EvolutionOp::IsFile, joined(dir, "SKILL.md"@), EvolutionReplyModel::Flag(there))
}

/// The skill that is shown lies at `dir`: in use before out of use before among the backups.
pub open spec fn found_at(
    root: Seq<char>,
    name: Seq<char>,
    h: Seq<(EvolutionRequestModel, EvolutionReplyModel)>,
    title: Seq<char>,
    dir: Seq<char>,
) -> bool {
    let here = "evolution skill: "@ + name;
    ||| md_seen(h, in_use(root, name), true) && dir == in_use(root, name) && title == here
        + " (deployed)"@
    ||| md_seen(h, in_use(root, name), false) && md_seen(h, out_of_use(root, name), true) && dir
        == out_of_use(root, name) && title == here + " (disabled)"@
    ||| md_seen(h, in_use(root, name), false) && md_seen(h, out_of_use(root, name), false) && title
        == here + " (backup only)"@ && exists|inv: InventoryModel| #[trigger]
        newest_at(root, name, h, inv, dir)
}

/// The file is no larger than a mebibyte, as far as is known.
pub open spec fn is_small(
    h: Seq<(EvolutionRequestModel, EvolutionReplyModel)>,
    file: Seq<char>,
) -> bool {
    exists|size: Option<u64>| #[trigger]
        said(h, EvolutionOp::FileSize, file, EvolutionReplyModel::Size(size)) && (size is None
            || size->0 <= 0x10_0000)
}

/// What is shown of a companion.
pub open spec fn piece(
    root: Seq<char>,
    h: Seq<(EvolutionRequestModel, EvolutionReplyModel)>,
    file: Seq<char>,
    p: Seq<char>,
) -> bool {
    ||| p == "\n\n[skipped: "@ + seen_from(root, file) + " exceeds 1MiB]"@ && exists|n: u64| #[trigger]
        said(h, EvolutionOp::FileSize, file, EvolutionReplyModel::Size(Some(n))) && n > 0x10_0000
    ||| is_small(h, file) && exists|t: Seq<char>| #[trigger]
        said(h, EvolutionOp::ReadText, file, EvolutionReplyModel::Text(Ok(t))) && p == "\n\n--- "@
            + seen_from(root, file) + " ---\n"@ + t
    ||| is_small(h, file) && p.len() == 0 && exists|e: Seq<char>| #[trigger]
        said(h, EvolutionOp::ReadText, file, EvolutionReplyModel::Text(Err(e)))
}

/// What is shown of companions, one by one.
pub open spec fn all_pieces(
    root: Seq<char>,
    h: Seq<(EvolutionRequestModel, EvolutionReplyModel)>,
    files: Seq<Seq<char>>,
    ps: Seq<Seq<char>>,
) -> bool {
    ps.len() <= files.len() && forall|i: int|
        0 <= i < ps.len() ==> piece(root, h, files[i], #[trigger] ps[i])
}

/// The content is the text of the skill with the pieces behind it.
pub open spec fn shown_from(
    root: Seq<char>,
    h: Seq<(EvolutionRequestModel, EvolutionReplyModel)>,
    dir: Seq<char>,
    text: Seq<char>,
    entries: Seq<TreeModel>,
    ps: Seq<Seq<char>>,
    content: Seq<char>,
) -> bool {
    &&& said(
        h,
        EvolutionOp::ReadText,
        joined(dir, "SKILL.md"@),
        EvolutionReplyModel::Text(Ok(text)),
    )
    &&& said(h, EvolutionOp::ListTree, dir, EvolutionReplyModel::Tree(entries))
    &&& all_pieces(root, h, companions(dir, entries, entries.len() as int), ps)
    &&& content == text + ps.flatten()
}

/// What is shown of a skill: its text, and then each of its companions.
pub open spec fn shown_whole(
    root: Seq<char>,
    h: Seq<(EvolutionRequestModel, EvolutionReplyModel)>,
    dir: Seq<char>,
    text: Seq<char>,
    entries: Seq<TreeModel>,
    ps: Seq<Seq<char>>,
    content: Seq<char>,
) -> bool {
    shown_from(root, h, dir, text, entries, ps, content) && ps.len() == companions(
        dir,
        entries,
        entries.len() as int,
    ).len()
}

/// The document shows the skill at `dir`.
pub open spec fn shown_at(
    root: Seq<char>,
    name: Seq<char>,
    h: Seq<(EvolutionRequestModel, EvolutionReplyModel)>,
    title: Seq<char>,
    content: Seq<char>,
    dir: Seq<char>,
) -> bool {
    found_at(root, name, h, title, dir) && exists|
        text: Seq<char>,
        entries: Seq<TreeModel>,
        ps: Seq<Seq<char>>,
    | #[trigger] shown_whole(root, h, dir, text, entries, ps, content)
}

/// Why a skill cannot be shown.
pub open spec fn not_shown(
    root: Seq<char>,
    name: Seq<char>,
    quote: Seq<char>,
    h: Seq<(EvolutionRequestModel, EvolutionReplyModel)>,
    text: Seq<char>,
) -> bool {
    ||| md_seen(h, in_use(root, name), false) && md_seen(h, out_of_use(root, name), false) && text
        == "no deployed, disabled, or backed-up skill named "@ + quote && exists|
        inv: InventoryModel,
    | #[trigger] no_backup(root, name, h, inv)
    ||| exists|title: Seq<char>, dir: Seq<char>| #[trigger]
        found_at(root, name, h, title, dir) && unreadable(h, dir, text)
}

/// The text of the skill could not be read.
pub open spec fn unreadable(
    h: Seq<(EvolutionRequestModel, EvolutionReplyModel)>,
    dir: Seq<char>,
    text: Seq<char>,
) -> bool {
    let md = joined(dir, "SKILL.md"@);
    exists|e: Seq<char>| #[trigger]
        said(h, EvolutionOp::ReadText, md, EvolutionReplyModel::Text(Err(e))) && text == "read "@
            + md + ": "@ + e
}

// -------------------------------------------------------------------- rolling back

/// Whether something was seen at the place.
pub open spec fn seen(
    h: Seq<(EvolutionRequestModel, EvolutionReplyModel)>,
    op: EvolutionOp,
    path: Seq<char>,
    there: bool,
) -> bool {
    said(h, op, path, EvolutionReplyModel::Flag(there))
}

/// The skill in use is to go aside; the first `tried` places from the moment on are taken.
pub open spec fn aside_tried(
    root: Seq<char>,
    name: Seq<char>,
    h: Seq<(EvolutionRequestModel, EvolutionReplyModel)>,
    seconds: u64,
    tried: int,
) -> bool {
    &&& seen(h, EvolutionOp::IsDir, in_use(root, name), true)
    &&& said(h, EvolutionOp::Clock, Seq::empty(), EvolutionReplyModel::Seconds(seconds))
    &&& forall|i: int|
        0 <= i < tried ==> seen(h, EvolutionOp::Exists, #[trigger] aside(root, name, seconds + i), true)
}

/// The skill in use went aside to the first place that is free.
pub open spec fn put_aside(
    root: Seq<char>,
    name: Seq<char>,
    h: Seq<(EvolutionRequestModel, EvolutionReplyModel)>,
    seconds: u64,
    tried: int,
) -> bool {
    &&& 0 <= tried < 8
    &&& aside_tried(root, name, h, seconds, tried)
    &&& seen(h, EvolutionOp::Exists, aside(root, name, seconds + tried), false)
    &&& moved_well(h, in_use(root, name), aside(root, name, seconds + tried))
}

/// The newest backup came back: to where nothing was, or where what was went aside.
pub open spec fn brought_back(
    root: Seq<char>,
    name: Seq<char>,
    h: Seq<(EvolutionRequestModel, EvolutionReplyModel)>,
    text: Seq<char>,
    inv: InventoryModel,
    latest: Seq<char>,
) -> bool {
    &&& seen(h, EvolutionOp::IsDir, out_of_use(root, name), false)
    &&& newest_at(root, name, h, inv, latest)
    &&& moved_well(h, latest, in_use(root, name))
    &&& {
        ||| seen(h, EvolutionOp::IsDir, in_use(root, name), false) && text == "[ok] rolled back `"@
            + name + "`\n"@ + "restored from "@ + latest
        ||| exists|seconds: u64, tried: int| #[trigger]
            put_aside(root, name, h, seconds, tried) && text == "[ok] rolled back `"@ + name + "`\n"@
                + "previous state preserved at "@ + aside(root, name, seconds + tried) + "\n"@
                + "restored from "@ + latest
    }
}

/// Why there was no rollback.
pub open spec fn not_rolled_back(
    root: Seq<char>,
    name: Seq<char>,
    quote: Seq<char>,
    h: Seq<(EvolutionRequestModel, EvolutionReplyModel)>,
    text: Seq<char>,
) -> bool {
    ||| seen(h, EvolutionOp::IsDir, out_of_use(root, name), true) && text == quote
        + " is disabled — use `/evolution enable "@ + name + "` first"@
    ||| text == "no backups found for "@ + quote + "; nothing to roll back"@ && exists|
        inv: InventoryModel,
    | #[trigger] no_backup(root, name, h, inv)
    ||| text == "could not allocate a pre-rollback site (clock collision); retry in a second"@
        && exists|seconds: u64| #[trigger] aside_tried(root, name, h, seconds, 8)
    ||| exists|to: Seq<char>| #[trigger]
        move_failed(h, in_use(root, name), to, Seq::empty(), text)
    ||| exists|inv: InventoryModel, latest: Seq<char>| #[trigger]
        newest_at(root, name, h, inv, latest) && move_failed(
            h,
            latest,
            in_use(root, name),
            "\n(the preserved pre-rollback state is still in backups/)"@,
            text,
        )
}

// ----------------------------------------------------------------------- the outcome

/// The document shows the skill.
pub open spec fn is_shown(
    root: Seq<char>,
    name: Seq<char>,
    h: Seq<(EvolutionRequestModel, EvolutionReplyModel)>,
    title: Seq<char>,
    content: Seq<char>,
) -> bool {
    exists|dir: Seq<char>| #[trigger] shown_at(root, name, h, title, content, dir)
}

/// The skill was rolled back, and this is said of it.
pub open spec fn is_rolled_back(
    root: Seq<char>,
    name: Seq<char>,
    h: Seq<(EvolutionRequestModel, EvolutionReplyModel)>,
    text: Seq<char>,
) -> bool {
    exists|inv: InventoryModel, latest: Seq<char>| #[trigger]
        brought_back(root, name, h, text, inv, latest)
}

/// The command ended rightly.
pub open spec fn ended_rightly(
    verb: EvolutionVerb,
    root: Seq<char>,
    name: Seq<char>,
    quote: Seq<char>,
    h: Seq<(EvolutionRequestModel, EvolutionReplyModel)>,
    result: EvolutionResultModel,
) -> bool {
    let used = in_use(root, name);
    let unused = out_of_use(root, name);
    match (verb, result) {
        (_, EvolutionResultModel::Pending) => false,
        (EvolutionVerb::Show, EvolutionResultModel::Document { title, content }) => is_shown(
            root,
            name,
            h,
            title,
            content,
        ),
        (_, EvolutionResultModel::Document { title, content }) => false,
        (EvolutionVerb::Show, EvolutionResultModel::Message(_)) => false,
        (EvolutionVerb::Show, EvolutionResultModel::Error(text)) => not_shown(
            root,
            name,
            quote,
            h,
            text,
        ),
        (EvolutionVerb::Rollback, EvolutionResultModel::Message(text)) => is_rolled_back(
            root,
            name,
            h,
            text,
        ),
        (EvolutionVerb::Rollback, EvolutionResultModel::Error(text)) => not_rolled_back(
            root,
            name,
            quote,
            h,
            text,
        ),
        (EvolutionVerb::Disable, EvolutionResultModel::Message(text)) => {
            &&& seen(h, EvolutionOp::IsDir, used, true)
            &&& seen(h, EvolutionOp::Exists, unused, false)
            &&& made(h, joined(joined(root, "evolution"@), "disabled"@))
            &&& moved_well(h, used, unused)
            &&& text == "[ok] disabled `"@ + name + "` (moved to "@ + unused
                + ")\nre-enable with `/evolution enable "@ + name + "`"@
        },
        (EvolutionVerb::Disable, EvolutionResultModel::Error(text)) => {
            ||| seen(h, EvolutionOp::IsDir, used, false) && text == "no deployed skill "@ + quote
                + " (nothing to disable)"@
            ||| seen(h, EvolutionOp::Exists, unused, true) && text == "disabled copy of "@ + quote
                + " already exists at "@ + unused
            ||| move_failed(h, used, unused, Seq::empty(), text)
        },
        (EvolutionVerb::Enable, EvolutionResultModel::Message(text)) => {
            &&& seen(h, EvolutionOp::IsDir, unused, true)
            &&& seen(h, EvolutionOp::Exists, used, false)
            &&& made(h, joined(root, "skills"@))
            &&& moved_well(h, unused, used)
            &&& text == "[ok] enabled `"@ + name + "` (back in skills/user-"@ + name + ")"@
        },
        (EvolutionVerb::Enable, EvolutionResultModel::Error(text)) => {
            ||| seen(h, EvolutionOp::IsDir, unused, false) && text == "no disabled skill named "@
                + quote
            ||| seen(h, EvolutionOp::Exists, used, true) && text == "target "@ + used
                + " already exists"@
            ||| move_failed(h, unused, used, Seq::empty(), text)
        },
    }
}

// --------------------------------------------------------------------- on the way

/// The stages of a verb.
spec fn verb_has(verb: EvolutionVerb, stage: EvolutionStage) -> bool {
    match stage {
        EvolutionStage::ShowDeployed
        | EvolutionStage::ShowDisabled
        | EvolutionStage::ShowBackups
        | EvolutionStage::ShowRead
        | EvolutionStage::ShowList
        | EvolutionStage::ShowSize
        | EvolutionStage::ShowFile => verb == EvolutionVerb::Show,
        EvolutionStage::RollbackDisabled
        | EvolutionStage::RollbackBackups
        | EvolutionStage::RollbackDeployed
        | EvolutionStage::RollbackClock
        | EvolutionStage::RollbackSite
        | EvolutionStage::RollbackMoveAway
        | EvolutionStage::RollbackRestore => verb == EvolutionVerb::Rollback,
        EvolutionStage::DisableDeployed
        | EvolutionStage::DisableTarget
        | EvolutionStage::DisableMake
        | EvolutionStage::DisableMove => verb == EvolutionVerb::Disable,
        EvolutionStage::EnableDisabled
        | EvolutionStage::EnableTarget
        | EvolutionStage::EnableMake
        | EvolutionStage::EnableMove => verb == EvolutionVerb::Enable,
        EvolutionStage::Finished => true,
    }
}

spec fn companions_at(
    m: EvolutionModel,
    h: Seq<(EvolutionRequestModel, EvolutionReplyModel)>,
    text: Seq<char>,
    entries: Seq<TreeModel>,
    ps: Seq<Seq<char>>,
) -> bool {
    let all = companions(m.skill_dir, entries, entries.len() as int);
    &&& shown_from(m.root, h, m.skill_dir, text, entries, ps, m.content)
    &&& ps.len() < all.len()
    &&& m.files == all.skip(ps.len() as int)
}

spec fn showing(m: EvolutionModel, h: Seq<(EvolutionRequestModel, EvolutionReplyModel)>) -> bool {
    let used = in_use(m.root, m.name);
    let unused = out_of_use(m.root, m.name);
    match m.stage {
        EvolutionStage::ShowDisabled => md_seen(h, used, false),
        EvolutionStage::ShowBackups => md_seen(h, used, false) && md_seen(h, unused, false),
        EvolutionStage::ShowRead => found_at(m.root, m.name, h, m.title, m.skill_dir),
        EvolutionStage::ShowList => {
            &&& found_at(m.root, m.name, h, m.title, m.skill_dir)
            &&& said(
                h,
                EvolutionOp::ReadText,
                joined(m.skill_dir, "SKILL.md"@),
                EvolutionReplyModel::Text(Ok(m.content)),
            )
        },
        EvolutionStage::ShowSize | EvolutionStage::ShowFile => {
            &&& found_at(m.root, m.name, h, m.title, m.skill_dir)
            &&& exists|text: Seq<char>, entries: Seq<TreeModel>, ps: Seq<Seq<char>>| #[trigger]
                companions_at(m, h, text, entries, ps)
            &&& m.stage == EvolutionStage::ShowFile ==> is_small(h, m.files[0])
        },
        _ => true,
    }
}

spec fn is_ready(m: EvolutionModel, h: Seq<(EvolutionRequestModel, EvolutionReplyModel)>) -> bool {
    if m.moved {
        exists|seconds: u64, tried: int| #[trigger]
            put_aside(m.root, m.name, h, seconds, tried) && m.now == seconds + tried
    } else {
        seen(h, EvolutionOp::IsDir, in_use(m.root, m.name), false)
    }
}

spec fn is_trying(
    m: EvolutionModel,
    h: Seq<(EvolutionRequestModel, EvolutionReplyModel)>,
    seconds: u64,
) -> bool {
    &&& 0 <= m.tried < 8
    &&& aside_tried(m.root, m.name, h, seconds, m.tried)
    &&& m.now == seconds + m.tried
}

spec fn rolling(m: EvolutionModel, h: Seq<(EvolutionRequestModel, EvolutionReplyModel)>) -> bool {
    let used = in_use(m.root, m.name);
    let unused = out_of_use(m.root, m.name);
    let late = m.stage == EvolutionStage::RollbackDeployed || m.stage
        == EvolutionStage::RollbackClock || m.stage == EvolutionStage::RollbackSite || m.stage
        == EvolutionStage::RollbackMoveAway || m.stage == EvolutionStage::RollbackRestore;
    &&& m.stage == EvolutionStage::RollbackBackups || late ==> seen(
        h,
        EvolutionOp::IsDir,
        unused,
        false,
    )
    &&& late ==> exists|inv: InventoryModel| #[trigger] newest_at(m.root, m.name, h, inv, m.latest)
    &&& m.stage == EvolutionStage::RollbackClock ==> seen(h, EvolutionOp::IsDir, used, true)
    &&& m.stage == EvolutionStage::RollbackSite || m.stage == EvolutionStage::RollbackMoveAway
        ==> exists|seconds: u64| #[trigger] is_trying(m, h, seconds)
    &&& m.stage == EvolutionStage::RollbackMoveAway ==> seen(
        h,
        EvolutionOp::Exists,
        aside(m.root, m.name, m.now),
        false,
    )
    &&& m.stage == EvolutionStage::RollbackRestore ==> is_ready(m, h)
    &&& m.stage != EvolutionStage::RollbackRestore && m.stage != EvolutionStage::Finished
        ==> !m.moved
}

spec fn switching(m: EvolutionModel, h: Seq<(EvolutionRequestModel, EvolutionReplyModel)>) -> bool {
    let used = in_use(m.root, m.name);
    let unused = out_of_use(m.root, m.name);
    let s = m.stage;
    &&& s == EvolutionStage::DisableTarget || s == EvolutionStage::DisableMake || s
        == EvolutionStage::DisableMove ==> seen(h, EvolutionOp::IsDir, used, true)
    &&& s == EvolutionStage::DisableMake || s == EvolutionStage::DisableMove ==> seen(
        h,
        EvolutionOp::Exists,
        unused,
        false,
    )
    &&& s == EvolutionStage::DisableMove ==> made(
        h,
        joined(joined(m.root, "evolution"@), "disabled"@),
    )
    &&& s == EvolutionStage::EnableTarget || s == EvolutionStage::EnableMake || s
        == EvolutionStage::EnableMove ==> seen(h, EvolutionOp::IsDir, unused, true)
    &&& s == EvolutionStage::EnableMake || s == EvolutionStage::EnableMove ==> seen(
        h,
        EvolutionOp::Exists,
        used,
        false,
    )
    &&& s == EvolutionStage::EnableMove ==> made(h, joined(m.root, "skills"@))
}

spec fn on_the_way(
    verb: EvolutionVerb,
    m: EvolutionModel,
    h: Seq<(EvolutionRequestModel, EvolutionReplyModel)>,
) -> bool {
    &&& verb_has(verb, m.stage)
    &&& if m.stage == EvolutionStage::Finished {
        ended_rightly(verb, m.root, m.name, m.quote, h, m.result)
    } else {
        showing(m, h) && rolling(m, h) && switching(m, h)
    }
}

/// What was asked and answered stays so.
proof fn said_stays(
    h: Seq<(EvolutionRequestModel, EvolutionReplyModel)>,
    q: EvolutionRequestModel,
    reply: EvolutionReplyModel,
)
    ensures
        q.to.len() == 0 ==> said(h.push((q, reply)), q.op, q.path, reply),
        q.op == EvolutionOp::Rename ==> move_said(h.push((q, reply)), q.path, q.to, reply),
        forall|op: EvolutionOp, path: Seq<char>, r: EvolutionReplyModel| #[trigger]
            said(h, op, path, r) ==> said(h.push((q, reply)), op, path, r),
        forall|from: Seq<char>, to: Seq<char>, r: EvolutionReplyModel| #[trigger]
            move_said(h, from, to, r) ==> move_said(h.push((q, reply)), from, to, r),
        forall|from: Seq<char>, to: Seq<char>| #[trigger]
            moved_well(h, from, to) ==> moved_well(h.push((q, reply)), from, to),
        forall|dir: Seq<char>| #[trigger] made(h, dir) ==> made(h.push((q, reply)), dir),
{
    let g = h.push((q, reply));
    assert(g[h.len() as int] == (q, reply));
    if q.to.len() == 0 {
        assert(q.to =~= Seq::empty());
        assert(q == EvolutionRequestModel { op: q.op, path: q.path, to: Seq::empty() });
    }
    if q.op == EvolutionOp::Rename {
        assert(q == EvolutionRequestModel { op: EvolutionOp::Rename, path: q.path, to: q.to });
    }
    assert forall|x: (EvolutionRequestModel, EvolutionReplyModel)|
        h.contains(x) implies #[trigger] g.contains(x) by {
        assert(g[h.index_of(x)] == x);
    }
    assert forall|from: Seq<char>, to: Seq<char>| #[trigger] moved_well(h, from, to) implies
        moved_well(g, from, to) by {
        let r = choose|r: EvolutionReplyModel| #[trigger] move_said(h, from, to, r) && is_done(r);
        assert(move_said(g, from, to, r));
    }
    assert forall|dir: Seq<char>| #[trigger] made(h, dir) implies made(g, dir) by {
        let r = choose|r: EvolutionReplyModel| #[trigger] said(h, EvolutionOp::CreateDirs, dir, r);
        assert(said(g, EvolutionOp::CreateDirs, dir, r));
    }
}

proof fn found_stays(
    h: Seq<(EvolutionRequestModel, EvolutionReplyModel)>,
    q: EvolutionRequestModel,
    reply: EvolutionReplyModel,
    root: Seq<char>,
    name: Seq<char>,
)
    ensures
        forall|title: Seq<char>, dir: Seq<char>| #[trigger]
            found_at(root, name, h, title, dir) ==> found_at(
                root,
                name,
                h.push((q, reply)),
                title,
                dir,
            ),
        forall|inv: InventoryModel, dir: Seq<char>| #[trigger]
            newest_at(root, name, h, inv, dir) ==> newest_at(
                root,
                name,
                h.push((q, reply)),
                inv,
                dir,
            ),
        forall|file: Seq<char>| #[trigger]
            is_small(h, file) ==> is_small(h.push((q, reply)), file),
        forall|file: Seq<char>, p: Seq<char>| #[trigger]
            piece(root, h, file, p) ==> piece(root, h.push((q, reply)), file, p),
{
    said_stays(h, q, reply);
    let g = h.push((q, reply));
    assert forall|title: Seq<char>, dir: Seq<char>| #[trigger]
        found_at(root, name, h, title, dir) implies found_at(root, name, g, title, dir) by {
        if exists|inv: InventoryModel| #[trigger] newest_at(root, name, h, inv, dir) {
            let inv = choose|inv: InventoryModel| #[trigger] newest_at(root, name, h, inv, dir);
            assert(newest_at(root, name, g, inv, dir));
        }
    }
    assert forall|file: Seq<char>| #[trigger] is_small(h, file) implies is_small(g, file) by {
        let size = choose|size: Option<u64>| #[trigger]
            said(h, EvolutionOp::FileSize, file, EvolutionReplyModel::Size(size)) && (size is None
                || size->0 <= 0x10_0000);
        assert(said(g, EvolutionOp::FileSize, file, EvolutionReplyModel::Size(size)));
    }
    assert forall|file: Seq<char>, p: Seq<char>| #[trigger] piece(root, h, file, p) implies piece(
        root,
        g,
        file,
        p,
    ) by {
        if exists|n: u64| #[trigger]
            said(h, EvolutionOp::FileSize, file, EvolutionReplyModel::Size(Some(n))) && n > 0x10_0000 {
            let n = choose|n: u64| #[trigger]
                said(h, EvolutionOp::FileSize, file, EvolutionReplyModel::Size(Some(n))) && n
                    > 0x10_0000;
            assert(said(g, EvolutionOp::FileSize, file, EvolutionReplyModel::Size(Some(n))));
        }
        if exists|t: Seq<char>| #[trigger]
            said(h, EvolutionOp::ReadText, file, EvolutionReplyModel::Text(Ok(t))) && p
                == "\n\n--- "@ + seen_from(root, file) + " ---\n"@ + t {
            let t = choose|t: Seq<char>| #[trigger]
                said(h, EvolutionOp::ReadText, file, EvolutionReplyModel::Text(Ok(t))) && p
                    == "\n\n--- "@ + seen_from(root, file) + " ---\n"@ + t;
            assert(said(g, EvolutionOp::ReadText, file, EvolutionReplyModel::Text(Ok(t))));
        }
        if exists|e: Seq<char>| #[trigger]
            said(h, EvolutionOp::ReadText, file, EvolutionReplyModel::Text(Err(e))) {
            let e = choose|e: Seq<char>| #[trigger]
                said(h, EvolutionOp::ReadText, file, EvolutionReplyModel::Text(Err(e)));
            assert(said(g, EvolutionOp::ReadText, file, EvolutionReplyModel::Text(Err(e))));
        }
    }
}

/// One companion more is shown: on to the next.
proof fn companion_ends(
    m: EvolutionModel,
    g: Seq<(EvolutionRequestModel, EvolutionReplyModel)>,
    text: Seq<char>,
    entries: Seq<TreeModel>,
    ps: Seq<Seq<char>>,
)
    requires
        found_at(m.root, m.name, g, m.title, m.skill_dir),
        shown_from(m.root, g, m.skill_dir, text, entries, ps, m.content),
        m.files == companions(m.skill_dir, entries, entries.len() as int).skip(ps.len() as int),
        !m.moved,
    ensures
        on_the_way(EvolutionVerb::Show, next_companion(m), g),
{
    let n = next_companion(m);
    if m.files.len() == 0 {
        assert(shown_whole(m.root, g, m.skill_dir, text, entries, ps, m.content));
        assert(shown_at(m.root, m.name, g, m.title, m.content, m.skill_dir));
        assert(is_shown(m.root, m.name, g, m.title, m.content));
        assert(n.result == (EvolutionResultModel::Document { title: m.title, content: m.content }));
    } else {
        assert(companions_at(n, g, text, entries, ps));
    }
}

#[verifier::spinoff_prover]
#[verifier::rlimit(100)]
proof fn show_step(
    m: EvolutionModel,
    h: Seq<(EvolutionRequestModel, EvolutionReplyModel)>,
    reply: EvolutionReplyModel,
)
    requires
        on_the_way(EvolutionVerb::Show, m, h),
        m.stage != EvolutionStage::Finished,
        evolution_answers(evolution_request(m).op, reply),
    ensures
        on_the_way(
            EvolutionVerb::Show,
            evolution_after(m, reply),
            h.push((evolution_request(m), reply)),
        ),
{
    let q = evolution_request(m);
    let g = h.push((q, reply));
    let n = evolution_after(m, reply);
    said_stays(h, q, reply);
    found_stays(h, q, reply, m.root, m.name);
    match (m.stage, reply) {
        (EvolutionStage::ShowBackups, EvolutionReplyModel::Inventory(inv)) => {
            let backups = all_backups_of(inv, m.name);
            if backups.len() > 0 {
                assert(newest_at(m.root, m.name, g, inv, n.skill_dir));
            } else {
                assert(no_backup(m.root, m.name, g, inv));
            }
        },
        (EvolutionStage::ShowRead, EvolutionReplyModel::Text(r)) => match r {
            Ok(text) => {},
            Err(e) => {
                let md = joined(m.skill_dir, "SKILL.md"@);
                assert(said(g, EvolutionOp::ReadText, md, EvolutionReplyModel::Text(Err(e))));
                assert(found_at(m.root, m.name, g, m.title, m.skill_dir) && unreadable(
                    g,
                    m.skill_dir,
                    "read "@ + md + ": "@ + e,
                ));
            },
        },
        (EvolutionStage::ShowList, EvolutionReplyModel::Tree(entries)) => {
            let all = companions(m.skill_dir, entries, entries.len() as int);
            let none = Seq::<Seq<char>>::empty();
            assert(all.skip(0) =~= all);
            assert(none.flatten() =~= Seq::<char>::empty());
            assert(m.content + none.flatten() =~= m.content);
            let o = EvolutionModel { files: all, ..m };
            companion_ends(o, g, m.content, entries, none);
        },
        (EvolutionStage::ShowSize, EvolutionReplyModel::Size(size)) => {
            let (text, entries, ps) = choose|
                text: Seq<char>,
                entries: Seq<TreeModel>,
                ps: Seq<Seq<char>>,
            | #[trigger] companions_at(m, h, text, entries, ps);
            let all = companions(m.skill_dir, entries, entries.len() as int);
            let file = m.files[0];
            assert(file == all[ps.len() as int]);
            assert(said(g, EvolutionOp::FileSize, file, EvolutionReplyModel::Size(size)));
            if size is Some && size->0 > 0x10_0000 {
                let p = "\n\n[skipped: "@ + seen_from(m.root, file) + " exceeds 1MiB]"@;
                assert(said(
                    g,
                    EvolutionOp::FileSize,
                    file,
                    EvolutionReplyModel::Size(Some(size->0)),
                ));
                assert(piece(m.root, g, file, p));
                more_shown(m, g, text, entries, ps, p);
                let o = EvolutionModel { content: m.content + p, files: m.files.skip(1), ..m };
                assert(o.files =~= all.skip(ps.push(p).len() as int));
                companion_ends(o, g, text, entries, ps.push(p));
            } else {
                assert(is_small(g, file));
                assert(companions_at(n, g, text, entries, ps));
            }
        },
        (EvolutionStage::ShowFile, EvolutionReplyModel::Text(r)) => {
            let (text, entries, ps) = choose|
                text: Seq<char>,
                entries: Seq<TreeModel>,
                ps: Seq<Seq<char>>,
            | #[trigger] companions_at(m, h, text, entries, ps);
            let all = companions(m.skill_dir, entries, entries.len() as int);
            let file = m.files[0];
            assert(file == all[ps.len() as int]);
            let p = match r {
                Ok(t) => "\n\n--- "@ + seen_from(m.root, file) + " ---\n"@ + t,
                Err(_) => Seq::<char>::empty(),
            };
            match r {
                Ok(t) => {
                    assert(said(g, EvolutionOp::ReadText, file, EvolutionReplyModel::Text(Ok(t))));
                },
                Err(e) => {
                    assert(said(g, EvolutionOp::ReadText, file, EvolutionReplyModel::Text(Err(e))));
                    assert(m.content + p =~= m.content);
                },
            }
            assert(piece(m.root, g, file, p));
            more_shown(m, g, text, entries, ps, p);
            let o = EvolutionModel { content: m.content + p, files: m.files.skip(1), ..m };
            assert(o.files =~= all.skip(ps.push(p).len() as int));
            companion_ends(o, g, text, entries, ps.push(p));
        },
        _ => {},
    }
}

proof fn more_shown(
    m: EvolutionModel,
    g: Seq<(EvolutionRequestModel, EvolutionReplyModel)>,
    text: Seq<char>,
    entries: Seq<TreeModel>,
    ps: Seq<Seq<char>>,
    p: Seq<char>,
)
    requires
        shown_from(m.root, g, m.skill_dir, text, entries, ps, m.content),
        ps.len() < companions(m.skill_dir, entries, entries.len() as int).len(),
        piece(
            m.root,
            g,
            companions(m.skill_dir, entries, entries.len() as int)[ps.len() as int],
            p,
        ),
    ensures
        shown_from(m.root, g, m.skill_dir, text, entries, ps.push(p), m.content + p),
{
    ps.lemma_flatten_push(p);
    assert(text + ps.flatten() + p =~= text + ps.push(p).flatten());
    let all = companions(m.skill_dir, entries, entries.len() as int);
    assert forall|i: int| 0 <= i < ps.push(p).len() implies piece(
        m.root,
        g,
        all[i],
        #[trigger] ps.push(p)[i],
    ) by {
        if i < ps.len() {
            assert(ps.push(p)[i] == ps[i]);
        }
    }
}

#[verifier::spinoff_prover]
#[verifier::rlimit(100)]
proof fn rollback_step(
    m: EvolutionModel,
    h: Seq<(EvolutionRequestModel, EvolutionReplyModel)>,
    reply: EvolutionReplyModel,
)
    requires
        on_the_way(EvolutionVerb::Rollback, m, h),
        m.stage != EvolutionStage::Finished,
        evolution_answers(evolution_request(m).op, reply),
    ensures
        on_the_way(
            EvolutionVerb::Rollback,
            evolution_after(m, reply),
            h.push((evolution_request(m), reply)),
        ),
{
    let q = evolution_request(m);
    let g = h.push((q, reply));
    let n = evolution_after(m, reply);
    said_stays(h, q, reply);
    found_stays(h, q, reply, m.root, m.name);
    match (m.stage, reply) {
        (EvolutionStage::RollbackBackups, EvolutionReplyModel::Inventory(inv)) => {
            let backups = all_backups_of(inv, m.name);
            if backups.len() > 0 {
                assert(newest_at(m.root, m.name, g, inv, n.latest));
            } else {
                assert(no_backup(m.root, m.name, g, inv));
            }
        },
        (EvolutionStage::RollbackClock, EvolutionReplyModel::Seconds(s)) => {
            assert(is_trying(n, g, s));
        },
        (EvolutionStage::RollbackSite, EvolutionReplyModel::Flag(taken)) => {
            let s = choose|s: u64| #[trigger] is_trying(m, h, s);
            assert(is_trying(m, g, s));
            if !taken {
                assert(is_trying(n, g, s));
            } else {
                assert(aside_tried(m.root, m.name, g, s, m.tried + 1));
                if m.tried + 1 < 8 {
                    assert(is_trying(n, g, s));
                }
            }
        },
        (EvolutionStage::RollbackMoveAway, EvolutionReplyModel::Done(r)) => {
            let s = choose|s: u64| #[trigger] is_trying(m, h, s);
            assert(is_trying(m, g, s));
            let used = in_use(m.root, m.name);
            assert(move_said(g, used, aside(m.root, m.name, m.now), reply));
            match r {
                Ok(_) => {
                    assert(is_done(reply));
                    assert(put_aside(m.root, m.name, g, s, m.tried));
                    assert(put_aside(n.root, n.name, g, s, m.tried) && n.now == s + m.tried);
                    assert(is_ready(n, g));
                },
                Err(e) => {
                    assert(failed_by(reply, e));
                    let t = "rename "@ + used + " -> "@ + aside(m.root, m.name, m.now)
                        + " failed: "@ + e;
                    assert(t + Seq::<char>::empty() =~= t);
                    assert(move_failed(g, used, aside(m.root, m.name, m.now), Seq::empty(), t));
                    assert(n.result == EvolutionResultModel::Error(t));
                    assert(not_rolled_back(m.root, m.name, m.quote, g, t));
                },
            }
        },
        (EvolutionStage::RollbackRestore, EvolutionReplyModel::Done(r)) => {
            let inv = choose|inv: InventoryModel| #[trigger]
                newest_at(m.root, m.name, h, inv, m.latest);
            assert(newest_at(m.root, m.name, g, inv, m.latest));
            let used = in_use(m.root, m.name);
            assert(move_said(g, m.latest, used, reply));
            match r {
                Ok(_) => {
                    assert(is_done(reply));
                    assert(moved_well(g, m.latest, used));
                    if m.moved {
                        let (s, t) = choose|s: u64, t: int| #[trigger]
                            put_aside(m.root, m.name, h, s, t) && m.now == s + t;
                        assert(put_aside(m.root, m.name, g, s, t));
                        assert(n.result->Message_0 =~= "[ok] rolled back `"@ + m.name + "`\n"@
                            + "previous state preserved at "@ + aside(m.root, m.name, s + t) + "\n"@
                            + "restored from "@ + m.latest);
                    } else {
                        assert(n.result->Message_0 =~= "[ok] rolled back `"@ + m.name + "`\n"@
                            + "restored from "@ + m.latest);
                    }
                    assert(brought_back(m.root, m.name, g, n.result->Message_0, inv, m.latest));
                },
                Err(e) => {
                    assert(failed_by(reply, e));
                    assert(newest_at(m.root, m.name, g, inv, m.latest) && move_failed(
                        g,
                        m.latest,
                        used,
                        "\n(the preserved pre-rollback state is still in backups/)"@,
                        n.result->Error_0,
                    ));
                },
            }
        },
        (EvolutionStage::RollbackDeployed, EvolutionReplyModel::Flag(there)) => {
            let inv = choose|inv: InventoryModel| #[trigger]
                newest_at(m.root, m.name, h, inv, m.latest);
            assert(newest_at(n.root, n.name, g, inv, n.latest));
            assert(seen(g, EvolutionOp::IsDir, in_use(m.root, m.name), there));
            if !there {
                assert(is_ready(n, g));
            }
        },
        _ => {},
    }
    if m.stage == EvolutionStage::RollbackClock || m.stage == EvolutionStage::RollbackSite || m.stage
        == EvolutionStage::RollbackMoveAway {
        let inv = choose|inv: InventoryModel| #[trigger]
            newest_at(m.root, m.name, h, inv, m.latest);
        assert(newest_at(n.root, n.name, g, inv, n.latest));
    }
}

#[verifier::spinoff_prover]
#[verifier::rlimit(100)]
proof fn switch_step(
    verb: EvolutionVerb,
    m: EvolutionModel,
    h: Seq<(EvolutionRequestModel, EvolutionReplyModel)>,
    reply: EvolutionReplyModel,
)
    requires
        on_the_way(verb, m, h),
        verb == EvolutionVerb::Disable || verb == EvolutionVerb::Enable,
        m.stage != EvolutionStage::Finished,
        evolution_answers(evolution_request(m).op, reply),
    ensures
        on_the_way(verb, evolution_after(m, reply), h.push((evolution_request(m), reply))),
{
    let q = evolution_request(m);
    let g = h.push((q, reply));
    let n = evolution_after(m, reply);
    said_stays(h, q, reply);
    if m.stage == EvolutionStage::DisableMove || m.stage == EvolutionStage::EnableMove {
        assert(move_said(g, q.path, q.to, reply));
        if let EvolutionReplyModel::Done(r) = reply {
            match r {
                Ok(_) => {
                    assert(is_done(reply));
                },
                Err(e) => {
                    assert(failed_by(reply, e));
                    let t = "rename "@ + q.path + " -> "@ + q.to + " failed: "@ + e;
                    assert(t + Seq::<char>::empty() =~= t);
                    assert(move_failed(g, q.path, q.to, Seq::empty(), t));
                },
            }
        }
    }
}

proof fn skill_is_fixed(m: EvolutionModel, reply: EvolutionReplyModel)
    ensures
        evolution_after(m, reply).root == m.root,
        evolution_after(m, reply).name == m.name,
        evolution_after(m, reply).quote == m.quote,
{
}

proof fn finished_is_over(m: EvolutionModel)
    ensures
        m.stage == EvolutionStage::Finished ==> forall|reply: EvolutionReplyModel|
            !evolution_answers(#[trigger] evolution_request(m).op, reply),
{
}

#[verifier::spinoff_prover]
#[verifier::rlimit(60)]
proof fn runs_are_on_the_way(
    verb: EvolutionVerb,
    m: EvolutionModel,
    replies: Seq<EvolutionReplyModel>,
)
    requires
        on_the_way(verb, m, Seq::empty()),
        evolution_fits(m, replies),
    ensures
        on_the_way(verb, evolution_run(m, replies), conversation(m, replies)),
        evolution_run(m, replies).root == m.root,
        evolution_run(m, replies).name == m.name,
        evolution_run(m, replies).quote == m.quote,
    decreases replies.len(),
{
    reveal(evolution_run);
    reveal(evolution_fits);
    if replies.len() > 0 {
        runs_are_on_the_way(verb, m, replies.drop_last());
        let s = evolution_run(m, replies.drop_last());
        let h = conversation(m, replies.drop_last());
        skill_is_fixed(s, replies.last());
        finished_is_over(s);
        match verb {
            EvolutionVerb::Show => show_step(s, h, replies.last()),
            EvolutionVerb::Rollback => rollback_step(s, h, replies.last()),
            _ => switch_step(verb, s, h, replies.last()),
        }
    }
}

/// A command ends rightly: it says that a skill was shown, rolled back, disabled or enabled
/// only where just that was done, and where it was not, it says why.
pub proof fn commands_end_rightly(
    verb: EvolutionVerb,
    root: Seq<char>,
    name: Seq<char>,
    quote: Seq<char>,
    replies: Seq<EvolutionReplyModel>,
)
    requires
        valid_name(name),
        evolution_fits(fresh_evolution(verb, root, name, quote), replies),
        evolution_run(fresh_evolution(verb, root, name, quote), replies).stage
            == EvolutionStage::Finished,
    ensures
        ended_rightly(
            verb,
            root,
            name,
            quote,
            conversation(fresh_evolution(verb, root, name, quote), replies),
            evolution_run(fresh_evolution(verb, root, name, quote), replies).result,
        ),
{
    runs_are_on_the_way(verb, fresh_evolution(verb, root, name, quote), replies);
}

/// A name that no skill can have is refused, and nothing is asked.
pub proof fn bad_names_are_refused(
    verb: EvolutionVerb,
    root: Seq<char>,
    name: Seq<char>,
    quote: Seq<char>,
)
    requires
        !valid_name(name),
    ensures
        evolution_request(fresh_evolution(verb, root, name, quote)).op == EvolutionOp::Finish,
        fresh_evolution(verb, root, name, quote).result == EvolutionResultModel::Error(
            "invalid skill name: "@ + quote,
        ),
{
}

} // verus!
