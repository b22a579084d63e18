//! The `/evolution` command: looking at deployed skills, and moving them about.
//!
//! Everything that changes a skill is a move that keeps what was there before, so that
//! every step can be taken back by another.
use crate::deploy_task::{backups_path, path_less, skill_md, target_path};
use crate::evolution_backups::{all_backups_of, Inventory, InventoryModel};
use crate::paths::{is_absolute, is_absolute_path, join_path, joined, parts_of, path_parts};
use crate::skill_deploy::{is_valid_deploy_name, valid_name};
use crate::text::{decimal, decimal_usize, join_texts, join_with, same_text, views, words};
use crate::timestamp::{stamp_of, utc_timestamp};
use vstd::prelude::*;
use vstd::string::StringExecFns;

verus! {

/// Whether `name` can be the name of a skill: the rule is that of deployments.
pub fn is_valid_name(name: &str) -> (r: bool)
    ensures
        r == valid_name(name@),
{
    is_valid_deploy_name(name)
}

/// The largest companion file that is shown, in bytes.
pub const MAX_COMPANION_BYTES: u64 = 1048576;

/// How often a directory is tried to be moved.
pub const MAX_RENAME_ATTEMPTS: u64 = 4;

/// How many moments are tried for what a rollback puts aside.
pub const SITE_ATTEMPTS: u64 = 8;

/// How long to wait, in milliseconds, before the attempt with this number to move a
/// directory; nothing when there is to be no further attempt.
pub fn rename_delay_ms(attempt: u64) -> (r: Option<u64>)
    ensures
        r == if attempt < MAX_RENAME_ATTEMPTS {
            Some((100 * attempt) as u64)
        } else {
            None
        },
{
    if attempt < MAX_RENAME_ATTEMPTS {
        Some(100 * attempt)
    } else {
        None
    }
}

// ----------------------------------------------------------------------- paths

/// The directory of disabled skills.
pub open spec fn disabled_root(root: Seq<char>) -> Seq<char> {
    joined(joined(root, "evolution"@), "disabled"@)
}

/// Where the skill `name` lies while it is disabled.
pub open spec fn disabled_place(root: Seq<char>, name: Seq<char>) -> Seq<char> {
    joined(disabled_root(root), name)
}

/// The directory of skills.
pub fn skills_dir(root: &str) -> (r: String)
    ensures
        r@ == joined(root@, "skills"@),
{
    join_path(root, "skills")
}

/// The directory of backups.
pub fn backups_dir(root: &str) -> (r: String)
    ensures
        r@ == backups_path(root@),
{
    crate::deploy_task::backups_of(root)
}

/// The directory of disabled skills.
pub fn disabled_dir(root: &str) -> (r: String)
    ensures
        r@ == disabled_root(root@),
{
    join_path(join_path(root, "evolution").as_str(), "disabled")
}

/// Where the skill `name` lies while it is disabled.
pub fn disabled_path(root: &str, name: &str) -> (r: String)
    ensures
        r@ == disabled_place(root@, name@),
{
    join_path(disabled_dir(root).as_str(), name)
}

/// Where a rollback that happens `seconds` after the start of 1970 puts aside what it
/// replaces.
pub open spec fn site_path(root: Seq<char>, name: Seq<char>, seconds: int) -> Seq<char> {
    joined(backups_path(root), stamp_of(seconds) + "-"@ + name + "-pre-rollback"@)
}

/// Where a rollback puts aside what it replaces.
pub fn rollback_site(root: &str, name: &str, seconds: u64) -> (r: String)
    ensures
        r@ == site_path(root@, name@, seconds as int),
{
    let mut leaf: String = utc_timestamp(seconds);
    leaf.append("-");
    leaf.append(name);
    leaf.append("-pre-rollback");
    join_path(backups_dir(root).as_str(), leaf.as_str())
}

/// `path` as seen from `root`, where it lies below it; else `path` itself.
pub open spec fn seen_from(root: Seq<char>, path: Seq<char>) -> Seq<char> {
    let r = path_parts(root);
    let p = path_parts(path);
    if is_absolute(root) == is_absolute(path) && r.len() <= p.len() && p.take(r.len() as int) == r {
        join_with(p.skip(r.len() as int), "/"@)
    } else {
        path
    }
}

/// `path` as seen from `root`, where it lies below it; else `path` itself.
pub fn display_from(root: &str, path: &str) -> (s: String)
    ensures
        s@ == seen_from(root@, path@),
{
    let r: Vec<String> = parts_of(root);
    let p: Vec<String> = parts_of(path);
    if is_absolute_path(root) != is_absolute_path(path) || r.len() > p.len() {
        assert(views(r@).len() == r@.len() && views(p@).len() == p@.len());
        return path.to_owned();
    }
    let mut i: usize = 0;
    while i < r.len()
        invariant
            i <= r.len(),
            r.len() <= p.len(),
            views(r@) == path_parts(root@),
            views(p@) == path_parts(path@),
            is_absolute(root@) == is_absolute(path@),
            forall|k: int| 0 <= k < i ==> views(r@)[k] == #[trigger] views(p@)[k],
        decreases r.len() - i,
    {
        if !same_text(r[i].as_str(), p[i].as_str()) {
            assert(views(p@).take(views(r@).len() as int)[i as int] != views(r@)[i as int]);
            return path.to_owned();
        }
        i += 1;
    }
    assert(views(p@).take(views(r@).len() as int) =~= views(r@));
    let mut rest: Vec<String> = Vec::new();
    let mut k: usize = r.len();
    assert(views(rest@) =~= views(p@).subrange(r.len() as int, k as int));
    while k < p.len()
        invariant
            r.len() <= k <= p.len(),
            views(rest@) == views(p@).subrange(r.len() as int, k as int),
        decreases p.len() - k,
    {
        let ghost before = rest@;
        rest.push(p[k].clone());
        assert(views(rest@) =~= views(before).push(p@[k as int]@));
        assert(views(p@).subrange(r.len() as int, k + 1) =~= views(p@).subrange(
            r.len() as int,
            k as int,
        ).push(p@[k as int]@));
        k += 1;
    }
    assert(views(rest@) =~= views(p@).skip(r.len() as int));
    join_texts(&rest, "/")
}

// ------------------------------------------------------------------------ list

/// A deployed skill and how many entries its directory has.
#[derive(Debug)]
pub struct ListedSkill {
    pub name: String,
    pub entries: usize,
}

/// The line on a deployed skill.
pub open spec fn skill_line(name: Seq<char>, entries: nat) -> Seq<char> {
    "\n  "@ + name + "  ("@ + decimal(entries) + " entries)  show: /evolution show "@ + name
}

/// The lines on the first `n` deployed skills.
pub open spec fn skill_lines(skills: Seq<ListedSkill>, n: int) -> Seq<char>
    decreases n,
{
    if n <= 0 || n > skills.len() {
        Seq::empty()
    } else {
        skill_lines(skills, n - 1) + skill_line(skills[n - 1].name@, skills[n - 1].entries as nat)
    }
}

/// What is on disk, in words.
pub open spec fn list_text(skills: Seq<ListedSkill>, disabled: nat, backups: nat) -> Seq<char> {
    (if skills.len() == 0 {
        "No evolved skills deployed (`skills/user-*` is empty)."@
    } else {
        "Deployed (skills/user-*): "@ + decimal(skills.len()) + skill_lines(
            skills,
            skills.len() as int,
        )
    }) + "\nDisabled: "@ + decimal(disabled) + "  |  Backups kept: "@ + decimal(backups)
        + "\nUsage: /evolution show <name> | rollback <name> | disable <name> | enable <name>"@
}

/// What is on disk, in words: the deployed skills, and how many are disabled and how
/// many backups are kept.
pub fn list(skills: &Vec<ListedSkill>, disabled: usize, backups: usize) -> (r: String)
    ensures
        r@ == list_text(skills@, disabled as nat, backups as nat),
{
    let mut s: String = String::new();
    if skills.len() == 0 {
        s.append("No evolved skills deployed (`skills/user-*` is empty).");
        assert(s@ =~= "No evolved skills deployed (`skills/user-*` is empty)."@);
    } else {
        s.append("Deployed (skills/user-*): ");
        s.append(decimal_usize(skills.len()).as_str());
        let ghost head = s@;
        let mut i: usize = 0;
        assert(head + skill_lines(skills@, 0) =~= head);
        while i < skills.len()
            invariant
                i <= skills.len(),
                s@ == head + skill_lines(skills@, i as int),
            decreases skills.len() - i,
        {
            let ghost before = s@;
            s.append("\n  ");
            s.append(skills[i].name.as_str());
            s.append("  (");
            s.append(decimal_usize(skills[i].entries).as_str());
            s.append(" entries)  show: /evolution show ");
            s.append(skills[i].name.as_str());
            assert(s@ =~= before + skill_line(
                skills@[i as int].name@,
                skills@[i as int].entries as nat,
            ));
            assert(s@ =~= head + skill_lines(skills@, i as int + 1));
            i += 1;
        }
        assert(head =~= "Deployed (skills/user-*): "@ + decimal(skills@.len()));
    }
    s.append("\nDisabled: ");
    s.append(decimal_usize(disabled).as_str());
    s.append("  |  Backups kept: ");
    s.append(decimal_usize(backups).as_str());
    s.append("\nUsage: /evolution show <name> | rollback <name> | disable <name> | enable <name>");
    assert(s@ =~= list_text(skills@, disabled as nat, backups as nat));
    s
}

// ------------------------------------------------------------------ companions

/// An entry of the directory of a skill.
#[derive(Debug)]
pub struct TreeEntry {
    pub name: String,
    pub is_file: bool,
    pub is_dir: bool,
    /// For a directory, the names of the files in it.
    pub files: Vec<String>,
}

/// [`TreeEntry`] by its texts.
pub struct TreeModel {
    pub name: Seq<char>,
    pub is_file: bool,
    pub is_dir: bool,
    pub files: Seq<Seq<char>>,
}

impl View for TreeEntry {
    type V = TreeModel;

    open spec fn view(&self) -> TreeModel {
        TreeModel {
            name: self.name@,
            is_file: self.is_file,
            is_dir: self.is_dir,
            files: views(self.files@),
        }
    }
}

/// The texts of a list of entries.
pub open spec fn tree_models(v: Seq<TreeEntry>) -> Seq<TreeModel> {
    v.map_values(|e: TreeEntry| e@)
}

/// How many paths at the front of `s` do not come after `p`.
pub open spec fn path_place(s: Seq<Seq<char>>, p: Seq<char>) -> nat
    decreases s.len(),
{
    if s.len() > 0 && !path_less(p, s[0]) {
        1 + path_place(s.drop_first(), p)
    } else {
        0
    }
}

/// `s` with the path `p` put in its place.
pub open spec fn with_path(s: Seq<Seq<char>>, p: Seq<char>) -> Seq<Seq<char>> {
    s.insert(path_place(s, p) as int, p)
}

/// `s` with the first `n` files of the directory `dir` put in their places.
pub open spec fn with_files(s: Seq<Seq<char>>, dir: Seq<char>, files: Seq<Seq<char>>, n: int) -> Seq<
    Seq<char>,
>
    decreases n,
{
    if n <= 0 || n > files.len() {
        s
    } else {
        with_path(with_files(s, dir, files, n - 1), joined(dir, files[n - 1]))
    }
}

/// The companion files among the first `n` entries of the directory of a skill: every
/// file but its `SKILL.md`, and the files one level below, in the order of their paths.
pub open spec fn companions(dir: Seq<char>, entries: Seq<TreeModel>, n: int) -> Seq<Seq<char>>
    decreases n,
{
    if n <= 0 || n > entries.len() {
        Seq::empty()
    } else {
        let before = companions(dir, entries, n - 1);
        let e = entries[n - 1];
        let path = joined(dir, e.name);
        if e.name == "SKILL.md"@ {
            before
        } else if e.is_file {
            with_path(before, path)
        } else if e.is_dir {
            with_files(before, path, e.files, e.files.len() as int)
        } else {
            before
        }
    }
}

/// Puts a path in its place.
pub fn insert_path(list: &mut Vec<String>, p: String)
    ensures
        views(final(list)@) == with_path(views(old(list)@), p@),
{
    let ghost s = views(list@);
    let mut n: usize = 0;
    assert(s.skip(0) =~= s);
    while n < list.len() && !crate::deploy_task::less_path(p.as_str(), list[n].as_str())
        invariant
            n <= list.len(),
            list@ == old(list)@,
            s == views(list@),
            path_place(s, p@) == n + path_place(s.skip(n as int), p@),
        decreases list.len() - n,
    {
        assert(s.skip(n as int)[0] == list@[n as int]@);
        assert(s.skip(n as int).drop_first() =~= s.skip(n as int + 1));
        n += 1;
    }
    proof {
        if n < list.len() {
            assert(s.skip(n as int)[0] == list@[n as int]@);
        }
        assert(path_place(s.skip(n as int), p@) == 0);
    }
    let ghost added = p@;
    list.insert(n, p);
    assert(views(list@) =~= s.insert(n as int, added));
}

/// The companion files of a skill in the order of their paths.
pub fn companion_files(dir: &str, entries: &Vec<TreeEntry>) -> (r: Vec<String>)
    ensures
        views(r@) == companions(dir@, tree_models(entries@), entries@.len() as int),
{
    let mut r: Vec<String> = Vec::new();
    let ghost all = tree_models(entries@);
    let mut i: usize = 0;
    assert(views(r@) =~= Seq::empty());
    while i < entries.len()
        invariant
            i <= entries.len(),
            all == tree_models(entries@),
            views(r@) == companions(dir@, all, i as int),
        decreases entries.len() - i,
    {
        assert(all[i as int] == entries@[i as int]@);
        if !same_text(entries[i].name.as_str(), "SKILL.md") {
            let path: String = join_path(dir, entries[i].name.as_str());
            if entries[i].is_file {
                insert_path(&mut r, path);
            } else if entries[i].is_dir {
                let ghost before = views(r@);
                let files: &Vec<String> = &entries[i].files;
                let mut j: usize = 0;
                while j < files.len()
                    invariant
                        j <= files.len(),
                        views(r@) == with_files(before, path@, views(files@), j as int),
                    decreases files.len() - j,
                {
                    assert(views(files@)[j as int] == files@[j as int]@);
                    insert_path(&mut r, join_path(path.as_str(), files[j].as_str()));
                    j += 1;
                }
                assert(views(files@).len() == files@.len());
            }
        }
        i += 1;
    }
    r
}

/// What is put behind the text of a skill for a companion that is too large.
pub open spec fn skipped_text(name: Seq<char>) -> Seq<char> {
    "\n\n[skipped: "@ + name + " exceeds 1MiB]"@
}

/// What is put behind the text of a skill for a companion.
pub open spec fn companion_text(name: Seq<char>, content: Seq<char>) -> Seq<char> {
    "\n\n--- "@ + name + " ---\n"@ + content
}

// ----------------------------------------------------------------------- steps

/// What the command does.
#[derive(Debug, Clone, Copy, PartialEq, Eq, Structural)]
pub enum EvolutionVerb {
    Show,
    Rollback,
    Disable,
    Enable,
}

/// What the command asks of the machine.
#[derive(Debug, Clone, Copy, PartialEq, Eq, Structural)]
pub enum EvolutionOp {
    /// Is there a directory: answered by a flag.
    IsDir,
    /// Is there a file: answered by a flag.
    IsFile,
    /// Is there anything: answered by a flag.
    Exists,
    /// What is on disk of skills and backups: answered by the inventory.
    ReadInventory,
    /// Read a file: answered by a text.
    ReadText,
    /// List the directory of a skill: answered by its entries.
    ListTree,
    /// The size of a file: answered by a size.
    FileSize,
    /// The time: answered by the seconds since the start of 1970.
    Clock,
    /// Make a directory and those above it.
    CreateDirs,
    /// Move a directory to the other path.
    Rename,
    /// Nothing more is to be done.
    Finish,
}

/// One thing to do or to look up.
#[derive(Debug)]
pub struct EvolutionRequest {
    pub op: EvolutionOp,
    pub path: String,
    /// Where a directory goes to.
    pub to: String,
}

/// [`EvolutionRequest`] by its texts.
pub struct EvolutionRequestModel {
    pub op: EvolutionOp,
    pub path: Seq<char>,
    pub to: Seq<char>,
}

impl View for EvolutionRequest {
    type V = EvolutionRequestModel;

    open spec fn view(&self) -> EvolutionRequestModel {
        EvolutionRequestModel { op: self.op, path: self.path@, to: self.to@ }
    }
}

/// What came of a request; a failure carries its message.
#[derive(Debug)]
pub enum EvolutionReply {
    Flag(bool),
    Inventory(Inventory),
    Text(Result<String, String>),
    Tree(Vec<TreeEntry>),
    Size(Option<u64>),
    Seconds(u64),
    Done(Result<(), String>),
}

/// [`EvolutionReply`] by its texts.
pub enum EvolutionReplyModel {
    Flag(bool),
    Inventory(InventoryModel),
    Text(Result<Seq<char>, Seq<char>>),
    Tree(Seq<TreeModel>),
    Size(Option<u64>),
    Seconds(u64),
    Done(Result<(), Seq<char>>),
}

impl View for EvolutionReply {
    type V = EvolutionReplyModel;

    open spec fn view(&self) -> EvolutionReplyModel {
        match self {
            EvolutionReply::Flag(b) => EvolutionReplyModel::Flag(*b),
            EvolutionReply::Inventory(i) => EvolutionReplyModel::Inventory(i@),
            EvolutionReply::Text(r) => EvolutionReplyModel::Text(
                match r {
                    Ok(s) => Ok(s@),
                    Err(e) => Err(e@),
                },
            ),
            EvolutionReply::Tree(v) => EvolutionReplyModel::Tree(tree_models(v@)),
            EvolutionReply::Size(s) => EvolutionReplyModel::Size(*s),
            EvolutionReply::Seconds(s) => EvolutionReplyModel::Seconds(*s),
            EvolutionReply::Done(r) => EvolutionReplyModel::Done(
                match r {
                    Ok(_) => Ok(()),
                    Err(e) => Err(e@),
                },
            ),
        }
    }
}

/// `reply` is an answer to a request for `op`.
pub open spec fn evolution_answers(op: EvolutionOp, reply: EvolutionReplyModel) -> bool {
    match op {
        EvolutionOp::IsDir | EvolutionOp::IsFile | EvolutionOp::Exists => reply is Flag,
        EvolutionOp::ReadInventory => reply is Inventory,
        EvolutionOp::ReadText => reply is Text,
        EvolutionOp::ListTree => reply is Tree,
        EvolutionOp::FileSize => reply is Size,
        EvolutionOp::Clock => reply matches EvolutionReplyModel::Seconds(s) && s <= u64::MAX
            - SITE_ATTEMPTS,
        EvolutionOp::CreateDirs | EvolutionOp::Rename => reply is Done,
        EvolutionOp::Finish => false,
    }
}

/// Where the command stands.
#[derive(Debug, Clone, Copy, PartialEq, Eq, Structural)]
pub enum EvolutionStage {
    ShowDeployed,
    ShowDisabled,
    ShowBackups,
    ShowRead,
    ShowList,
    ShowSize,
    ShowFile,
    RollbackDisabled,
    RollbackBackups,
    RollbackDeployed,
    RollbackClock,
    RollbackSite,
    RollbackMoveAway,
    RollbackRestore,
    DisableDeployed,
    DisableTarget,
    DisableMake,
    DisableMove,
    EnableDisabled,
    EnableTarget,
    EnableMake,
    EnableMove,
    Finished,
}

/// What the command answers.
#[derive(Debug, Clone, PartialEq, Eq)]
pub enum EvolutionResult {
    Pending,
    Error(String),
    Message(String),
    /// A text to be shown under a title.
    Document { title: String, content: String },
}

/// [`EvolutionResult`] by its texts.
pub enum EvolutionResultModel {
    Pending,
    Error(Seq<char>),
    Message(Seq<char>),
    Document { title: Seq<char>, content: Seq<char> },
}

impl View for EvolutionResult {
    type V = EvolutionResultModel;

    open spec fn view(&self) -> EvolutionResultModel {
        match self {
            EvolutionResult::Pending => EvolutionResultModel::Pending,
            EvolutionResult::Error(s) => EvolutionResultModel::Error(s@),
            EvolutionResult::Message(s) => EvolutionResultModel::Message(s@),
            EvolutionResult::Document { title, content } => EvolutionResultModel::Document {
                title: title@,
                content: content@,
            },
        }
    }
}

/// A command under way.
#[derive(Debug)]
pub struct EvolutionTask {
    pub root: String,
    pub name: String,
    pub quote: String,
    pub stage: EvolutionStage,
    pub title: String,
    pub skill_dir: String,
    pub content: String,
    pub files: Vec<String>,
    pub next_file: usize,
    pub latest: String,
    pub now: u64,
    pub tried: u64,
    pub moved: bool,
    pub result: EvolutionResult,
}

/// [`EvolutionTask`] by its texts.
pub struct EvolutionModel {
    /// The directory below which all lies.
    pub root: Seq<char>,
    /// The skill.
    pub name: Seq<char>,
    /// Its name in quotes.
    pub quote: Seq<char>,
    pub stage: EvolutionStage,
    /// Under which title the skill is shown.
    pub title: Seq<char>,
    /// Where the skill that is shown lies.
    pub skill_dir: Seq<char>,
    /// What is shown.
    pub content: Seq<char>,
    /// The companion files not shown yet; the first is being dealt with.
    pub files: Seq<Seq<char>>,
    /// The newest backup.
    pub latest: Seq<char>,
    /// The moment that is tried for what a rollback puts aside.
    pub now: int,
    /// How many moments have been tried before.
    pub tried: int,
    /// What was deployed has been put aside.
    pub moved: bool,
    pub result: EvolutionResultModel,
}

impl View for EvolutionTask {
    type V = EvolutionModel;

    open spec fn view(&self) -> EvolutionModel {
        EvolutionModel {
            root: self.root@,
            name: self.name@,
            quote: self.quote@,
            stage: self.stage,
            title: self.title@,
            skill_dir: self.skill_dir@,
            content: self.content@,
            files: views(self.files@).skip(self.next_file as int),
            latest: self.latest@,
            now: self.now as int,
            tried: self.tried as int,
            moved: self.moved,
            result: self.result@,
        }
    }
}

/// On to the next stage.
pub open spec fn evolution_to(m: EvolutionModel, stage: EvolutionStage) -> EvolutionModel {
    EvolutionModel { stage, ..m }
}

/// The command ends with a complaint.
pub open spec fn complain(m: EvolutionModel, text: Seq<char>) -> EvolutionModel {
    EvolutionModel {
        stage: EvolutionStage::Finished,
        result: EvolutionResultModel::Error(text),
        ..m
    }
}

/// The command ends with a message.
pub open spec fn tell(m: EvolutionModel, text: Seq<char>) -> EvolutionModel {
    EvolutionModel {
        stage: EvolutionStage::Finished,
        result: EvolutionResultModel::Message(text),
        ..m
    }
}

/// What is said of a directory that could not be moved.
pub open spec fn rename_failure(from: Seq<char>, to: Seq<char>, e: Seq<char>) -> Seq<char> {
    "rename "@ + from + " -> "@ + to + " failed: "@ + e
}

/// A skill has been found to show: its text is read.
pub open spec fn show_at(m: EvolutionModel, state: Seq<char>, dir: Seq<char>) -> EvolutionModel {
    EvolutionModel {
        title: "evolution skill: "@ + m.name + state,
        skill_dir: dir,
        stage: EvolutionStage::ShowRead,
        ..m
    }
}

/// On to the next companion, or to the end.
pub open spec fn next_companion(m: EvolutionModel) -> EvolutionModel {
    if m.files.len() == 0 {
        EvolutionModel {
            stage: EvolutionStage::Finished,
            result: EvolutionResultModel::Document { title: m.title, content: m.content },
            ..m
        }
    } else {
        evolution_to(m, EvolutionStage::ShowSize)
    }
}

/// What a rollback that went well says.
pub open spec fn rolled_back(m: EvolutionModel) -> Seq<char> {
    "[ok] rolled back `"@ + m.name + "`\n"@ + (if m.moved {
        "previous state preserved at "@ + site_path(m.root, m.name, m.now) + "\n"@
    } else {
        Seq::empty()
    }) + "restored from "@ + m.latest
}

/// What the command is waiting for.
pub open spec fn evolution_request(m: EvolutionModel) -> EvolutionRequestModel {
    let none = Seq::<char>::empty();
    let deployed = target_path(m.root, m.name);
    let disabled = disabled_place(m.root, m.name);
    let (op, path, to) = match m.stage {
        EvolutionStage::ShowDeployed => (EvolutionOp::IsFile, skill_md(deployed), none),
        EvolutionStage::ShowDisabled => (EvolutionOp::IsFile, skill_md(disabled), none),
        EvolutionStage::ShowBackups | EvolutionStage::RollbackBackups => (
            EvolutionOp::ReadInventory,
            m.root,
            none,
        ),
        EvolutionStage::ShowRead => (EvolutionOp::ReadText, skill_md(m.skill_dir), none),
        EvolutionStage::ShowList => (EvolutionOp::ListTree, m.skill_dir, none),
        EvolutionStage::ShowSize => (EvolutionOp::FileSize, m.files[0], none),
        EvolutionStage::ShowFile => (EvolutionOp::ReadText, m.files[0], none),
        EvolutionStage::RollbackDisabled | EvolutionStage::EnableDisabled => (
            EvolutionOp::IsDir,
            disabled,
            none,
        ),
        EvolutionStage::RollbackDeployed | EvolutionStage::DisableDeployed => (
            EvolutionOp::IsDir,
            deployed,
            none,
        ),
        EvolutionStage::RollbackClock => (EvolutionOp::Clock, none, none),
        EvolutionStage::RollbackSite => (
            EvolutionOp::Exists,
            site_path(m.root, m.name, m.now),
            none,
        ),
        EvolutionStage::RollbackMoveAway => (
            EvolutionOp::Rename,
            deployed,
            site_path(m.root, m.name, m.now),
        ),
        EvolutionStage::RollbackRestore => (EvolutionOp::Rename, m.latest, deployed),
        EvolutionStage::DisableTarget => (EvolutionOp::Exists, disabled, none),
        EvolutionStage::DisableMake => (EvolutionOp::CreateDirs, disabled_root(m.root), none),
        EvolutionStage::DisableMove => (EvolutionOp::Rename, deployed, disabled),
        EvolutionStage::EnableTarget => (EvolutionOp::Exists, deployed, none),
        EvolutionStage::EnableMake => (EvolutionOp::CreateDirs, joined(m.root, "skills"@), none),
        EvolutionStage::EnableMove => (EvolutionOp::Rename, disabled, deployed),
        EvolutionStage::Finished => (EvolutionOp::Finish, none, none),
    };
    EvolutionRequestModel { op, path, to }
}

/// The command after an answer about a skill that is shown.
pub open spec fn after_show(m: EvolutionModel, reply: EvolutionReplyModel) -> EvolutionModel {
    match (m.stage, reply) {
        (EvolutionStage::ShowDeployed, EvolutionReplyModel::Flag(there)) => if there {
            show_at(m, " (deployed)"@, target_path(m.root, m.name))
        } else {
            evolution_to(m, EvolutionStage::ShowDisabled)
        },
        (EvolutionStage::ShowDisabled, EvolutionReplyModel::Flag(there)) => if there {
            show_at(m, " (disabled)"@, disabled_place(m.root, m.name))
        } else {
            evolution_to(m, EvolutionStage::ShowBackups)
        },
        (EvolutionStage::ShowBackups, EvolutionReplyModel::Inventory(inv)) => {
            let backups = all_backups_of(inv, m.name);
            if backups.len() > 0 {
                show_at(m, " (backup only)"@, joined(backups_path(m.root), backups.last()))
            } else {
                complain(m, "no deployed, disabled, or backed-up skill named "@ + m.quote)
            }
        },
        (EvolutionStage::ShowRead, EvolutionReplyModel::Text(r)) => match r {
            Ok(text) => EvolutionModel { content: text, stage: EvolutionStage::ShowList, ..m },
            Err(e) => complain(m, "read "@ + skill_md(m.skill_dir) + ": "@ + e),
        },
        (EvolutionStage::ShowList, EvolutionReplyModel::Tree(entries)) => next_companion(
            EvolutionModel {
                files: companions(m.skill_dir, entries, entries.len() as int),
                ..m
            },
        ),
        (EvolutionStage::ShowSize, EvolutionReplyModel::Size(size)) => if size is Some && size->0
            > MAX_COMPANION_BYTES {
            next_companion(
                EvolutionModel {
                    content: m.content + skipped_text(seen_from(m.root, m.files[0])),
                    files: m.files.skip(1),
                    ..m
                },
            )
        } else {
            evolution_to(m, EvolutionStage::ShowFile)
        },
        (EvolutionStage::ShowFile, EvolutionReplyModel::Text(r)) => next_companion(
            EvolutionModel {
                content: match r {
                    Ok(text) => m.content + companion_text(seen_from(m.root, m.files[0]), text),
                    Err(_) => m.content,
                },
                files: m.files.skip(1),
                ..m
            },
        ),
        _ => m,
    }
}

/// The command after an answer about a rollback.
pub open spec fn after_rollback(m: EvolutionModel, reply: EvolutionReplyModel) -> EvolutionModel {
    match (m.stage, reply) {
        (EvolutionStage::RollbackDisabled, EvolutionReplyModel::Flag(there)) => if there {
            complain(
                m,
                m.quote + " is disabled — use `/evolution enable "@ + m.name + "` first"@,
            )
        } else {
            evolution_to(m, EvolutionStage::RollbackBackups)
        },
        (EvolutionStage::RollbackBackups, EvolutionReplyModel::Inventory(inv)) => {
            let backups = all_backups_of(inv, m.name);
            if backups.len() > 0 {
                EvolutionModel {
                    latest: joined(backups_path(m.root), backups.last()),
                    stage: EvolutionStage::RollbackDeployed,
                    ..m
                }
            } else {
                complain(m, "no backups found for "@ + m.quote + "; nothing to roll back"@)
            }
        },
        (EvolutionStage::RollbackDeployed, EvolutionReplyModel::Flag(there)) => evolution_to(
            m,
            if there {
                EvolutionStage::RollbackClock
            } else {
                EvolutionStage::RollbackRestore
            },
        ),
        (EvolutionStage::RollbackClock, EvolutionReplyModel::Seconds(s)) => EvolutionModel {
            now: s as int,
            tried: 0,
            stage: EvolutionStage::RollbackSite,
            ..m
        },
        (EvolutionStage::RollbackSite, EvolutionReplyModel::Flag(taken)) => if !taken {
            evolution_to(m, EvolutionStage::RollbackMoveAway)
        } else if m.tried + 1 < SITE_ATTEMPTS {
            EvolutionModel { now: m.now + 1, tried: m.tried + 1, ..m }
        } else {
            complain(
                m,
                "could not allocate a pre-rollback site (clock collision); retry in a second"@,
            )
        },
        (EvolutionStage::RollbackMoveAway, EvolutionReplyModel::Done(r)) => match r {
            Ok(_) => EvolutionModel { moved: true, stage: EvolutionStage::RollbackRestore, ..m },
            Err(e) => complain(
                m,
                rename_failure(
                    target_path(m.root, m.name),
                    site_path(m.root, m.name, m.now),
                    e,
                ),
            ),
        },
        (EvolutionStage::RollbackRestore, EvolutionReplyModel::Done(r)) => match r {
            Ok(_) => tell(m, rolled_back(m)),
            Err(e) => complain(
                m,
                rename_failure(m.latest, target_path(m.root, m.name), e)
                    + "\n(the preserved pre-rollback state is still in backups/)"@,
            ),
        },
        _ => m,
    }
}

/// The command after an answer about a skill that is disabled or enabled.
pub open spec fn after_switch(m: EvolutionModel, reply: EvolutionReplyModel) -> EvolutionModel {
    let deployed = target_path(m.root, m.name);
    let disabled = disabled_place(m.root, m.name);
    match (m.stage, reply) {
        (EvolutionStage::DisableDeployed, EvolutionReplyModel::Flag(there)) => if there {
            evolution_to(m, EvolutionStage::DisableTarget)
        } else {
            complain(m, "no deployed skill "@ + m.quote + " (nothing to disable)"@)
        },
        (EvolutionStage::DisableTarget, EvolutionReplyModel::Flag(taken)) => if taken {
            complain(m, "disabled copy of "@ + m.quote + " already exists at "@ + disabled)
        } else {
            evolution_to(m, EvolutionStage::DisableMake)
        },
        (EvolutionStage::DisableMake, _) => evolution_to(m, EvolutionStage::DisableMove),
        (EvolutionStage::DisableMove, EvolutionReplyModel::Done(r)) => match r {
            Ok(_) => tell(
                m,
                "[ok] disabled `"@ + m.name + "` (moved to "@ + disabled
                    + ")\nre-enable with `/evolution enable "@ + m.name + "`"@,
            ),
            Err(e) => complain(m, rename_failure(deployed, disabled, e)),
        },
        (EvolutionStage::EnableDisabled, EvolutionReplyModel::Flag(there)) => if there {
            evolution_to(m, EvolutionStage::EnableTarget)
        } else {
            complain(m, "no disabled skill named "@ + m.quote)
        },
        (EvolutionStage::EnableTarget, EvolutionReplyModel::Flag(taken)) => if taken {
            complain(m, "target "@ + deployed + " already exists"@)
        } else {
            evolution_to(m, EvolutionStage::EnableMake)
        },
        (EvolutionStage::EnableMake, _) => evolution_to(m, EvolutionStage::EnableMove),
        (EvolutionStage::EnableMove, EvolutionReplyModel::Done(r)) => match r {
            Ok(_) => tell(
                m,
                "[ok] enabled `"@ + m.name + "` (back in skills/user-"@ + m.name + ")"@,
            ),
            Err(e) => complain(m, rename_failure(disabled, deployed, e)),
        },
        _ => m,
    }
}

/// The command after the answer to its request.
pub open spec fn evolution_after(m: EvolutionModel, reply: EvolutionReplyModel) -> EvolutionModel {
    match m.stage {
        EvolutionStage::ShowDeployed
        | EvolutionStage::ShowDisabled
        | EvolutionStage::ShowBackups
        | EvolutionStage::ShowRead
        | EvolutionStage::ShowList
        | EvolutionStage::ShowSize
        | EvolutionStage::ShowFile => after_show(m, reply),
        EvolutionStage::RollbackDisabled
        | EvolutionStage::RollbackBackups
        | EvolutionStage::RollbackDeployed
        | EvolutionStage::RollbackClock
        | EvolutionStage::RollbackSite
        | EvolutionStage::RollbackMoveAway
        | EvolutionStage::RollbackRestore => after_rollback(m, reply),
        _ => after_switch(m, reply),
    }
}

/// The stage with which a verb begins.
pub open spec fn first_stage(verb: EvolutionVerb) -> EvolutionStage {
    match verb {
        EvolutionVerb::Show => EvolutionStage::ShowDeployed,
        EvolutionVerb::Rollback => EvolutionStage::RollbackDisabled,
        EvolutionVerb::Disable => EvolutionStage::DisableDeployed,
        EvolutionVerb::Enable => EvolutionStage::EnableDisabled,
    }
}

/// A command that has not begun. One with a name that no skill can have ends before
/// anything is looked at.
pub open spec fn fresh_evolution(
    verb: EvolutionVerb,
    root: Seq<char>,
    name: Seq<char>,
    quote: Seq<char>,
) -> EvolutionModel {
    let none = Seq::<char>::empty();
    EvolutionModel {
        root,
        name,
        quote,
        stage: if valid_name(name) {
            first_stage(verb)
        } else {
            EvolutionStage::Finished
        },
        title: none,
        skill_dir: none,
        content: none,
        files: Seq::empty(),
        latest: none,
        now: 0,
        tried: 0,
        moved: false,
        result: if valid_name(name) {
            EvolutionResultModel::Pending
        } else {
            EvolutionResultModel::Error("invalid skill name: "@ + quote)
        },
    }
}

} // verus!
