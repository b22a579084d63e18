//! Carrying out the `/evolution` command.
use crate::deploy_task::{target_of, target_path};
use crate::evolution_backups::{backups_for, Inventory};
use crate::evolution_command::{
    after_rollback, after_show, after_switch, backups_dir, companion_files, companion_text,
    companions, complain, disabled_dir, disabled_path, disabled_place, display_from,
    evolution_after, evolution_answers, evolution_request, fresh_evolution, is_valid_name,
    next_companion, rename_failure, rollback_site, rolled_back, show_at, site_path, skills_dir,
    skipped_text, tell, EvolutionModel, EvolutionOp, EvolutionReply, EvolutionReplyModel,
    EvolutionRequest, EvolutionResult, EvolutionStage, EvolutionTask, EvolutionVerb,
    MAX_COMPANION_BYTES, SITE_ATTEMPTS,
};
use crate::paths::join_path;
use crate::skill_deploy::{debug_quoted, quoted};
use crate::text::{chars_of, same_text, split_words, views, words};
use vstd::prelude::*;
use vstd::string::StringExecFns;

verus! {

/// Three texts one after another.
fn concat3(a: &str, b: &str, c: &str) -> (r: String)
    ensures
        r@ == a@ + b@ + c@,
{
    let mut s: String = a.to_owned();
    s.append(b);
    s.append(c);
    s
}

/// What is said of a directory that could not be moved.
pub fn rename_error(from: &str, to: &str, e: &str) -> (r: String)
    ensures
        r@ == rename_failure(from@, to@, e@),
{
    let mut s: String = concat3("rename ", from, " -> ");
    s.append(to);
    s.append(" failed: ");
    s.append(e);
    s
}

/// Begins the command for the skill `name` below the directory `root`; `quote` is the
/// name in quotes.
pub fn begin_quoted(verb: EvolutionVerb, root: &str, name: &str, quote: String) -> (r:
    EvolutionTask)
    ensures
        r.wf(),
        r@ == fresh_evolution(verb, root@, name@, quote@),
{
    let valid: bool = is_valid_name(name);
    let result = if valid {
        EvolutionResult::Pending
    } else {
        let mut s: String = "invalid skill name: ".to_owned();
        s.append(quote.as_str());
        EvolutionResult::Error(s)
    };
    let r = EvolutionTask {
        root: root.to_owned(),
        name: name.to_owned(),
        quote,
        stage: if !valid {
            EvolutionStage::Finished
        } else {
            match verb {
                EvolutionVerb::Show => EvolutionStage::ShowDeployed,
                EvolutionVerb::Rollback => EvolutionStage::RollbackDisabled,
                EvolutionVerb::Disable => EvolutionStage::DisableDeployed,
                EvolutionVerb::Enable => EvolutionStage::EnableDisabled,
            }
        },
        title: String::new(),
        skill_dir: String::new(),
        content: String::new(),
        files: Vec::new(),
        next_file: 0,
        latest: String::new(),
        now: 0,
        tried: 0,
        moved: false,
        result,
    };
    proof {
        let none = Seq::<char>::empty();
        assert(r@.title =~= none);
        assert(r@.skill_dir =~= none);
        assert(r@.content =~= none);
        assert(r@.files =~= Seq::empty());
        assert(r@.latest =~= none);
    }
    r
}

/// Begins the command for the skill `name` below the directory `root`.
pub fn begin(verb: EvolutionVerb, root: &str, name: &str) -> (r: EvolutionTask)
    ensures
        r.wf(),
        r@ == fresh_evolution(verb, root@, name@, debug_quoted(name@)),
{
    begin_quoted(verb, root, name, quoted(name))
}

/// Begins to show the skill `name`.
pub fn show(root: &str, name: &str) -> (r: EvolutionTask)
    ensures
        r.wf(),
        r@ == fresh_evolution(EvolutionVerb::Show, root@, name@, debug_quoted(name@)),
{
    begin(EvolutionVerb::Show, root, name)
}

/// Begins to bring back the newest backup of the skill `name`.
pub fn rollback(root: &str, name: &str) -> (r: EvolutionTask)
    ensures
        r.wf(),
        r@ == fresh_evolution(EvolutionVerb::Rollback, root@, name@, debug_quoted(name@)),
{
    begin(EvolutionVerb::Rollback, root, name)
}

/// Begins to take the skill `name` out of use.
pub fn disable(root: &str, name: &str) -> (r: EvolutionTask)
    ensures
        r.wf(),
        r@ == fresh_evolution(EvolutionVerb::Disable, root@, name@, debug_quoted(name@)),
{
    begin(EvolutionVerb::Disable, root, name)
}

/// Begins to take the skill `name` into use again.
pub fn enable(root: &str, name: &str) -> (r: EvolutionTask)
    ensures
        r.wf(),
        r@ == fresh_evolution(EvolutionVerb::Enable, root@, name@, debug_quoted(name@)),
{
    begin(EvolutionVerb::Enable, root, name)
}

impl EvolutionTask {
    /// The place in the list of companions lies inside it, and no more moments have been
    /// tried than may be.
    pub open spec fn wf(self) -> bool {
        &&& self.next_file <= self.files@.len()
        &&& self.stage == EvolutionStage::ShowSize || self.stage == EvolutionStage::ShowFile
            ==> self.next_file < self.files@.len()
        &&& self.tried < SITE_ATTEMPTS
        &&& self.now - self.tried <= u64::MAX - SITE_ATTEMPTS
    }

    fn deployed(&self) -> (r: String)
        ensures
            r@ == target_path(self@.root, self@.name),
    {
        target_of(self.root.as_str(), self.name.as_str())
    }

    fn disabled(&self) -> (r: String)
        ensures
            r@ == disabled_place(self@.root, self@.name),
    {
        disabled_path(self.root.as_str(), self.name.as_str())
    }

    fn site(&self) -> (r: String)
        ensures
            r@ == site_path(self@.root, self@.name, self@.now),
    {
        rollback_site(self.root.as_str(), self.name.as_str(), self.now)
    }

    /// What the command is waiting for.
    pub fn request(&self) -> (r: EvolutionRequest)
        requires
            self.wf(),
        ensures
            r@ == evolution_request(self@),
    {
        let op: EvolutionOp = match self.stage {
            EvolutionStage::ShowDeployed | EvolutionStage::ShowDisabled => EvolutionOp::IsFile,
            EvolutionStage::ShowBackups
            | EvolutionStage::RollbackBackups => EvolutionOp::ReadInventory,
            EvolutionStage::ShowRead | EvolutionStage::ShowFile => EvolutionOp::ReadText,
            EvolutionStage::ShowList => EvolutionOp::ListTree,
            EvolutionStage::ShowSize => EvolutionOp::FileSize,
            EvolutionStage::RollbackDisabled
            | EvolutionStage::EnableDisabled
            | EvolutionStage::RollbackDeployed
            | EvolutionStage::DisableDeployed => EvolutionOp::IsDir,
            EvolutionStage::RollbackClock => EvolutionOp::Clock,
            EvolutionStage::RollbackSite
            | EvolutionStage::DisableTarget
            | EvolutionStage::EnableTarget => EvolutionOp::Exists,
            EvolutionStage::RollbackMoveAway
            | EvolutionStage::RollbackRestore
            | EvolutionStage::DisableMove
            | EvolutionStage::EnableMove => EvolutionOp::Rename,
            EvolutionStage::DisableMake | EvolutionStage::EnableMake => EvolutionOp::CreateDirs,
            EvolutionStage::Finished => EvolutionOp::Finish,
        };
        let path: String = match self.stage {
            EvolutionStage::ShowDeployed => join_path(self.deployed().as_str(), "SKILL.md"),
            EvolutionStage::ShowDisabled => join_path(self.disabled().as_str(), "SKILL.md"),
            EvolutionStage::ShowBackups | EvolutionStage::RollbackBackups => self.root.clone(),
            EvolutionStage::ShowRead => join_path(self.skill_dir.as_str(), "SKILL.md"),
            EvolutionStage::ShowList => self.skill_dir.clone(),
            EvolutionStage::ShowSize
            | EvolutionStage::ShowFile => self.files[self.next_file].clone(),
            EvolutionStage::RollbackDisabled
            | EvolutionStage::EnableDisabled
            | EvolutionStage::DisableTarget
            | EvolutionStage::EnableMove => self.disabled(),
            EvolutionStage::RollbackDeployed
            | EvolutionStage::DisableDeployed
            | EvolutionStage::RollbackMoveAway
            | EvolutionStage::DisableMove
            | EvolutionStage::EnableTarget => self.deployed(),
            EvolutionStage::RollbackSite => self.site(),
            EvolutionStage::RollbackRestore => self.latest.clone(),
            EvolutionStage::DisableMake => disabled_dir(self.root.as_str()),
            EvolutionStage::EnableMake => skills_dir(self.root.as_str()),
            EvolutionStage::RollbackClock | EvolutionStage::Finished => String::new(),
        };
        let to: String = match self.stage {
            EvolutionStage::RollbackMoveAway => self.site(),
            EvolutionStage::RollbackRestore | EvolutionStage::EnableMove => self.deployed(),
            EvolutionStage::DisableMove => self.disabled(),
            _ => String::new(),
        };
        let r = EvolutionRequest { op, path, to };
        assert(r@.path =~= evolution_request(self@).path);
        assert(r@.to =~= evolution_request(self@).to);
        r
    }

    fn complain(&mut self, text: String)
        requires
            old(self).wf(),
        ensures
            final(self).wf(),
            final(self)@ == complain(old(self)@, text@),
    {
        self.stage = EvolutionStage::Finished;
        self.result = EvolutionResult::Error(text);
    }

    fn tell(&mut self, text: String)
        requires
            old(self).wf(),
        ensures
            final(self).wf(),
            final(self)@ == tell(old(self)@, text@),
    {
        self.stage = EvolutionStage::Finished;
        self.result = EvolutionResult::Message(text);
    }

    fn show_at(&mut self, state: &str, dir: String)
        requires
            old(self).wf(),
        ensures
            final(self).wf(),
            final(self)@ == show_at(old(self)@, state@, dir@),
    {
        self.title = concat3("evolution skill: ", self.name.as_str(), state);
        self.skill_dir = dir;
        self.stage = EvolutionStage::ShowRead;
    }

    fn next_companion(&mut self)
        requires
            old(self).next_file <= old(self).files@.len(),
            old(self).tried < SITE_ATTEMPTS,
            old(self).now - old(self).tried <= u64::MAX - SITE_ATTEMPTS,
        ensures
            final(self).wf(),
            final(self)@ == next_companion(old(self)@),
    {
        if self.next_file == self.files.len() {
            self.result =
            EvolutionResult::Document { title: self.title.clone(), content: self.content.clone() };
            self.stage = EvolutionStage::Finished;
        } else {
            self.stage = EvolutionStage::ShowSize;
        }
    }

    fn after_show(&mut self, reply: EvolutionReply)
        requires
            old(self).wf(),
            evolution_answers(evolution_request(old(self)@).op, reply@),
        ensures
            final(self).wf(),
            final(self)@ == after_show(old(self)@, reply@),
    {
        match (self.stage, reply) {
            (EvolutionStage::ShowDeployed, EvolutionReply::Flag(there)) => {
                if there {
                    let dir: String = self.deployed();
                    self.show_at(" (deployed)", dir);
                } else {
                    self.stage = EvolutionStage::ShowDisabled;
                }
            },
            (EvolutionStage::ShowDisabled, EvolutionReply::Flag(there)) => {
                if there {
                    let dir: String = self.disabled();
                    self.show_at(" (disabled)", dir);
                } else {
                    self.stage = EvolutionStage::ShowBackups;
                }
            },
            (EvolutionStage::ShowBackups, EvolutionReply::Inventory(inv)) => {
                let backups: Vec<String> = backups_for(&inv, self.name.as_str());
                if backups.len() > 0 {
                    let dir: String = join_path(
                        backups_dir(self.root.as_str()).as_str(),
                        backups[backups.len() - 1].as_str(),
                    );
                    self.show_at(" (backup only)", dir);
                } else {
                    let mut s: String =
                        "no deployed, disabled, or backed-up skill named ".to_owned();
                    s.append(self.quote.as_str());
                    self.complain(s);
                }
            },
            (EvolutionStage::ShowRead, EvolutionReply::Text(r)) => match r {
                Ok(text) => {
                    self.content = text;
                    self.stage = EvolutionStage::ShowList;
                },
                Err(e) => {
                    let md: String = join_path(self.skill_dir.as_str(), "SKILL.md");
                    let mut s: String = concat3("read ", md.as_str(), ": ");
                    s.append(e.as_str());
                    self.complain(s);
                },
            },
            (EvolutionStage::ShowList, EvolutionReply::Tree(entries)) => {
                self.files = companion_files(self.skill_dir.as_str(), &entries);
                self.next_file = 0;
                assert(self@.files =~= views(self.files@));
                self.next_companion();
            },
            (EvolutionStage::ShowSize, EvolutionReply::Size(size)) => {
                let too_large: bool = match size {
                    Some(n) => n > MAX_COMPANION_BYTES,
                    None => false,
                };
                if too_large {
                    let name: String = display_from(
                        self.root.as_str(),
                        self.files[self.next_file].as_str(),
                    );
                    let ghost before = self.content@;
                    self.content.append("\n\n[skipped: ");
                    self.content.append(name.as_str());
                    self.content.append(" exceeds 1MiB]");
                    assert(self.content@ =~= before + skipped_text(name@));
                    let count: usize = self.files.len();
                    assert(self.next_file < count);
                    self.next_file = self.next_file + 1;
                    assert(self@.files =~= old(self)@.files.skip(1));
                    self.next_companion();
                } else {
                    self.stage = EvolutionStage::ShowFile;
                }
            },
            (EvolutionStage::ShowFile, EvolutionReply::Text(r)) => {
                if let Ok(text) = r {
                    let name: String = display_from(
                        self.root.as_str(),
                        self.files[self.next_file].as_str(),
                    );
                    let ghost before = self.content@;
                    self.content.append("\n\n--- ");
                    self.content.append(name.as_str());
                    self.content.append(" ---\n");
                    self.content.append(text.as_str());
                    assert(self.content@ =~= before + companion_text(name@, text@));
                }
                let count: usize = self.files.len();
                assert(self.next_file < count);
                self.next_file = self.next_file + 1;
                assert(self@.files =~= old(self)@.files.skip(1));
                self.next_companion();
            },
            _ => {},
        }
    }

    fn rolled_back(&self) -> (r: String)
        ensures
            r@ == rolled_back(self@),
    {
        let mut s: String = concat3("[ok] rolled back `", self.name.as_str(), "`\n");
        if self.moved {
            s.append("previous state preserved at ");
            s.append(self.site().as_str());
            s.append("\n");
        }
        s.append("restored from ");
        s.append(self.latest.as_str());
        assert(s@ =~= rolled_back(self@));
        s
    }

    fn after_rollback(&mut self, reply: EvolutionReply)
        requires
            old(self).wf(),
            evolution_answers(evolution_request(old(self)@).op, reply@),
        ensures
            final(self).wf(),
            final(self)@ == after_rollback(old(self)@, reply@),
    {
        match (self.stage, reply) {
            (EvolutionStage::RollbackDisabled, EvolutionReply::Flag(there)) => {
                if there {
                    let mut s: String = concat3(
                        self.quote.as_str(),
                        " is disabled — use `/evolution enable ",
                        self.name.as_str(),
                    );
                    s.append("` first");
                    self.complain(s);
                } else {
                    self.stage = EvolutionStage::RollbackBackups;
                }
            },
            (EvolutionStage::RollbackBackups, EvolutionReply::Inventory(inv)) => {
                let backups: Vec<String> = backups_for(&inv, self.name.as_str());
                if backups.len() > 0 {
                    self.latest =
                    join_path(
                        backups_dir(self.root.as_str()).as_str(),
                        backups[backups.len() - 1].as_str(),
                    );
                    self.stage = EvolutionStage::RollbackDeployed;
                } else {
                    let s: String = concat3(
                        "no backups found for ",
                        self.quote.as_str(),
                        "; nothing to roll back",
                    );
                    self.complain(s);
                }
            },
            (EvolutionStage::RollbackDeployed, EvolutionReply::Flag(there)) => {
                self.stage = if there {
                    EvolutionStage::RollbackClock
                } else {
                    EvolutionStage::RollbackRestore
                };
            },
            (EvolutionStage::RollbackClock, EvolutionReply::Seconds(s)) => {
                self.now = s;
                self.tried = 0;
                self.stage = EvolutionStage::RollbackSite;
            },
            (EvolutionStage::RollbackSite, EvolutionReply::Flag(taken)) => {
                if !taken {
                    self.stage = EvolutionStage::RollbackMoveAway;
                } else if self.tried + 1 < SITE_ATTEMPTS {
                    self.now = self.now + 1;
                    self.tried = self.tried + 1;
                } else {
                    self.complain(
                        "could not allocate a pre-rollback site (clock collision); retry in a second".to_owned(),
                    );
                }
            },
            (EvolutionStage::RollbackMoveAway, EvolutionReply::Done(r)) => match r {
                Ok(_) => {
                    self.moved = true;
                    self.stage = EvolutionStage::RollbackRestore;
                },
                Err(e) => {
                    let s: String = rename_error(
                        self.deployed().as_str(),
                        self.site().as_str(),
                        e.as_str(),
                    );
                    self.complain(s);
                },
            },
            (EvolutionStage::RollbackRestore, EvolutionReply::Done(r)) => match r {
                Ok(_) => {
                    let s: String = self.rolled_back();
                    self.tell(s);
                },
                Err(e) => {
                    let mut s: String = rename_error(
                        self.latest.as_str(),
                        self.deployed().as_str(),
                        e.as_str(),
                    );
                    s.append("\n(the preserved pre-rollback state is still in backups/)");
                    self.complain(s);
                },
            },
            _ => {},
        }
    }

    fn after_switch(&mut self, reply: EvolutionReply)
        requires
            old(self).wf(),
            evolution_answers(evolution_request(old(self)@).op, reply@),
        ensures
            final(self).wf(),
            final(self)@ == after_switch(old(self)@, reply@),
    {
        match (self.stage, reply) {
            (EvolutionStage::DisableDeployed, EvolutionReply::Flag(there)) => {
                if there {
                    self.stage = EvolutionStage::DisableTarget;
                } else {
                    let s: String = concat3(
                        "no deployed skill ",
                        self.quote.as_str(),
                        " (nothing to disable)",
                    );
                    self.complain(s);
                }
            },
            (EvolutionStage::DisableTarget, EvolutionReply::Flag(taken)) => {
                if taken {
                    let mut s: String = concat3(
                        "disabled copy of ",
                        self.quote.as_str(),
                        " already exists at ",
                    );
                    s.append(self.disabled().as_str());
                    self.complain(s);
                } else {
                    self.stage = EvolutionStage::DisableMake;
                }
            },
            (EvolutionStage::DisableMake, _) => {
                self.stage = EvolutionStage::DisableMove;
            },
            (EvolutionStage::DisableMove, EvolutionReply::Done(r)) => match r {
                Ok(_) => {
                    let mut s: String = concat3(
                        "[ok] disabled `",
                        self.name.as_str(),
                        "` (moved to ",
                    );
                    s.append(self.disabled().as_str());
                    s.append(")\nre-enable with `/evolution enable ");
                    s.append(self.name.as_str());
                    s.append("`");
                    self.tell(s);
                },
                Err(e) => {
                    let s: String = rename_error(
                        self.deployed().as_str(),
                        self.disabled().as_str(),
                        e.as_str(),
                    );
                    self.complain(s);
                },
            },
            (EvolutionStage::EnableDisabled, EvolutionReply::Flag(there)) => {
                if there {
                    self.stage = EvolutionStage::EnableTarget;
                } else {
                    let mut s: String = "no disabled skill named ".to_owned();
                    s.append(self.quote.as_str());
                    self.complain(s);
                }
            },
            (EvolutionStage::EnableTarget, EvolutionReply::Flag(taken)) => {
                if taken {
                    let s: String = concat3("target ", self.deployed().as_str(), " already exists");
                    self.complain(s);
                } else {
                    self.stage = EvolutionStage::EnableMake;
                }
            },
            (EvolutionStage::EnableMake, _) => {
                self.stage = EvolutionStage::EnableMove;
            },
            (EvolutionStage::EnableMove, EvolutionReply::Done(r)) => match r {
                Ok(_) => {
                    let mut s: String = concat3(
                        "[ok] enabled `",
                        self.name.as_str(),
                        "` (back in skills/user-",
                    );
                    s.append(self.name.as_str());
                    s.append(")");
                    self.tell(s);
                },
                Err(e) => {
                    let s: String = rename_error(
                        self.disabled().as_str(),
                        self.deployed().as_str(),
                        e.as_str(),
                    );
                    self.complain(s);
                },
            },
            _ => {},
        }
    }

    /// Takes in the answer to the request.
    pub fn reply(&mut self, reply: EvolutionReply)
        requires
            old(self).wf(),
            evolution_answers(evolution_request(old(self)@).op, reply@),
        ensures
            final(self).wf(),
            final(self)@ == evolution_after(old(self)@, reply@),
    {
        match self.stage {
            EvolutionStage::ShowDeployed
            | EvolutionStage::ShowDisabled
            | EvolutionStage::ShowBackups
            | EvolutionStage::ShowRead
            | EvolutionStage::ShowList
            | EvolutionStage::ShowSize
            | EvolutionStage::ShowFile => self.after_show(reply),
            EvolutionStage::RollbackDisabled
            | EvolutionStage::RollbackBackups
            | EvolutionStage::RollbackDeployed
            | EvolutionStage::RollbackClock
            | EvolutionStage::RollbackSite
            | EvolutionStage::RollbackMoveAway
            | EvolutionStage::RollbackRestore => self.after_rollback(reply),
            _ => self.after_switch(reply),
        }
    }
}

// --------------------------------------------------------------------- command

/// The `/evolution` command.
#[derive(Debug, Clone, Copy)]
pub struct EvolutionCommand;

/// How the command is used.
pub const EVOLUTION_USAGE: &'static str = "/evolution [list | show <name> | rollback <name> | disable <name> | enable <name>]";

/// What the arguments of the command ask for.
#[derive(Debug)]
pub enum EvolutionCall {
    /// A list of what is on disk.
    List,
    /// Something done with a skill.
    Do(EvolutionVerb, String),
    /// The arguments make no sense.
    Error(String),
}

/// [`EvolutionCall`] by its texts.
pub enum CallModel {
    List,
    Do(EvolutionVerb, Seq<char>),
    Error(Seq<char>),
}

impl View for EvolutionCall {
    type V = CallModel;

    open spec fn view(&self) -> CallModel {
        match self {
            EvolutionCall::List => CallModel::List,
            EvolutionCall::Do(v, s) => CallModel::Do(*v, s@),
            EvolutionCall::Error(s) => CallModel::Error(s@),
        }
    }
}

/// The verb that a word stands for.
pub open spec fn verb_of(word: Seq<char>) -> Option<EvolutionVerb> {
    if word == "show"@ {
        Some(EvolutionVerb::Show)
    } else if word == "rollback"@ {
        Some(EvolutionVerb::Rollback)
    } else if word == "disable"@ {
        Some(EvolutionVerb::Disable)
    } else if word == "enable"@ {
        Some(EvolutionVerb::Enable)
    } else {
        None
    }
}

/// What the words of the arguments ask for; `quote` is the first word in quotes. No
/// words ask for the list.
pub open spec fn call_of(args: Seq<Seq<char>>, quote: Seq<char>) -> CallModel {
    if args.len() == 0 || args[0] == "list"@ {
        CallModel::List
    } else {
        match verb_of(args[0]) {
            Some(verb) => if args.len() > 1 {
                CallModel::Do(verb, args[1])
            } else {
                CallModel::Error("`/"@ + args[0] + "` requires a skill name. "@ + EVOLUTION_USAGE@)
            },
            None => CallModel::Error(
                "unknown subcommand "@ + quote + ". "@ + EVOLUTION_USAGE@,
            ),
        }
    }
}

/// The verb that a word stands for.
pub fn verb_from(word: &str) -> (r: Option<EvolutionVerb>)
    ensures
        r == verb_of(word@),
{
    if same_text(word, "show") {
        Some(EvolutionVerb::Show)
    } else if same_text(word, "rollback") {
        Some(EvolutionVerb::Rollback)
    } else if same_text(word, "disable") {
        Some(EvolutionVerb::Disable)
    } else if same_text(word, "enable") {
        Some(EvolutionVerb::Enable)
    } else {
        None
    }
}

/// What the words of the arguments ask for; `quote` is the first word in quotes.
pub fn call_from(args: &Vec<String>, quote: &str) -> (r: EvolutionCall)
    ensures
        r@ == call_of(views(args@), quote@),
{
    assert(views(args@).len() == args@.len());
    if args.len() == 0 || same_text(args[0].as_str(), "list") {
        return EvolutionCall::List;
    }
    match verb_from(args[0].as_str()) {
        Some(verb) => {
            if args.len() > 1 {
                EvolutionCall::Do(verb, args[1].clone())
            } else {
                let mut s: String = concat3(
                    "`/",
                    args[0].as_str(),
                    "` requires a skill name. ",
                );
                s.append(EVOLUTION_USAGE);
                EvolutionCall::Error(s)
            }
        },
        None => {
            let mut s: String = concat3("unknown subcommand ", quote, ". ");
            s.append(EVOLUTION_USAGE);
            EvolutionCall::Error(s)
        },
    }
}

impl EvolutionCommand {
    /// The name of the command.
    pub fn name(&self) -> (r: &'static str)
        ensures
            r@ == "evolution"@,
    {
        "evolution"
    }

    /// What the command is for.
    pub fn description(&self) -> (r: &'static str)
        ensures
            r@ == "Manage evolution-deployed skills (list/show/rollback/disable/enable)"@,
    {
        "Manage evolution-deployed skills (list/show/rollback/disable/enable)"
    }

    /// How the command is used.
    pub fn usage(&self) -> (r: &'static str)
        ensures
            r@ == EVOLUTION_USAGE@,
    {
        EVOLUTION_USAGE
    }

    /// The command takes arguments.
    pub fn takes_args(&self) -> (r: bool)
        ensures
            r,
    {
        true
    }

    /// The command can do without them.
    pub fn args_required(&self) -> (r: bool)
        ensures
            !r,
    {
        false
    }

    /// What stands in place of arguments.
    pub fn arg_placeholder(&self) -> (r: Option<&'static str>)
        ensures
            r matches Some(s) && s@
                == "[list | show <name> | rollback <name> | disable <name> | enable <name>]"@,
    {
        Some("[list | show <name> | rollback <name> | disable <name> | enable <name>]")
    }

    /// What the arguments ask for.
    pub fn run(&self, args: &str) -> (r: EvolutionCall)
        ensures
            r@ == call_of(
                words(args@),
                if words(args@).len() > 0 {
                    debug_quoted(words(args@)[0])
                } else {
                    debug_quoted(Seq::empty())
                },
            ),
    {
        let v: Vec<char> = chars_of(args);
        let parts: Vec<String> = split_words(&v);
        assert(views(parts@).len() == parts@.len());
        let quote: String = if parts.len() > 0 {
            quoted(parts[0].as_str())
        } else {
            let none: String = String::new();
            assert(none@ =~= Seq::empty());
            quoted(none.as_str())
        };
        call_from(&parts, quote.as_str())
    }
}

// ------------------------------------------------------------------------ laws

/// A skill is moved only to where nothing stands: the place has been looked at and found
/// free, or what stood there has just been put aside.
#[verifier::spinoff_prover]
#[verifier::rlimit(60)]
pub proof fn moves_go_to_free_places(m: EvolutionModel, reply: EvolutionReplyModel)
    requires
        evolution_answers(evolution_request(m).op, reply),
    ensures
        ({
            let n = evolution_after(m, reply);
            let free = reply == EvolutionReplyModel::Flag(false);
            &&& n.stage == EvolutionStage::RollbackMoveAway ==> m.stage
                == EvolutionStage::RollbackSite && free && evolution_request(m).path
                == evolution_request(n).to
            &&& n.stage == EvolutionStage::RollbackRestore ==> (m.stage
                == EvolutionStage::RollbackDeployed && free) || (m.stage
                == EvolutionStage::RollbackMoveAway && (reply matches EvolutionReplyModel::Done(r)
                && r is Ok))
            &&& n.stage == EvolutionStage::DisableMove ==> m.stage == EvolutionStage::DisableMake
            &&& n.stage == EvolutionStage::DisableMake ==> m.stage == EvolutionStage::DisableTarget
                && free && evolution_request(m).path == disabled_place(m.root, m.name)
            &&& n.stage == EvolutionStage::EnableMove ==> m.stage == EvolutionStage::EnableMake
            &&& n.stage == EvolutionStage::EnableMake ==> m.stage == EvolutionStage::EnableTarget
                && free && evolution_request(m).path == target_path(m.root, m.name)
        }),
{
}

/// A disabled skill is never rolled back: the command ends with a complaint before
/// anything is moved.
pub proof fn disabled_skills_are_not_rolled_back(m: EvolutionModel)
    requires
        m.stage == EvolutionStage::RollbackDisabled,
    ensures
        ({
            let n = evolution_after(m, EvolutionReplyModel::Flag(true));
            n.stage == EvolutionStage::Finished && n.result is Error
        }),
{
}

/// Enabling a skill undoes disabling it: the one moves back what the other moved.
pub proof fn enabling_undoes_disabling(m: EvolutionModel, n: EvolutionModel)
    requires
        m.root == n.root,
        m.name == n.name,
        m.stage == EvolutionStage::DisableMove,
        n.stage == EvolutionStage::EnableMove,
    ensures
        evolution_request(m).op == EvolutionOp::Rename,
        evolution_request(n).op == EvolutionOp::Rename,
        evolution_request(m).path == evolution_request(n).to,
        evolution_request(m).to == evolution_request(n).path,
{
}

} // verus!
