//! Keeping the history of the memory directory in a git repository of its own.
//!
//! Only Markdown is tracked. A snapshot that finds nothing new adds no commit, save that a
//! fresh repository gets a first one. Every failure is handed back as a text.
use crate::paths::{join_path, joined};
use crate::text::{
    contains, contains_text, is_blank, is_blank_text, join_texts, join_with, trim, trim_text, views,
};
use vstd::prelude::*;
use vstd::string::StringExecFns;

verus! {

/// What is not tracked: everything but directories and Markdown, at any depth.
pub const GITIGNORE: &'static str = "# Managed by cf-memory: track only markdown.\n#\n# Whitelist (order matters, last match wins):\n#   *      ignore every file and directory, at any depth\n#   !*/    re-include directories so git may recurse into them\n#   !*.md  re-include markdown files, at any depth\n#\n# SQLite databases (index.sqlite + WAL/SHM sidecars) and lock files are\n# therefore never committed.\n*\n!*/\n!*.md\n";

/// What a snapshot asks of the machine.
#[derive(Debug, Clone, Copy, PartialEq, Eq, Structural)]
pub enum BackupOp {
    /// Is there a directory: answered by a flag.
    IsDir,
    /// Is there anything: answered by a flag.
    Exists,
    /// Write the list of what is not tracked.
    WriteIgnore,
    /// Run git in the directory with the arguments: answered by what came of it.
    Git,
    /// Nothing more is to be done.
    Finish,
}

/// One thing to do or to look up.
#[derive(Debug)]
pub struct BackupRequest {
    pub op: BackupOp,
    pub path: String,
    /// The arguments for git.
    pub args: Vec<String>,
}

/// [`BackupRequest`] by its texts.
pub struct BackupRequestModel {
    pub op: BackupOp,
    pub path: Seq<char>,
    pub args: Seq<Seq<char>>,
}

impl View for BackupRequest {
    type V = BackupRequestModel;

    open spec fn view(&self) -> BackupRequestModel {
        BackupRequestModel { op: self.op, path: self.path@, args: views(self.args@) }
    }
}

/// What came of running git.
#[derive(Debug)]
pub struct GitOutput {
    /// The exit code, where there is one.
    pub code: Option<i32>,
    pub stdout: String,
    pub stderr: String,
}

/// [`GitOutput`] by its texts.
pub struct GitOutputModel {
    pub code: Option<i32>,
    pub stdout: Seq<char>,
    pub stderr: Seq<char>,
}

impl View for GitOutput {
    type V = GitOutputModel;

    open spec fn view(&self) -> GitOutputModel {
        GitOutputModel { code: self.code, stdout: self.stdout@, stderr: self.stderr@ }
    }
}

/// What came of a request; a failure carries its message.
#[derive(Debug)]
pub enum BackupReply {
    Flag(bool),
    Done(Result<(), String>),
    Git(Result<GitOutput, String>),
}

/// [`BackupReply`] by its texts.
pub enum BackupReplyModel {
    Flag(bool),
    Done(Result<(), Seq<char>>),
    Git(Result<GitOutputModel, Seq<char>>),
}

impl View for BackupReply {
    type V = BackupReplyModel;

    open spec fn view(&self) -> BackupReplyModel {
        match self {
            BackupReply::Flag(b) => BackupReplyModel::Flag(*b),
            BackupReply::Done(r) => BackupReplyModel::Done(
                match r {
                    Ok(_) => Ok(()),
                    Err(e) => Err(e@),
                },
            ),
            BackupReply::Git(r) => BackupReplyModel::Git(
                match r {
                    Ok(o) => Ok(o@),
                    Err(e) => Err(e@),
                },
            ),
        }
    }
}

/// `reply` is an answer to a request for `op`.
pub open spec fn backup_answers(op: BackupOp, reply: BackupReplyModel) -> bool {
    match op {
        BackupOp::IsDir | BackupOp::Exists => reply is Flag,
        BackupOp::WriteIgnore => reply is Done,
        BackupOp::Git => reply is Git,
        BackupOp::Finish => false,
    }
}

/// Where a snapshot stands.
#[derive(Debug, Clone, Copy, PartialEq, Eq, Structural)]
pub enum BackupStage {
    Root,
    GitDir,
    Init,
    Ignore,
    WriteIgnore,
    NameGet,
    NameSet,
    EmailGet,
    EmailSet,
    Add,
    Diff,
    Head,
    /// The commit is made even where it holds nothing new.
    FirstCommit,
    Commit,
    Done,
    Failed,
}

/// A snapshot under way.
#[derive(Debug)]
pub struct SnapshotTask {
    pub root: String,
    pub message: String,
    pub stage: BackupStage,
    /// Why the snapshot failed.
    pub error: String,
}

/// [`SnapshotTask`] by its texts.
pub struct SnapshotModel {
    pub root: Seq<char>,
    pub message: Seq<char>,
    pub stage: BackupStage,
    pub error: Seq<char>,
}

impl View for SnapshotTask {
    type V = SnapshotModel;

    open spec fn view(&self) -> SnapshotModel {
        SnapshotModel {
            root: self.root@,
            message: self.message@,
            stage: self.stage,
            error: self.error@,
        }
    }
}

/// The arguments for git at a stage.
pub open spec fn git_args(m: SnapshotModel) -> Seq<Seq<char>> {
    match m.stage {
        BackupStage::Init => seq!["init"@, "-q"@],
        BackupStage::NameGet => seq!["config"@, "--local"@, "user.name"@],
        BackupStage::NameSet => seq!["config"@, "--local"@, "user.name"@, "qidi-memory"@],
        BackupStage::EmailGet => seq!["config"@, "--local"@, "user.email"@],
        BackupStage::EmailSet => seq!["config"@, "--local"@, "user.email"@, "qidi-memory@local"@],
        BackupStage::Add => seq!["add"@, "-A"@],
        BackupStage::Diff => seq!["diff"@, "--cached"@, "--quiet"@],
        BackupStage::Head => seq!["rev-parse"@, "--verify"@, "--quiet"@, "HEAD"@],
        BackupStage::FirstCommit => seq!["commit"@, "-q"@, "--allow-empty"@, "-m"@, m.message],
        BackupStage::Commit => seq!["commit"@, "-q"@, "-m"@, m.message],
        _ => Seq::empty(),
    }
}

/// What a snapshot is waiting for.
pub open spec fn backup_request(m: SnapshotModel) -> BackupRequestModel {
    BackupRequestModel {
        op: match m.stage {
            BackupStage::Root => BackupOp::IsDir,
            BackupStage::GitDir | BackupStage::Ignore => BackupOp::Exists,
            BackupStage::WriteIgnore => BackupOp::WriteIgnore,
            BackupStage::Done | BackupStage::Failed => BackupOp::Finish,
            _ => BackupOp::Git,
        },
        path: match m.stage {
            BackupStage::GitDir => joined(m.root, ".git"@),
            BackupStage::Ignore | BackupStage::WriteIgnore => joined(m.root, ".gitignore"@),
            _ => m.root,
        },
        args: git_args(m),
    }
}

/// On to the next stage.
pub open spec fn backup_to(m: SnapshotModel, stage: BackupStage) -> SnapshotModel {
    SnapshotModel { stage, ..m }
}

/// The snapshot has failed.
pub open spec fn backup_fail(m: SnapshotModel, error: Seq<char>) -> SnapshotModel {
    SnapshotModel { stage: BackupStage::Failed, error, ..m }
}

/// The command was carried out.
pub open spec fn succeeded(o: GitOutputModel) -> bool {
    o.code == Some(0i32)
}

/// A command that has to be carried out: on to the next stage, or why it was not.
pub open spec fn after_command(
    m: SnapshotModel,
    r: Result<GitOutputModel, Seq<char>>,
    next: BackupStage,
) -> SnapshotModel {
    let line = join_with(git_args(m), " "@);
    match r {
        Err(e) => backup_fail(m, "failed to run git "@ + line + ": "@ + e),
        Ok(o) => if succeeded(o) {
            backup_to(m, next)
        } else {
            backup_fail(m, "git "@ + line + " failed: "@ + trim(o.stderr))
        },
    }
}

/// A setting was looked up: it is set where it is missing.
pub open spec fn after_lookup(
    m: SnapshotModel,
    r: Result<GitOutputModel, Seq<char>>,
    set: BackupStage,
    next: BackupStage,
) -> SnapshotModel {
    match r {
        Err(e) => backup_fail(m, "failed to run git config: "@ + e),
        Ok(o) => if succeeded(o) && !is_blank(o.stdout) {
            backup_to(m, next)
        } else {
            backup_to(m, set)
        },
    }
}

/// The snapshot after a commit was tried: that there is nothing to commit is no failure.
pub open spec fn after_commit(m: SnapshotModel, r: Result<GitOutputModel, Seq<char>>) -> SnapshotModel {
    match r {
        Err(e) => backup_fail(m, "failed to run git commit: "@ + e),
        Ok(o) => {
            let all = o.stdout + o.stderr;
            if succeeded(o) || contains(all, "nothing to commit"@) || contains(
                all,
                "no changes added to commit"@,
            ) {
                backup_to(m, BackupStage::Done)
            } else {
                backup_fail(m, "git commit failed: "@ + trim(all))
            }
        },
    }
}

/// The snapshot after the answer to its request.
pub open spec fn backup_after(m: SnapshotModel, reply: BackupReplyModel) -> SnapshotModel {
    match (m.stage, reply) {
        (BackupStage::Root, BackupReplyModel::Flag(there)) => if there {
            backup_to(m, BackupStage::GitDir)
        } else {
            backup_fail(m, "memory root is not a directory: "@ + m.root)
        },
        (BackupStage::GitDir, BackupReplyModel::Flag(there)) => backup_to(
            m,
            if there {
                BackupStage::Ignore
            } else {
                BackupStage::Init
            },
        ),
        (BackupStage::Init, BackupReplyModel::Git(r)) => after_command(m, r, BackupStage::Ignore),
        (BackupStage::Ignore, BackupReplyModel::Flag(there)) => backup_to(
            m,
            if there {
                BackupStage::NameGet
            } else {
                BackupStage::WriteIgnore
            },
        ),
        (BackupStage::WriteIgnore, BackupReplyModel::Done(r)) => match r {
            Ok(_) => backup_to(m, BackupStage::NameGet),
            Err(e) => backup_fail(m, "failed to write .gitignore: "@ + e),
        },
        (BackupStage::NameGet, BackupReplyModel::Git(r)) => after_lookup(
            m,
            r,
            BackupStage::NameSet,
            BackupStage::EmailGet,
        ),
        (BackupStage::NameSet, BackupReplyModel::Git(r)) => after_command(
            m,
            r,
            BackupStage::EmailGet,
        ),
        (BackupStage::EmailGet, BackupReplyModel::Git(r)) => after_lookup(
            m,
            r,
            BackupStage::EmailSet,
            BackupStage::Add,
        ),
        (BackupStage::EmailSet, BackupReplyModel::Git(r)) => after_command(m, r, BackupStage::Add),
        (BackupStage::Add, BackupReplyModel::Git(r)) => after_command(m, r, BackupStage::Diff),
        (BackupStage::Diff, BackupReplyModel::Git(r)) => match r {
            Err(e) => backup_fail(m, "failed to run git diff: "@ + e),
            Ok(o) => if o.code == Some(0i32) {
                backup_to(m, BackupStage::Head)
            } else if o.code == Some(1i32) {
                backup_to(m, BackupStage::Commit)
            } else {
                backup_fail(m, "git diff --cached failed: "@ + trim(o.stderr))
            },
        },
        (BackupStage::Head, BackupReplyModel::Git(r)) => backup_to(
            m,
            match r {
                Ok(o) => if succeeded(o) {
                    BackupStage::Done
                } else {
                    BackupStage::FirstCommit
                },
                Err(_) => BackupStage::FirstCommit,
            },
        ),
        (BackupStage::FirstCommit, BackupReplyModel::Git(r)) => after_commit(m, r),
        (BackupStage::Commit, BackupReplyModel::Git(r)) => after_commit(m, r),
        _ => m,
    }
}

/// Begins a snapshot of the memory directory `memory_root`.
pub fn snapshot(memory_root: &str, message: &str) -> (r: SnapshotTask)
    ensures
        r@ == (SnapshotModel {
            root: memory_root@,
            message: message@,
            stage: BackupStage::Root,
            error: Seq::empty(),
        }),
{
    let error: String = String::new();
    assert(error@ =~= Seq::empty());
    SnapshotTask {
        root: memory_root.to_owned(),
        message: message.to_owned(),
        stage: BackupStage::Root,
        error,
    }
}

fn is_success(o: &GitOutput) -> (r: bool)
    ensures
        r == succeeded(o@),
{
    match o.code {
        Some(c) => c == 0,
        None => false,
    }
}

impl SnapshotTask {
    fn args(&self) -> (r: Vec<String>)
        ensures
            views(r@) == git_args(self@),
    {
        let r: Vec<String> = match self.stage {
            BackupStage::Init => vec!["init".to_owned(), "-q".to_owned()],
            BackupStage::NameGet => vec![
                "config".to_owned(),
                "--local".to_owned(),
                "user.name".to_owned(),
            ],
            BackupStage::NameSet => vec![
                "config".to_owned(),
                "--local".to_owned(),
                "user.name".to_owned(),
                "qidi-memory".to_owned(),
            ],
            BackupStage::EmailGet => vec![
                "config".to_owned(),
                "--local".to_owned(),
                "user.email".to_owned(),
            ],
            BackupStage::EmailSet => vec![
                "config".to_owned(),
                "--local".to_owned(),
                "user.email".to_owned(),
                "qidi-memory@local".to_owned(),
            ],
            BackupStage::Add => vec!["add".to_owned(), "-A".to_owned()],
            BackupStage::Diff => vec![
                "diff".to_owned(),
                "--cached".to_owned(),
                "--quiet".to_owned(),
            ],
            BackupStage::Head => vec![
                "rev-parse".to_owned(),
                "--verify".to_owned(),
                "--quiet".to_owned(),
                "HEAD".to_owned(),
            ],
            BackupStage::FirstCommit => vec![
                "commit".to_owned(),
                "-q".to_owned(),
                "--allow-empty".to_owned(),
                "-m".to_owned(),
                self.message.clone(),
            ],
            BackupStage::Commit => vec![
                "commit".to_owned(),
                "-q".to_owned(),
                "-m".to_owned(),
                self.message.clone(),
            ],
            _ => Vec::new(),
        };
        assert(views(r@) =~= git_args(self@));
        r
    }

    /// What the snapshot is waiting for.
    pub fn request(&self) -> (r: BackupRequest)
        ensures
            r@ == backup_request(self@),
    {
        BackupRequest {
            op: match self.stage {
                BackupStage::Root => BackupOp::IsDir,
                BackupStage::GitDir | BackupStage::Ignore => BackupOp::Exists,
                BackupStage::WriteIgnore => BackupOp::WriteIgnore,
                BackupStage::Done | BackupStage::Failed => BackupOp::Finish,
                _ => BackupOp::Git,
            },
            path: match self.stage {
                BackupStage::GitDir => join_path(self.root.as_str(), ".git"),
                BackupStage::Ignore | BackupStage::WriteIgnore => join_path(
                    self.root.as_str(),
                    ".gitignore",
                ),
                _ => self.root.clone(),
            },
            args: self.args(),
        }
    }

    fn fail(&mut self, error: String)
        ensures
            final(self)@ == backup_fail(old(self)@, error@),
    {
        self.stage = BackupStage::Failed;
        self.error = error;
    }

    fn fail_with(&mut self, head: &str, detail: &str)
        ensures
            final(self)@ == backup_fail(old(self)@, head@ + detail@),
    {
        let mut s: String = head.to_owned();
        s.append(detail);
        self.fail(s);
    }

    fn after_command(&mut self, r: Result<GitOutput, String>, next: BackupStage)
        ensures
            final(self)@ == after_command(
                old(self)@,
                match r {
                    Ok(o) => Ok(o@),
                    Err(e) => Err(e@),
                },
                next,
            ),
    {
        let line: String = join_texts(&self.args(), " ");
        match r {
            Err(e) => {
                let mut s: String = "failed to run git ".to_owned();
                s.append(line.as_str());
                s.append(": ");
                s.append(e.as_str());
                self.fail(s);
            },
            Ok(o) => {
                if is_success(&o) {
                    self.stage = next;
                } else {
                    let mut s: String = "git ".to_owned();
                    s.append(line.as_str());
                    s.append(" failed: ");
                    s.append(trim_text(o.stderr.as_str()).as_str());
                    self.fail(s);
                }
            },
        }
    }

    fn after_lookup(&mut self, r: Result<GitOutput, String>, set: BackupStage, next: BackupStage)
        ensures
            final(self)@ == after_lookup(
                old(self)@,
                match r {
                    Ok(o) => Ok(o@),
                    Err(e) => Err(e@),
                },
                set,
                next,
            ),
    {
        match r {
            Err(e) => self.fail_with("failed to run git config: ", e.as_str()),
            Ok(o) => {
                if is_success(&o) && !is_blank_text(o.stdout.as_str()) {
                    self.stage = next;
                } else {
                    self.stage = set;
                }
            },
        }
    }

    fn after_commit(&mut self, r: Result<GitOutput, String>)
        ensures
            final(self)@ == after_commit(
                old(self)@,
                match r {
                    Ok(o) => Ok(o@),
                    Err(e) => Err(e@),
                },
            ),
    {
        match r {
            Err(e) => self.fail_with("failed to run git commit: ", e.as_str()),
            Ok(o) => {
                let mut all: String = o.stdout.clone();
                all.append(o.stderr.as_str());
                if is_success(&o) || contains_text(all.as_str(), "nothing to commit")
                    || contains_text(all.as_str(), "no changes added to commit") {
                    self.stage = BackupStage::Done;
                } else {
                    self.fail_with("git commit failed: ", trim_text(all.as_str()).as_str());
                }
            },
        }
    }

    /// Takes in the answer to the request.
    pub fn reply(&mut self, reply: BackupReply)
        requires
            backup_answers(backup_request(old(self)@).op, reply@),
        ensures
            final(self)@ == backup_after(old(self)@, reply@),
    {
        match (self.stage, reply) {
            (BackupStage::Root, BackupReply::Flag(there)) => {
                if there {
                    self.stage = BackupStage::GitDir;
                } else {
                    let root: String = self.root.clone();
                    self.fail_with("memory root is not a directory: ", root.as_str());
                }
            },
            (BackupStage::GitDir, BackupReply::Flag(there)) => {
                self.stage = if there {
                    BackupStage::Ignore
                } else {
                    BackupStage::Init
                };
            },
            (BackupStage::Init, BackupReply::Git(r)) => self.after_command(r, BackupStage::Ignore),
            (BackupStage::Ignore, BackupReply::Flag(there)) => {
                self.stage = if there {
                    BackupStage::NameGet
                } else {
                    BackupStage::WriteIgnore
                };
            },
            (BackupStage::WriteIgnore, BackupReply::Done(r)) => match r {
                Ok(_) => {
                    self.stage = BackupStage::NameGet;
                },
                Err(e) => self.fail_with("failed to write .gitignore: ", e.as_str()),
            },
            (BackupStage::NameGet, BackupReply::Git(r)) => self.after_lookup(
                r,
                BackupStage::NameSet,
                BackupStage::EmailGet,
            ),
            (BackupStage::NameSet, BackupReply::Git(r)) => self.after_command(
                r,
                BackupStage::EmailGet,
            ),
            (BackupStage::EmailGet, BackupReply::Git(r)) => self.after_lookup(
                r,
                BackupStage::EmailSet,
                BackupStage::Add,
            ),
            (BackupStage::EmailSet, BackupReply::Git(r)) => self.after_command(r, BackupStage::Add),
            (BackupStage::Add, BackupReply::Git(r)) => self.after_command(r, BackupStage::Diff),
            (BackupStage::Diff, BackupReply::Git(r)) => match r {
                Err(e) => self.fail_with("failed to run git diff: ", e.as_str()),
                Ok(o) => match o.code {
                    Some(0) => {
                        self.stage = BackupStage::Head;
                    },
                    Some(1) => {
                        self.stage = BackupStage::Commit;
                    },
                    _ => self.fail_with(
                        "git diff --cached failed: ",
                        trim_text(o.stderr.as_str()).as_str(),
                    ),
                },
            },
            (BackupStage::Head, BackupReply::Git(r)) => {
                let has_head: bool = match r {
                    Ok(o) => is_success(&o),
                    Err(_) => false,
                };
                self.stage = if has_head {
                    BackupStage::Done
                } else {
                    BackupStage::FirstCommit
                };
            },
            (BackupStage::FirstCommit, BackupReply::Git(r)) => self.after_commit(r),
            (BackupStage::Commit, BackupReply::Git(r)) => self.after_commit(r),
            _ => {},
        }
    }
}

// ------------------------------------------------------------------------ laws

/// Settings are only ever read and written in the repository itself, never for the user as
/// a whole.
pub proof fn settings_stay_local(m: SnapshotModel)
    requires
        git_args(m).len() > 0,
        git_args(m)[0] == "config"@,
    ensures
        git_args(m)[1] == "--local"@,
{
    reveal_strlit("config");
    reveal_strlit("init");
    reveal_strlit("add");
    reveal_strlit("diff");
    reveal_strlit("rev-parse");
    reveal_strlit("commit");
    assert("config"@.len() == 6 && "commit"@.len() == 6);
    assert("config"@[2] == 'n' && "commit"@[2] == 'm');
}

/// A snapshot that finds nothing new where there is history adds no commit; where there is
/// none it makes the first one, though it holds nothing.
pub proof fn nothing_new_adds_nothing(m: SnapshotModel, o: GitOutputModel)
    requires
        m.stage == BackupStage::Head,
    ensures
        ({
            let n = backup_after(m, BackupReplyModel::Git(Ok(o)));
            &&& succeeded(o) ==> n.stage == BackupStage::Done
            &&& !succeeded(o) ==> n.stage == BackupStage::FirstCommit
        }),
{
}

/// Nothing is committed that was not staged under the rules of the repository: a commit is
/// reached only through staging, and staging only where the list of what is not tracked is
/// there or has just been written.
pub proof fn commits_follow_staging(m: SnapshotModel, reply: BackupReplyModel)
    requires
        backup_answers(backup_request(m).op, reply),
    ensures
        ({
            let n = backup_after(m, reply);
            &&& n.stage == BackupStage::Commit ==> m.stage == BackupStage::Diff
            &&& n.stage == BackupStage::FirstCommit ==> m.stage == BackupStage::Head
            &&& n.stage == BackupStage::Head ==> m.stage == BackupStage::Diff
            &&& n.stage == BackupStage::Diff ==> m.stage == BackupStage::Add
            &&& n.stage == BackupStage::Add ==> m.stage == BackupStage::EmailGet || m.stage
                == BackupStage::EmailSet
            &&& n.stage == BackupStage::NameGet ==> (m.stage == BackupStage::Ignore && reply
                == BackupReplyModel::Flag(true)) || (m.stage == BackupStage::WriteIgnore
                && (reply matches BackupReplyModel::Done(r) && r is Ok))
        }),
{
}

/// How many more steps a backup can take.
pub open spec fn backup_left(stage: BackupStage) -> nat {
    match stage {
        BackupStage::Root => 14,
        BackupStage::GitDir => 13,
        BackupStage::Init => 12,
        BackupStage::Ignore => 11,
        BackupStage::WriteIgnore => 10,
        BackupStage::NameGet => 9,
        BackupStage::NameSet => 8,
        BackupStage::EmailGet => 7,
        BackupStage::EmailSet => 6,
        BackupStage::Add => 5,
        BackupStage::Diff => 4,
        BackupStage::Head => 3,
        BackupStage::FirstCommit => 2,
        BackupStage::Commit => 1,
        BackupStage::Done | BackupStage::Failed => 0,
    }
}

/// Every answer brings a backup nearer to its end, so every backup comes to one.
pub proof fn backup_moves_on(m: SnapshotModel, reply: BackupReplyModel)
    requires
        backup_answers(backup_request(m).op, reply),
    ensures
        backup_left(backup_after(m, reply).stage) < backup_left(m.stage),
{
}

} // verus!
