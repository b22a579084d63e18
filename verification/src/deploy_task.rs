//! Deploying a staged skill, step by step.
//!
//! Everything is checked before anything is written. A skill that stands there with
//! other content is moved to the backups first, and only where that was asked for. A
//! copy that breaks off is taken away again as a whole, so that a part of a skill is
//! never taken for the skill.
use crate::paths::{join_path, joined, parent, parent_of};
use crate::skill_deploy::{
    check_limits, is_valid_deploy_name, limit_error, member_models, relative_member_is_safe,
    safe_member, valid_name, DeployError, DeployReport, ErrorModel, Member, MemberModel,
    ReportModel,
};
use crate::text::{decimal, decimal_u64, same_text, views};
use crate::text_order::{less_text, pair_views, text_less};
use crate::timestamp::{stamp_of, utc_timestamp};
use vstd::prelude::*;
use vstd::string::StringExecFns;

verus! {

// ------------------------------------------------------------ members in order

/// `a` comes before `b`, part by part.
pub open spec fn parts_less(a: Seq<Seq<char>>, b: Seq<Seq<char>>) -> bool
    decreases a.len(),
{
    if b.len() == 0 {
        false
    } else if a.len() == 0 {
        true
    } else if a[0] != b[0] {
        text_less(a[0], b[0])
    } else {
        parts_less(a.skip(1), b.skip(1))
    }
}

/// The relative path `a` comes before the relative path `b`.
pub open spec fn path_less(a: Seq<char>, b: Seq<char>) -> bool {
    parts_less(crate::paths::path_parts(a), crate::paths::path_parts(b))
}

/// Whether the relative path `a` comes before the relative path `b`.
pub fn less_path(a: &str, b: &str) -> (r: bool)
    ensures
        r == path_less(a@, b@),
{
    let x: Vec<String> = crate::paths::parts_of(a);
    let y: Vec<String> = crate::paths::parts_of(b);
    let ghost s = views(x@);
    let ghost t = views(y@);
    let mut i: usize = 0;
    assert(s.skip(0) =~= s);
    assert(t.skip(0) =~= t);
    while i < x.len() && i < y.len()
        invariant
            i <= x.len(),
            i <= y.len(),
            s == views(x@),
            t == views(y@),
            parts_less(s, t) == parts_less(s.skip(i as int), t.skip(i as int)),
            parts_less(s, t) == path_less(a@, b@),
        decreases x.len() - i,
    {
        assert(s.skip(i as int)[0] == x@[i as int]@);
        assert(t.skip(i as int)[0] == y@[i as int]@);
        if !same_text(x[i].as_str(), y[i].as_str()) {
            return less_text(x[i].as_str(), y[i].as_str());
        }
        assert(s.skip(i as int).skip(1) =~= s.skip(i as int + 1));
        assert(t.skip(i as int).skip(1) =~= t.skip(i as int + 1));
        i += 1;
    }
    i < y.len()
}

/// How many members at the front do not come after `relative`.
pub open spec fn member_place(members: Seq<MemberModel>, relative: Seq<char>) -> nat
    decreases members.len(),
{
    if members.len() > 0 && !path_less(relative, members[0].relative) {
        1 + member_place(members.drop_first(), relative)
    } else {
        0
    }
}

/// The members with one more, in the order of their paths.
pub open spec fn with_member(members: Seq<MemberModel>, m: MemberModel) -> Seq<MemberModel> {
    members.insert(member_place(members, m.relative) as int, m)
}

/// Puts a member in its place.
pub fn add_member(members: &mut Vec<Member>, m: Member)
    ensures
        member_models(final(members)@) == with_member(member_models(old(members)@), m@),
{
    let ghost s = member_models(members@);
    let mut n: usize = 0;
    assert(s.skip(0) =~= s);
    while n < members.len() && !less_path(m.relative.as_str(), members[n].relative.as_str())
        invariant
            n <= members.len(),
            members@ == old(members)@,
            s == member_models(members@),
            member_place(s, m@.relative) == n + member_place(s.skip(n as int), m@.relative),
        decreases members.len() - n,
    {
        assert(s.skip(n as int)[0] == members@[n as int]@);
        assert(s.skip(n as int).drop_first() =~= s.skip(n as int + 1));
        n += 1;
    }
    proof {
        if n < members.len() {
            assert(s.skip(n as int)[0] == members@[n as int]@);
        }
        assert(member_place(s.skip(n as int), m@.relative) == 0);
    }
    let ghost added = m@;
    members.insert(n, m);
    assert(member_models(members@) =~= s.insert(n as int, added));
}

// ----------------------------------------------------------------------- paths

/// Where the skill is installed.
pub open spec fn target_path(home: Seq<char>, name: Seq<char>) -> Seq<char> {
    joined(joined(home, "skills"@), "user-"@ + name)
}

/// Where backups are kept.
pub open spec fn backups_path(home: Seq<char>) -> Seq<char> {
    joined(joined(home, "evolution"@), "backups"@)
}

/// The `SKILL.md` of a directory.
pub open spec fn skill_md(dir: Seq<char>) -> Seq<char> {
    joined(dir, "SKILL.md"@)
}

/// Where a backup that is made `seconds` after the start of 1970 goes.
pub open spec fn backup_path(home: Seq<char>, name: Seq<char>, seconds: u64) -> Seq<char> {
    joined(backups_path(home), stamp_of(seconds as int) + "-"@ + name)
}

/// The `n`th place to try for something that is to stand at `base`: `base` itself, and
/// then `base` with a tilde and a number. No skill name holds a tilde, so such a place
/// is never taken for the backup of another skill.
pub open spec fn nth_place(base: Seq<char>, n: int) -> Seq<char> {
    if n <= 0 {
        base
    } else {
        base + "~"@ + decimal(n as nat)
    }
}

/// The last number that is tried.
pub const LAST_PLACE: u64 = 9999;

/// The `n`th place to try for something that is to stand at `base`.
pub fn place(base: &str, n: u64) -> (r: String)
    ensures
        r@ == nth_place(base@, n as int),
{
    let mut s: String = base.to_owned();
    if n > 0 {
        s.append("~");
        s.append(decimal_u64(n).as_str());
    }
    s
}

// ----------------------------------------------------------------------- steps

/// What a deployment asks of the file system.
#[derive(Debug, Clone, Copy, PartialEq, Eq, Structural)]
pub enum DeployOp {
    /// Is there a directory: answered by a flag.
    IsDir,
    /// Is there a file: answered by a flag.
    IsFile,
    /// Is there anything: answered by a flag.
    Exists,
    /// List a directory: answered by its names.
    ListDir,
    /// What stands here, links not followed: answered by its kind.
    Stat,
    /// The hash of a file: answered by a text.
    Hash,
    /// The time: answered by the seconds since the start of 1970.
    Clock,
    /// Make a directory and those above it.
    CreateDirs,
    /// Move a directory to the other path.
    Rename,
    /// Copy a file to the other path.
    Copy,
    /// Remove a directory with all that is in it.
    RemoveDirAll,
    /// Nothing more is to be done.
    Finish,
}

/// One thing to do or to look up.
#[derive(Debug)]
pub struct DeployRequest {
    pub op: DeployOp,
    pub path: String,
    /// Where a directory or a file goes to.
    pub to: String,
}

/// [`DeployRequest`] by its texts.
pub struct DeployRequestModel {
    pub op: DeployOp,
    pub path: Seq<char>,
    pub to: Seq<char>,
}

impl View for DeployRequest {
    type V = DeployRequestModel;

    open spec fn view(&self) -> DeployRequestModel {
        DeployRequestModel { op: self.op, path: self.path@, to: self.to@ }
    }
}

/// What stands at a path, links not followed.
#[derive(Debug, Clone, Copy, PartialEq, Eq, Structural)]
pub enum StagedKind {
    Symlink,
    Directory,
    /// A file with its size.
    File(u64),
    /// Something else.
    Other,
}

/// What came of a request; a failure carries its message.
#[derive(Debug)]
pub enum DeployReply {
    Flag(bool),
    Names(Result<Vec<String>, String>),
    Stat(Result<StagedKind, String>),
    Hash(Result<String, String>),
    Seconds(u64),
    Done(Result<(), String>),
}

/// [`DeployReply`] by its texts.
pub enum DeployReplyModel {
    Flag(bool),
    Names(Result<Seq<Seq<char>>, Seq<char>>),
    Stat(Result<StagedKind, Seq<char>>),
    Hash(Result<Seq<char>, Seq<char>>),
    Seconds(u64),
    Done(Result<(), Seq<char>>),
}

impl View for DeployReply {
    type V = DeployReplyModel;

    open spec fn view(&self) -> DeployReplyModel {
        match self {
            DeployReply::Flag(b) => DeployReplyModel::Flag(*b),
            DeployReply::Names(r) => DeployReplyModel::Names(
                match r {
                    Ok(v) => Ok(views(v@)),
                    Err(e) => Err(e@),
                },
            ),
            DeployReply::Stat(r) => DeployReplyModel::Stat(
                match r {
                    Ok(k) => Ok(*k),
                    Err(e) => Err(e@),
                },
            ),
            DeployReply::Hash(r) => DeployReplyModel::Hash(
                match r {
                    Ok(h) => Ok(h@),
                    Err(e) => Err(e@),
                },
            ),
            DeployReply::Seconds(s) => DeployReplyModel::Seconds(*s),
            DeployReply::Done(r) => DeployReplyModel::Done(
                match r {
                    Ok(_) => Ok(()),
                    Err(e) => Err(e@),
                },
            ),
        }
    }
}

/// `reply` is an answer to a request for `op`.
pub open spec fn deploy_answers(op: DeployOp, reply: DeployReplyModel) -> bool {
    match op {
        DeployOp::IsDir | DeployOp::IsFile | DeployOp::Exists => reply is Flag,
        DeployOp::ListDir => reply is Names,
        DeployOp::Stat => reply is Stat,
        DeployOp::Hash => reply is Hash,
        DeployOp::Clock => reply is Seconds,
        DeployOp::CreateDirs | DeployOp::Rename | DeployOp::Copy | DeployOp::RemoveDirAll => reply is Done,
        DeployOp::Finish => false,
    }
}

/// Where a deployment stands.
#[derive(Debug, Clone, Copy, PartialEq, Eq, Structural)]
pub enum DeployStage {
    /// Is the staging directory there?
    Staging,
    /// Is there a staged `SKILL.md`?
    SkillMd,
    /// A staged directory is listed.
    Listing,
    /// A staged entry is looked at.
    Entry,
    /// Is the skill installed?
    Target,
    /// Is there an installed `SKILL.md`?
    InstalledMd,
    /// The staged `SKILL.md` is hashed.
    StagedHash,
    /// The installed `SKILL.md` is hashed.
    InstalledHash,
    /// The directory for backups is made.
    BackupsDir,
    /// The time is read.
    Clock,
    /// A place for the backup is tried.
    BackupPlace,
    /// The installed skill is moved there.
    MoveAway,
    /// The directory of the skill is made.
    MakeTarget,
    /// The directory of a file is made.
    MakeParent,
    /// A file is copied.
    CopyFile,
    /// What was copied is taken away again.
    Discard,
    Finished,
}

/// How a deployment came out.
#[derive(Debug)]
pub enum DeployOutcome {
    Pending,
    Deployed(DeployReport),
    Refused(DeployError),
}

/// [`DeployOutcome`] by its texts.
pub enum DeployOutcomeModel {
    Pending,
    Deployed(ReportModel),
    Refused(ErrorModel),
}

impl View for DeployOutcome {
    type V = DeployOutcomeModel;

    open spec fn view(&self) -> DeployOutcomeModel {
        match self {
            DeployOutcome::Pending => DeployOutcomeModel::Pending,
            DeployOutcome::Deployed(r) => DeployOutcomeModel::Deployed(r@),
            DeployOutcome::Refused(e) => DeployOutcomeModel::Refused(e@),
        }
    }
}

/// A deployment under way.
#[derive(Debug)]
pub struct DeployTask {
    pub staging: String,
    pub name: String,
    pub force: bool,
    pub home: String,
    pub stage: DeployStage,
    pub pending: Vec<(String, String)>,
    pub dir_path: String,
    pub dir_relative: String,
    pub names: Vec<String>,
    pub next_name: usize,
    pub entry_path: String,
    pub entry_relative: String,
    pub members: Vec<Member>,
    pub staged_hash: String,
    pub backup: String,
    pub place: u64,
    pub backed_up: bool,
    pub next_member: usize,
    pub error: String,
    pub outcome: DeployOutcome,
}

/// [`DeployTask`] by its texts.
pub struct DeployModel {
    pub staging: Seq<char>,
    pub name: Seq<char>,
    pub force: bool,
    pub home: Seq<char>,
    pub stage: DeployStage,
    /// The staged directories not listed yet, each with its relative path.
    pub pending: Seq<(Seq<char>, Seq<char>)>,
    pub dir_path: Seq<char>,
    pub dir_relative: Seq<char>,
    /// The names in the directory not looked at yet.
    pub names: Seq<Seq<char>>,
    pub entry_path: Seq<char>,
    pub entry_relative: Seq<char>,
    /// The staged files, in the order of their paths.
    pub members: Seq<MemberModel>,
    pub staged_hash: Seq<char>,
    /// Where the backup goes, before a number is put behind it.
    pub backup: Seq<char>,
    /// Which place for the backup is tried.
    pub place: int,
    pub backed_up: bool,
    /// Which file is copied.
    pub next_member: int,
    pub error: Seq<char>,
    pub outcome: DeployOutcomeModel,
}

impl View for DeployTask {
    type V = DeployModel;

    open spec fn view(&self) -> DeployModel {
        DeployModel {
            staging: self.staging@,
            name: self.name@,
            force: self.force,
            home: self.home@,
            stage: self.stage,
            pending: pair_views(self.pending@),
            dir_path: self.dir_path@,
            dir_relative: self.dir_relative@,
            names: views(self.names@).skip(self.next_name as int),
            entry_path: self.entry_path@,
            entry_relative: self.entry_relative@,
            members: member_models(self.members@),
            staged_hash: self.staged_hash@,
            backup: self.backup@,
            place: self.place as int,
            backed_up: self.backed_up,
            next_member: self.next_member as int,
            error: self.error@,
            outcome: self.outcome@,
        }
    }
}

/// On to the next stage.
pub open spec fn step_to(m: DeployModel, stage: DeployStage) -> DeployModel {
    DeployModel { stage, ..m }
}

/// The deployment is refused.
pub open spec fn refuse(m: DeployModel, e: ErrorModel) -> DeployModel {
    DeployModel { stage: DeployStage::Finished, outcome: DeployOutcomeModel::Refused(e), ..m }
}

/// The deployment is done.
pub open spec fn complete(m: DeployModel, idempotent: bool) -> DeployModel {
    DeployModel {
        stage: DeployStage::Finished,
        outcome: DeployOutcomeModel::Deployed(
            ReportModel {
                target_dir: target_path(m.home, m.name),
                file_count: m.members.len() as int,
                backup_dir: if m.backed_up && !idempotent {
                    Some(nth_place(m.backup, m.place))
                } else {
                    None
                },
                idempotent,
            },
        ),
        ..m
    }
}

/// On to the next staged directory; when all have been listed, the members are held
/// against the limits.
pub open spec fn next_directory(m: DeployModel) -> DeployModel {
    if m.pending.len() == 0 {
        match limit_error(m.members) {
            Some(e) => refuse(m, e),
            None => step_to(m, DeployStage::Target),
        }
    } else {
        DeployModel {
            stage: DeployStage::Listing,
            dir_path: m.pending.last().0,
            dir_relative: m.pending.last().1,
            pending: m.pending.drop_last(),
            ..m
        }
    }
}

/// On to the next name in the directory; a member that is not safe ends it all.
pub open spec fn next_staged(m: DeployModel) -> DeployModel {
    if m.names.len() == 0 {
        next_directory(m)
    } else {
        let relative = joined(m.dir_relative, m.names[0]);
        let n = DeployModel {
            entry_path: joined(m.dir_path, m.names[0]),
            entry_relative: relative,
            names: m.names.skip(1),
            ..m
        };
        if safe_member(relative) {
            step_to(n, DeployStage::Entry)
        } else {
            refuse(n, ErrorModel::UnsafeMember(relative))
        }
    }
}

/// The installed skill has other content.
pub open spec fn differs(m: DeployModel) -> DeployModel {
    if m.force {
        step_to(m, DeployStage::BackupsDir)
    } else {
        refuse(m, ErrorModel::TargetConflict(target_path(m.home, m.name)))
    }
}

/// Where the file that is copied goes.
pub open spec fn destination(m: DeployModel) -> Seq<char> {
    joined(target_path(m.home, m.name), m.members[m.next_member].relative)
}

/// On to the next file to copy.
pub open spec fn next_copy(m: DeployModel) -> DeployModel {
    if m.next_member >= m.members.len() {
        complete(m, false)
    } else if parent(destination(m)) is Some {
        step_to(m, DeployStage::MakeParent)
    } else {
        step_to(m, DeployStage::CopyFile)
    }
}

/// The copy has broken off: what is there of it goes.
pub open spec fn discard(m: DeployModel, e: Seq<char>) -> DeployModel {
    DeployModel { stage: DeployStage::Discard, error: e, ..m }
}

/// What the deployment is waiting for.
pub open spec fn deploy_request(m: DeployModel) -> DeployRequestModel {
    let target = target_path(m.home, m.name);
    let none = Seq::<char>::empty();
    match m.stage {
        DeployStage::Staging => DeployRequestModel {
            op: DeployOp::IsDir,
            path: m.staging,
            to: none,
        },
        DeployStage::SkillMd => DeployRequestModel {
            op: DeployOp::IsFile,
            path: skill_md(m.staging),
            to: none,
        },
        DeployStage::Listing => DeployRequestModel {
            op: DeployOp::ListDir,
            path: m.dir_path,
            to: none,
        },
        DeployStage::Entry => DeployRequestModel {
            op: DeployOp::Stat,
            path: m.entry_path,
            to: none,
        },
        DeployStage::Target => DeployRequestModel { op: DeployOp::Exists, path: target, to: none },
        DeployStage::InstalledMd => DeployRequestModel {
            op: DeployOp::IsFile,
            path: skill_md(target),
            to: none,
        },
        DeployStage::StagedHash => DeployRequestModel {
            op: DeployOp::Hash,
            path: skill_md(m.staging),
            to: none,
        },
        DeployStage::InstalledHash => DeployRequestModel {
            op: DeployOp::Hash,
            path: skill_md(target),
            to: none,
        },
        DeployStage::BackupsDir => DeployRequestModel {
            op: DeployOp::CreateDirs,
            path: backups_path(m.home),
            to: none,
        },
        DeployStage::Clock => DeployRequestModel { op: DeployOp::Clock, path: none, to: none },
        DeployStage::BackupPlace => DeployRequestModel {
            op: DeployOp::Exists,
            path: nth_place(m.backup, m.place),
            to: none,
        },
        DeployStage::MoveAway => DeployRequestModel {
            op: DeployOp::Rename,
            path: target,
            to: nth_place(m.backup, m.place),
        },
        DeployStage::MakeTarget => DeployRequestModel {
            op: DeployOp::CreateDirs,
            path: target,
            to: none,
        },
        DeployStage::MakeParent => DeployRequestModel {
            op: DeployOp::CreateDirs,
            path: match parent(destination(m)) {
                Some(p) => p,
                None => none,
            },
            to: none,
        },
        DeployStage::CopyFile => DeployRequestModel {
            op: DeployOp::Copy,
            path: m.members[m.next_member].source,
            to: destination(m),
        },
        DeployStage::Discard => DeployRequestModel {
            op: DeployOp::RemoveDirAll,
            path: target,
            to: none,
        },
        DeployStage::Finished => DeployRequestModel { op: DeployOp::Finish, path: none, to: none },
    }
}

/// The deployment after an answer about what is staged.
pub open spec fn after_staged(m: DeployModel, reply: DeployReplyModel) -> DeployModel {
    match (m.stage, reply) {
        (DeployStage::Staging, DeployReplyModel::Flag(there)) => if there {
            step_to(m, DeployStage::SkillMd)
        } else {
            refuse(m, ErrorModel::StagingNotFound(m.staging))
        },
        (DeployStage::SkillMd, DeployReplyModel::Flag(there)) => if there {
            next_directory(m)
        } else {
            refuse(m, ErrorModel::MissingSkillMd(skill_md(m.staging)))
        },
        (DeployStage::Listing, DeployReplyModel::Names(r)) => match r {
            Ok(names) => next_staged(DeployModel { names, ..m }),
            Err(e) => refuse(m, ErrorModel::Io(e)),
        },
        (DeployStage::Entry, DeployReplyModel::Stat(r)) => match r {
            Ok(StagedKind::Symlink) => refuse(m, ErrorModel::UnsafeMember(m.entry_relative)),
            Ok(StagedKind::Directory) => next_staged(
                DeployModel {
                    pending: m.pending.push((m.entry_path, m.entry_relative)),
                    ..m
                },
            ),
            Ok(StagedKind::File(size)) => next_staged(
                DeployModel {
                    members: with_member(
                        m.members,
                        MemberModel { relative: m.entry_relative, source: m.entry_path, size },
                    ),
                    ..m
                },
            ),
            Ok(StagedKind::Other) => next_staged(m),
            Err(e) => refuse(m, ErrorModel::Io(e)),
        },
        _ => m,
    }
}

/// The deployment after an answer about what is installed.
pub open spec fn after_installed(m: DeployModel, reply: DeployReplyModel) -> DeployModel {
    match (m.stage, reply) {
        (DeployStage::Target, DeployReplyModel::Flag(there)) => step_to(
            m,
            if there {
                DeployStage::InstalledMd
            } else {
                DeployStage::MakeTarget
            },
        ),
        (DeployStage::InstalledMd, DeployReplyModel::Flag(there)) => if there {
            step_to(m, DeployStage::StagedHash)
        } else {
            differs(m)
        },
        (DeployStage::StagedHash, DeployReplyModel::Hash(r)) => match r {
            Ok(h) => DeployModel { staged_hash: h, stage: DeployStage::InstalledHash, ..m },
            Err(e) => refuse(m, ErrorModel::Io(skill_md(m.staging) + ": "@ + e)),
        },
        (DeployStage::InstalledHash, DeployReplyModel::Hash(r)) => match r {
            Ok(h) => if h == m.staged_hash {
                complete(m, true)
            } else {
                differs(m)
            },
            Err(e) => refuse(
                m,
                ErrorModel::Io(skill_md(target_path(m.home, m.name)) + ": "@ + e),
            ),
        },
        (DeployStage::BackupsDir, DeployReplyModel::Done(r)) => match r {
            Ok(_) => step_to(m, DeployStage::Clock),
            Err(e) => refuse(m, ErrorModel::Io(e)),
        },
        (DeployStage::Clock, DeployReplyModel::Seconds(s)) => DeployModel {
            backup: backup_path(m.home, m.name, s),
            place: 0,
            stage: DeployStage::BackupPlace,
            ..m
        },
        (DeployStage::BackupPlace, DeployReplyModel::Flag(taken)) => if !taken {
            step_to(m, DeployStage::MoveAway)
        } else if m.place < LAST_PLACE {
            DeployModel { place: m.place + 1, ..m }
        } else {
            DeployModel { place: 0, stage: DeployStage::MoveAway, ..m }
        },
        (DeployStage::MoveAway, DeployReplyModel::Done(r)) => match r {
            Ok(_) => DeployModel { backed_up: true, stage: DeployStage::MakeTarget, ..m },
            Err(e) => refuse(m, ErrorModel::Io(e)),
        },
        _ => m,
    }
}

/// The deployment after an answer about the copy.
pub open spec fn after_copy(m: DeployModel, reply: DeployReplyModel) -> DeployModel {
    match (m.stage, reply) {
        (DeployStage::MakeTarget, DeployReplyModel::Done(r)) => match r {
            Ok(_) => next_copy(DeployModel { next_member: 0, ..m }),
            Err(e) => discard(m, e),
        },
        (DeployStage::MakeParent, DeployReplyModel::Done(r)) => match r {
            Ok(_) => step_to(m, DeployStage::CopyFile),
            Err(e) => discard(m, e),
        },
        (DeployStage::CopyFile, DeployReplyModel::Done(r)) => match r {
            Ok(_) => next_copy(DeployModel { next_member: m.next_member + 1, ..m }),
            Err(e) => discard(m, e),
        },
        (DeployStage::Discard, _) => refuse(m, ErrorModel::Io(m.error)),
        _ => m,
    }
}

/// The deployment after the answer to its request.
pub open spec fn deploy_after(m: DeployModel, reply: DeployReplyModel) -> DeployModel {
    match m.stage {
        DeployStage::Staging
        | DeployStage::SkillMd
        | DeployStage::Listing
        | DeployStage::Entry => after_staged(m, reply),
        DeployStage::MakeTarget
        | DeployStage::MakeParent
        | DeployStage::CopyFile
        | DeployStage::Discard => after_copy(m, reply),
        _ => after_installed(m, reply),
    }
}

/// A deployment that has not begun. One with a name that is no skill name is refused
/// before anything is looked at.
pub open spec fn fresh_deployment(
    staging: Seq<char>,
    name: Seq<char>,
    force: bool,
    home: Seq<char>,
) -> DeployModel {
    DeployModel {
        staging,
        name,
        force,
        home,
        stage: if valid_name(name) {
            DeployStage::Staging
        } else {
            DeployStage::Finished
        },
        pending: seq![(staging, Seq::<char>::empty())],
        dir_path: Seq::empty(),
        dir_relative: Seq::empty(),
        names: Seq::empty(),
        entry_path: Seq::empty(),
        entry_relative: Seq::empty(),
        members: Seq::empty(),
        staged_hash: Seq::empty(),
        backup: Seq::empty(),
        place: 0,
        backed_up: false,
        next_member: 0,
        error: Seq::empty(),
        outcome: if valid_name(name) {
            DeployOutcomeModel::Pending
        } else {
            DeployOutcomeModel::Refused(ErrorModel::InvalidName(name))
        },
    }
}

/// Begins the deployment of the skill staged in `staging_dir` as `name`, below the
/// directory `home`.
pub fn deploy_skill(staging_dir: &str, name: &str, force: bool, home: &str) -> (r: DeployTask)
    ensures
        r.wf(),
        r@ == fresh_deployment(staging_dir@, name@, force, home@),
{
    let valid: bool = is_valid_deploy_name(name);
    let mut pending: Vec<(String, String)> = Vec::new();
    pending.push((staging_dir.to_owned(), String::new()));
    let r = DeployTask {
        staging: staging_dir.to_owned(),
        name: name.to_owned(),
        force,
        home: home.to_owned(),
        stage: if valid {
            DeployStage::Staging
        } else {
            DeployStage::Finished
        },
        pending,
        dir_path: String::new(),
        dir_relative: String::new(),
        names: Vec::new(),
        next_name: 0,
        entry_path: String::new(),
        entry_relative: String::new(),
        members: Vec::new(),
        staged_hash: String::new(),
        backup: String::new(),
        place: 0,
        backed_up: false,
        next_member: 0,
        error: String::new(),
        outcome: if valid {
            DeployOutcome::Pending
        } else {
            DeployOutcome::Refused(DeployError::InvalidName(name.to_owned()))
        },
    };
    proof {
        let none = Seq::<char>::empty();
        assert(r@.pending[0].1 =~= none);
        assert(r@.pending =~= seq![(staging_dir@, none)]);
        assert(r@.dir_path =~= none);
        assert(r@.dir_relative =~= none);
        assert(r@.names =~= Seq::empty());
        assert(r@.entry_path =~= none);
        assert(r@.entry_relative =~= none);
        assert(r@.members =~= Seq::empty());
        assert(r@.staged_hash =~= none);
        assert(r@.backup =~= none);
        assert(r@.error =~= none);
    }
    r
}

/// Where the skill is installed.
pub fn target_of(home: &str, name: &str) -> (r: String)
    ensures
        r@ == target_path(home@, name@),
{
    let mut leaf: String = "user-".to_owned();
    leaf.append(name);
    join_path(join_path(home, "skills").as_str(), leaf.as_str())
}

/// Where backups are kept.
pub fn backups_of(home: &str) -> (r: String)
    ensures
        r@ == backups_path(home@),
{
    join_path(join_path(home, "evolution").as_str(), "backups")
}

impl DeployTask {
    /// The place in the list of names lies inside it, a file that is copied is one of
    /// the members, and the number behind a backup is one that is tried.
    pub open spec fn wf(self) -> bool {
        &&& self.next_name <= self.names@.len()
        &&& self.place <= LAST_PLACE
        &&& (self.stage == DeployStage::MakeParent || self.stage == DeployStage::CopyFile)
            ==> self.next_member < self.members@.len()
    }

    fn target(&self) -> (r: String)
        ensures
            r@ == target_path(self@.home, self@.name),
    {
        target_of(self.home.as_str(), self.name.as_str())
    }

    fn destination(&self) -> (r: String)
        requires
            self.next_member < self.members@.len(),
        ensures
            r@ == destination(self@),
    {
        join_path(self.target().as_str(), self.members[self.next_member].relative.as_str())
    }

    /// What the deployment is waiting for.
    pub fn request(&self) -> (r: DeployRequest)
        requires
            self.wf(),
        ensures
            r@ == deploy_request(self@),
    {
        let op: DeployOp = match self.stage {
            DeployStage::Staging => DeployOp::IsDir,
            DeployStage::SkillMd | DeployStage::InstalledMd => DeployOp::IsFile,
            DeployStage::Listing => DeployOp::ListDir,
            DeployStage::Entry => DeployOp::Stat,
            DeployStage::Target | DeployStage::BackupPlace => DeployOp::Exists,
            DeployStage::StagedHash | DeployStage::InstalledHash => DeployOp::Hash,
            DeployStage::BackupsDir
            | DeployStage::MakeTarget
            | DeployStage::MakeParent => DeployOp::CreateDirs,
            DeployStage::Clock => DeployOp::Clock,
            DeployStage::MoveAway => DeployOp::Rename,
            DeployStage::CopyFile => DeployOp::Copy,
            DeployStage::Discard => DeployOp::RemoveDirAll,
            DeployStage::Finished => DeployOp::Finish,
        };
        let path: String = match self.stage {
            DeployStage::Staging => self.staging.clone(),
            DeployStage::SkillMd | DeployStage::StagedHash => join_path(
                self.staging.as_str(),
                "SKILL.md",
            ),
            DeployStage::Listing => self.dir_path.clone(),
            DeployStage::Entry => self.entry_path.clone(),
            DeployStage::Target
            | DeployStage::MoveAway
            | DeployStage::MakeTarget
            | DeployStage::Discard => self.target(),
            DeployStage::InstalledMd | DeployStage::InstalledHash => join_path(
                self.target().as_str(),
                "SKILL.md",
            ),
            DeployStage::BackupsDir => backups_of(self.home.as_str()),
            DeployStage::BackupPlace => place(self.backup.as_str(), self.place),
            DeployStage::MakeParent => match parent_of(self.destination().as_str()) {
                Some(p) => p,
                None => String::new(),
            },
            DeployStage::CopyFile => self.members[self.next_member].source.clone(),
            DeployStage::Clock | DeployStage::Finished => String::new(),
        };
        let to: String = match self.stage {
            DeployStage::MoveAway => place(self.backup.as_str(), self.place),
            DeployStage::CopyFile => self.destination(),
            _ => String::new(),
        };
        let r = DeployRequest { op, path, to };
        assert(r@.path =~= deploy_request(self@).path);
        assert(r@.to =~= deploy_request(self@).to);
        r
    }

    fn refuse(&mut self, e: DeployError)
        requires
            old(self).wf(),
        ensures
            final(self).wf(),
            final(self)@ == refuse(old(self)@, e@),
    {
        self.stage = DeployStage::Finished;
        self.outcome = DeployOutcome::Refused(e);
    }

    fn complete(&mut self, idempotent: bool)
        requires
            old(self).wf(),
        ensures
            final(self).wf(),
            final(self)@ == complete(old(self)@, idempotent),
    {
        let backup_dir: Option<String> = if self.backed_up && !idempotent {
            Some(place(self.backup.as_str(), self.place))
        } else {
            None
        };
        self.outcome =
        DeployOutcome::Deployed(
            DeployReport {
                target_dir: self.target(),
                file_count: self.members.len(),
                backup_dir,
                idempotent,
            },
        );
        self.stage = DeployStage::Finished;
    }

    fn next_directory(&mut self)
        requires
            old(self).wf(),
        ensures
            final(self).wf(),
            final(self)@ == next_directory(old(self)@),
    {
        let ghost before = self.pending@;
        match self.pending.pop() {
            Some((path, relative)) => {
                assert(pair_views(self.pending@) =~= pair_views(before).drop_last());
                self.dir_path = path;
                self.dir_relative = relative;
                self.stage = DeployStage::Listing;
            },
            None => {
                match check_limits(&self.members) {
                    Err(e) => self.refuse(e),
                    Ok(_) => {
                        self.stage = DeployStage::Target;
                    },
                }
            },
        }
    }

    fn next_staged(&mut self)
        requires
            old(self).wf(),
        ensures
            final(self).wf(),
            final(self)@ == next_staged(old(self)@),
    {
        if self.next_name == self.names.len() {
            self.next_directory();
        } else {
            self.entry_path = join_path(self.dir_path.as_str(), self.names[self.next_name].as_str());
            self.entry_relative =
            join_path(self.dir_relative.as_str(), self.names[self.next_name].as_str());
            self.next_name = self.next_name + 1;
            assert(self@.names =~= old(self)@.names.skip(1));
            if relative_member_is_safe(self.entry_relative.as_str()) {
                self.stage = DeployStage::Entry;
            } else {
                let relative: String = self.entry_relative.clone();
                self.refuse(DeployError::UnsafeMember(relative));
            }
        }
    }

    fn differs(&mut self)
        requires
            old(self).wf(),
        ensures
            final(self).wf(),
            final(self)@ == differs(old(self)@),
    {
        if self.force {
            self.stage = DeployStage::BackupsDir;
        } else {
            let target: String = self.target();
            self.refuse(DeployError::TargetConflict(target));
        }
    }

    fn next_copy(&mut self)
        requires
            old(self).next_name <= old(self).names@.len(),
            old(self).place <= LAST_PLACE,
        ensures
            final(self).wf(),
            final(self)@ == next_copy(old(self)@),
    {
        if self.next_member >= self.members.len() {
            self.stage = DeployStage::Finished;
            self.complete(false);
        } else if parent_of(self.destination().as_str()).is_some() {
            self.stage = DeployStage::MakeParent;
        } else {
            self.stage = DeployStage::CopyFile;
        }
    }

    fn discard(&mut self, e: String)
        requires
            old(self).wf(),
        ensures
            final(self).wf(),
            final(self)@ == discard(old(self)@, e@),
    {
        self.error = e;
        self.stage = DeployStage::Discard;
    }

    fn after_staged(&mut self, reply: DeployReply)
        requires
            old(self).wf(),
            deploy_answers(deploy_request(old(self)@).op, reply@),
        ensures
            final(self).wf(),
            final(self)@ == after_staged(old(self)@, reply@),
    {
        match (self.stage, reply) {
            (DeployStage::Staging, DeployReply::Flag(there)) => {
                if there {
                    self.stage = DeployStage::SkillMd;
                } else {
                    let path: String = self.staging.clone();
                    self.refuse(DeployError::StagingNotFound(path));
                }
            },
            (DeployStage::SkillMd, DeployReply::Flag(there)) => {
                if there {
                    self.next_directory();
                } else {
                    let path: String = join_path(self.staging.as_str(), "SKILL.md");
                    self.refuse(DeployError::MissingSkillMd(path));
                }
            },
            (DeployStage::Listing, DeployReply::Names(r)) => match r {
                Ok(names) => {
                    self.names = names;
                    self.next_name = 0;
                    assert(self@.names =~= views(self.names@));
                    self.next_staged();
                },
                Err(e) => self.refuse(DeployError::Io(e)),
            },
            (DeployStage::Entry, DeployReply::Stat(r)) => match r {
                Ok(StagedKind::Symlink) => {
                    let path: String = self.entry_relative.clone();
                    self.refuse(DeployError::UnsafeMember(path));
                },
                Ok(StagedKind::Directory) => {
                    let ghost before = self.pending@;
                    let dir = (self.entry_path.clone(), self.entry_relative.clone());
                    self.pending.push(dir);
                    assert(pair_views(self.pending@) =~= pair_views(before).push(
                        (dir.0@, dir.1@),
                    ));
                    self.next_staged();
                },
                Ok(StagedKind::File(size)) => {
                    let member = Member {
                        relative: self.entry_relative.clone(),
                        source: self.entry_path.clone(),
                        size,
                    };
                    add_member(&mut self.members, member);
                    self.next_staged();
                },
                Ok(StagedKind::Other) => self.next_staged(),
                Err(e) => self.refuse(DeployError::Io(e)),
            },
            _ => {},
        }
    }

    fn after_installed(&mut self, reply: DeployReply)
        requires
            old(self).wf(),
            deploy_answers(deploy_request(old(self)@).op, reply@),
        ensures
            final(self).wf(),
            final(self)@ == after_installed(old(self)@, reply@),
    {
        match (self.stage, reply) {
            (DeployStage::Target, DeployReply::Flag(there)) => {
                self.stage = if there {
                    DeployStage::InstalledMd
                } else {
                    DeployStage::MakeTarget
                };
            },
            (DeployStage::InstalledMd, DeployReply::Flag(there)) => {
                if there {
                    self.stage = DeployStage::StagedHash;
                } else {
                    self.differs();
                }
            },
            (DeployStage::StagedHash, DeployReply::Hash(r)) => match r {
                Ok(h) => {
                    self.staged_hash = h;
                    self.stage = DeployStage::InstalledHash;
                },
                Err(e) => {
                    let mut text: String = join_path(self.staging.as_str(), "SKILL.md");
                    text.append(": ");
                    text.append(e.as_str());
                    self.refuse(DeployError::Io(text));
                },
            },
            (DeployStage::InstalledHash, DeployReply::Hash(r)) => match r {
                Ok(h) => {
                    if same_text(h.as_str(), self.staged_hash.as_str()) {
                        self.complete(true);
                    } else {
                        self.differs();
                    }
                },
                Err(e) => {
                    let mut text: String = join_path(self.target().as_str(), "SKILL.md");
                    text.append(": ");
                    text.append(e.as_str());
                    self.refuse(DeployError::Io(text));
                },
            },
            (DeployStage::BackupsDir, DeployReply::Done(r)) => match r {
                Ok(_) => {
                    self.stage = DeployStage::Clock;
                },
                Err(e) => self.refuse(DeployError::Io(e)),
            },
            (DeployStage::Clock, DeployReply::Seconds(s)) => {
                let mut leaf: String = utc_timestamp(s);
                leaf.append("-");
                leaf.append(self.name.as_str());
                self.backup = join_path(backups_of(self.home.as_str()).as_str(), leaf.as_str());
                self.place = 0;
                self.stage = DeployStage::BackupPlace;
            },
            (DeployStage::BackupPlace, DeployReply::Flag(taken)) => {
                if !taken {
                    self.stage = DeployStage::MoveAway;
                } else if self.place < LAST_PLACE {
                    self.place = self.place + 1;
                } else {
                    self.place = 0;
                    self.stage = DeployStage::MoveAway;
                }
            },
            (DeployStage::MoveAway, DeployReply::Done(r)) => match r {
                Ok(_) => {
                    self.backed_up = true;
                    self.stage = DeployStage::MakeTarget;
                },
                Err(e) => self.refuse(DeployError::Io(e)),
            },
            _ => {},
        }
    }

    fn after_copy(&mut self, reply: DeployReply)
        requires
            old(self).wf(),
            deploy_answers(deploy_request(old(self)@).op, reply@),
        ensures
            final(self).wf(),
            final(self)@ == after_copy(old(self)@, reply@),
    {
        match (self.stage, reply) {
            (DeployStage::MakeTarget, DeployReply::Done(r)) => match r {
                Ok(_) => {
                    self.next_member = 0;
                    self.next_copy();
                },
                Err(e) => self.discard(e),
            },
            (DeployStage::MakeParent, DeployReply::Done(r)) => match r {
                Ok(_) => {
                    self.stage = DeployStage::CopyFile;
                },
                Err(e) => self.discard(e),
            },
            (DeployStage::CopyFile, DeployReply::Done(r)) => match r {
                Ok(_) => {
                    let count: usize = self.members.len();
                    assert(self.next_member < count);
                    self.next_member = self.next_member + 1;
                    self.next_copy();
                },
                Err(e) => self.discard(e),
            },
            (DeployStage::Discard, _) => {
                let e: String = self.error.clone();
                self.refuse(DeployError::Io(e));
            },
            _ => {},
        }
    }

    /// Takes in the answer to the request.
    pub fn reply(&mut self, reply: DeployReply)
        requires
            old(self).wf(),
            deploy_answers(deploy_request(old(self)@).op, reply@),
        ensures
            final(self).wf(),
            final(self)@ == deploy_after(old(self)@, reply@),
    {
        match self.stage {
            DeployStage::Staging
            | DeployStage::SkillMd
            | DeployStage::Listing
            | DeployStage::Entry => self.after_staged(reply),
            DeployStage::MakeTarget
            | DeployStage::MakeParent
            | DeployStage::CopyFile
            | DeployStage::Discard => self.after_copy(reply),
            _ => self.after_installed(reply),
        }
    }
}

} // verus!
