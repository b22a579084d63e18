//! What may be deployed as a skill, and what is reported of it.
use crate::paths::{is_absolute, is_absolute_path, parts_of, path_parts};
use crate::text::{decimal, decimal_u64, decimal_usize, same_text, text_of, views};
use vstd::prelude::*;
use vstd::string::StringExecFns;
use vstd::utf8::*;

verus! {

/// The name of the tool.
pub const DEPLOY_SKILL_TOOL_NAME: &'static str = "deploy_skill";

/// How many files one deployment may copy.
pub const MAX_DEPLOY_FILES: usize = 200;

/// How many bytes one file may have.
pub const MAX_DEPLOY_FILE_BYTES: u64 = 1048576;

/// How many bytes all files together may have.
pub const MAX_DEPLOY_TOTAL_BYTES: u64 = 10485760;

/// How long the name of a skill may be.
pub const MAX_SKILL_NAME_LEN: usize = 64;

/// What the tool is called with.
#[derive(Debug, Clone)]
pub struct DeploySkillInput {
    /// The directory with the staged skill; it holds a `SKILL.md`.
    pub staging_dir: String,
    /// The name of the skill.
    pub name: String,
    /// Replace a skill whose content differs, after a backup.
    pub force: bool,
    /// The human approval for the deployment.
    pub approval_note: String,
}

// ----------------------------------------------------------------------- names

/// A small letter or a digit.
pub open spec fn is_name_char(c: char) -> bool {
    ('a' <= c <= 'z') || ('0' <= c <= '9')
}

/// A skill name: at most 64 small letters, digits and dashes, and no dash in front.
pub open spec fn valid_name(name: Seq<char>) -> bool {
    &&& 1 <= name.len() <= MAX_SKILL_NAME_LEN
    &&& is_name_char(name[0])
    &&& forall|i: int| 0 <= i < name.len() ==> is_name_char(#[trigger] name[i]) || name[i] == '-'
}

/// Whether `name` is a skill name.
pub fn is_valid_deploy_name(name: &str) -> (r: bool)
    ensures
        r == valid_name(name@),
{
    let v: Vec<char> = crate::text::chars_of(name);
    if v.len() == 0 || v.len() > MAX_SKILL_NAME_LEN {
        return false;
    }
    let first: char = v[0];
    if !(('a' <= first && first <= 'z') || ('0' <= first && first <= '9')) {
        return false;
    }
    let mut i: usize = 0;
    while i < v.len()
        invariant
            i <= v.len(),
            v@ == name@,
            forall|k: int| 0 <= k < i ==> is_name_char(#[trigger] name@[k]) || name@[k] == '-',
        decreases v.len() - i,
    {
        let c: char = v[i];
        if !(('a' <= c && c <= 'z') || ('0' <= c && c <= '9') || c == '-') {
            assert(!is_name_char(name@[i as int]) && name@[i as int] != '-');
            return false;
        }
        i += 1;
    }
    true
}

// --------------------------------------------------------------------- members

/// A member of a staged skill is safe when its path, seen from the staging directory,
/// is made of plain names only.
pub open spec fn safe_member(relative: Seq<char>) -> bool {
    &&& relative.len() > 0
    &&& !is_absolute(relative)
    &&& forall|i: int|
        0 <= i < path_parts(relative).len() ==> (#[trigger] path_parts(relative)[i]) != "."@
            && path_parts(relative)[i] != ".."@
}

/// Whether a member of a staged skill is safe.
pub fn relative_member_is_safe(relative: &str) -> (r: bool)
    ensures
        r == safe_member(relative@),
{
    if relative.is_empty() || is_absolute_path(relative) {
        return false;
    }
    let parts: Vec<String> = parts_of(relative);
    let ghost all = path_parts(relative@);
    let mut i: usize = 0;
    while i < parts.len()
        invariant
            i <= parts.len(),
            all == path_parts(relative@),
            views(parts@) == all,
            forall|k: int| 0 <= k < i ==> (#[trigger] all[k]) != "."@ && all[k] != ".."@,
        decreases parts.len() - i,
    {
        assert(all[i as int] == parts@[i as int]@);
        if same_text(parts[i].as_str(), ".") || same_text(parts[i].as_str(), "..") {
            return false;
        }
        i += 1;
    }
    assert(all.len() == parts@.len());
    true
}

/// A file staged for deployment.
#[derive(Debug)]
pub struct Member {
    /// Its path, seen from the staging directory.
    pub relative: String,
    /// Its path.
    pub source: String,
    /// Its size in bytes.
    pub size: u64,
}

/// [`Member`] by its texts.
pub struct MemberModel {
    pub relative: Seq<char>,
    pub source: Seq<char>,
    pub size: u64,
}

impl View for Member {
    type V = MemberModel;

    open spec fn view(&self) -> MemberModel {
        MemberModel { relative: self.relative@, source: self.source@, size: self.size }
    }
}

/// The texts of a list of members.
pub open spec fn member_models(v: Seq<Member>) -> Seq<MemberModel> {
    v.map_values(|m: Member| m@)
}

// ---------------------------------------------------------------------- errors

/// Why a deployment was refused.
#[derive(Debug, Clone, PartialEq, Eq)]
pub enum DeployError {
    /// The name is no skill name.
    InvalidName(String),
    /// The staging directory is not there.
    StagingNotFound(String),
    /// The staging directory has no `SKILL.md`.
    MissingSkillMd(String),
    /// A member lies outside the staging directory or is a link.
    UnsafeMember(String),
    /// Too many files are staged.
    TooManyFiles(usize),
    /// One file is too large.
    FileTooLarge { path: String, bytes: u64 },
    /// The files together are too large.
    TotalTooLarge(u64),
    /// The skill is there with other content, and replacing it was not asked for.
    TargetConflict(String),
    /// The file system failed.
    Io(String),
}

/// [`DeployError`] by its texts.
pub enum ErrorModel {
    InvalidName(Seq<char>),
    StagingNotFound(Seq<char>),
    MissingSkillMd(Seq<char>),
    UnsafeMember(Seq<char>),
    TooManyFiles(int),
    FileTooLarge { path: Seq<char>, bytes: u64 },
    TotalTooLarge(u64),
    TargetConflict(Seq<char>),
    Io(Seq<char>),
}

impl View for DeployError {
    type V = ErrorModel;

    open spec fn view(&self) -> ErrorModel {
        match self {
            DeployError::InvalidName(s) => ErrorModel::InvalidName(s@),
            DeployError::StagingNotFound(s) => ErrorModel::StagingNotFound(s@),
            DeployError::MissingSkillMd(s) => ErrorModel::MissingSkillMd(s@),
            DeployError::UnsafeMember(s) => ErrorModel::UnsafeMember(s@),
            DeployError::TooManyFiles(n) => ErrorModel::TooManyFiles(*n as int),
            DeployError::FileTooLarge { path, bytes } => ErrorModel::FileTooLarge {
                path: path@,
                bytes: *bytes,
            },
            DeployError::TotalTooLarge(n) => ErrorModel::TotalTooLarge(*n),
            DeployError::TargetConflict(s) => ErrorModel::TargetConflict(s@),
            DeployError::Io(s) => ErrorModel::Io(s@),
        }
    }
}

/// A text in double quotes with its special characters escaped, as the standard
/// library's `Debug` for `str` writes it.
pub uninterp spec fn debug_quoted(s: Seq<char>) -> Seq<char>;

/// `<str as Debug>::fmt`, through `format!`: what it writes is a function of the text
/// alone.
#[verifier::external_body]
pub(crate) fn quoted(s: &str) -> (r: String)
    ensures
        r@ == debug_quoted(s@),
{
    format!("{s:?}")
}

/// The message of an error; `quote` is the text that the error names, in quotes.
pub open spec fn error_message(e: ErrorModel, quote: Seq<char>) -> Seq<char> {
    match e {
        ErrorModel::InvalidName(_) => "invalid skill name "@ + quote
            + ": must match ^[a-z0-9][a-z0-9-]{0,63}$"@,
        ErrorModel::StagingNotFound(path) => "staging directory does not exist: "@ + path,
        ErrorModel::MissingSkillMd(path) => "staging directory has no SKILL.md: "@ + path,
        ErrorModel::UnsafeMember(_) => "unsafe staged member "@ + quote
            + ": path components must not contain `..`, absolute paths, or symlinks"@,
        ErrorModel::TooManyFiles(n) => "staged skill has "@ + decimal(n as nat)
            + " files, exceeding the limit of "@ + decimal(MAX_DEPLOY_FILES as nat),
        ErrorModel::FileTooLarge { path, bytes } => "staged file "@ + path + " is "@ + decimal(
            bytes as nat,
        ) + " bytes, exceeding the per-file limit of "@ + decimal(MAX_DEPLOY_FILE_BYTES as nat),
        ErrorModel::TotalTooLarge(n) => "staged skill totals "@ + decimal(n as nat)
            + " bytes, exceeding the limit of "@ + decimal(MAX_DEPLOY_TOTAL_BYTES as nat),
        ErrorModel::TargetConflict(path) => "target exists with different content: "@ + path
            + "; use force=true or resolve manually"@,
        ErrorModel::Io(detail) => "deployment I/O error: "@ + detail,
    }
}

/// The text that the error puts in quotes.
pub open spec fn quoted_text(e: ErrorModel) -> Seq<char> {
    match e {
        ErrorModel::InvalidName(name) => name,
        ErrorModel::UnsafeMember(path) => path,
        _ => Seq::empty(),
    }
}

impl DeployError {
    /// The message, with `quote` for the text that the error puts in quotes.
    pub fn message_with(&self, quote: &str) -> (r: String)
        ensures
            r@ == error_message(self@, quote@),
    {
        let mut s: String = String::new();
        match self {
            DeployError::InvalidName(_) => {
                s.append("invalid skill name ");
                s.append(quote);
                s.append(": must match ^[a-z0-9][a-z0-9-]{0,63}$");
            },
            DeployError::StagingNotFound(path) => {
                s.append("staging directory does not exist: ");
                s.append(path.as_str());
            },
            DeployError::MissingSkillMd(path) => {
                s.append("staging directory has no SKILL.md: ");
                s.append(path.as_str());
            },
            DeployError::UnsafeMember(_) => {
                s.append("unsafe staged member ");
                s.append(quote);
                s.append(": path components must not contain `..`, absolute paths, or symlinks");
            },
            DeployError::TooManyFiles(n) => {
                s.append("staged skill has ");
                s.append(decimal_usize(*n).as_str());
                s.append(" files, exceeding the limit of ");
                s.append(decimal_usize(MAX_DEPLOY_FILES).as_str());
            },
            DeployError::FileTooLarge { path, bytes } => {
                s.append("staged file ");
                s.append(path.as_str());
                s.append(" is ");
                s.append(decimal_u64(*bytes).as_str());
                s.append(" bytes, exceeding the per-file limit of ");
                s.append(decimal_u64(MAX_DEPLOY_FILE_BYTES).as_str());
            },
            DeployError::TotalTooLarge(n) => {
                s.append("staged skill totals ");
                s.append(decimal_u64(*n).as_str());
                s.append(" bytes, exceeding the limit of ");
                s.append(decimal_u64(MAX_DEPLOY_TOTAL_BYTES).as_str());
            },
            DeployError::TargetConflict(path) => {
                s.append("target exists with different content: ");
                s.append(path.as_str());
                s.append("; use force=true or resolve manually");
            },
            DeployError::Io(detail) => {
                s.append("deployment I/O error: ");
                s.append(detail.as_str());
            },
        }
        assert(s@ =~= error_message(self@, quote@));
        s
    }

    /// The message.
    pub fn message(&self) -> (r: String)
        ensures
            r@ == error_message(self@, debug_quoted(quoted_text(self@))),
    {
        let quote: String = match self {
            DeployError::InvalidName(name) => quoted(name.as_str()),
            DeployError::UnsafeMember(path) => quoted(path.as_str()),
            _ => {
                let empty: String = String::new();
                assert(empty@ =~= Seq::empty());
                quoted(empty.as_str())
            },
        };
        self.message_with(quote.as_str())
    }
}

// ---------------------------------------------------------------------- limits

/// The sizes of the first `n` members together.
pub open spec fn total_size(members: Seq<MemberModel>, n: int) -> nat
    decreases n,
{
    if n <= 0 || n > members.len() {
        0
    } else {
        total_size(members, n - 1) + members[n - 1].size as nat
    }
}

/// The first of the members from `i` on at which a limit is passed, told as an error.
pub open spec fn size_error(members: Seq<MemberModel>, i: int) -> Option<ErrorModel>
    decreases members.len() - i,
{
    if i < 0 || i >= members.len() {
        None
    } else if members[i].size > MAX_DEPLOY_FILE_BYTES {
        Some(ErrorModel::FileTooLarge { path: members[i].relative, bytes: members[i].size })
    } else if total_size(members, i + 1) > MAX_DEPLOY_TOTAL_BYTES {
        Some(ErrorModel::TotalTooLarge(total_size(members, i + 1) as u64))
    } else {
        size_error(members, i + 1)
    }
}

/// The limit that the members pass, if they pass one.
pub open spec fn limit_error(members: Seq<MemberModel>) -> Option<ErrorModel> {
    if members.len() > MAX_DEPLOY_FILES {
        Some(ErrorModel::TooManyFiles(members.len() as int))
    } else {
        size_error(members, 0)
    }
}

/// The error of a refused deployment, where it is one.
pub open spec fn refusal(r: Result<(), DeployError>) -> Option<ErrorModel> {
    match r {
        Ok(_) => None,
        Err(e) => Some(e@),
    }
}

/// Holds the members against the limits.
pub fn check_limits(members: &Vec<Member>) -> (r: Result<(), DeployError>)
    ensures
        refusal(r) == limit_error(member_models(members@)),
{
    let ghost all = member_models(members@);
    if members.len() > MAX_DEPLOY_FILES {
        return Err(DeployError::TooManyFiles(members.len()));
    }
    let mut total: u64 = 0;
    let mut i: usize = 0;
    while i < members.len()
        invariant
            i <= members.len(),
            all == member_models(members@),
            members.len() <= MAX_DEPLOY_FILES,
            total == total_size(all, i as int),
            total <= MAX_DEPLOY_TOTAL_BYTES,
            size_error(all, 0) == size_error(all, i as int),
        decreases members.len() - i,
    {
        assert(all[i as int] == members@[i as int]@);
        let size: u64 = members[i].size;
        if size > MAX_DEPLOY_FILE_BYTES {
            return Err(
                DeployError::FileTooLarge { path: members[i].relative.clone(), bytes: size },
            );
        }
        total = total + size;
        if total > MAX_DEPLOY_TOTAL_BYTES {
            return Err(DeployError::TotalTooLarge(total));
        }
        i += 1;
    }
    assert(all.len() == members@.len());
    Ok(())
}

/// A deployment keeps to the limits exactly when it has few enough files, each of them
/// is small enough, and so are all of them together.
pub proof fn limits_are_limits(members: Seq<MemberModel>)
    ensures
        limit_error(members) is None <==> {
            &&& members.len() <= MAX_DEPLOY_FILES
            &&& forall|i: int|
                0 <= i < members.len() ==> (#[trigger] members[i]).size <= MAX_DEPLOY_FILE_BYTES
            &&& total_size(members, members.len() as int) <= MAX_DEPLOY_TOTAL_BYTES
        },
{
    sizes_within(members, 0);
}

proof fn sizes_within(members: Seq<MemberModel>, i: int)
    requires
        0 <= i <= members.len(),
    ensures
        size_error(members, i) is None <==> {
            &&& forall|k: int|
                i <= k < members.len() ==> (#[trigger] members[k]).size <= MAX_DEPLOY_FILE_BYTES
            &&& i < members.len() ==> total_size(members, members.len() as int)
                <= MAX_DEPLOY_TOTAL_BYTES
        },
    decreases members.len() - i,
{
    if i < members.len() {
        sizes_within(members, i + 1);
        total_grows(members, i + 1, members.len() as int);
        if members[i].size <= MAX_DEPLOY_FILE_BYTES && total_size(members, i + 1)
            <= MAX_DEPLOY_TOTAL_BYTES {
            assert forall|k: int| i <= k < members.len() && (forall|j: int|
                i + 1 <= j < members.len() ==> (#[trigger] members[j]).size
                    <= MAX_DEPLOY_FILE_BYTES) implies (#[trigger] members[k]).size
                <= MAX_DEPLOY_FILE_BYTES by {}
        }
    }
}

proof fn total_grows(members: Seq<MemberModel>, i: int, n: int)
    requires
        0 <= i <= n <= members.len(),
    ensures
        total_size(members, i) <= total_size(members, n),
    decreases n - i,
{
    if i < n {
        total_grows(members, i, n - 1);
    }
}

// --------------------------------------------------------------------- reports

/// What became of a deployment.
#[derive(Debug, Clone, PartialEq, Eq)]
pub struct DeployReport {
    /// Where the skill is installed.
    pub target_dir: String,
    /// How many files it has.
    pub file_count: usize,
    /// Where what stood there before was moved.
    pub backup_dir: Option<String>,
    /// The same skill stood there already; nothing was written.
    pub idempotent: bool,
}

/// [`DeployReport`] by its texts.
pub struct ReportModel {
    pub target_dir: Seq<char>,
    pub file_count: int,
    pub backup_dir: Option<Seq<char>>,
    pub idempotent: bool,
}

impl View for DeployReport {
    type V = ReportModel;

    open spec fn view(&self) -> ReportModel {
        ReportModel {
            target_dir: self.target_dir@,
            file_count: self.file_count as int,
            backup_dir: text_of(self.backup_dir),
            idempotent: self.idempotent,
        }
    }
}

/// The report in words.
pub open spec fn summary_text(r: ReportModel) -> Seq<char> {
    if r.idempotent {
        "Skill already up to date at "@ + r.target_dir + " ("@ + decimal(r.file_count as nat)
            + " files); no changes made."@
    } else {
        "Deployed skill to "@ + r.target_dir + " ("@ + decimal(r.file_count as nat) + " files)."@
            + match r.backup_dir {
            Some(b) => " Previous content backed up to "@ + b + "."@,
            None => Seq::empty(),
        }
    }
}

impl DeployReport {
    /// The report in words.
    pub fn summary(&self) -> (r: String)
        ensures
            r@ == summary_text(self@),
    {
        let mut s: String = String::new();
        if self.idempotent {
            s.append("Skill already up to date at ");
            s.append(self.target_dir.as_str());
            s.append(" (");
            s.append(decimal_usize(self.file_count).as_str());
            s.append(" files); no changes made.");
        } else {
            s.append("Deployed skill to ");
            s.append(self.target_dir.as_str());
            s.append(" (");
            s.append(decimal_usize(self.file_count).as_str());
            s.append(" files).");
            if let Some(b) = &self.backup_dir {
                s.append(" Previous content backed up to ");
                s.append(b.as_str());
                s.append(".");
            }
        }
        assert(s@ =~= summary_text(self@));
        s
    }
}

} // verus!
