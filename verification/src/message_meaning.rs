//! What is said of errors, deployments and places, word for word.
use crate::deploy_tool::{failure_of, FailureModel};
use crate::home::{home_in, resolved_home};
use crate::paths::joined;
use crate::proxy_url::is_local;
use crate::skill_deploy::{
    error_message, is_name_char, summary_text, valid_name, ErrorModel, ReportModel,
};
use crate::text::{contains, decimal, views};
use crate::tool_config::{
    entry_error_text, first_text, params_error, second_text, EntryErrorModel, KindModel,
};
use crate::worktree::{
    mode_name, report_of, says_full, skip_patterns, Cause, CopyStats, CreationMode,
    IgnoredFilesMode,
};
use vstd::prelude::*;

verus! {

/// A bad entry is told by its place, its tool and what is wrong with it.
pub proof fn bad_entries_are_told(
    index: nat,
    tool: Seq<char>,
    a: Seq<char>,
    b: Seq<char>,
    first: Seq<char>,
    second: Seq<char>,
)
    ensures
        ({
            let at = "tool config entry error at index "@ + decimal(index) + " (tool_id="@ + tool
                + "): "@;
            let parse = KindModel::ParamsJsonParse { raw: a, error: b };
            let object = KindModel::ParamsJsonNotObject { value: a };
            let name = KindModel::NameOverrideInvalid { name: a, error: b };
            &&& entry_error_text(
                EntryErrorModel { index, tool_id: tool, kind: parse },
                first,
                second,
            ) == at + ("ParamsJsonParse { raw: "@ + first + ", error: "@ + second + " }"@)
            &&& entry_error_text(
                EntryErrorModel { index, tool_id: tool, kind: object },
                first,
                second,
            ) == at + ("ParamsJsonNotObject { value: "@ + first + " }"@)
            &&& entry_error_text(
                EntryErrorModel { index, tool_id: tool, kind: name },
                first,
                second,
            ) == at + ("NameOverrideInvalid { name: "@ + first + ", error: "@ + second + " }"@)
            &&& first_text(parse) == a && second_text(parse) == b
            &&& first_text(object) == a && second_text(object).len() == 0
            &&& first_text(name) == a && second_text(name) == b
        }),
{
}

/// Parameters that cannot be read are told with what was read and why it could not be.
pub proof fn bad_parameters_are_told(
    index: nat,
    tool: Seq<char>,
    raw: Seq<char>,
    error: Seq<char>,
)
    ensures
        params_error(index, tool, raw, error).index == index,
        params_error(index, tool, raw, error).tool_id == tool,
        first_text(params_error(index, tool, raw, error).kind) == raw,
        second_text(params_error(index, tool, raw, error).kind) == error,
        params_error(index, tool, raw, error).kind is ParamsJsonParse,
{
}

/// Where no home is configured it is the directory `.qidi` in that of the user, by its true
/// path where that is known; without a user there is none.
pub proof fn home_lies_with_the_user(
    configured: Option<Seq<char>>,
    os_home: Seq<char>,
    canonical: Seq<char>,
)
    requires
        configured is None || configured->0.len() == 0,
    ensures
        resolved_home(configured, Some(os_home), None) == Some(joined(os_home, ".qidi"@)),
        resolved_home(configured, Some(os_home), Some(canonical)) == Some(
            joined(canonical, ".qidi"@),
        ),
        resolved_home(configured, None, None) is None,
        resolved_home(configured, None, Some(canonical)) is None,
        home_in(os_home, None) == joined(os_home, ".qidi"@),
{
}

/// The machine itself goes by three names.
pub proof fn machine_has_three_names(host: Seq<char>)
    ensures
        is_local(Some(host)) <==> host == "127.0.0.1"@ || host == "localhost"@ || host == "::1"@,
        !is_local(None),
{
}

/// A name of a skill is one to sixty-four small letters, digits and dashes, and no dash comes
/// first.
pub proof fn skill_names_are_plain(name: Seq<char>)
    ensures
        valid_name(name) <==> {
            &&& 0 < name.len() <= 64
            &&& name[0] != '-'
            &&& forall|i: int|
                0 <= i < name.len() ==> ('a' <= #[trigger] name[i] <= 'z') || ('0' <= name[i]
                    <= '9') || name[i] == '-'
        },
{
    if 0 < name.len() <= 64 && name[0] != '-' && (forall|i: int|
        0 <= i < name.len() ==> ('a' <= #[trigger] name[i] <= 'z') || ('0' <= name[i] <= '9')
            || name[i] == '-') {
        assert(is_name_char(name[0]));
        assert forall|i: int| 0 <= i < name.len() implies is_name_char(#[trigger] name[i]) || name[i]
            == '-' by {}
    }
    if valid_name(name) {
        assert(is_name_char(name[0]));
        assert forall|i: int| 0 <= i < name.len() implies ('a' <= #[trigger] name[i] <= 'z') || ('0'
            <= name[i] <= '9') || name[i] == '-' by {
            assert(is_name_char(name[i]) || name[i] == '-');
        }
    }
}

/// What is said of a deployment that was refused.
pub proof fn refusals_are_told(path: Seq<char>, quote: Seq<char>, n: int, bytes: u64, total: u64)
    requires
        0 <= n,
    ensures
        error_message(ErrorModel::InvalidName(path), quote) == "invalid skill name "@ + quote
            + ": must match ^[a-z0-9][a-z0-9-]{0,63}$"@,
        error_message(ErrorModel::StagingNotFound(path), quote)
            == "staging directory does not exist: "@ + path,
        error_message(ErrorModel::MissingSkillMd(path), quote)
            == "staging directory has no SKILL.md: "@ + path,
        error_message(ErrorModel::UnsafeMember(path), quote) == "unsafe staged member "@ + quote
            + ": path components must not contain `..`, absolute paths, or symlinks"@,
        error_message(ErrorModel::TooManyFiles(n), quote) == "staged skill has "@ + decimal(
            n as nat,
        ) + " files, exceeding the limit of "@ + decimal(200),
        error_message(ErrorModel::FileTooLarge { path, bytes }, quote) == "staged file "@ + path
            + " is "@ + decimal(bytes as nat) + " bytes, exceeding the per-file limit of "@
            + decimal(0x10_0000),
        error_message(ErrorModel::TotalTooLarge(total), quote) == "staged skill totals "@ + decimal(
            total as nat,
        ) + " bytes, exceeding the limit of "@ + decimal(0xa0_0000),
        error_message(ErrorModel::TargetConflict(path), quote)
            == "target exists with different content: "@ + path
            + "; use force=true or resolve manually"@,
        error_message(ErrorModel::Io(path), quote) == "deployment I/O error: "@ + path,
{
}

/// What is said of a deployment that was not: where the skill is, how many files it has, and
/// where what was there before has gone.
pub proof fn deployments_are_told(r: ReportModel, dir: Seq<char>)
    ensures
        r.idempotent ==> summary_text(r) == "Skill already up to date at "@ + r.target_dir + " ("@
            + decimal(r.file_count as nat) + " files); no changes made."@,
        !r.idempotent && r.backup_dir == Some(dir) ==> summary_text(r) == "Deployed skill to "@
            + r.target_dir + " ("@ + decimal(r.file_count as nat) + " files)."@ + (
        " Previous content backed up to "@ + dir + "."@),
        !r.idempotent && r.backup_dir is None ==> summary_text(r) == "Deployed skill to "@
            + r.target_dir + " ("@ + decimal(r.file_count as nat) + " files)."@,
{
    if r.backup_dir is None {
        let s = "Deployed skill to "@ + r.target_dir + " ("@ + decimal(r.file_count as nat)
            + " files)."@;
        assert(s + Seq::<char>::empty() =~= s);
    }
}

/// A failure of the machine is one of the execution, any other one of the arguments.
pub proof fn failures_have_their_kind(e: ErrorModel, text: Seq<char>)
    ensures
        e is Io ==> failure_of(e, text) == FailureModel::Execution(text),
        !(e is Io) ==> failure_of(e, text) == FailureModel::InvalidArguments(text),
{
}

/// The ways in which a worktree is made go by these names.
pub proof fn modes_have_their_names()
    ensures
        mode_name(CreationMode::Linked) == "linked"@,
        mode_name(CreationMode::Standalone) == "standalone"@,
        mode_name(CreationMode::GitCheckout) == "git"@,
{
}

/// A report tells all that was counted.
pub proof fn reports_tell_the_counts(stats: CopyStats)
    ensures
        report_of(stats).files_copied == stats.files_copied,
        report_of(stats).dirs_created == stats.dirs_created,
        report_of(stats).symlinks_copied == stats.symlinks_copied,
        report_of(stats).files_skipped == stats.files_skipped,
        report_of(stats).issues == stats.issues,
        report_of(stats).dirty_files is None,
{
}

/// Where ignored files are copied, the patterns given are skipped.
pub proof fn given_patterns_are_skipped(patterns: Vec<String>)
    ensures
        skip_patterns(IgnoredFilesMode::Copy { skip_patterns: patterns }) == views(patterns@),
        skip_patterns(IgnoredFilesMode::CopyOnly { skip_patterns: patterns }) == views(patterns@),
        skip_patterns(IgnoredFilesMode::Skip).len() == 0,
{
}

/// A cause says that the disk is full by its kind or by the words of the system.
pub proof fn full_disks_are_told(c: Cause)
    ensures
        says_full(c) <==> c.storage_full || contains(c.message@, "No space left on device"@),
{
}

} // verus!
