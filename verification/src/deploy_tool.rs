//! The tool through which skills are deployed: what it asks of its input, and what it
//! records and answers.
use crate::skill_deploy::{
    debug_quoted, error_message, quoted_text, summary_text, DeployError, DeployReport,
    DeploySkillInput, ErrorModel, DEPLOY_SKILL_TOOL_NAME,
};
use crate::text::{is_blank, is_blank_text, text_of};
use crate::tool_meta::{
    write_capabilities, writes, ToolCapabilities, ToolDescription, ToolKind, ToolNamespace,
};
use vstd::prelude::*;

verus! {

/// The tool through which skills are deployed.
#[derive(Debug, Clone, Copy)]
pub struct DeploySkillTool;

impl Default for DeploySkillTool {
    fn default() -> (r: Self)
        ensures
            r == DeploySkillTool,
    {
        DeploySkillTool
    }
}

/// What is said where no approval is given.
pub const APPROVAL_MISSING: &'static str = "`approval_note` must be a non-empty description of the human approval authorizing this deployment (Phase 1: recorded as a declarative audit entry; the path-level `Ask` rule is the enforced gate).";

/// What the model is told of the tool.
pub const DEPLOY_DESCRIPTION: &'static str = "Deploy a staged skill into the user skills directory (`<grok_home>/skills/user-<name>/`). `staging_dir` must be a directory containing a `SKILL.md` (optionally with `scripts/` and other files); it is validated so no member escapes the staging root. If a skill with the same name already exists, an identical `SKILL.md` makes the call a no-op, while different content is an error unless `force=true`, in which case the existing directory is moved to `<grok_home>/evolution/backups/`. `approval_note` is required: record the human approval that authorizes this deployment.";

/// What is recorded of a deployment, whether it succeeded or not.
#[derive(Debug)]
pub struct SkillDeployEvent {
    pub name: String,
    pub staging_dir: String,
    pub target_path: Option<String>,
    pub backup_path: Option<String>,
    pub file_count: usize,
    pub forced: bool,
    pub success: bool,
    pub error: Option<String>,
    pub approval_note: String,
}

/// Why the tool gives no answer.
#[derive(Debug)]
pub enum ToolFailure {
    /// The call was wrong.
    InvalidArguments(String),
    /// The call was right and could not be carried out.
    Execution(String),
}

/// [`ToolFailure`] by its text.
pub enum FailureModel {
    InvalidArguments(Seq<char>),
    Execution(Seq<char>),
}

impl View for ToolFailure {
    type V = FailureModel;

    open spec fn view(&self) -> FailureModel {
        match self {
            ToolFailure::InvalidArguments(s) => FailureModel::InvalidArguments(s@),
            ToolFailure::Execution(s) => FailureModel::Execution(s@),
        }
    }
}

/// The failure that an error comes to: only a failing file system is no fault of the
/// caller.
pub open spec fn failure_of(e: ErrorModel, text: Seq<char>) -> FailureModel {
    if e is Io {
        FailureModel::Execution(text)
    } else {
        FailureModel::InvalidArguments(text)
    }
}

/// `event` records a deployment of `input` that came out as `outcome`; `text` is the
/// message of its error.
pub open spec fn records(
    event: SkillDeployEvent,
    input: DeploySkillInput,
    outcome: Result<DeployReport, DeployError>,
    text: Seq<char>,
) -> bool {
    &&& event.name@ == input.name@
    &&& event.staging_dir@ == input.staging_dir@
    &&& event.forced == input.force
    &&& event.approval_note@ == input.approval_note@
    &&& match outcome {
        Ok(report) => {
            &&& event.success
            &&& text_of(event.target_path) == Some(report.target_dir@)
            &&& text_of(event.backup_path) == text_of(report.backup_dir)
            &&& event.file_count == report.file_count
            &&& event.error is None
        },
        Err(_) => {
            &&& !event.success
            &&& event.target_path is None
            &&& event.backup_path is None
            &&& event.file_count == 0
            &&& text_of(event.error) == Some(text)
        },
    }
}

impl DeploySkillTool {
    /// The name of the tool.
    pub fn id(&self) -> (r: &'static str)
        ensures
            r@ == DEPLOY_SKILL_TOOL_NAME@,
    {
        DEPLOY_SKILL_TOOL_NAME
    }

    /// No tool that a session with restricted tools is given: only a whole session deploys.
    pub fn kind(&self) -> (r: ToolKind)
        ensures
            r == ToolKind::Other,
    {
        ToolKind::Other
    }

    /// What the model is told of the tool.
    pub fn description_template(&self) -> (r: &'static str)
        ensures
            r@ == DEPLOY_DESCRIPTION@,
    {
        DEPLOY_DESCRIPTION
    }

    /// The family of the tool.
    pub fn tool_namespace(&self) -> (r: ToolNamespace)
        ensures
            r == ToolNamespace::QidiBuild,
    {
        ToolNamespace::QidiBuild
    }

    /// The tool as it is announced.
    pub fn description(&self) -> (r: ToolDescription)
        ensures
            r.name@ == DEPLOY_SKILL_TOOL_NAME@,
            r.description@ == DEPLOY_DESCRIPTION@,
    {
        ToolDescription { name: DEPLOY_SKILL_TOOL_NAME, description: DEPLOY_DESCRIPTION }
    }

    /// What the tool may do.
    pub fn capabilities(&self) -> (r: ToolCapabilities)
        ensures
            r == writes(),
    {
        write_capabilities()
    }

    /// The failure of a call that brings no approval; none where it brings one.
    pub fn check_approval(&self, input: &DeploySkillInput) -> (r: Option<ToolFailure>)
        ensures
            match r {
                Some(f) => is_blank(input.approval_note@) && f@
                    == FailureModel::InvalidArguments(APPROVAL_MISSING@),
                None => !is_blank(input.approval_note@),
            },
    {
        if is_blank_text(input.approval_note.as_str()) {
            Some(ToolFailure::InvalidArguments(APPROVAL_MISSING.to_owned()))
        } else {
            None
        }
    }

    /// What is recorded and answered of a deployment whose error, where it has one,
    /// reads `text`.
    pub fn finish_with(
        &self,
        input: &DeploySkillInput,
        outcome: &Result<DeployReport, DeployError>,
        text: &str,
    ) -> (r: (SkillDeployEvent, Result<String, ToolFailure>))
        ensures
            records(r.0, *input, *outcome, text@),
            match *outcome {
                Ok(report) => r.1 matches Ok(s) && s@ == summary_text(report@),
                Err(e) => r.1 matches Err(f) && f@ == failure_of(e@, text@),
            },
    {
        match outcome {
            Ok(report) => {
                let event = SkillDeployEvent {
                    name: input.name.clone(),
                    staging_dir: input.staging_dir.clone(),
                    target_path: Some(report.target_dir.clone()),
                    backup_path: match &report.backup_dir {
                        Some(b) => Some(b.clone()),
                        None => None,
                    },
                    file_count: report.file_count,
                    forced: input.force,
                    success: true,
                    error: None,
                    approval_note: input.approval_note.clone(),
                };
                (event, Ok(report.summary()))
            },
            Err(e) => {
                let event = SkillDeployEvent {
                    name: input.name.clone(),
                    staging_dir: input.staging_dir.clone(),
                    target_path: None,
                    backup_path: None,
                    file_count: 0,
                    forced: input.force,
                    success: false,
                    error: Some(text.to_owned()),
                    approval_note: input.approval_note.clone(),
                };
                let failure = match e {
                    DeployError::Io(_) => ToolFailure::Execution(text.to_owned()),
                    _ => ToolFailure::InvalidArguments(text.to_owned()),
                };
                (event, Err(failure))
            },
        }
    }

    /// What is recorded and answered of a deployment.
    pub fn finish(&self, input: &DeploySkillInput, outcome: &Result<DeployReport, DeployError>) -> (r:
        (SkillDeployEvent, Result<String, ToolFailure>))
        ensures
            match *outcome {
                Ok(report) => records(r.0, *input, *outcome, Seq::empty()) && (r.1 matches Ok(s)
                    && s@ == summary_text(report@)),
                Err(e) => {
                    let text = error_message(e@, debug_quoted(quoted_text(e@)));
                    records(r.0, *input, *outcome, text) && (r.1 matches Err(f) && f@ == failure_of(
                        e@,
                        text,
                    ))
                },
            },
    {
        let text: String = match outcome {
            Ok(_) => String::new(),
            Err(e) => e.message(),
        };
        self.finish_with(input, outcome, text.as_str())
    }
}

} // verus!
