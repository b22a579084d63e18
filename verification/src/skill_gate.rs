//! The rule that asks before a skill is edited by hand.
use crate::paths::{join_path, joined};
use crate::text::{
    chars_of, replace_all, replace_chars, same_ignoring_ascii_case, same_text,
    same_text_ignoring_ascii_case, string_of, text_of,
};
use vstd::prelude::*;
use vstd::string::StringExecFns;

verus! {

/// The variable that switches evolution off.
pub const EVOLUTION_ENV_VAR: &'static str = "QIDI_EVOLUTION";

/// The skills of the user, as a model usually writes them.
pub const TILDE_SKILLS_GLOB: &'static str = "~/.qidi/skills/**";

/// What a rule says.
#[derive(Debug, Clone, Copy, PartialEq, Eq, Structural)]
pub enum RuleAction {
    Allow,
    Ask,
    Deny,
}

/// Which tools a rule is about.
#[derive(Debug, Clone, Copy, PartialEq, Eq, Structural)]
pub enum ToolFilter {
    Edit,
    Read,
    Bash,
}

/// How a pattern is read.
#[derive(Debug, Clone, Copy, PartialEq, Eq, Structural)]
pub enum PatternMode {
    Glob,
    Regex,
}

/// A rule on what tools may do.
#[derive(Debug, Clone)]
pub struct PermissionRule {
    pub action: RuleAction,
    pub tool: ToolFilter,
    pub pattern: Option<String>,
    pub pattern_mode: PatternMode,
}

/// [`PermissionRule`] by its text.
pub struct RuleModel {
    pub action: RuleAction,
    pub tool: ToolFilter,
    pub pattern: Option<Seq<char>>,
    pub pattern_mode: PatternMode,
}

impl View for PermissionRule {
    type V = RuleModel;

    open spec fn view(&self) -> RuleModel {
        RuleModel {
            action: self.action,
            tool: self.tool,
            pattern: text_of(self.pattern),
            pattern_mode: self.pattern_mode,
        }
    }
}

/// The texts of a list of rules.
pub open spec fn rule_models(v: Seq<PermissionRule>) -> Seq<RuleModel> {
    v.map_values(|r: PermissionRule| r@)
}

/// Evolution is on, unless the variable says `off`, whatever its case.
pub open spec fn is_enabled(value: Option<Seq<char>>) -> bool {
    !(value is Some && same_ignoring_ascii_case(value->0, "off"@))
}

/// The text of an optional string slice.
pub open spec fn value_text(v: Option<&str>) -> Option<Seq<char>> {
    match v {
        Some(t) => Some(t@),
        None => None,
    }
}

/// Whether evolution is on for this value of the variable.
pub fn evolution_enabled_for(value: Option<&str>) -> (r: bool)
    ensures
        r == is_enabled(value_text(value)),
{
    match value {
        Some(v) => !same_text_ignoring_ascii_case(v, "off"),
        None => true,
    }
}

/// The rule that asks before anything that the pattern matches is edited.
pub open spec fn asks_before_edit(pattern: Seq<char>) -> RuleModel {
    RuleModel {
        action: RuleAction::Ask,
        tool: ToolFilter::Edit,
        pattern: Some(pattern),
        pattern_mode: PatternMode::Glob,
    }
}

fn ask_edit(pattern: &str) -> (r: PermissionRule)
    ensures
        r@ == asks_before_edit(pattern@),
{
    PermissionRule {
        action: RuleAction::Ask,
        tool: ToolFilter::Edit,
        pattern: Some(pattern.to_owned()),
        pattern_mode: PatternMode::Glob,
    }
}

/// `path` with slashes in place of backslashes.
pub open spec fn slashed(path: Seq<char>) -> Seq<char> {
    replace_all(path, seq!['\\'], "/"@)
}

/// `path` with slashes in place of backslashes.
pub fn forward_slashed(path: &str) -> (r: String)
    ensures
        r@ == slashed(path@),
{
    let back: Vec<char> = vec!['\\'];
    assert(back@ =~= seq!['\\']);
    string_of(&replace_chars(&chars_of(path), &back, &chars_of("/")))
}

/// The pattern for the skills below the directory `home`.
pub open spec fn absolute_glob(home: Seq<char>) -> Seq<char> {
    slashed(joined(home, "skills"@)) + "/**"@
}

/// The rules that guard the skills: one for the way a model usually writes their
/// directory, and one for its absolute path where that is known and another.
pub open spec fn gate_rules(home: Option<Seq<char>>) -> Seq<RuleModel> {
    let tilde = seq![asks_before_edit(TILDE_SKILLS_GLOB@)];
    match home {
        Some(h) => if absolute_glob(h) != TILDE_SKILLS_GLOB@ {
            tilde.push(asks_before_edit(absolute_glob(h)))
        } else {
            tilde
        },
        None => tilde,
    }
}

/// The rules that guard the skills.
pub fn skill_deploy_gate_rules(home: Option<&str>) -> (r: Vec<PermissionRule>)
    ensures
        rule_models(r@) == gate_rules(value_text(home)),
{
    let mut rules: Vec<PermissionRule> = Vec::new();
    rules.push(ask_edit(TILDE_SKILLS_GLOB));
    assert(rule_models(rules@) =~= seq![asks_before_edit(TILDE_SKILLS_GLOB@)]);
    if let Some(h) = home {
        let mut absolute: String = forward_slashed(join_path(h, "skills").as_str());
        absolute.append("/**");
        if !same_text(absolute.as_str(), TILDE_SKILLS_GLOB) {
            let ghost before = rules@;
            rules.push(ask_edit(absolute.as_str()));
            assert(rule_models(rules@) =~= rule_models(before).push(asks_before_edit(absolute@)));
        }
    }
    rules
}

/// The rules that a session is given: none where evolution is off.
pub fn session_skill_gate_rules(value: Option<&str>, home: Option<&str>) -> (r: Vec<PermissionRule>)
    ensures
        rule_models(r@) == if is_enabled(value_text(value)) {
            gate_rules(value_text(home))
        } else {
            Seq::empty()
        },
{
    if evolution_enabled_for(value) {
        skill_deploy_gate_rules(home)
    } else {
        let none: Vec<PermissionRule> = Vec::new();
        assert(rule_models(none@) =~= Seq::empty());
        none
    }
}

/// The rules only ever ask, and only about edits: they neither allow nor deny anything.
pub proof fn gate_only_asks(home: Option<Seq<char>>, i: int)
    requires
        0 <= i < gate_rules(home).len(),
    ensures
        gate_rules(home)[i].action == RuleAction::Ask,
        gate_rules(home)[i].tool == ToolFilter::Edit,
        gate_rules(home).len() >= 1,
        gate_rules(home)[0].pattern == Some(TILDE_SKILLS_GLOB@),
{
}

} // verus!
