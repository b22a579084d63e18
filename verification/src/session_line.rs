//! What one line of a session's update log says to the replay.
//!
//! A line is a JSON document: `params.update` holds the update, whose
//! `sessionUpdate` names its kind, and `params._meta` holds the bookkeeping that
//! goes with it.
use crate::json::{json_number_at, json_text_at, number_at, text_at};
use crate::text::{chars_of, find_last, last_index_of, parse_u64, parsed_u64, same_text, text_of};
use vstd::prelude::*;
use vstd::slice::slice_subrange;

verus! {

/// A number as an index, where it fits in one.
pub open spec fn as_index(n: Option<u64>) -> Option<usize> {
    match n {
        Some(v) => if v <= usize::MAX {
            Some(v as usize)
        } else {
            None
        },
        None => None,
    }
}

/// A number as an index, where it fits in one.
pub fn index_from(n: Option<u64>) -> (r: Option<usize>)
    ensures
        r == as_index(n),
{
    match n {
        Some(v) => if v <= usize::MAX as u64 {
            Some(v as usize)
        } else {
            None
        },
        None => None,
    }
}

/// How a line bears on which lines are still live.
#[derive(Debug, Clone, Copy, PartialEq, Eq, Structural)]
pub enum RewindLineClass {
    /// The conversation was taken back to before this user turn.
    RewindMarker { target_prompt_index: usize },
    /// A piece of what the user said.
    UserChunk { prompt_index: Option<usize> },
    /// Anything else.
    Other,
}

/// A subagent that was started or has come to its end.
#[derive(Debug, Clone, PartialEq, Eq)]
pub enum SubagentLineEvent {
    /// A subagent was started in a session of its own.
    Spawned { subagent_id: String, child_session_id: String },
    /// A subagent has finished.
    Finished { subagent_id: String },
}

/// [`SubagentLineEvent`] by its texts.
pub enum SubagentModel {
    Spawned { subagent_id: Seq<char>, child_session_id: Seq<char> },
    Finished { subagent_id: Seq<char> },
}

impl View for SubagentLineEvent {
    type V = SubagentModel;

    open spec fn view(&self) -> SubagentModel {
        match self {
            SubagentLineEvent::Spawned { subagent_id, child_session_id } => SubagentModel::Spawned {
                subagent_id: subagent_id@,
                child_session_id: child_session_id@,
            },
            SubagentLineEvent::Finished { subagent_id } => SubagentModel::Finished {
                subagent_id: subagent_id@,
            },
        }
    }
}

/// The texts of an optional event.
pub open spec fn event_model(e: Option<SubagentLineEvent>) -> Option<SubagentModel> {
    match e {
        Some(x) => Some(x@),
        None => None,
    }
}

/// Everything of a line that the replay goes by.
#[derive(Debug, Clone, PartialEq, Eq)]
pub struct LineFacts {
    /// How the line bears on which lines are live.
    pub class: RewindLineClass,
    /// The line announces the available commands: it is kept, never forwarded.
    pub commands_update: bool,
    /// The running token count, where the line carries one.
    pub total_tokens: Option<u64>,
    /// The counter in the line's event id, where it has one.
    pub event_seq: Option<u64>,
    /// The subagent that the line starts or ends.
    pub subagent: Option<SubagentLineEvent>,
}

/// [`LineFacts`] by its texts.
pub struct LineModel {
    pub class: RewindLineClass,
    pub commands_update: bool,
    pub total_tokens: Option<u64>,
    pub event_seq: Option<u64>,
    pub subagent: Option<SubagentModel>,
}

impl View for LineFacts {
    type V = LineModel;

    open spec fn view(&self) -> LineModel {
        LineModel {
            class: self.class,
            commands_update: self.commands_update,
            total_tokens: self.total_tokens,
            event_seq: self.event_seq,
            subagent: event_model(self.subagent),
        }
    }
}

// ---------------------------------------------------- what the fields come to

/// The class of an update of kind `kind` with the given rewind target and
/// prompt index.
pub open spec fn update_class(
    kind: Option<Seq<char>>,
    target: Option<u64>,
    prompt_index: Option<u64>,
) -> RewindLineClass {
    if kind == Some("rewind_marker"@) && as_index(target) is Some {
        RewindLineClass::RewindMarker { target_prompt_index: as_index(target)->0 }
    } else if kind == Some("user_message_chunk"@) {
        RewindLineClass::UserChunk { prompt_index: as_index(prompt_index) }
    } else {
        RewindLineClass::Other
    }
}

/// The class of an update of kind `kind` with the given rewind target and
/// prompt index.
pub fn classify_update(
    kind: &Option<String>,
    target: Option<u64>,
    prompt_index: Option<u64>,
) -> (r: RewindLineClass)
    ensures
        r == update_class(text_of(*kind), target, prompt_index),
{
    if is_kind(kind, "rewind_marker") {
        if let Some(t) = index_from(target) {
            return RewindLineClass::RewindMarker { target_prompt_index: t };
        }
    }
    if is_kind(kind, "user_message_chunk") {
        return RewindLineClass::UserChunk { prompt_index: index_from(prompt_index) };
    }
    RewindLineClass::Other
}

/// Whether a kind is there and is `name`.
pub fn is_kind(kind: &Option<String>, name: &str) -> (r: bool)
    ensures
        r == (text_of(*kind) == Some(name@)),
{
    match kind {
        Some(k) => same_text(k.as_str(), name),
        None => false,
    }
}

/// The subagent event of an update of kind `kind` with the given ids.
pub open spec fn update_subagent(
    kind: Option<Seq<char>>,
    subagent_id: Option<Seq<char>>,
    child_session_id: Option<Seq<char>>,
) -> Option<SubagentModel> {
    match subagent_id {
        None => None,
        Some(id) => if kind == Some("subagent_finished"@) {
            Some(SubagentModel::Finished { subagent_id: id })
        } else if kind == Some("subagent_spawned"@) && child_session_id is Some {
            Some(
                SubagentModel::Spawned { subagent_id: id, child_session_id: child_session_id->0 },
            )
        } else {
            None
        },
    }
}

proof fn subagent_kinds_differ()
    ensures
        "subagent_finished"@ != "subagent_spawned"@,
{
    reveal_strlit("subagent_finished");
    reveal_strlit("subagent_spawned");
    assert("subagent_finished"@.len() != "subagent_spawned"@.len());
}

/// The subagent event of an update of kind `kind` with the given ids.
pub fn subagent_of_update(
    kind: &Option<String>,
    subagent_id: Option<String>,
    child_session_id: Option<String>,
) -> (r: Option<SubagentLineEvent>)
    ensures
        event_model(r) == update_subagent(
            text_of(*kind),
            text_of(subagent_id),
            text_of(child_session_id),
        ),
{
    proof {
        subagent_kinds_differ();
    }
    if let Some(id) = subagent_id {
        if is_kind(kind, "subagent_finished") {
            return Some(SubagentLineEvent::Finished { subagent_id: id });
        }
        if is_kind(kind, "subagent_spawned") {
            if let Some(child) = child_session_id {
                return Some(
                    SubagentLineEvent::Spawned { subagent_id: id, child_session_id: child },
                );
            }
        }
    }
    None
}

/// The counter of an event id: the number behind its last dash.
pub open spec fn event_counter(id: Seq<char>) -> Option<u64> {
    match last_index_of(id, '-') {
        Some(i) => parsed_u64(id.skip(i + 1)),
        None => None,
    }
}

/// The counter of an event id: the number behind its last dash.
pub fn event_counter_of(id: &str) -> (r: Option<u64>)
    ensures
        r == event_counter(id@),
{
    let v: Vec<char> = chars_of(id);
    match find_last(&v, '-') {
        Some(i) => {
            assert(v@.subrange(i + 1, v@.len() as int) =~= v@.skip(i + 1));
            parse_u64(slice_subrange(&v, i + 1, v.len()))
        },
        None => None,
    }
}

// ------------------------------------------------------- the fields of a line

/// The kind of the update in `line`.
pub open spec fn line_kind(line: Seq<char>) -> Option<Seq<char>> {
    json_text_at(line, "/params/update/sessionUpdate"@)
}

/// The event id of `line`.
pub open spec fn event_id(line: Seq<char>) -> Option<Seq<char>> {
    json_text_at(line, "/params/_meta/eventId"@)
}

/// What `line` says to the replay.
pub open spec fn line_model(line: Seq<char>) -> LineModel {
    LineModel {
        class: update_class(
            line_kind(line),
            json_number_at(line, "/params/update/target_prompt_index"@),
            json_number_at(line, "/params/_meta/promptIndex"@),
        ),
        commands_update: line_kind(line) == Some("available_commands_update"@),
        total_tokens: json_number_at(line, "/params/_meta/totalTokens"@),
        event_seq: match event_id(line) {
            Some(id) => event_counter(id),
            None => None,
        },
        subagent: update_subagent(
            line_kind(line),
            json_text_at(line, "/params/update/subagent_id"@),
            json_text_at(line, "/params/update/child_session_id"@),
        ),
    }
}

/// How `line` bears on which lines are live.
pub fn classify_rewind_line(line: &str) -> (r: RewindLineClass)
    ensures
        r == line_model(line@).class,
{
    let kind: Option<String> = text_at(line, "/params/update/sessionUpdate");
    let target: Option<u64> = number_at(line, "/params/update/target_prompt_index");
    let prompt_index: Option<u64> = number_at(line, "/params/_meta/promptIndex");
    classify_update(&kind, target, prompt_index)
}

/// The event id of `line`.
pub fn line_event_id(line: &str) -> (r: Option<String>)
    ensures
        text_of(r) == event_id(line@),
{
    text_at(line, "/params/_meta/eventId")
}

/// The counter in the event id of `line`.
pub fn line_event_seq(line: &str) -> (r: Option<u64>)
    ensures
        r == line_model(line@).event_seq,
{
    match line_event_id(line) {
        Some(id) => event_counter_of(id.as_str()),
        None => None,
    }
}

/// Whether the event id of `line` is `id`.
pub fn line_has_event_id(line: &str, id: &str) -> (r: bool)
    ensures
        r == (event_id(line@) == Some(id@)),
{
    is_kind(&line_event_id(line), id)
}

/// Whether `line` announces the available commands.
pub fn line_is_available_commands_update(line: &str) -> (r: bool)
    ensures
        r == line_model(line@).commands_update,
{
    is_kind(&text_at(line, "/params/update/sessionUpdate"), "available_commands_update")
}

/// The running token count that `line` carries.
pub fn line_total_tokens(line: &str) -> (r: Option<u64>)
    ensures
        r == line_model(line@).total_tokens,
{
    number_at(line, "/params/_meta/totalTokens")
}

/// The subagent that `line` starts or ends.
pub fn line_subagent_event(line: &str) -> (r: Option<SubagentLineEvent>)
    ensures
        event_model(r) == line_model(line@).subagent,
{
    let kind: Option<String> = text_at(line, "/params/update/sessionUpdate");
    let id: Option<String> = text_at(line, "/params/update/subagent_id");
    let child: Option<String> = text_at(line, "/params/update/child_session_id");
    subagent_of_update(&kind, id, child)
}

/// What `line` says to the replay.
pub fn line_facts(line: &str) -> (r: LineFacts)
    ensures
        r@ == line_model(line@),
{
    LineFacts {
        class: classify_rewind_line(line),
        commands_update: line_is_available_commands_update(line),
        total_tokens: line_total_tokens(line),
        event_seq: line_event_seq(line),
        subagent: line_subagent_event(line),
    }
}

// ------------------------------------------------------------- turns of a user

/// Tells the user's turns apart: a turn is a run of user chunks, and a new one
/// begins inside a run where the prompt index changes. Once one chunk has
/// carried a prompt index, runs without one are no turns of the user.
#[derive(Debug, Clone, Copy, PartialEq, Eq, Structural)]
pub struct UserRunTurnTracker {
    /// A chunk with a prompt index has been seen.
    pub seen_marker: bool,
    /// The last line was a user chunk.
    pub in_user: bool,
    /// The prompt index of the run that is open.
    pub current_run_pi: Option<usize>,
}

/// The tracker after a user chunk, and whether the chunk opens a turn.
pub open spec fn after_user_chunk(t: UserRunTurnTracker, prompt_index: Option<usize>) -> (
    UserRunTurnTracker,
    bool,
) {
    match prompt_index {
        Some(p) => (
            UserRunTurnTracker { seen_marker: true, in_user: true, current_run_pi: Some(p) },
            !t.in_user || t.current_run_pi != Some(p),
        ),
        None => (
            UserRunTurnTracker { in_user: true, ..t },
            !t.in_user && !t.seen_marker,
        ),
    }
}

/// The tracker after a line that is no user chunk.
pub open spec fn after_non_user(t: UserRunTurnTracker) -> UserRunTurnTracker {
    UserRunTurnTracker { in_user: false, current_run_pi: None, ..t }
}

/// The tracker before the first line.
pub open spec fn fresh_tracker() -> UserRunTurnTracker {
    UserRunTurnTracker { seen_marker: false, in_user: false, current_run_pi: None }
}

impl UserRunTurnTracker {
    /// The tracker before the first line.
    pub fn new() -> (r: Self)
        ensures
            r == fresh_tracker(),
    {
        UserRunTurnTracker { seen_marker: false, in_user: false, current_run_pi: None }
    }

    /// Takes in a user chunk; says whether it opens a turn.
    pub fn on_user_chunk(&mut self, prompt_index: Option<usize>) -> (opens: bool)
        ensures
            (*final(self), opens) == after_user_chunk(*old(self), prompt_index),
    {
        match prompt_index {
            Some(p) => {
                let same_run: bool = match self.current_run_pi {
                    Some(q) => self.in_user && q == p,
                    None => false,
                };
                self.seen_marker = true;
                self.in_user = true;
                self.current_run_pi = Some(p);
                !same_run
            },
            None => {
                let opens: bool = !self.in_user && !self.seen_marker;
                self.in_user = true;
                opens
            },
        }
    }

    /// Takes in a line that is no user chunk.
    pub fn on_non_user(&mut self)
        ensures
            *final(self) == after_non_user(*old(self)),
    {
        self.in_user = false;
        self.current_run_pi = None;
    }
}

} // verus!
