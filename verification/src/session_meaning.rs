//! What the lines of a session file tell, and which turns and rules follow from it.
use crate::byte_lines::line_end_bound;
use crate::json::{json_number_at, json_text_at};
use crate::jsonl::readable_lines;
use crate::paths::joined;
use crate::session_line::{
    after_non_user, after_user_chunk, as_index, event_counter, event_id, fresh_tracker, line_kind,
    line_model, RewindLineClass, SubagentModel, UserRunTurnTracker,
};
use crate::skill_gate::{gate_rules, is_enabled, slashed, PatternMode, RuleAction, ToolFilter};
use crate::text::{
    ascii_lower, decimal, find, find_from_is_first, is_white, last_index_of, occurs_at, replace_all,
};
use crate::text_laws::{last_place_is_last, numbers_are_read_as_written};
use vstd::prelude::*;
use vstd::utf8::{decode_utf8, valid_utf8};

verus! {

// ------------------------------------------------------------------------- the lines

/// A file that is one line is read as that line, save where it is no text or only whitespace;
/// with [`lines_are_independent`](crate::jsonl::lines_are_independent) this settles every
/// file.
pub proof fn single_lines_are_read(b: Seq<u8>)
    requires
        forall|i: int| 0 <= i < b.len() ==> #[trigger] b[i] != 10,
    ensures
        valid_utf8(b) && (exists|i: int|
            0 <= i < decode_utf8(b).len() && !is_white(#[trigger] decode_utf8(b)[i]))
            ==> readable_lines(b, 0) == seq![decode_utf8(b)],
        !valid_utf8(b) ==> readable_lines(b, 0).len() == 0,
        (forall|i: int| 0 <= i < decode_utf8(b).len() ==> is_white(#[trigger] decode_utf8(b)[i]))
            ==> readable_lines(b, 0).len() == 0,
{
    line_end_bound(b, 0);
    assert(b.subrange(0, b.len() as int) =~= b);
    let whole = crate::jsonl::readable(b);
    assert(readable_lines(b, 0) =~= whole);
}

/// The facts of a line stand where the format puts them.
pub proof fn facts_stand_in_their_places(line: Seq<char>)
    ensures
        line_kind(line) == json_text_at(line, "/params/update/sessionUpdate"@),
        event_id(line) == json_text_at(line, "/params/_meta/eventId"@),
        line_model(line).total_tokens == json_number_at(line, "/params/_meta/totalTokens"@),
        line_model(line).commands_update <==> line_kind(line) == Some(
            "available_commands_update"@,
        ),
        event_id(line) is None ==> line_model(line).event_seq is None,
        event_id(line) is Some ==> line_model(line).event_seq == event_counter(event_id(line)->0),
        line_kind(line) == Some("user_message_chunk"@) ==> line_model(line).class
            == (RewindLineClass::UserChunk {
            prompt_index: as_index(json_number_at(line, "/params/_meta/promptIndex"@)),
        }),
        ({
            let target = as_index(json_number_at(line, "/params/update/target_prompt_index"@));
            line_kind(line) == Some("rewind_marker"@) ==> line_model(line).class == match target {
                Some(t) => RewindLineClass::RewindMarker { target_prompt_index: t },
                None => RewindLineClass::Other,
            }
        }),
        line_kind(line) != Some("rewind_marker"@) && line_kind(line) != Some("user_message_chunk"@)
            ==> line_model(line).class == RewindLineClass::Other,
{
    reveal_strlit("rewind_marker");
    reveal_strlit("user_message_chunk");
    assert("rewind_marker"@[0] == 'r' && "user_message_chunk"@[0] == 'u');
}

/// A line tells of a subagent where it names one: that it is done, or, where it names its
/// session too, that it was begun.
pub proof fn subagents_are_told(line: Seq<char>, id: Seq<char>, child: Seq<char>)
    ensures
        ({
            let named = json_text_at(line, "/params/update/subagent_id"@);
            let session = json_text_at(line, "/params/update/child_session_id"@);
            let e = line_model(line).subagent;
            &&& e == Some(SubagentModel::Finished { subagent_id: id }) <==> line_kind(line) == Some(
                "subagent_finished"@,
            ) && named == Some(id)
            &&& e == Some(SubagentModel::Spawned { subagent_id: id, child_session_id: child })
                <==> line_kind(line) == Some("subagent_spawned"@) && named == Some(id) && session
                == Some(child)
        }),
{
    reveal_strlit("subagent_finished");
    reveal_strlit("subagent_spawned");
    assert("subagent_finished"@[9] == 'f' && "subagent_spawned"@[9] == 's');
}

/// The counter of an event is the number behind the last dash of its id.
pub proof fn counters_stand_behind_the_last_dash(session: Seq<char>, n: u64)
    ensures
        event_counter(session + seq!['-'] + decimal(n as nat)) == Some(n),
{
    let d = decimal(n as nat);
    let id = session + seq!['-'] + d;
    numbers_are_read_as_written(n as nat);
    last_place_is_last(id, '-');
    let at = session.len() as int;
    assert(id[at] == '-');
    let i = last_index_of(id, '-')->0;
    if i > at {
        assert(id[i] == d[i - at - 1]);
    }
    assert(id.skip(at + 1) =~= d);
}

/// An id without a dash has no counter.
pub proof fn ids_without_dash_have_no_counter(id: Seq<char>)
    requires
        forall|i: int| 0 <= i < id.len() ==> #[trigger] id[i] != '-',
    ensures
        event_counter(id) is None,
{
    last_place_is_last(id, '-');
}

// ------------------------------------------------------------------------- the turns

/// What a tracker is told: of a chunk of what the user said, with the number of the prompt
/// where it has one, or of something else.
pub enum Heard {
    User(Option<usize>),
    Other,
}

/// The tracker after all that it was told.
pub open spec fn told_of(heard: Seq<Heard>) -> UserRunTurnTracker
    decreases heard.len(),
{
    if heard.len() == 0 {
        fresh_tracker()
    } else {
        match heard.last() {
            Heard::User(p) => after_user_chunk(told_of(heard.drop_last()), p).0,
            Heard::Other => after_non_user(told_of(heard.drop_last())),
        }
    }
}

/// The last of it was said by the user.
pub open spec fn ends_with_user(heard: Seq<Heard>) -> bool {
    heard.len() > 0 && heard.last() is User
}

/// The chunk at `k` has this number, and since then the user said nothing with a number and
/// nobody else said anything.
pub open spec fn last_number(heard: Seq<Heard>, k: int, p: usize) -> bool {
    &&& 0 <= k < heard.len()
    &&& heard[k] == Heard::User(Some(p))
    &&& forall|j: int| k < j < heard.len() ==> #[trigger] heard[j] == Heard::User(None)
}

/// Some chunk had a number.
pub open spec fn has_number(heard: Seq<Heard>) -> bool {
    exists|k: int| 0 <= k < heard.len() && numbered(#[trigger] heard[k])
}

/// The chunk has a number.
pub open spec fn numbered(h: Heard) -> bool {
    h matches Heard::User(Some(_))
}

proof fn tracker_knows(heard: Seq<Heard>)
    ensures
        told_of(heard).in_user <==> ends_with_user(heard),
        told_of(heard).seen_marker <==> has_number(heard),
        match told_of(heard).current_run_pi {
            Some(p) => exists|k: int| #[trigger] last_number(heard, k, p),
            None => forall|k: int, p: usize| !#[trigger] last_number(heard, k, p),
        },
    decreases heard.len(),
{
    if heard.len() > 0 {
        let before = heard.drop_last();
        let last = heard.len() - 1;
        tracker_knows(before);
        assert(has_number(heard) <==> has_number(before) || numbered(heard.last())) by {
            if has_number(before) {
                let k = choose|k: int| 0 <= k < before.len() && numbered(#[trigger] before[k]);
                assert(numbered(heard[k]));
            }
            if numbered(heard.last()) {
                assert(numbered(heard[last]));
            }
            if has_number(heard) {
                let k = choose|k: int| 0 <= k < heard.len() && numbered(#[trigger] heard[k]);
                if k < last {
                    assert(numbered(before[k]));
                }
            }
        }
        match heard.last() {
            Heard::User(Some(p)) => {
                assert(last_number(heard, last, p));
            },
            Heard::User(None) => {
                assert forall|k: int, p: usize| #[trigger]
                    last_number(heard, k, p) implies last_number(before, k, p) by {
                    assert forall|j: int| k < j < before.len() implies #[trigger] before[j]
                        == Heard::User(None) by {
                        assert(heard[j] == Heard::User(None));
                    }
                }
                if let Some(p) = told_of(before).current_run_pi {
                    let k = choose|k: int| #[trigger] last_number(before, k, p);
                    assert forall|j: int| k < j < heard.len() implies #[trigger] heard[j]
                        == Heard::User(None) by {
                        if j < last {
                            assert(before[j] == Heard::User(None));
                        }
                    }
                    assert(last_number(heard, k, p));
                }
            },
            Heard::Other => {
                assert forall|k: int, p: usize| !#[trigger] last_number(heard, k, p) by {
                    if last_number(heard, k, p) {
                        assert(heard[last] == Heard::Other);
                    }
                }
            },
        }
    }
}

/// A chunk with a number begins a turn unless the last number since anyone else spoke is the
/// same; one without begins a turn only as the first after someone else spoke, and only as
/// long as no chunk had a number.
pub proof fn turns_begin_with_a_new_prompt(heard: Seq<Heard>, p: usize)
    ensures
        after_user_chunk(told_of(heard), Some(p)).1 <==> !(exists|k: int| #[trigger]
            last_number(heard, k, p)),
        after_user_chunk(told_of(heard), None).1 <==> !ends_with_user(heard) && !has_number(heard),
{
    tracker_knows(heard);
    if let Some(q) = told_of(heard).current_run_pi {
        let k = choose|k: int| #[trigger] last_number(heard, k, q);
        assert forall|j: int| #[trigger] last_number(heard, j, p) implies p == q by {
            if j < k {
                assert(heard[k] == Heard::User(None));
            } else if k < j {
                assert(heard[j] == Heard::User(None));
            }
        }
        assert(heard.last() is User) by {
            if k < heard.len() - 1 {
                assert(heard[heard.len() - 1] == Heard::User(None));
            }
        }
    }
}

// --------------------------------------------------------------------- editing skills

/// Evolution is on unless the variable says `off`, in whatever case.
pub proof fn evolution_is_on_unless_off(value: Option<Seq<char>>)
    ensures
        is_enabled(value) <==> value is None || ascii_lower(value->0) != ascii_lower("off"@),
{
}

proof fn slashed_is_by_character(path: Seq<char>)
    ensures
        slashed(path) == path.map_values(
            |c: char|
                if c == '\\' {
                    '/'
                } else {
                    c
                },
        ),
    decreases path.len(),
{
    reveal_strlit("/");
    let f = |c: char|
        if c == '\\' {
            '/'
        } else {
            c
        };
    let p = seq!['\\'];
    find_from_is_first(path, p, 0);
    match find(path, p) {
        Some(i) => {
            let rest = path.skip(i + 1);
            slashed_is_by_character(rest);
            assert forall|j: int| 0 <= j < i implies #[trigger] path[j] != '\\' by {
                if path[j] == '\\' {
                    assert(path.subrange(j, j + 1) =~= p);
                    assert(occurs_at(path, p, j));
                }
            }
            assert(path.subrange(i, i + 1)[0] == path[i]);
            assert("/"@ =~= seq!['/']);
            assert(replace_all(path, p, "/"@) == path.take(i) + "/"@ + replace_all(rest, p, "/"@));
            assert(slashed(path) =~= path.map_values(f));
        },
        None => {
            assert forall|j: int| 0 <= j < path.len() implies #[trigger] path[j] != '\\' by {
                if path[j] == '\\' {
                    assert(path.subrange(j, j + 1) =~= p);
                    assert(occurs_at(path, p, j));
                }
            }
            assert(slashed(path) =~= path.map_values(f));
        },
    }
}

/// Paths are written with forward slashes, and nothing else in them changes.
pub proof fn slashes_lean_forward(path: Seq<char>, i: int)
    requires
        0 <= i < path.len(),
    ensures
        slashed(path).len() == path.len(),
        slashed(path)[i] == if path[i] == '\\' {
            '/'
        } else {
            path[i]
        },
{
    slashed_is_by_character(path);
}

/// The rules ask before any edit below the directory of skills, by the name with a tilde and
/// by the full one where there is one and it is another.
pub proof fn gate_covers_the_skills(home: Option<Seq<char>>, pattern: Seq<char>)
    ensures
        ({
            let rules = gate_rules(home);
            let tilde = "~/.qidi/skills/**"@;
            let full = slashed(joined(home->0, "skills"@)) + "/**"@;
            &&& (exists|i: int|
                0 <= i < rules.len() && (#[trigger] rules[i]).pattern == Some(pattern)) <==> pattern
                == tilde || (home is Some && pattern == full)
            &&& rules.len() == if home is Some && full != tilde {
                2int
            } else {
                1
            }
            &&& forall|i: int|
                0 <= i < rules.len() ==> (#[trigger] rules[i]).action == RuleAction::Ask
                    && rules[i].tool == ToolFilter::Edit && rules[i].pattern_mode
                    == PatternMode::Glob
        }),
{
    let rules = gate_rules(home);
    let full = slashed(joined(home->0, "skills"@)) + "/**"@;
    assert(rules[0].pattern == Some("~/.qidi/skills/**"@));
    if home is Some && full != "~/.qidi/skills/**"@ {
        assert(rules[1].pattern == Some(full));
    }
}

} // verus!
