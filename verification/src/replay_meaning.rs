//! What a replay sends, said of the lines of the log themselves.
use crate::byte_lines::{line_end, line_end_bound, line_text};
use crate::checkpoint::{
    bounded_behind, cursor_position, event_id_at, forwarded, full_filter, last_with_id, prepared,
    prepared_in_full,
};
use crate::replay::{
    clamped, count_step, derived, filter_lines, filter_step, fresh_filter, lines_from, model_at,
    CountersModel, FilterModel,
};
use crate::replay_laws::lines_in_order;
use crate::session_line::{event_id, line_model, LineModel, RewindLineClass, SubagentModel};
use crate::session_meaning::{
    ends_with_user, has_number, last_number, told_of, turns_begin_with_a_new_prompt, Heard,
};
use crate::text::is_blank;
use crate::text_order::{pairs_are_told_by_key, sorted_by_key, sorted_is_kept};
use vstd::prelude::*;
use vstd::utf8::decode_utf8;

verus! {

// --------------------------------------------------------------------- the cursor

/// The live line at place `i` of the filter, by its text.
pub open spec fn live_text(b: Seq<u8>, f: FilterModel, i: int) -> Seq<char> {
    line_text(b, clamped(b, f.live[i]))
}

/// The places of the live lines from `from` on that are sent to clients, in order.
pub open spec fn sent_places(f: FilterModel, from: int) -> Seq<int> {
    Seq::new((f.live.len() - from) as nat, |i: int| from + i).filter(|i: int| f.flags[i] == 0)
}

/// The texts of the live lines from `from` on that are sent to clients, in order.
pub open spec fn sent_texts(b: Seq<u8>, f: FilterModel, from: int) -> Seq<Seq<char>> {
    sent_places(f, from).map_values(|i: int| live_text(b, f, i))
}

/// The client has seen the live line at place `q`, and nothing behind it: the line has the
/// id `id`, and no line behind it has.
pub open spec fn seen_up_to(b: Seq<u8>, f: FilterModel, id: Seq<char>, q: int) -> bool {
    &&& 0 <= q < f.live.len()
    &&& event_id(live_text(b, f, q)) == Some(id)
    &&& forall|j: int| q < j < f.live.len() ==> event_id(#[trigger] live_text(b, f, j)) != Some(id)
}

/// Each line behind place `q` that clients are sent has an event id.
pub open spec fn rest_has_ids(b: Seq<u8>, f: FilterModel, q: int) -> bool {
    forall|j: int|
        q < j < f.live.len() && f.flags[j] != 1 ==> event_id(#[trigger] live_text(b, f, j)) is Some
}

proof fn sent_grows(b: Seq<u8>, f: FilterModel, from: int, g: FilterModel)
    requires
        0 <= from <= g.live.len(),
        f.live.len() == f.flags.len(),
        f.live.len() > 0,
        from < f.live.len(),
        g.live == f.live.drop_last(),
        g.flags == f.flags.drop_last(),
    ensures
        sent_texts(b, f, from) == if f.flags.last() == 0 {
            sent_texts(b, g, from).push(live_text(b, f, f.live.len() - 1))
        } else {
            sent_texts(b, g, from)
        },
{
    reveal(Seq::filter);
    let all = Seq::new((f.live.len() - from) as nat, |i: int| from + i);
    let fewer = Seq::new((g.live.len() - from) as nat, |i: int| from + i);
    let keep = |i: int| f.flags[i] == 0;
    let keep_g = |i: int| g.flags[i] == 0;
    assert(all.drop_last() =~= fewer);
    same_filter(fewer, keep, keep_g);
    let p = fewer.filter(keep);
    fewer.filter_lemma(keep);
    assert forall|k: int| 0 <= k < p.len() implies live_text(b, f, p[k]) == live_text(b, g, p[k]) by {
        assert(p.contains(p[k]));
        fewer.lemma_filter_contains_rev(keep, p[k]);
    }
    assert(sent_places(g, from) == p);
    if f.flags.last() == 0 {
        assert(sent_places(f, from) == p.push(f.live.len() - 1));
        assert(sent_texts(b, f, from) =~= sent_texts(b, g, from).push(
            live_text(b, f, f.live.len() - 1),
        ));
    } else {
        assert(sent_places(f, from) == p);
        assert(sent_texts(b, f, from) =~= sent_texts(b, g, from));
    }
}

/// Two tests that agree on a list leave the same of it.
pub proof fn same_filter<A>(s: Seq<A>, p: spec_fn(A) -> bool, q: spec_fn(A) -> bool)
    requires
        forall|i: int| 0 <= i < s.len() ==> p(#[trigger] s[i]) == q(s[i]),
    ensures
        s.filter(p) == s.filter(q),
    decreases s.len(),
{
    reveal(Seq::filter);
    if s.len() > 0 {
        assert forall|i: int| 0 <= i < s.drop_last().len() implies p(#[trigger] s.drop_last()[i])
            == q(s.drop_last()[i]) by {
            assert(s.drop_last()[i] == s[i]);
        }
        same_filter(s.drop_last(), p, q);
        assert(p(s[s.len() - 1]) == q(s[s.len() - 1]));
    }
}

proof fn forwarded_is_sent(b: Seq<u8>, f: FilterModel, from: int)
    requires
        f.live.len() == f.flags.len(),
        0 <= from,
    ensures
        from <= f.live.len() ==> forwarded(b, f.live, f.flags, from) == sent_texts(b, f, from),
    decreases f.live.len(),
{
    if from < f.live.len() {
        let g = FilterModel { live: f.live.drop_last(), flags: f.flags.drop_last(), ..f };
        forwarded_is_sent(b, g, from);
        sent_grows(b, f, from, g);
    } else if from == f.live.len() {
        reveal(Seq::filter);
        assert(sent_texts(b, f, from) =~= Seq::empty());
    }
}

proof fn last_is_last(b: Seq<u8>, live: Seq<u64>, id: Seq<char>)
    ensures
        match last_with_id(b, live, id) {
            Some(q) => {
                &&& 0 <= q < live.len()
                &&& event_id_at(b, live[q]) == Some(id)
                &&& forall|j: int| q < j < live.len() ==> event_id_at(b, #[trigger] live[j]) != Some(id)
            },
            None => forall|j: int|
                0 <= j < live.len() ==> event_id_at(b, #[trigger] live[j]) != Some(id),
        },
    decreases live.len(),
{
    if live.len() > 0 && event_id_at(b, live.last()) != Some(id) {
        last_is_last(b, live.drop_last(), id);
        let before = live.drop_last();
        assert forall|j: int| 0 <= j < live.len() - 1 implies before[j] == #[trigger] live[j] by {}
    }
}

/// A client whose cursor is honoured is sent just what it has missed: each line behind the last
/// one with the event id of its cursor, in order, but for those that no client is sent.
/// The cursor is honoured where there is such a line, and all behind it that is sent can
/// be told by event ids; else the client is sent everything from the start.
pub proof fn reconnecting_client_misses_nothing(
    b: Seq<u8>,
    f: FilterModel,
    c: CountersModel,
    cursor: Option<Seq<char>>,
    q: int,
)
    requires
        f.live.len() == f.flags.len(),
    ensures
        ({
            let p = prepared(b, f, c, cursor);
            &&& cursor is Some && seen_up_to(b, f, cursor->0, q) && rest_has_ids(b, f, q) ==> {
                &&& !p.mark_replay
                &&& p.lines == sent_texts(b, f, q + 1)
            }
            &&& cursor is Some && seen_up_to(b, f, cursor->0, q) && !rest_has_ids(b, f, q) ==> {
                &&& p.mark_replay
                &&& p.lines == sent_texts(b, f, 0)
            }
            &&& cursor is None || (forall|j: int|
                0 <= j < f.live.len() ==> event_id(#[trigger] live_text(b, f, j)) != cursor) ==> {
                &&& p.mark_replay
                &&& p.lines == sent_texts(b, f, 0)
            }
        }),
{
    forwarded_is_sent(b, f, 0);
    if let Some(id) = cursor {
        last_is_last(b, f.live, id);
        assert forall|j: int| 0 <= j < f.live.len() implies event_id_at(b, #[trigger] f.live[j])
            == event_id(live_text(b, f, j)) by {}
        if seen_up_to(b, f, id, q) {
            assert(event_id(live_text(b, f, q)) == Some(id));
            assert(event_id_at(b, f.live[q]) == Some(id));
            let l = last_with_id(b, f.live, id)->0;
            if l > q {
                assert(event_id(live_text(b, f, l)) != Some(id));
            }
            assert(l == q);
            forwarded_is_sent(b, f, q + 1);
            if rest_has_ids(b, f, q) {
                assert forall|j: int| q < j < f.live.len() implies f.flags[j] == 1 || event_id_at(
                    b,
                    #[trigger] f.live[j],
                ) is Some by {
                    assert(f.flags[j] != 1 ==> event_id(live_text(b, f, j)) is Some);
                }
            } else {
                let j = choose|j: int|
                    q < j < f.live.len() && f.flags[j] != 1 && event_id(
                        #[trigger] live_text(b, f, j),
                    ) is None;
                assert(event_id_at(b, f.live[j]) is None);
                assert(!bounded_behind(b, f, q));
            }
        } else if forall|j: int|
            0 <= j < f.live.len() ==> event_id(#[trigger] live_text(b, f, j)) != cursor {
            if let Some(l) = last_with_id(b, f.live, id) {
                assert(event_id(live_text(b, f, l)) != cursor);
            }
        }
    }
}

/// A line that is sent to clients and stands behind every line with the event id of the
/// cursor is sent to the client with that cursor.
pub proof fn missed_line_is_sent(
    b: Seq<u8>,
    f: FilterModel,
    c: CountersModel,
    cursor: Option<Seq<char>>,
    i: int,
)
    requires
        f.live.len() == f.flags.len(),
        0 <= i < f.live.len(),
        f.flags[i] == 0,
        forall|j: int|
            i <= j < f.live.len() ==> event_id(#[trigger] live_text(b, f, j)) != cursor,
    ensures
        prepared(b, f, c, cursor).lines.contains(live_text(b, f, i)),
{
    let from: int = match cursor_position(b, f, cursor) {
        Some(p) => p + 1,
        None => 0,
    };
    if let Some(id) = cursor {
        last_is_last(b, f.live, id);
        if from > i {
            assert(event_id(live_text(b, f, from - 1)) != cursor);
        }
    }
    forwarded_is_sent(b, f, from);
    let all = Seq::new((f.live.len() - from) as nat, |k: int| from + k);
    let keep = |k: int| f.flags[k] == 0;
    assert(all[i - from] == i);
    all.lemma_filter_contains(keep, i - from);
    let s = sent_places(f, from);
    let k = choose|k: int| 0 <= k < s.len() && s[k] == i;
    assert(sent_texts(b, f, from)[k] == live_text(b, f, i));
}

// ------------------------------------------------------------------- the live lines

/// A line starts at `o`.
pub open spec fn line_starts(b: Seq<u8>, o: int) -> bool {
    0 <= o < b.len() && (o == 0 || b[o - 1] == 10)
}

/// The line that starts at `o` reaches to `e`: to a newline or to the end.
pub open spec fn line_reaches(b: Seq<u8>, o: int, e: int) -> bool {
    &&& o <= e <= b.len()
    &&& e == b.len() || b[e] == 10
    &&& forall|j: int| o <= j < e ==> (#[trigger] b[j]) != 10
}

proof fn lines_are_found(b: Seq<u8>, pos: int, o: int)
    requires
        0 <= pos <= o,
        line_starts(b, o),
        pos == 0 || b[pos - 1] == 10,
    ensures
        lines_from(b, pos).contains(o) <==> !is_blank(line_text(b, o)),
    decreases o - pos,
{
    line_end_bound(b, pos);
    let e = line_end(b, pos);
    let all = lines_from(b, pos);
    let rest = if pos <= e < b.len() {
        lines_from(b, e + 1)
    } else {
        Seq::empty()
    };
    if pos < o {
        if e >= o {
            assert(b[o - 1] != 10);
        }
        lines_are_found(b, e + 1, o);
        if !is_blank(line_text(b, pos)) {
            assert(all == seq![pos] + rest);
            assert(all[0] == pos);
            if rest.contains(o) {
                let i = rest.index_of(o);
                assert(all[i + 1] == o);
            }
            if all.contains(o) {
                let i = all.index_of(o);
                assert(all[i] == rest[i - 1]);
            }
        }
    } else if is_blank(line_text(b, pos)) {
        if e < b.len() {
            lines_in_order(b, e + 1);
        }
        if all.contains(o) {
            let i = all.index_of(o);
            assert(rest[i] == o);
        }
    } else {
        assert(all[0] == pos);
    }
}

/// Every line of the log that is not blank is read, and nothing else is taken for a line. Its
/// text reaches to the next newline or to the end.
pub proof fn every_line_is_read(b: Seq<u8>, o: int)
    ensures
        lines_from(b, 0).contains(o) <==> line_starts(b, o) && !is_blank(line_text(b, o)),
        line_starts(b, o) ==> exists|e: int|
            line_reaches(b, o, e) && line_text(b, o) == decode_utf8(#[trigger] b.subrange(o, e)),
{
    if line_starts(b, o) {
        lines_are_found(b, 0, o);
        line_end_bound(b, o);
        assert(line_reaches(b, o, line_end(b, o)));
        assert(line_text(b, o) == decode_utf8(b.subrange(o, line_end(b, o))));
    } else {
        lines_in_order(b, 0);
        if lines_from(b, 0).contains(o) {
            let i = lines_from(b, 0).index_of(o);
            assert(lines_from(b, 0)[i] == o);
        }
    }
}

/// The state of the scan after the first `n` of the lines.
pub open spec fn after_lines(b: Seq<u8>, lines: Seq<int>, n: int) -> FilterModel {
    filter_lines(fresh_filter(), b, lines.take(n))
}

/// How a line of the log bears on which lines are live.
pub open spec fn class_at(b: Seq<u8>, o: int) -> RewindLineClass {
    line_model(line_text(b, o)).class
}

proof fn one_line_more(b: Seq<u8>, lines: Seq<int>, n: int)
    requires
        0 <= n < lines.len(),
    ensures
        after_lines(b, lines, n + 1) == filter_step(
            after_lines(b, lines, n),
            model_at(b, lines[n]),
            lines[n] as u64,
        ),
{
    assert(lines.take(n + 1).drop_last() =~= lines.take(n));
    assert(lines.take(n + 1).last() == lines[n]);
}

/// What each state of the scan says of the lines that it has read: the live lines are some of
/// them, none a rewind marker, each with its flag.
pub open spec fn live_are_lines(b: Seq<u8>, lines: Seq<int>, n: int) -> bool {
    let f = after_lines(b, lines, n);
    &&& f.live.len() == f.flags.len()
    &&& forall|i: int|
        0 <= i < f.live.len() ==> {
            &&& lines.take(n).contains(#[trigger] f.live[i] as int)
            &&& !(class_at(b, f.live[i] as int) is RewindMarker)
            &&& f.flags[i] == if line_model(line_text(b, f.live[i] as int)).commands_update {
                1u8
            } else {
                0u8
            }
        }
}

/// Each turn of the user began with a line before which just the lines before that turn were
/// live.
pub open spec fn turns_have_beginnings(b: Seq<u8>, lines: Seq<int>, n: int) -> bool {
    let f = after_lines(b, lines, n);
    forall|t: int| 0 <= t < f.starts.len() ==> #[trigger] turn_begins(b, lines, n, t)
}

/// Turn `t` of the state after the first `n` lines began with a line of the user's: before
/// that line the turns were those before `t`, and the live lines those in front of it.
pub open spec fn turn_begins(b: Seq<u8>, lines: Seq<int>, n: int, t: int) -> bool {
    exists|j: int|
        0 <= j < n && class_at(b, lines[j]) is UserChunk && {
            let g = #[trigger] after_lines(b, lines, j);
            let f = after_lines(b, lines, n);
            &&& g.starts.len() == t
            &&& g.starts == f.starts.take(t)
            &&& g.live.len() == f.starts[t]
            &&& g.live == f.live.take(f.starts[t] as int)
            &&& f.live.len() > f.starts[t]
            &&& f.live[f.starts[t] as int] == lines[j]
        }
}

/// The turns begin one behind the other.
pub open spec fn starts_increase(f: FilterModel) -> bool {
    forall|i: int, j: int| 0 <= i < j < f.starts.len() ==> (#[trigger] f.starts[i]) < #[trigger] f.starts[j]
}

#[verifier::spinoff_prover]
#[verifier::rlimit(60)]
proof fn scan_knows_lines(b: Seq<u8>, lines: Seq<int>, n: int)
    requires
        0 <= n <= lines.len(),
        b.len() <= usize::MAX,
        forall|i: int| 0 <= i < lines.len() ==> 0 <= #[trigger] lines[i] < b.len(),
        forall|i: int, j: int| 0 <= i < j < lines.len() ==> #[trigger] lines[i] < #[trigger] lines[j],
    ensures
        live_are_lines(b, lines, n),
        turns_have_beginnings(b, lines, n),
        after_lines(b, lines, n).live.len() <= n,
        starts_increase(after_lines(b, lines, n)),
    decreases n,
{
    if n == 0 {
        assert(after_lines(b, lines, 0).live =~= Seq::empty());
    } else {
        scan_knows_lines(b, lines, n - 1);
        one_line_more(b, lines, n - 1);
        let g = after_lines(b, lines, n - 1);
        let f = after_lines(b, lines, n);
        let o = lines[n - 1];
        assert(n <= b.len()) by {
            increasing_is_long(lines, n - 1);
        }
        assert(lines.take(n) =~= lines.take(n - 1).push(o));
        assert forall|t: int| 0 <= t < g.starts.len() implies (#[trigger] g.starts[t]) < g.live.len() by {
            assert(turn_begins(b, lines, n - 1, t));
        }
        assert(starts_increase(f));
        assert forall|i: int| 0 <= i < f.live.len() implies {
            &&& lines.take(n).contains(#[trigger] f.live[i] as int)
            &&& !(class_at(b, f.live[i] as int) is RewindMarker)
            &&& f.flags[i] == if line_model(line_text(b, f.live[i] as int)).commands_update {
                1u8
            } else {
                0u8
            }
        } by {
            if i < g.live.len() {
                assert(f.live[i] == g.live[i]);
                let k = lines.take(n - 1).index_of(g.live[i] as int);
                assert(lines.take(n)[k] == g.live[i]);
            } else {
                assert(f.live[i] == o);
                assert(lines.take(n)[n - 1] == o);
            }
        }
        assert forall|t: int| 0 <= t < f.starts.len() implies #[trigger] turn_begins(
            b,
            lines,
            n,
            t,
        ) by {
            if t < g.starts.len() {
                assert(turn_begins(b, lines, n - 1, t));
                let j = choose|j: int|
                    0 <= j < n - 1 && class_at(b, lines[j]) is UserChunk && {
                        let h = #[trigger] after_lines(b, lines, j);
                        &&& h.starts.len() == t
                        &&& h.starts == g.starts.take(t)
                        &&& h.live.len() == g.starts[t]
                        &&& h.live == g.live.take(g.starts[t] as int)
                        &&& g.live.len() > g.starts[t]
                        &&& g.live[g.starts[t] as int] == lines[j]
                    };
                let h = after_lines(b, lines, j);
                assert(f.starts[t] == g.starts[t]);
                assert(f.starts.take(t) =~= g.starts.take(t));
                assert(f.live.len() > f.starts[t]);
                assert(f.live.take(f.starts[t] as int) =~= g.live.take(g.starts[t] as int));
            } else {
                assert(class_at(b, o) is UserChunk);
                assert(f.starts.take(t) =~= g.starts);
                assert(f.live.take(f.starts[t] as int) =~= g.live);
                let h = after_lines(b, lines, n - 1);
            }
        }
    }
}

proof fn increasing_is_long(lines: Seq<int>, n: int)
    requires
        0 <= n < lines.len(),
        forall|i: int| 0 <= i < lines.len() ==> 0 <= #[trigger] lines[i],
        forall|i: int, j: int| 0 <= i < j < lines.len() ==> #[trigger] lines[i] < #[trigger] lines[j],
    ensures
        n <= lines[n],
    decreases n,
{
    if n > 0 {
        increasing_is_long(lines, n - 1);
        assert(lines[n - 1] < lines[n]);
    }
}

/// A line that is no rewind marker is live once it is read, behind all that was live before.
pub proof fn lines_join_the_live(b: Seq<u8>, n: int)
    requires
        b.len() <= usize::MAX,
        0 <= n < lines_from(b, 0).len(),
        !(class_at(b, lines_from(b, 0)[n]) is RewindMarker),
    ensures
        after_lines(b, lines_from(b, 0), n + 1).live == after_lines(b, lines_from(b, 0), n).live.push(
            lines_from(b, 0)[n] as u64,
        ),
{
    one_line_more(b, lines_from(b, 0), n);
}

/// A rewind takes the conversation back to where it was before the turn that it names:
/// the live lines are then again those from before the line with which the turn began.
/// A rewind to a turn that there is not takes nothing back.
pub proof fn rewind_goes_back_before_the_turn(b: Seq<u8>, n: int)
    requires
        b.len() <= usize::MAX,
        0 <= n < lines_from(b, 0).len(),
        class_at(b, lines_from(b, 0)[n]) is RewindMarker,
    ensures
        ({
            let lines = lines_from(b, 0);
            let before = after_lines(b, lines, n);
            let after = after_lines(b, lines, n + 1);
            let t = class_at(b, lines[n])->target_prompt_index;
            if t < before.starts.len() {
                exists|j: int|
                    0 <= j < n && class_at(b, lines[j]) is UserChunk && {
                        let g = #[trigger] after_lines(b, lines, j);
                        &&& g.starts.len() == t
                        &&& after.live == g.live
                        &&& after.starts == g.starts
                        &&& before.live[g.live.len() as int] == lines[j]
                    }
            } else {
                after.live == before.live && after.starts == before.starts
            }
        }),
{
    let lines = lines_from(b, 0);
    lines_in_order(b, 0);
    scan_knows_lines(b, lines, n);
    one_line_more(b, lines, n);
    let before = after_lines(b, lines, n);
    let after = after_lines(b, lines, n + 1);
    let t = class_at(b, lines[n])->target_prompt_index as int;
    if t < before.starts.len() {
        assert(turn_begins(b, lines, n, t));
        let j = choose|j: int|
            0 <= j < n && class_at(b, lines[j]) is UserChunk && {
                let h = #[trigger] after_lines(b, lines, j);
                &&& h.starts.len() == t
                &&& h.starts == before.starts.take(t)
                &&& h.live.len() == before.starts[t]
                &&& h.live == before.live.take(before.starts[t] as int)
                &&& before.live.len() > before.starts[t]
                &&& before.live[before.starts[t] as int] == lines[j]
            };
        assert(after.live =~= after_lines(b, lines, j).live);
        assert(after.starts =~= after_lines(b, lines, j).starts);
    } else {
        assert(after.live =~= before.live);
        assert(after.starts =~= before.starts);
    }
}

/// What is live of a whole log: lines of it, in order, of which none is a rewind marker; each
/// is held back from clients just where it announces the available commands.
pub proof fn live_lines_are_lines(b: Seq<u8>, i: int)
    requires
        b.len() <= usize::MAX,
        0 <= i < full_filter(b).live.len(),
    ensures
        ({
            let f = full_filter(b);
            let o = f.live[i] as int;
            &&& f.live.len() == f.flags.len()
            &&& line_starts(b, o) && !is_blank(line_text(b, o))
            &&& !(class_at(b, o) is RewindMarker)
            &&& f.flags[i] == 1 <==> line_model(line_text(b, o)).commands_update
            &&& f.flags[i] == 0 <==> !line_model(line_text(b, o)).commands_update
            &&& i > 0 ==> f.live[i - 1] < o
        }),
{
    let lines = lines_from(b, 0);
    lines_in_order(b, 0);
    scan_knows_lines(b, lines, lines.len() as int);
    scan_is_in_order(b, lines, lines.len() as int);
    assert(lines.take(lines.len() as int) =~= lines);
    let o = full_filter(b).live[i] as int;
    assert(lines.contains(o));
    every_line_is_read(b, o);
}

#[verifier::spinoff_prover]
proof fn scan_is_in_order(b: Seq<u8>, lines: Seq<int>, n: int)
    requires
        0 <= n <= lines.len(),
        b.len() <= usize::MAX,
        forall|i: int| 0 <= i < lines.len() ==> 0 <= #[trigger] lines[i] < b.len(),
        forall|i: int, j: int| 0 <= i < j < lines.len() ==> #[trigger] lines[i] < #[trigger] lines[j],
    ensures
        forall|i: int, j: int|
            0 <= i < j < after_lines(b, lines, n).live.len() ==> (#[trigger] after_lines(
                b,
                lines,
                n,
            ).live[i]) < #[trigger] after_lines(b, lines, n).live[j],
    decreases n,
{
    if n > 0 {
        scan_is_in_order(b, lines, n - 1);
        one_line_more(b, lines, n - 1);
        scan_knows_lines(b, lines, n - 1);
        let g = after_lines(b, lines, n - 1);
        assert forall|i: int| 0 <= i < g.live.len() implies (#[trigger] g.live[i]) < lines[n - 1] by {
            let k = lines.take(n - 1).index_of(g.live[i] as int);
            assert(lines.take(n - 1).contains(g.live[i] as int));
            assert(lines[k] == g.live[i]);
        }
    }
}

// --------------------------------------------------------------------- the counters

/// What the live line at place `i` says.
pub open spec fn live_model(b: Seq<u8>, live: Seq<u64>, i: int) -> LineModel {
    line_model(line_text(b, clamped(b, live[i])))
}

/// The subagent that a line starts or ends.
pub open spec fn subagent_named(m: LineModel) -> Option<Seq<char>> {
    match m.subagent {
        Some(SubagentModel::Spawned { subagent_id, child_session_id }) => Some(subagent_id),
        Some(SubagentModel::Finished { subagent_id }) => Some(subagent_id),
        None => None,
    }
}

/// The line at place `i` started the subagent in that session, and no line behind it speaks of
/// it.
pub open spec fn runs_since(
    b: Seq<u8>,
    live: Seq<u64>,
    pair: (Seq<char>, Seq<char>),
    i: int,
) -> bool {
    &&& 0 <= i < live.len()
    &&& live_model(b, live, i).subagent == Some(
        SubagentModel::Spawned { subagent_id: pair.0, child_session_id: pair.1 },
    )
    &&& forall|j: int|
        i < j < live.len() ==> subagent_named(#[trigger] live_model(b, live, j)) != Some(pair.0)
}

proof fn counters_in_prefix(b: Seq<u8>, live: Seq<u64>)
    requires
        live.len() > 0,
    ensures
        forall|i: int|
            0 <= i < live.len() - 1 ==> live_model(b, live.drop_last(), i) == #[trigger] live_model(
                b,
                live,
                i,
            ),
{
    assert forall|i: int| 0 <= i < live.len() - 1 implies live_model(b, live.drop_last(), i)
        == #[trigger] live_model(b, live, i) by {
        assert(live.drop_last()[i] == live[i]);
    }
}

/// The token count is the one that the last line with a token count carries.
pub proof fn last_count_stands(b: Seq<u8>, live: Seq<u64>, flags: Seq<u8>, q: int)
    requires
        live.len() == flags.len(),
    ensures
        0 <= q < live.len() && live_model(b, live, q).total_tokens is Some && (forall|j: int|
            q < j < live.len() ==> (#[trigger] live_model(b, live, j)).total_tokens is None)
            ==> derived(b, live, flags).last_tokens == live_model(b, live, q).total_tokens->0,
        (forall|j: int|
            0 <= j < live.len() ==> (#[trigger] live_model(b, live, j)).total_tokens is None)
            ==> derived(b, live, flags).last_tokens == 0,
    decreases live.len(),
{
    if live.len() > 0 {
        let l = live.drop_last();
        counters_in_prefix(b, live);
        last_count_stands(b, l, flags.drop_last(), q);
        let last = live_model(b, live, live.len() - 1);
        assert(derived(b, live, flags) == count_step(
            derived(b, l, flags.drop_last()),
            last,
            flags.last() == 0,
        ));
        assert forall|j: int| 0 <= j < l.len() implies (#[trigger] live_model(b, l, j))
            == live_model(b, live, j) by {}
    }
}

/// The event counter is the highest that a line carries: no line has a higher one, and some
/// line has it.
pub proof fn highest_counter_stands(b: Seq<u8>, live: Seq<u64>, flags: Seq<u8>)
    requires
        live.len() == flags.len(),
    ensures
        ({
            let max = derived(b, live, flags).max_event_seq;
            &&& forall|j: int|
                0 <= j < live.len() && (#[trigger] live_model(b, live, j)).event_seq is Some ==> max
                    is Some && live_model(b, live, j).event_seq->0 <= max->0
            &&& max is Some ==> exists|j: int|
                0 <= j < live.len() && (#[trigger] live_model(b, live, j)).event_seq == max
        }),
    decreases live.len(),
{
    if live.len() > 0 {
        let l = live.drop_last();
        counters_in_prefix(b, live);
        highest_counter_stands(b, l, flags.drop_last());
        let old_max = derived(b, l, flags.drop_last()).max_event_seq;
        let max = derived(b, live, flags).max_event_seq;
        let last = live_model(b, live, live.len() - 1);
        assert forall|j: int|
            0 <= j < live.len() && (#[trigger] live_model(b, live, j)).event_seq is Some implies max
            is Some && live_model(b, live, j).event_seq->0 <= max->0 by {
            if j < l.len() {
                assert(live_model(b, l, j) == live_model(b, live, j));
            }
        }
        if max is Some {
            if max == last.event_seq {
            } else {
                let j = choose|j: int|
                    0 <= j < l.len() && (#[trigger] live_model(b, l, j)).event_seq == old_max;
                assert(live_model(b, live, j).event_seq == max);
            }
        }
    }
}

/// The pending subagents are those that some line started and no later line speaks of, each
/// with the session that the line names; they stand in the order of their ids.
pub proof fn pending_are_unfinished(
    b: Seq<u8>,
    live: Seq<u64>,
    flags: Seq<u8>,
    pair: (Seq<char>, Seq<char>),
)
    requires
        live.len() == flags.len(),
    ensures
        derived(b, live, flags).pending.contains(pair) <==> exists|i: int|
            #[trigger] runs_since(b, live, pair, i),
        sorted_by_key(derived(b, live, flags).pending),
    decreases live.len(),
{
    let p = derived(b, live, flags).pending;
    if live.len() == 0 {
        assert(p =~= Seq::empty());
    } else {
        let l = live.drop_last();
        let n = live.len() - 1;
        counters_in_prefix(b, live);
        pending_are_unfinished(b, l, flags.drop_last(), pair);
        let before = derived(b, l, flags.drop_last()).pending;
        let last = live_model(b, live, n);
        match last.subagent {
            Some(SubagentModel::Spawned { subagent_id, child_session_id }) => {
                sorted_is_kept(before, subagent_id, child_session_id);
                pairs_are_told_by_key(before, subagent_id, child_session_id, pair);
            },
            Some(SubagentModel::Finished { subagent_id }) => {
                sorted_is_kept(before, subagent_id, subagent_id);
                pairs_are_told_by_key(before, subagent_id, subagent_id, pair);
            },
            None => {},
        }
        if subagent_named(last) == Some(pair.0) {
            if p.contains(pair) {
                assert(runs_since(b, live, pair, n));
            }
            if exists|i: int| #[trigger] runs_since(b, live, pair, i) {
                let i = choose|i: int| #[trigger] runs_since(b, live, pair, i);
                if i < n {
                    assert(subagent_named(live_model(b, live, n)) != Some(pair.0));
                }
            }
        } else {
            assert forall|i: int| runs_since(b, live, pair, i) <==> #[trigger] runs_since(
                b,
                l,
                pair,
                i,
            ) by {
                if runs_since(b, live, pair, i) {
                    assert forall|j: int| i < j < l.len() implies subagent_named(
                        #[trigger] live_model(b, l, j),
                    ) != Some(pair.0) by {
                        assert(live_model(b, live, j) == live_model(b, l, j));
                    }
                }
                if runs_since(b, l, pair, i) {
                    assert(live_model(b, live, i) == live_model(b, l, i));
                    assert forall|j: int| i < j < live.len() implies subagent_named(
                        #[trigger] live_model(b, live, j),
                    ) != Some(pair.0) by {
                        if j < l.len() {
                            assert(live_model(b, live, j) == live_model(b, l, j));
                        }
                    }
                }
            }
            if exists|i: int| #[trigger] runs_since(b, live, pair, i) {
                let i = choose|i: int| #[trigger] runs_since(b, live, pair, i);
                assert(runs_since(b, l, pair, i));
            }
            if exists|i: int| #[trigger] runs_since(b, l, pair, i) {
                let i = choose|i: int| #[trigger] runs_since(b, l, pair, i);
                assert(runs_since(b, live, pair, i));
            }
        }
    }
}

/// The number of live lines is that of the lines that a client without a cursor is sent.
pub proof fn total_counts_what_is_sent(b: Seq<u8>)
    requires
        b.len() <= usize::MAX,
    ensures
        prepared_in_full(b, None).total_live == prepared_in_full(b, None).lines.len(),
        prepared_in_full(b, None).lines == sent_texts(b, full_filter(b), 0),
        prepared_in_full(b, None).mark_replay,
{
    let f = full_filter(b);
    let lines = lines_from(b, 0);
    lines_in_order(b, 0);
    scan_knows_lines(b, lines, lines.len() as int);
    assert(lines.take(lines.len() as int) =~= lines);
    count_is_length(b, f.live, f.flags);
    forwarded_is_sent(b, f, 0);
}

proof fn count_is_length(b: Seq<u8>, live: Seq<u64>, flags: Seq<u8>)
    requires
        live.len() == flags.len(),
    ensures
        derived(b, live, flags).total_live == forwarded(b, live, flags, 0).len(),
    decreases live.len(),
{
    if live.len() > 0 {
        count_is_length(b, live.drop_last(), flags.drop_last());
    }
}

// --------------------------------------------------------------------------- the turns

/// What the first `n` lines say to the tracker of turns.
pub open spec fn heard_in(b: Seq<u8>, lines: Seq<int>, n: nat) -> Seq<Heard> {
    Seq::new(
        n,
        |i: int|
            match class_at(b, lines[i]) {
                RewindLineClass::UserChunk { prompt_index } => Heard::User(prompt_index),
                _ => Heard::Other,
            },
    )
}

proof fn tracker_hears_every_line(b: Seq<u8>, lines: Seq<int>, n: nat)
    requires
        n <= lines.len(),
    ensures
        after_lines(b, lines, n as int).tracker == told_of(heard_in(b, lines, n)),
    decreases n,
{
    if n > 0 {
        tracker_hears_every_line(b, lines, (n - 1) as nat);
        one_line_more(b, lines, n - 1);
        let heard = heard_in(b, lines, n);
        assert(heard.drop_last() =~= heard_in(b, lines, (n - 1) as nat));
    }
}

/// A line of the user's begins a turn where it has a number that is not the last one since
/// anyone else spoke, and without a number where it is the first since then and no line had
/// one; no other line begins one.
pub proof fn every_turn_is_begun(b: Seq<u8>, n: nat)
    requires
        b.len() <= usize::MAX,
        n < lines_from(b, 0).len(),
    ensures
        ({
            let lines = lines_from(b, 0);
            let heard = heard_in(b, lines, n);
            let before = after_lines(b, lines, n as int);
            let after = after_lines(b, lines, n as int + 1);
            let begun = before.starts.push(before.live.len() as usize);
            match class_at(b, lines[n as int]) {
                RewindLineClass::UserChunk { prompt_index: Some(p) } => after.starts == if is_last_number(
                    heard,
                    p,
                ) {
                    before.starts
                } else {
                    begun
                },
                RewindLineClass::UserChunk { prompt_index: None } => after.starts
                    == if !ends_with_user(heard) && !has_number(heard) {
                    begun
                } else {
                    before.starts
                },
                RewindLineClass::Other => after.starts == before.starts,
                _ => true,
            }
        }),
{
    let lines = lines_from(b, 0);
    let heard = heard_in(b, lines, n);
    tracker_hears_every_line(b, lines, n);
    one_line_more(b, lines, n as int);
    if let RewindLineClass::UserChunk { prompt_index } = class_at(b, lines[n as int]) {
        turns_begin_with_a_new_prompt(
            heard,
            match prompt_index {
                Some(p) => p,
                None => 0,
            },
        );
    }
}

/// The last number since anyone else spoke is this one.
pub open spec fn is_last_number(heard: Seq<Heard>, p: usize) -> bool {
    exists|k: int| #[trigger] last_number(heard, k, p)
}

} // verus!
