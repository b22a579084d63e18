//! Replay of a session's update log, and the checkpoints that make it fast.
//!
//! The log only ever grows. Replay keeps the lines that no later rewind marker
//! has taken back, and derives a few counters from them. A checkpoint is the
//! state of that scan at a line boundary: replay that starts from it and takes in
//! only the rest of the log gives what a scan of the whole log gives.
use crate::byte_lines::{ascii_byte_boundaries, line_end, line_end_bound, line_from, line_text};
use crate::session_line::{
    after_non_user, after_user_chunk, fresh_tracker, line_facts, line_model, LineFacts, LineModel,
    RewindLineClass, SubagentLineEvent, SubagentModel, UserRunTurnTracker,
};
use crate::text::{is_blank, is_blank_text};
use crate::text_order::{drop_key, pair_views, put_pair, sorted_by_key, with_pair, without_key};
use vstd::prelude::*;
use vstd::string::StringSliceAdditionalSpecFns;
use vstd::utf8::*;

verus! {

/// A checkpoint is rewritten after this many bytes of appended updates.
pub const TRIGGER_BYTES: u64 = 8388608;

/// A full replay of a log of at least this many bytes leaves a checkpoint.
pub const SEED_MIN_BYTES: u64 = 1048576;

/// How many bytes at the end of the checkpointed prefix are hashed.
pub const PREFIX_HASH_WINDOW: usize = 4096;

/// The version that a checkpoint carries.
pub const CHECKPOINT_VERSION: u32 = 1;

// ----------------------------------------------------------------- live lines

/// The start of the sequence `s`, `n` long, or all of it when it is no longer.
pub open spec fn cut<T>(s: Seq<T>, n: int) -> Seq<T> {
    if 0 <= n < s.len() {
        s.take(n)
    } else {
        s
    }
}

/// Which lines are live, and what a rewind needs to know of them.
#[derive(Debug, Clone)]
pub struct LineFilter {
    /// Where the live lines start, in bytes.
    pub live_offsets: Vec<u64>,
    /// For each live line, 1 when it announces the available commands, else 0.
    pub acu_flags: Vec<u8>,
    /// At which live line each turn of the user begins.
    pub prompt_starts: Vec<usize>,
    /// Where in a run of user chunks the scan is.
    pub tracker: UserRunTurnTracker,
}

/// [`LineFilter`] as sequences.
pub struct FilterModel {
    pub live: Seq<u64>,
    pub flags: Seq<u8>,
    pub starts: Seq<usize>,
    pub tracker: UserRunTurnTracker,
}

impl View for LineFilter {
    type V = FilterModel;

    open spec fn view(&self) -> FilterModel {
        FilterModel {
            live: self.live_offsets@,
            flags: self.acu_flags@,
            starts: self.prompt_starts@,
            tracker: self.tracker,
        }
    }
}

/// No line yet.
pub open spec fn fresh_filter() -> FilterModel {
    FilterModel {
        live: Seq::empty(),
        flags: Seq::empty(),
        starts: Seq::empty(),
        tracker: fresh_tracker(),
    }
}

/// The live lines after `line`, which starts at `offset`. A rewind marker takes
/// back every line from the start of its target turn on, or none when there is no
/// such turn; any other line is live itself.
pub open spec fn filter_step(f: FilterModel, line: LineModel, offset: u64) -> FilterModel {
    let flag: u8 = if line.commands_update {
        1
    } else {
        0
    };
    match line.class {
        RewindLineClass::RewindMarker { target_prompt_index } => {
            let t = target_prompt_index as int;
            let n = if t < f.starts.len() {
                f.starts[t] as int
            } else {
                f.live.len() as int
            };
            FilterModel {
                live: cut(f.live, n),
                flags: cut(f.flags, n),
                starts: cut(f.starts, t),
                tracker: after_non_user(f.tracker),
            }
        },
        RewindLineClass::UserChunk { prompt_index } => {
            let (tracker, opens) = after_user_chunk(f.tracker, prompt_index);
            FilterModel {
                live: f.live.push(offset),
                flags: f.flags.push(flag),
                starts: if opens {
                    f.starts.push(f.live.len() as usize)
                } else {
                    f.starts
                },
                tracker,
            }
        },
        RewindLineClass::Other => FilterModel {
            live: f.live.push(offset),
            flags: f.flags.push(flag),
            starts: f.starts,
            tracker: after_non_user(f.tracker),
        },
    }
}

impl LineFilter {
    /// No line yet.
    pub fn new() -> (r: Self)
        ensures
            r@ == fresh_filter(),
    {
        let r = LineFilter {
            live_offsets: Vec::new(),
            acu_flags: Vec::new(),
            prompt_starts: Vec::new(),
            tracker: UserRunTurnTracker::new(),
        };
        assert(r.live_offsets@ =~= Seq::empty());
        r
    }

    /// Takes in a line that starts at `offset`.
    pub fn apply(&mut self, line: &LineFacts, offset: u64)
        ensures
            final(self)@ == filter_step(old(self)@, line@, offset),
    {
        match line.class {
            RewindLineClass::RewindMarker { target_prompt_index } => {
                let trunc: usize = if target_prompt_index < self.prompt_starts.len() {
                    self.prompt_starts[target_prompt_index]
                } else {
                    self.live_offsets.len()
                };
                self.live_offsets.truncate(trunc);
                self.acu_flags.truncate(trunc);
                self.prompt_starts.truncate(target_prompt_index);
                self.tracker.on_non_user();
                proof {
                    let g = filter_step(old(self)@, line@, offset);
                    assert(self.live_offsets@ =~= g.live);
                    assert(self.acu_flags@ =~= g.flags);
                    assert(self.prompt_starts@ =~= g.starts);
                }
            },
            RewindLineClass::UserChunk { prompt_index } => {
                if self.tracker.on_user_chunk(prompt_index) {
                    self.prompt_starts.push(self.live_offsets.len());
                }
                self.live_offsets.push(offset);
                self.acu_flags.push(if line.commands_update { 1 } else { 0 });
            },
            RewindLineClass::Other => {
                self.tracker.on_non_user();
                self.live_offsets.push(offset);
                self.acu_flags.push(if line.commands_update { 1 } else { 0 });
            },
        }
    }
}

// ------------------------------------------------------------------- counters

/// What replay derives from the live lines.
#[derive(Debug, Clone)]
pub struct LineCounters {
    /// The last token count that a line carries, 0 when none does.
    pub last_tokens: u64,
    /// The highest event counter.
    pub max_event_seq: Option<u64>,
    /// How many lines are forwarded.
    pub total_live: usize,
    /// The subagents that have started and not finished, by id.
    pub pending_subagents: Vec<(String, String)>,
}

/// [`LineCounters`] by its texts.
pub struct CountersModel {
    pub last_tokens: u64,
    pub max_event_seq: Option<u64>,
    pub total_live: nat,
    pub pending: Seq<(Seq<char>, Seq<char>)>,
}

impl View for LineCounters {
    type V = CountersModel;

    open spec fn view(&self) -> CountersModel {
        CountersModel {
            last_tokens: self.last_tokens,
            max_event_seq: self.max_event_seq,
            total_live: self.total_live as nat,
            pending: pair_views(self.pending_subagents@),
        }
    }
}

/// Nothing counted yet.
pub open spec fn fresh_counters() -> CountersModel {
    CountersModel { last_tokens: 0, max_event_seq: None, total_live: 0, pending: Seq::empty() }
}

/// The counters after one more live line.
pub open spec fn count_step(c: CountersModel, line: LineModel, forwarded: bool) -> CountersModel {
    CountersModel {
        last_tokens: match line.total_tokens {
            Some(t) => t,
            None => c.last_tokens,
        },
        max_event_seq: match line.event_seq {
            Some(s) => Some(
                match c.max_event_seq {
                    Some(m) => if m >= s {
                        m
                    } else {
                        s
                    },
                    None => s,
                },
            ),
            None => c.max_event_seq,
        },
        total_live: if forwarded {
            c.total_live + 1
        } else {
            c.total_live
        },
        pending: match line.subagent {
            Some(SubagentModel::Spawned { subagent_id, child_session_id }) => with_pair(
                c.pending,
                subagent_id,
                child_session_id,
            ),
            Some(SubagentModel::Finished { subagent_id }) => without_key(c.pending, subagent_id),
            None => c.pending,
        },
    }
}

impl LineCounters {
    /// Nothing counted yet.
    pub fn new() -> (r: Self)
        ensures
            r@ == fresh_counters(),
    {
        let r = LineCounters {
            last_tokens: 0,
            max_event_seq: None,
            total_live: 0,
            pending_subagents: Vec::new(),
        };
        assert(r@.pending =~= Seq::empty());
        r
    }

    /// Takes in one more live line.
    pub fn apply(&mut self, line: LineFacts, forwarded: bool)
        requires
            sorted_by_key(old(self)@.pending),
            old(self).total_live < usize::MAX,
        ensures
            final(self)@ == count_step(old(self)@, line@, forwarded),
            sorted_by_key(final(self)@.pending),
    {
        if forwarded {
            self.total_live = self.total_live + 1;
        }
        if let Some(t) = line.total_tokens {
            self.last_tokens = t;
        }
        if let Some(s) = line.event_seq {
            self.max_event_seq = Some(
                match self.max_event_seq {
                    Some(m) => if m >= s {
                        m
                    } else {
                        s
                    },
                    None => s,
                },
            );
        }
        match line.subagent {
            Some(SubagentLineEvent::Spawned { subagent_id, child_session_id }) => {
                put_pair(&mut self.pending_subagents, subagent_id, child_session_id);
            },
            Some(SubagentLineEvent::Finished { subagent_id }) => {
                drop_key(&mut self.pending_subagents, subagent_id.as_str());
            },
            None => {},
        }
    }
}

// ----------------------------------------------------------- scanning the log

/// Where the lines of `b` that are not blank start, from the line at `pos` on.
pub open spec fn lines_from(b: Seq<u8>, pos: int) -> Seq<int>
    decreases b.len() + 1 - pos,
{
    if pos < 0 || pos > b.len() {
        Seq::empty()
    } else {
        let e = line_end(b, pos);
        let rest = if pos <= e < b.len() {
            lines_from(b, e + 1)
        } else {
            Seq::empty()
        };
        if is_blank(line_text(b, pos)) {
            rest
        } else {
            seq![pos] + rest
        }
    }
}

/// What the line of `b` that starts at `pos` says.
pub open spec fn model_at(b: Seq<u8>, pos: int) -> LineModel {
    line_model(line_text(b, pos))
}

/// The live lines after the lines of `b` at `starts`.
pub open spec fn filter_lines(f: FilterModel, b: Seq<u8>, starts: Seq<int>) -> FilterModel
    decreases starts.len(),
{
    if starts.len() == 0 {
        f
    } else {
        filter_step(
            filter_lines(f, b, starts.drop_last()),
            model_at(b, starts.last()),
            starts.last() as u64,
        )
    }
}

/// The counters after the lines of `b` at `starts`, each taken as live unless it
/// is a rewind marker.
pub open spec fn count_lines(c: CountersModel, b: Seq<u8>, starts: Seq<int>) -> CountersModel
    decreases starts.len(),
{
    if starts.len() == 0 {
        c
    } else {
        let before = count_lines(c, b, starts.drop_last());
        let line = model_at(b, starts.last());
        if line.class is RewindMarker {
            before
        } else {
            count_step(before, line, !line.commands_update)
        }
    }
}

/// A rewind marker is among the lines of `b` at `starts`.
pub open spec fn rewinds(b: Seq<u8>, starts: Seq<int>) -> bool {
    exists|i: int| 0 <= i < starts.len() && (#[trigger] model_at(b, starts[i])).class is RewindMarker
}

/// An offset, or the end of `b` when it lies beyond.
pub open spec fn clamped(b: Seq<u8>, offset: u64) -> int {
    if offset <= b.len() {
        offset as int
    } else {
        b.len() as int
    }
}

/// The counters of the live lines of `b` that start at `live`.
pub open spec fn derived(b: Seq<u8>, live: Seq<u64>, flags: Seq<u8>) -> CountersModel
    decreases live.len(),
{
    if live.len() == 0 {
        fresh_counters()
    } else {
        count_step(
            derived(b, live.drop_last(), flags.drop_last()),
            model_at(b, clamped(b, live.last())),
            flags.last() == 0,
        )
    }
}

/// The state of a scan.
pub struct ReplayModel {
    pub filter: FilterModel,
    pub counters: CountersModel,
    pub offset: u64,
}

/// The state before the first line.
pub open spec fn fresh_replay() -> ReplayModel {
    ReplayModel { filter: fresh_filter(), counters: fresh_counters(), offset: 0 }
}

/// The state after all that stands in `b` behind the offset of `m`. When `b` is
/// shorter than that, the scan starts over. Where a rewind marker comes by, the
/// counters are those of the lines that are left.
pub open spec fn feed_model(m: ReplayModel, b: Seq<u8>) -> ReplayModel {
    let m = if m.offset > b.len() {
        fresh_replay()
    } else {
        m
    };
    let starts = lines_from(b, m.offset as int);
    let filter = filter_lines(m.filter, b, starts);
    ReplayModel {
        filter,
        counters: if rewinds(b, starts) {
            derived(b, filter.live, filter.flags)
        } else {
            count_lines(m.counters, b, starts)
        },
        offset: b.len() as u64,
    }
}

/// `m` can be carried on over `b`: its offsets stand between characters of `b`,
/// and the count of lines has room for those of `b`.
pub open spec fn fits(m: ReplayModel, b: Seq<u8>) -> bool {
    m.offset <= b.len() ==> {
        &&& is_char_boundary(b, m.offset as int)
        &&& m.filter.live.len() == m.filter.flags.len()
        &&& forall|i: int|
            0 <= i < m.filter.live.len() ==> is_char_boundary(
                b,
                clamped(b, #[trigger] m.filter.live[i]),
            )
        &&& m.counters.total_live + (b.len() - m.offset) <= usize::MAX
    }
}

/// The incremental scan of an update log.
#[derive(Debug, Clone)]
pub struct IncrementalReplayState {
    /// The live lines.
    pub filter: LineFilter,
    /// What is derived from them.
    pub counters: LineCounters,
    /// How many bytes have been taken in.
    pub offset: u64,
}

impl View for IncrementalReplayState {
    type V = ReplayModel;

    open spec fn view(&self) -> ReplayModel {
        ReplayModel { filter: self.filter@, counters: self.counters@, offset: self.offset }
    }
}

/// The line that starts at `offset`, or the empty end of `contents` when the
/// offset lies beyond it.
pub fn line_at(contents: &str, offset: u64) -> (r: &str)
    requires
        is_char_boundary(contents.spec_bytes(), clamped(contents.spec_bytes(), offset)),
    ensures
        r@ == line_text(contents.spec_bytes(), clamped(contents.spec_bytes(), offset)),
{
    let len: usize = contents.as_bytes().len();
    let start: usize = if offset <= len as u64 {
        offset as usize
    } else {
        len
    };
    line_from(contents, start)
}

impl IncrementalReplayState {
    /// The pending subagents stand in the order of their ids.
    pub open spec fn wf(self) -> bool {
        sorted_by_key(self@.counters.pending)
    }

    /// The state before the first line.
    pub fn new() -> (r: Self)
        ensures
            r@ == fresh_replay(),
            r.wf(),
    {
        IncrementalReplayState {
            filter: LineFilter::new(),
            counters: LineCounters::new(),
            offset: 0,
        }
    }

    /// Takes in every line of `contents` behind the current offset. `contents` is
    /// the whole log: a rewind marker can take back lines anywhere before it.
    pub fn feed(&mut self, contents: &str)
        requires
            old(self).wf(),
            fits(old(self)@, contents.spec_bytes()),
        ensures
            final(self)@ == feed_model(old(self)@, contents.spec_bytes()),
            final(self).offset == contents.spec_bytes().len(),
            live_sound(final(self)@.filter, contents.spec_bytes()),
            final(self).wf(),
    {
        let ghost b = contents.spec_bytes();
        let len: usize = contents.as_bytes().len();
        proof {
            encode_utf8_valid_utf8(contents@);
            is_char_boundary_start_end_of_seq(b);
        }
        if self.offset > len as u64 {
            *self = Self::new();
        }
        let ghost m0 = self@;
        let start: usize = self.offset as usize;
        let mut pos: usize = start;
        let mut had_truncation: bool = false;
        let ghost all = lines_from(b, pos as int);
        let ghost mut done: Seq<int> = Seq::empty();
        assert(done + all =~= all);
        loop
            invariant_except_break
                start <= pos <= len,
                is_char_boundary(b, pos as int),
                done + lines_from(b, pos as int) == all,
                self.counters.total_live <= m0.counters.total_live + (pos - start),
            invariant
                b == contents.spec_bytes(),
                b.len() == len,
                valid_utf8(b),
                start == m0.offset,
                m0.filter.live.len() == m0.filter.flags.len(),
                m0.counters.total_live + (b.len() - start) <= usize::MAX,
                self.wf(),
                self.filter@ == filter_lines(m0.filter, b, done),
                self.counters@ == count_lines(m0.counters, b, done),
                had_truncation == rewinds(b, done),
                live_sound(m0.filter, b),
                live_sound(self.filter@, b),
            ensures
                done == all,
            decreases len - pos,
        {
            let line: &str = line_from(contents, pos);
            proof {
                line_end_bound(b, pos as int);
            }
            let end: usize = pos + line.as_bytes().len();
            if !is_blank_text(line) {
                let facts: LineFacts = line_facts(line);
                let ghost before = done;
                proof {
                    done = done.push(pos as int);
                    assert(done.drop_last() =~= before);
                    assert(done.last() == pos);
                    if end == pos {
                        assert(line@ =~= decode_utf8(Seq::empty()));
                        assert(line@.len() == 0);
                    }
                    filter_step_sound(self.filter@, b, model_at(b, pos as int), pos as u64);
                    rewinds_push(b, before, pos as int);
                }
                self.filter.apply(&facts, pos as u64);
                match facts.class {
                    RewindLineClass::RewindMarker { .. } => {
                        had_truncation = true;
                    },
                    _ => {
                        let forwarded: bool = !facts.commands_update;
                        self.counters.apply(facts, forwarded);
                    },
                }
                assert(before + (seq![pos as int] + lines_from(b, end + 1)) =~= done + lines_from(
                    b,
                    end + 1,
                ));
                assert(before + seq![pos as int] =~= done);
                assert(seq![pos as int] + Seq::<int>::empty() =~= seq![pos as int]);
            } else {
                assert(done + Seq::<int>::empty() =~= done);
            }
            if end >= len {
                break ;
            }
            proof {
                ascii_byte_boundaries(b, end as int);
            }
            pos = end + 1;
        }
        self.offset = len as u64;
        if had_truncation {
            self.rederive_counters(contents);
        }
    }

    /// Counts the live lines anew.
    fn rederive_counters(&mut self, contents: &str)
        requires
            live_sound(old(self).filter@, contents.spec_bytes()),
        ensures
            final(self)@ == (ReplayModel {
                counters: derived(
                    contents.spec_bytes(),
                    old(self)@.filter.live,
                    old(self)@.filter.flags,
                ),
                ..old(self)@
            }),
            final(self).wf(),
    {
        self.counters = derive_counters(contents, &self.filter);
    }
}

/// The live lines start between characters of `b`, and each has its flag.
pub open spec fn live_sound(f: FilterModel, b: Seq<u8>) -> bool {
    &&& f.live.len() == f.flags.len()
    &&& forall|i: int|
        0 <= i < f.live.len() ==> is_char_boundary(b, clamped(b, #[trigger] f.live[i]))
}

pub proof fn filter_step_sound(f: FilterModel, b: Seq<u8>, line: LineModel, offset: u64)
    requires
        live_sound(f, b),
        is_char_boundary(b, clamped(b, offset)),
    ensures
        live_sound(filter_step(f, line, offset), b),
{
    let g = filter_step(f, line, offset);
    assert forall|i: int| 0 <= i < g.live.len() implies is_char_boundary(
        b,
        clamped(b, #[trigger] g.live[i]),
    ) by {
        if i < f.live.len() {
            assert(g.live[i] == f.live[i]);
        }
    }
}

proof fn rewinds_push(b: Seq<u8>, starts: Seq<int>, pos: int)
    ensures
        rewinds(b, starts.push(pos)) == (rewinds(b, starts) || model_at(b, pos).class is RewindMarker),
{
    let s = starts.push(pos);
    if rewinds(b, starts) {
        let i = choose|i: int|
            0 <= i < starts.len() && (#[trigger] model_at(b, starts[i])).class is RewindMarker;
        assert(s[i] == starts[i]);
    }
    if model_at(b, pos).class is RewindMarker {
        assert(s[starts.len() as int] == pos);
    }
    if rewinds(b, s) {
        let i = choose|i: int| 0 <= i < s.len() && (#[trigger] model_at(b, s[i])).class is RewindMarker;
        if i < starts.len() {
            assert(starts[i] == s[i]);
        }
    }
}

/// The counters of the live lines.
pub fn derive_counters(contents: &str, filter: &LineFilter) -> (r: LineCounters)
    requires
        live_sound(filter@, contents.spec_bytes()),
    ensures
        r@ == derived(contents.spec_bytes(), filter@.live, filter@.flags),
        sorted_by_key(r@.pending),
{
    let ghost b = contents.spec_bytes();
    let ghost live = filter@.live;
    let ghost flags = filter@.flags;
    let mut counters = LineCounters::new();
    let mut i: usize = 0;
    while i < filter.live_offsets.len()
        invariant
            i <= filter.live_offsets.len(),
            b == contents.spec_bytes(),
            live == filter.live_offsets@,
            flags == filter.acu_flags@,
            live_sound(filter@, b),
            counters@ == derived(b, live.take(i as int), flags.take(i as int)),
            counters.total_live <= i,
            sorted_by_key(counters@.pending),
        decreases filter.live_offsets.len() - i,
    {
        let line: &str = line_at(contents, filter.live_offsets[i]);
        let facts: LineFacts = line_facts(line);
        counters.apply(facts, filter.acu_flags[i] == 0);
        proof {
            assert(live.take(i as int + 1).drop_last() =~= live.take(i as int));
            assert(flags.take(i as int + 1).drop_last() =~= flags.take(i as int));
            assert(live.take(i as int + 1).last() == live[i as int]);
            assert(flags.take(i as int + 1).last() == flags[i as int]);
        }
        i += 1;
    }
    assert(live.take(i as int) =~= live);
    assert(flags.take(i as int) =~= flags);
    counters
}

} // verus!
