//! Checkpoints of the replay scan: taking one, checking one against a log, and
//! replaying from one.
use crate::byte_lines::{ascii_byte_boundaries, line_end_bound, line_from, line_text};
use crate::replay::{
    clamped, derive_counters, derived, feed_model, filter_lines, fits, fresh_filter, fresh_replay,
    lines_from, live_sound, model_at, CountersModel, FilterModel, IncrementalReplayState,
    LineCounters, LineFilter, ReplayModel, CHECKPOINT_VERSION, PREFIX_HASH_WINDOW,
};
use crate::replay::{filter_step_sound, line_at};
use crate::session_line::{
    event_id, line_event_id, line_facts, line_has_event_id, LineFacts, UserRunTurnTracker,
};
use crate::text::{decimal, decimal_u64, is_blank_text};
use crate::text_order::{collect_pairs, collected, copy_pairs, pair_views};
use vstd::prelude::*;
use vstd::slice::slice_subrange;
use vstd::string::{StringExecFns, StringSliceAdditionalSpecFns};
use vstd::utf8::*;

verus! {

/// The name of a checkpoint file; it stands beside the log.
pub const CHECKPOINT_FILE: &'static str = "updates_checkpoint.json";

// ----------------------------------------------------------------------- hash

/// The start value of the hash.
pub const FNV_OFFSET: u64 = 0xcbf2_9ce4_8422_2325;

/// The factor of the hash.
pub const FNV_PRIME: u64 = 0x0000_0100_0000_01b3;

/// The 64-bit FNV-1a hash of `bytes`.
pub open spec fn fnv1a64_of(bytes: Seq<u8>) -> u64
    decreases bytes.len(),
{
    if bytes.len() == 0 {
        FNV_OFFSET
    } else {
        (fnv1a64_of(bytes.drop_last()) ^ (bytes.last() as u64)).wrapping_mul(FNV_PRIME)
    }
}

/// The 64-bit FNV-1a hash of `bytes`.
pub fn fnv1a64(bytes: &[u8]) -> (r: u64)
    ensures
        r == fnv1a64_of(bytes@),
{
    let mut hash: u64 = FNV_OFFSET;
    let mut i: usize = 0;
    while i < bytes.len()
        invariant
            i <= bytes.len(),
            hash == fnv1a64_of(bytes@.take(i as int)),
        decreases bytes.len() - i,
    {
        hash = (hash ^ (bytes[i] as u64)).wrapping_mul(FNV_PRIME);
        assert(bytes@.take(i as int + 1).drop_last() =~= bytes@.take(i as int));
        i += 1;
    }
    assert(bytes@.take(i as int) =~= bytes@);
    hash
}

/// The hash of the end of the first `offset` bytes of `b`.
pub open spec fn prefix_hash_of(b: Seq<u8>, offset: int) -> u64 {
    let start = if offset >= PREFIX_HASH_WINDOW {
        offset - PREFIX_HASH_WINDOW
    } else {
        0
    };
    fnv1a64_of(b.subrange(start, offset))
}

/// The hash of the end of the first `offset` bytes of `contents`.
pub fn prefix_hash(contents: &str, offset: usize) -> (r: u64)
    requires
        offset <= contents.spec_bytes().len(),
    ensures
        r == prefix_hash_of(contents.spec_bytes(), offset as int),
{
    let start: usize = if offset >= PREFIX_HASH_WINDOW {
        offset - PREFIX_HASH_WINDOW
    } else {
        0
    };
    fnv1a64(slice_subrange(contents.as_bytes(), start, offset))
}

// ----------------------------------------------------------------- checkpoint

/// The state of a [`UserRunTurnTracker`] as a checkpoint keeps it.
#[derive(Debug, Clone, Copy, PartialEq, Eq, Structural)]
pub struct TrackerSnapshot {
    pub seen_marker: bool,
    pub in_user: bool,
    pub current_run_pi: Option<usize>,
}

/// The tracker that a snapshot stands for.
pub open spec fn tracker_of(s: TrackerSnapshot) -> UserRunTurnTracker {
    UserRunTurnTracker {
        seen_marker: s.seen_marker,
        in_user: s.in_user,
        current_run_pi: s.current_run_pi,
    }
}

impl TrackerSnapshot {
    /// The snapshot of a tracker.
    pub fn from_tracker(tracker: &UserRunTurnTracker) -> (r: Self)
        ensures
            tracker_of(r) == *tracker,
    {
        TrackerSnapshot {
            seen_marker: tracker.seen_marker,
            in_user: tracker.in_user,
            current_run_pi: tracker.current_run_pi,
        }
    }

    /// The tracker of a snapshot.
    pub fn into_tracker(self) -> (r: UserRunTurnTracker)
        ensures
            r == tracker_of(self),
    {
        UserRunTurnTracker {
            seen_marker: self.seen_marker,
            in_user: self.in_user,
            current_run_pi: self.current_run_pi,
        }
    }
}

/// The state of the replay scan at a byte offset into the log.
#[derive(Debug, Clone)]
pub struct UpdatesCheckpoint {
    pub version: u32,
    /// How many bytes of the log have been taken in: the end of a line.
    pub offset: u64,
    /// The hash of the last bytes before the offset.
    pub prefix_hash: u64,
    /// Where the live lines start.
    pub live_offsets: Vec<u64>,
    /// For each live line, 1 when it announces the available commands, else 0.
    pub acu_flags: Vec<u8>,
    /// At which live line each turn of the user begins.
    pub prompt_starts: Vec<usize>,
    /// Where in a run of user chunks the scan is.
    pub tracker: TrackerSnapshot,
    /// The last token count that a live line carries, 0 when none does.
    pub last_tokens: u64,
    /// The highest event counter of the live lines.
    pub max_event_seq: Option<u64>,
    /// How many live lines are forwarded.
    pub total_live: usize,
    /// The subagents that have started and not finished, by id.
    pub pending_subagents: Vec<(String, String)>,
}

/// The scan state that a checkpoint holds.
pub open spec fn restored(cp: UpdatesCheckpoint) -> ReplayModel {
    ReplayModel {
        filter: FilterModel {
            live: cp.live_offsets@,
            flags: cp.acu_flags@,
            starts: cp.prompt_starts@,
            tracker: tracker_of(cp.tracker),
        },
        counters: CountersModel {
            last_tokens: cp.last_tokens,
            max_event_seq: cp.max_event_seq,
            total_live: cp.total_live as nat,
            pending: collected(pair_views(cp.pending_subagents@)),
        },
        offset: cp.offset,
    }
}

/// `cp` is sound in itself, and its prefix ends in `b` as it did when `cp` was
/// taken.
pub open spec fn valid_for(cp: UpdatesCheckpoint, b: Seq<u8>) -> bool {
    &&& cp.version == CHECKPOINT_VERSION
    &&& cp.offset <= b.len()
    &&& cp.live_offsets@.len() == cp.acu_flags@.len()
    &&& forall|i: int| 0 <= i < cp.acu_flags@.len() ==> #[trigger] cp.acu_flags@[i] <= 1
    &&& forall|i: int| 0 <= i < cp.live_offsets@.len() ==> #[trigger] cp.live_offsets@[i] < cp.offset
    &&& forall|i: int|
        0 <= i < cp.live_offsets@.len() - 1 ==> #[trigger] cp.live_offsets@[i]
            < cp.live_offsets@[i + 1]
    &&& forall|i: int|
        0 <= i < cp.prompt_starts@.len() ==> #[trigger] cp.prompt_starts@[i]
            <= cp.live_offsets@.len()
    &&& cp.prefix_hash == prefix_hash_of(b, cp.offset as int)
}

/// Whether `cp` can be used for the log `contents`.
pub fn validate(cp: &UpdatesCheckpoint, contents: &str) -> (r: bool)
    ensures
        r == valid_for(*cp, contents.spec_bytes()),
{
    let len: usize = contents.as_bytes().len();
    if cp.version != CHECKPOINT_VERSION || cp.offset > len as u64 {
        return false;
    }
    let n: usize = cp.live_offsets.len();
    if n != cp.acu_flags.len() {
        return false;
    }
    let mut i: usize = 0;
    while i < n
        invariant
            i <= n,
            n == cp.live_offsets@.len(),
            n == cp.acu_flags@.len(),
            forall|k: int| 0 <= k < i ==> #[trigger] cp.acu_flags@[k] <= 1,
            forall|k: int| 0 <= k < i ==> #[trigger] cp.live_offsets@[k] < cp.offset,
            forall|k: int|
                0 <= k < i - 1 ==> #[trigger] cp.live_offsets@[k] < cp.live_offsets@[k + 1],
        decreases n - i,
    {
        if cp.acu_flags[i] > 1 || cp.live_offsets[i] >= cp.offset {
            return false;
        }
        if i > 0 && cp.live_offsets[i - 1] >= cp.live_offsets[i] {
            assert(!(cp.live_offsets@[i - 1] < cp.live_offsets@[i - 1 + 1]));
            return false;
        }
        i += 1;
    }
    let mut j: usize = 0;
    while j < cp.prompt_starts.len()
        invariant
            j <= cp.prompt_starts.len(),
            n == cp.live_offsets@.len(),
            forall|k: int| 0 <= k < j ==> #[trigger] cp.prompt_starts@[k] <= n,
        decreases cp.prompt_starts.len() - j,
    {
        if cp.prompt_starts[j] > n {
            return false;
        }
        j += 1;
    }
    cp.prefix_hash == prefix_hash(contents, cp.offset as usize)
}

/// Whether the offsets of `cp` stand between characters of `contents`, each live
/// line has its flag, and the count of lines has room for those of `contents`: what
/// carrying the scan on asks.
pub fn checkpoint_fits(cp: &UpdatesCheckpoint, contents: &str) -> (r: bool)
    ensures
        r == fits(restored(*cp), contents.spec_bytes()),
{
    let ghost b = contents.spec_bytes();
    let ghost m = restored(*cp);
    let len: usize = contents.as_bytes().len();
    if cp.offset > len as u64 {
        return true;
    }
    if !contents.is_char_boundary(cp.offset as usize) {
        return false;
    }
    if cp.live_offsets.len() != cp.acu_flags.len() {
        return false;
    }
    if cp.total_live > usize::MAX - (len - cp.offset as usize) {
        return false;
    }
    let mut i: usize = 0;
    while i < cp.live_offsets.len()
        invariant
            i <= cp.live_offsets.len(),
            b == contents.spec_bytes(),
            len == b.len(),
            cp.offset <= len,
            m == restored(*cp),
            forall|k: int|
                0 <= k < i ==> is_char_boundary(b, clamped(b, #[trigger] m.filter.live[k])),
        decreases cp.live_offsets.len() - i,
    {
        let o: u64 = cp.live_offsets[i];
        let at: usize = if o <= len as u64 {
            o as usize
        } else {
            len
        };
        assert(clamped(b, m.filter.live[i as int]) == at);
        if !contents.is_char_boundary(at) {
            return false;
        }
        i += 1;
    }
    true
}

impl IncrementalReplayState {
    /// The scan state that `cp` holds.
    pub fn from_checkpoint(cp: &UpdatesCheckpoint) -> (r: Self)
        ensures
            r@ == restored(*cp),
            r.wf(),
    {
        IncrementalReplayState {
            filter: LineFilter {
                live_offsets: cp.live_offsets.clone(),
                acu_flags: cp.acu_flags.clone(),
                prompt_starts: cp.prompt_starts.clone(),
                tracker: cp.tracker.into_tracker(),
            },
            counters: LineCounters {
                last_tokens: cp.last_tokens,
                max_event_seq: cp.max_event_seq,
                total_live: cp.total_live,
                pending_subagents: collect_pairs(&cp.pending_subagents),
            },
            offset: cp.offset,
        }
    }

    /// The state as a checkpoint. `contents` is the log from which it was fed.
    pub fn to_checkpoint(&self, contents: &str) -> (r: UpdatesCheckpoint)
        requires
            self.offset <= contents.spec_bytes().len(),
        ensures
            is_checkpoint_of(r, self@, contents.spec_bytes()),
    {
        let len: usize = contents.as_bytes().len();
        UpdatesCheckpoint {
            version: CHECKPOINT_VERSION,
            offset: self.offset,
            prefix_hash: prefix_hash(contents, self.offset as usize),
            live_offsets: self.filter.live_offsets.clone(),
            acu_flags: self.filter.acu_flags.clone(),
            prompt_starts: self.filter.prompt_starts.clone(),
            tracker: TrackerSnapshot::from_tracker(&self.filter.tracker),
            last_tokens: self.counters.last_tokens,
            max_event_seq: self.counters.max_event_seq,
            total_live: self.counters.total_live,
            pending_subagents: copy_pairs(&self.counters.pending_subagents),
        }
    }
}

/// `cp` is the state `m`, taken over the log `b`.
pub open spec fn is_checkpoint_of(cp: UpdatesCheckpoint, m: ReplayModel, b: Seq<u8>) -> bool {
    &&& cp.version == CHECKPOINT_VERSION
    &&& cp.offset == m.offset
    &&& cp.prefix_hash == prefix_hash_of(b, m.offset as int)
    &&& cp.live_offsets@ == m.filter.live
    &&& cp.acu_flags@ == m.filter.flags
    &&& cp.prompt_starts@ == m.filter.starts
    &&& tracker_of(cp.tracker) == m.filter.tracker
    &&& cp.last_tokens == m.counters.last_tokens
    &&& cp.max_event_seq == m.counters.max_event_seq
    &&& cp.total_live == m.counters.total_live
    &&& pair_views(cp.pending_subagents@) == m.counters.pending
}

/// A checkpoint of the whole of `contents`, carried on from `previous` where that
/// can be used, else from a scan of everything.
pub fn refreshed_checkpoint(contents: &str, previous: Option<UpdatesCheckpoint>) -> (r:
    UpdatesCheckpoint)
    ensures
        is_checkpoint_of(
            r,
            feed_model(
                if previous is Some && usable(previous->0, contents.spec_bytes()) {
                    restored(previous->0)
                } else {
                    fresh_replay()
                },
                contents.spec_bytes(),
            ),
            contents.spec_bytes(),
        ),
{
    let mut state = match previous {
        Some(cp) => if validate(&cp, contents) && checkpoint_fits(&cp, contents) {
            IncrementalReplayState::from_checkpoint(&cp)
        } else {
            IncrementalReplayState::new()
        },
        None => IncrementalReplayState::new(),
    };
    let len: usize = contents.as_bytes().len();
    proof {
        encode_utf8_valid_utf8(contents@);
        is_char_boundary_start_end_of_seq(contents.spec_bytes());
    }
    state.feed(contents);
    state.to_checkpoint(contents)
}

/// `cp` is valid for `b` and can be carried on over it.
pub open spec fn usable(cp: UpdatesCheckpoint, b: Seq<u8>) -> bool {
    valid_for(cp, b) && fits(restored(cp), b)
}

/// A checkpoint of the whole of `contents` from a scan of everything.
pub fn seeded_checkpoint(contents: &str) -> (r: UpdatesCheckpoint)
    ensures
        is_checkpoint_of(
            r,
            feed_model(fresh_replay(), contents.spec_bytes()),
            contents.spec_bytes(),
        ),
{
    refreshed_checkpoint(contents, None)
}

/// The name under which the `n`th checkpoint of the process `pid` is written before
/// it takes its place.
pub fn checkpoint_tmp_name(pid: u32, n: u64) -> (r: String)
    ensures
        r@ == "updates_checkpoint.json.tmp-"@ + decimal(pid as nat) + "-"@ + decimal(n as nat),
{
    let mut s: String = String::new();
    s.append("updates_checkpoint.json.tmp-");
    s.append(decimal_u64(pid as u64).as_str());
    s.append("-");
    s.append(decimal_u64(n).as_str());
    assert(s@ =~= "updates_checkpoint.json.tmp-"@ + decimal(pid as nat) + "-"@ + decimal(n as nat));
    s
}

// ------------------------------------------------------------ prepared replay

/// What a client that connects is sent.
#[derive(Debug)]
pub struct PreparedReplay<'a> {
    /// The lines to forward.
    pub lines: Vec<&'a str>,
    /// The lines are a replay from the start, not the rest behind a cursor.
    pub mark_replay: bool,
    /// The last token count that a live line carries, 0 when none does.
    pub last_tokens: u64,
    /// The highest event counter of the live lines.
    pub max_event_seq: Option<u64>,
    /// How many live lines there are to forward in all.
    pub total_live: usize,
    /// The subagents that have started and not finished, by id.
    pub unfinished_subagents: Vec<(String, String)>,
    /// The replay started from a checkpoint.
    pub used_checkpoint: bool,
}

/// [`PreparedReplay`] by its texts.
pub struct PreparedModel {
    pub lines: Seq<Seq<char>>,
    pub mark_replay: bool,
    pub last_tokens: u64,
    pub max_event_seq: Option<u64>,
    pub total_live: nat,
    pub unfinished: Seq<(Seq<char>, Seq<char>)>,
}

impl<'a> View for PreparedReplay<'a> {
    type V = PreparedModel;

    open spec fn view(&self) -> PreparedModel {
        PreparedModel {
            lines: self.lines@.map_values(|l: &'a str| l@),
            mark_replay: self.mark_replay,
            last_tokens: self.last_tokens,
            max_event_seq: self.max_event_seq,
            total_live: self.total_live as nat,
            unfinished: pair_views(self.unfinished_subagents@),
        }
    }
}

/// The event id of the live line of `b` at `offset`.
pub open spec fn event_id_at(b: Seq<u8>, offset: u64) -> Option<Seq<char>> {
    event_id(line_text(b, clamped(b, offset)))
}

/// The last of the live lines that carries the event id `id`.
pub open spec fn last_with_id(b: Seq<u8>, live: Seq<u64>, id: Seq<char>) -> Option<int>
    decreases live.len(),
{
    if live.len() == 0 {
        None
    } else if event_id_at(b, live.last()) == Some(id) {
        Some(live.len() - 1)
    } else {
        last_with_id(b, live.drop_last(), id)
    }
}

/// Each live line behind `pos` carries an event id or is never forwarded.
pub open spec fn bounded_behind(b: Seq<u8>, f: FilterModel, pos: int) -> bool {
    forall|j: int|
        pos < j < f.live.len() ==> f.flags[j] == 1 || event_id_at(b, #[trigger] f.live[j]) is Some
}

/// The live line at which a client with the given cursor stands: the last one with
/// that event id, as long as what follows can be told apart by event ids.
pub open spec fn cursor_position(b: Seq<u8>, f: FilterModel, cursor: Option<Seq<char>>) -> Option<
    int,
> {
    match cursor {
        Some(id) => match last_with_id(b, f.live, id) {
            Some(pos) => if bounded_behind(b, f, pos) {
                Some(pos)
            } else {
                None
            },
            None => None,
        },
        None => None,
    }
}

/// The texts of the lines to forward from the live line `start` on.
pub open spec fn forwarded(b: Seq<u8>, live: Seq<u64>, flags: Seq<u8>, start: int) -> Seq<Seq<char>>
    decreases live.len(),
{
    if live.len() == 0 || live.len() <= start {
        Seq::empty()
    } else {
        let before = forwarded(b, live.drop_last(), flags.drop_last(), start);
        if flags.last() == 0 {
            before.push(line_text(b, clamped(b, live.last())))
        } else {
            before
        }
    }
}

/// What a client with the given cursor is sent of the log `b`.
pub open spec fn prepared(
    b: Seq<u8>,
    f: FilterModel,
    c: CountersModel,
    cursor: Option<Seq<char>>,
) -> PreparedModel {
    let pos = cursor_position(b, f, cursor);
    PreparedModel {
        lines: forwarded(
            b,
            f.live,
            f.flags,
            match pos {
                Some(p) => p + 1,
                None => 0,
            },
        ),
        mark_replay: pos is None,
        last_tokens: c.last_tokens,
        max_event_seq: c.max_event_seq,
        total_live: c.total_live,
        unfinished: c.pending,
    }
}

/// The text of an optional string slice.
pub open spec fn slice_text(s: Option<&str>) -> Option<Seq<char>> {
    match s {
        Some(t) => Some(t@),
        None => None,
    }
}

/// The live line at which a client with the given cursor stands.
pub fn resolve_cursor(contents: &str, filter: &LineFilter, cursor: Option<&str>) -> (r: Option<
    usize,
>)
    requires
        live_sound(filter@, contents.spec_bytes()),
    ensures
        match r {
            Some(p) => p < filter@.live.len() && cursor_position(
                contents.spec_bytes(),
                filter@,
                slice_text(cursor),
            ) == Some(p as int),
            None => cursor_position(contents.spec_bytes(), filter@, slice_text(cursor)) is None,
        },
{
    let ghost b = contents.spec_bytes();
    let ghost live = filter@.live;
    let id: &str = match cursor {
        Some(id) => id,
        None => {
            return None;
        },
    };
    let n: usize = filter.live_offsets.len();
    let mut k: usize = n;
    assert(live.take(n as int) =~= live);
    while k > 0
        invariant_except_break
            last_with_id(b, live, id@) == last_with_id(b, live.take(k as int), id@),
        invariant
            k <= n,
            n == live.len(),
            b == contents.spec_bytes(),
            live == filter.live_offsets@,
            live_sound(filter@, b),
        ensures
            k == 0 ==> last_with_id(b, live, id@) is None,
            k > 0 ==> last_with_id(b, live, id@) == Some(k - 1),
        decreases k,
    {
        if line_has_event_id(line_at(contents, filter.live_offsets[k - 1]), id) {
            break ;
        }
        assert(live.take(k as int).drop_last() =~= live.take(k as int - 1));
        k -= 1;
    }
    if k == 0 {
        return None;
    }
    let pos: usize = k - 1;
    let mut j: usize = k;
    while j < n
        invariant
            k <= j <= n,
            n == live.len(),
            b == contents.spec_bytes(),
            live == filter@.live,
            live_sound(filter@, b),
            last_with_id(b, live, id@) == Some(k - 1),
            cursor == Some(id),
            forall|i: int|
                k <= i < j ==> filter@.flags[i] == 1 || event_id_at(b, #[trigger] filter@.live[i]) is Some,
        decreases n - j,
    {
        let fine: bool = filter.acu_flags[j] == 1 || line_event_id(
            line_at(contents, filter.live_offsets[j]),
        ).is_some();
        if !fine {
            assert(event_id_at(b, filter@.live[j as int]) is None);
            assert(!bounded_behind(b, filter@, k - 1));
            return None;
        }
        j += 1;
    }
    Some(pos)
}

/// What a client with the given cursor is sent, the scan having come to `filter` and
/// `counters`.
pub fn forward_lines<'a>(
    contents: &'a str,
    cursor: Option<&str>,
    filter: &LineFilter,
    counters: LineCounters,
    used_checkpoint: bool,
) -> (r: PreparedReplay<'a>)
    requires
        live_sound(filter@, contents.spec_bytes()),
    ensures
        r@ == prepared(contents.spec_bytes(), filter@, counters@, slice_text(cursor)),
        r.used_checkpoint == used_checkpoint,
{
    let ghost b = contents.spec_bytes();
    let ghost live = filter@.live;
    let ghost flags = filter@.flags;
    let ghost texts = |l: &'a str| l@;
    let pos: Option<usize> = resolve_cursor(contents, filter, cursor);
    let n: usize = filter.live_offsets.len();
    let start: usize = match pos {
        Some(p) => p + 1,
        None => 0,
    };
    let mut lines: Vec<&'a str> = Vec::new();
    let mut i: usize = start;
    assert(lines@.map_values(texts) =~= Seq::<Seq<char>>::empty());
    while i < n
        invariant
            start <= i <= n,
            n == live.len(),
            b == contents.spec_bytes(),
            live == filter.live_offsets@,
            flags == filter.acu_flags@,
            live_sound(filter@, b),
            texts == (|l: &'a str| l@),
            lines@.map_values(texts) == forwarded(
                b,
                live.take(i as int),
                flags.take(i as int),
                start as int,
            ),
        decreases live.len() - i,
    {
        proof {
            assert(live.take(i as int + 1).drop_last() =~= live.take(i as int));
            assert(flags.take(i as int + 1).drop_last() =~= flags.take(i as int));
            assert(live.take(i as int + 1).last() == live[i as int]);
            assert(flags.take(i as int + 1).last() == flags[i as int]);
        }
        if filter.acu_flags[i] == 0 {
            let line: &'a str = line_at(contents, filter.live_offsets[i]);
            let ghost before = lines@;
            lines.push(line);
            assert(lines@.map_values(texts) =~= before.map_values(texts).push(line@));
        }
        i += 1;
    }
    assert(live.take(i as int) =~= live);
    assert(flags.take(i as int) =~= flags);
    PreparedReplay {
        lines,
        mark_replay: pos.is_none(),
        last_tokens: counters.last_tokens,
        max_event_seq: counters.max_event_seq,
        total_live: counters.total_live,
        unfinished_subagents: counters.pending_subagents,
        used_checkpoint,
    }
}

/// What a client with the given cursor is sent of `b` by a scan that carries on from
/// the state `m`.
pub open spec fn prepared_from(b: Seq<u8>, cursor: Option<Seq<char>>, m: ReplayModel) -> PreparedModel {
    let end = feed_model(m, b);
    prepared(b, end.filter, end.counters, cursor)
}

/// What a client with the given cursor is sent of `contents`, the scan carrying on
/// from `cp`.
pub fn build_prepared_replay<'a>(
    contents: &'a str,
    cursor: Option<&str>,
    cp: &UpdatesCheckpoint,
) -> (r: PreparedReplay<'a>)
    requires
        fits(restored(*cp), contents.spec_bytes()),
    ensures
        r@ == prepared_from(contents.spec_bytes(), slice_text(cursor), restored(*cp)),
        r.used_checkpoint,
{
    let mut state = IncrementalReplayState::from_checkpoint(cp);
    proof {
        encode_utf8_valid_utf8(contents@);
    }
    state.feed(contents);
    forward_lines(contents, cursor, &state.filter, state.counters, true)
}

/// Starting from a checkpoint at `offset` pays for a log of `len` bytes: at most half
/// of the log is left to scan.
pub open spec fn pays(offset: u64, len: int) -> bool {
    let tail = if offset <= len {
        len - offset
    } else {
        0
    };
    tail * 2 <= len
}

/// The replay that starts from `cp`, where at most half of the log is left to scan;
/// nothing where a scan of everything is the better deal.
pub fn build_prepared_replay_if_faster<'a>(
    cp: &UpdatesCheckpoint,
    contents: &'a str,
    cursor: Option<&str>,
) -> (r: Option<PreparedReplay<'a>>)
    requires
        pays(cp.offset, contents.spec_bytes().len() as int) ==> fits(
            restored(*cp),
            contents.spec_bytes(),
        ),
    ensures
        match r {
            Some(p) => pays(cp.offset, contents.spec_bytes().len() as int) && p@ == prepared_from(
                contents.spec_bytes(),
                slice_text(cursor),
                restored(*cp),
            ) && p.used_checkpoint,
            None => !pays(cp.offset, contents.spec_bytes().len() as int),
        },
{
    let len: u64 = contents.as_bytes().len() as u64;
    let tail: u64 = if cp.offset <= len {
        len - cp.offset
    } else {
        0
    };
    if tail > len - tail {
        return None;
    }
    Some(build_prepared_replay(contents, cursor, cp))
}

/// The live lines of the whole of `b`.
pub open spec fn full_filter(b: Seq<u8>) -> FilterModel {
    filter_lines(fresh_filter(), b, lines_from(b, 0))
}

/// What a client with the given cursor is sent of `b` by a scan of everything.
pub open spec fn prepared_in_full(b: Seq<u8>, cursor: Option<Seq<char>>) -> PreparedModel {
    let f = full_filter(b);
    prepared(b, f, derived(b, f.live, f.flags), cursor)
}

/// The live lines of `contents`.
pub fn filter_rewind_lines(contents: &str) -> (r: LineFilter)
    ensures
        r@ == full_filter(contents.spec_bytes()),
        live_sound(r@, contents.spec_bytes()),
{
    let ghost b = contents.spec_bytes();
    let len: usize = contents.as_bytes().len();
    let mut filter = LineFilter::new();
    let mut pos: usize = 0;
    proof {
        encode_utf8_valid_utf8(contents@);
        is_char_boundary_start_end_of_seq(b);
    }
    let ghost all = lines_from(b, 0);
    let ghost mut done: Seq<int> = Seq::empty();
    assert(done + all =~= all);
    loop
        invariant_except_break
            pos <= len,
            is_char_boundary(b, pos as int),
            done + lines_from(b, pos as int) == all,
        invariant
            b == contents.spec_bytes(),
            b.len() == len,
            valid_utf8(b),
            filter@ == filter_lines(fresh_filter(), b, done),
            live_sound(filter@, b),
        ensures
            done == all,
        decreases len - pos,
    {
        let line: &str = line_from(contents, pos);
        proof {
            line_end_bound(b, pos as int);
        }
        let end: usize = pos + line.as_bytes().len();
        if !is_blank_text(line) {
            let facts: LineFacts = line_facts(line);
            let ghost before = done;
            proof {
                done = done.push(pos as int);
                assert(done.drop_last() =~= before);
                filter_step_sound(filter@, b, model_at(b, pos as int), pos as u64);
            }
            filter.apply(&facts, pos as u64);
            assert(before + (seq![pos as int] + lines_from(b, end + 1)) =~= done + lines_from(
                b,
                end + 1,
            ));
            assert(before + seq![pos as int] =~= done);
            assert(seq![pos as int] + Seq::<int>::empty() =~= seq![pos as int]);
        } else {
            assert(done + Seq::<int>::empty() =~= done);
        }
        if end >= len {
            break ;
        }
        proof {
            ascii_byte_boundaries(b, end as int);
        }
        pos = end + 1;
    }
    filter
}

/// What a client with the given cursor is sent of `contents`: from the checkpoint
/// where one is given that can be used and pays, else by a scan of everything.
pub fn prepare_replay_lines<'a>(
    contents: &'a str,
    cursor: Option<&str>,
    checkpoint: Option<&UpdatesCheckpoint>,
) -> (r: PreparedReplay<'a>)
    ensures
        r.used_checkpoint == (checkpoint is Some && usable(*checkpoint->0, contents.spec_bytes())
            && pays(checkpoint->0.offset, contents.spec_bytes().len() as int)),
        r@ == if r.used_checkpoint {
            prepared_from(contents.spec_bytes(), slice_text(cursor), restored(*checkpoint->0))
        } else {
            prepared_in_full(contents.spec_bytes(), slice_text(cursor))
        },
{
    if let Some(cp) = checkpoint {
        if validate(cp, contents) && checkpoint_fits(cp, contents) {
            if let Some(p) = build_prepared_replay_if_faster(cp, contents, cursor) {
                return p;
            }
        }
    }
    let filter: LineFilter = filter_rewind_lines(contents);
    let counters: LineCounters = derive_counters(contents, &filter);
    forward_lines(contents, cursor, &filter, counters, false)
}

} // verus!
