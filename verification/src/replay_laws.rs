//! What holds of replay as a whole: a checkpoint makes it faster, never different.
use crate::byte_lines::{ascii_byte_boundaries, line_end, line_end_bound, line_text};
use crate::checkpoint::{
    forwarded, full_filter, is_checkpoint_of, prefix_hash_of, prepared, prepared_from,
    prepared_in_full, restored, usable, valid_for, UpdatesCheckpoint,
};
use crate::replay::{
    clamped, count_lines, derived, feed_model, filter_lines, filter_step, fits, fresh_filter,
    fresh_replay, lines_from, model_at, rewinds, CountersModel, FilterModel, ReplayModel,
};
use crate::session_line::{LineModel, SubagentModel};
use crate::text::is_blank;
use crate::text_order::{collected_sorted, sorted_by_key, sorted_is_kept};
use vstd::prelude::*;
use vstd::utf8::*;

verus! {

/// A place at which a log may have ended: its start, the start of a line, its end,
/// or a line that broke off and was ended by a newline later.
pub open spec fn line_boundary(b: Seq<u8>, k: int) -> bool {
    0 <= k <= b.len() && (k == 0 || b[k - 1] == 10 || k == b.len() || b[k] == 10)
}

proof fn line_end_in_prefix(b: Seq<u8>, k: int, pos: int)
    requires
        0 <= pos <= k <= b.len(),
    ensures
        line_end(b.take(k), pos) == if line_end(b, pos) <= k {
            line_end(b, pos)
        } else {
            k
        },
    decreases k - pos,
{
    line_end_bound(b, pos);
    if pos < k && b[pos] != 10 {
        line_end_in_prefix(b, k, pos + 1);
    }
}

proof fn line_text_in_prefix(b: Seq<u8>, k: int, pos: int)
    requires
        line_boundary(b, k),
        0 <= pos < k,
    ensures
        line_end(b, pos) <= k,
        line_end(b.take(k), pos) == line_end(b, pos),
        line_text(b.take(k), pos) == line_text(b, pos),
{
    line_end_bound(b, pos);
    line_end_in_prefix(b, k, pos);
    if line_end(b, pos) > k {
        assert(b[k] != 10);
        assert(b[k - 1] != 10);
    }
    assert(b.take(k).subrange(pos, line_end(b, pos)) =~= b.subrange(pos, line_end(b, pos)));
}

proof fn blank_line_end(b: Seq<u8>, pos: int)
    requires
        0 <= pos <= b.len(),
        line_end(b, pos) == pos,
    ensures
        is_blank(line_text(b, pos)),
{
    assert(b.subrange(pos, pos) =~= Seq::empty());
    assert(decode_utf8(b.subrange(pos, pos)).len() == 0);
}

/// The lines of a log are those of its first `k` bytes and then those behind.
proof fn lines_split(b: Seq<u8>, k: int, pos: int)
    requires
        line_boundary(b, k),
        0 <= pos <= k,
    ensures
        lines_from(b, pos) == lines_from(b.take(k), pos) + lines_from(b, k),
    decreases k - pos,
{
    let p = b.take(k);
    line_end_bound(b, pos);
    if pos == k {
        line_end_bound(p, k);
        blank_line_end(p, k);
        assert(Seq::<int>::empty() + lines_from(b, k) =~= lines_from(b, k));
    } else {
        line_text_in_prefix(b, k, pos);
        let e = line_end(b, pos);
        if e < k {
            lines_split(b, k, e + 1);
            let rest = lines_from(p, e + 1);
            assert(lines_from(b, e + 1) == rest + lines_from(b, k));
            assert(seq![pos] + (rest + lines_from(b, k)) =~= (seq![pos] + rest) + lines_from(b, k));
        } else {
            line_end_bound(b, k);
            blank_line_end(b, k);
            if k < b.len() {
                assert(lines_from(b, k) == lines_from(b, k + 1));
            } else {
                assert(lines_from(b, k) =~= Seq::empty());
            }
            assert(Seq::<int>::empty() + lines_from(b, k) =~= lines_from(b, k));
            assert(seq![pos] + Seq::<int>::empty() =~= seq![pos]);
        }
    }
}

/// The lines come in order, each starts where a line can start, and none lies
/// outside the log.
pub proof fn lines_in_order(b: Seq<u8>, pos: int)
    requires
        0 <= pos <= b.len(),
        pos == 0 || b[pos - 1] == 10,
    ensures
        forall|i: int|
            0 <= i < lines_from(b, pos).len() ==> pos <= #[trigger] lines_from(b, pos)[i] < b.len(),
        forall|i: int, j: int|
            0 <= i < j < lines_from(b, pos).len() ==> #[trigger] lines_from(b, pos)[i]
                < #[trigger] lines_from(b, pos)[j],
        forall|i: int|
            0 <= i < lines_from(b, pos).len() ==> (#[trigger] lines_from(b, pos)[i] == 0 || b[lines_from(
                b,
                pos,
            )[i] - 1] == 10),
    decreases b.len() - pos,
{
    line_end_bound(b, pos);
    let e = line_end(b, pos);
    if e < b.len() {
        lines_in_order(b, e + 1);
    }
    if !is_blank(line_text(b, pos)) {
        if e == pos {
            blank_line_end(b, pos);
        }
        let rest = if e < b.len() {
            lines_from(b, e + 1)
        } else {
            Seq::empty()
        };
        let all = lines_from(b, pos);
        assert(all == seq![pos] + rest);
        assert(all[0] == pos);
        assert forall|i: int| 0 < i < all.len() implies #[trigger] all[i] == rest[i - 1] by {}
    }
}

proof fn filter_lines_append(f: FilterModel, b: Seq<u8>, s: Seq<int>, t: Seq<int>)
    ensures
        filter_lines(f, b, s + t) == filter_lines(filter_lines(f, b, s), b, t),
    decreases t.len(),
{
    if t.len() == 0 {
        assert(s + t =~= s);
    } else {
        filter_lines_append(f, b, s, t.drop_last());
        assert((s + t).drop_last() =~= s + t.drop_last());
        assert((s + t).last() == t.last());
    }
}

proof fn filter_lines_in_prefix(f: FilterModel, b: Seq<u8>, k: int, starts: Seq<int>)
    requires
        line_boundary(b, k),
        forall|i: int| 0 <= i < starts.len() ==> 0 <= #[trigger] starts[i] < k,
    ensures
        filter_lines(f, b.take(k), starts) == filter_lines(f, b, starts),
    decreases starts.len(),
{
    if starts.len() > 0 {
        let s = starts.drop_last();
        assert forall|i: int| 0 <= i < s.len() implies 0 <= #[trigger] s[i] < k by {
            assert(s[i] == starts[i]);
        }
        filter_lines_in_prefix(f, b, k, s);
        line_text_in_prefix(b, k, starts[starts.len() - 1]);
    }
}

proof fn derived_in_prefix(b: Seq<u8>, k: int, live: Seq<u64>, flags: Seq<u8>)
    requires
        line_boundary(b, k),
        forall|i: int| 0 <= i < live.len() ==> #[trigger] live[i] < k,
    ensures
        derived(b.take(k), live, flags) == derived(b, live, flags),
    decreases live.len(),
{
    if live.len() > 0 {
        let l = live.drop_last();
        assert forall|i: int| 0 <= i < l.len() implies #[trigger] l[i] < k by {
            assert(l[i] == live[i]);
        }
        derived_in_prefix(b, k, l, flags.drop_last());
        line_text_in_prefix(b, k, live[live.len() - 1] as int);
    }
}

/// As long as no rewind marker comes by, counting line by line is counting the live
/// lines.
proof fn counting_keeps_up(f: FilterModel, b: Seq<u8>, starts: Seq<int>)
    requires
        f.live.len() == f.flags.len(),
        !rewinds(b, starts),
        b.len() <= u64::MAX,
        forall|i: int| 0 <= i < starts.len() ==> 0 <= #[trigger] starts[i] < b.len(),
    ensures
        count_lines(derived(b, f.live, f.flags), b, starts) == derived(
            b,
            filter_lines(f, b, starts).live,
            filter_lines(f, b, starts).flags,
        ),
        filter_lines(f, b, starts).live.len() == filter_lines(f, b, starts).flags.len(),
    decreases starts.len(),
{
    if starts.len() > 0 {
        let s = starts.drop_last();
        assert forall|i: int| 0 <= i < s.len() implies 0 <= #[trigger] s[i] < b.len() by {
            assert(s[i] == starts[i]);
        }
        assert(!rewinds(b, s)) by {
            if rewinds(b, s) {
                let i = choose|i: int|
                    0 <= i < s.len() && (#[trigger] model_at(b, s[i])).class is RewindMarker;
                assert(starts[i] == s[i]);
            }
        }
        counting_keeps_up(f, b, s);
        let g = filter_lines(f, b, s);
        let h = filter_lines(f, b, starts);
        let at = starts[starts.len() - 1];
        assert(!(model_at(b, at).class is RewindMarker));
        assert(h.live.drop_last() =~= g.live);
        assert(h.flags.drop_last() =~= g.flags);
        assert(h.live.last() == at as u64);
    }
}

/// What every filter keeps that has taken in lines before `bound` only.
pub open spec fn filter_sound(f: FilterModel, bound: int) -> bool {
    &&& f.live.len() == f.flags.len()
    &&& f.live.len() <= bound
    &&& forall|i: int| 0 <= i < f.flags.len() ==> #[trigger] f.flags[i] <= 1
    &&& forall|i: int| 0 <= i < f.live.len() ==> #[trigger] f.live[i] < bound
    &&& forall|i: int, j: int|
        0 <= i < j < f.live.len() ==> #[trigger] f.live[i] < #[trigger] f.live[j]
    &&& forall|i: int| 0 <= i < f.starts.len() ==> #[trigger] f.starts[i] <= f.live.len()
    &&& forall|i: int, j: int|
        0 <= i < j < f.starts.len() ==> #[trigger] f.starts[i] <= #[trigger] f.starts[j]
}

/// Every line keeps a filter sound.
pub proof fn filter_stays_sound(f: FilterModel, line: LineModel, bound: int, offset: u64)
    requires
        filter_sound(f, bound),
        bound <= offset,
        offset < usize::MAX,
    ensures
        filter_sound(filter_step(f, line, offset), offset + 1),
{
}

proof fn scan_is_sound(b: Seq<u8>, starts: Seq<int>)
    requires
        b.len() <= usize::MAX,
        forall|i: int| 0 <= i < starts.len() ==> 0 <= #[trigger] starts[i] < b.len(),
        forall|i: int, j: int|
            0 <= i < j < starts.len() ==> #[trigger] starts[i] < #[trigger] starts[j],
    ensures
        filter_sound(
            filter_lines(fresh_filter(), b, starts),
            if starts.len() == 0 {
                0
            } else {
                starts.last() + 1
            },
        ),
        forall|i: int|
            0 <= i < filter_lines(fresh_filter(), b, starts).live.len() ==> starts.contains(
                #[trigger] filter_lines(fresh_filter(), b, starts).live[i] as int,
            ),
    decreases starts.len(),
{
    if starts.len() > 0 {
        let s = starts.drop_last();
        assert forall|i: int| 0 <= i < s.len() implies 0 <= #[trigger] s[i] < b.len() by {
            assert(s[i] == starts[i]);
        }
        assert forall|i: int, j: int| 0 <= i < j < s.len() implies #[trigger] s[i]
            < #[trigger] s[j] by {
            assert(s[i] == starts[i] && s[j] == starts[j]);
        }
        scan_is_sound(b, s);
        let f = filter_lines(fresh_filter(), b, s);
        let at = starts.last();
        let bound = if s.len() == 0 {
            0
        } else {
            s.last() + 1
        };
        if s.len() > 0 {
            assert(starts[s.len() - 1] < starts[starts.len() - 1]);
        }
        assert(at == starts[starts.len() - 1]);
        filter_stays_sound(f, model_at(b, at), bound, at as u64);
        let g = filter_lines(fresh_filter(), b, starts);
        assert forall|i: int| 0 <= i < g.live.len() implies starts.contains(
            #[trigger] g.live[i] as int,
        ) by {
            if i < f.live.len() {
                assert(g.live[i] == f.live[i]);
                let n = choose|n: int| 0 <= n < s.len() && s[n] == f.live[i] as int;
                assert(starts[n] == s[n]);
            } else {
                assert(g.live[i] == at);
                assert(starts[starts.len() - 1] == at);
            }
        }
    }
}

proof fn derived_is_bounded(b: Seq<u8>, live: Seq<u64>, flags: Seq<u8>)
    ensures
        derived(b, live, flags).total_live <= live.len(),
        sorted_by_key(derived(b, live, flags).pending),
    decreases live.len(),
{
    if live.len() > 0 {
        derived_is_bounded(b, live.drop_last(), flags.drop_last());
        let before = derived(b, live.drop_last(), flags.drop_last());
        match model_at(b, clamped(b, live.last())).subagent {
            Some(SubagentModel::Spawned { subagent_id, child_session_id }) => {
                sorted_is_kept(before.pending, subagent_id, child_session_id);
            },
            Some(SubagentModel::Finished { subagent_id }) => {
                sorted_is_kept(before.pending, subagent_id, subagent_id);
            },
            None => {},
        }
    }
}

/// Feeding a log from the start keeps the lines that the rewind filter keeps, and
/// the counters are those of just these lines.
pub proof fn feeding_is_scanning(b: Seq<u8>)
    requires
        b.len() <= usize::MAX,
    ensures
        feed_model(fresh_replay(), b) == (ReplayModel {
            filter: full_filter(b),
            counters: derived(b, full_filter(b).live, full_filter(b).flags),
            offset: b.len() as u64,
        }),
{
    lines_in_order(b, 0);
    let starts = lines_from(b, 0);
    if !rewinds(b, starts) {
        counting_keeps_up(fresh_filter(), b, starts);
    }
}

/// Carrying a scan on is the same as scanning everything: the state after the first
/// `k` bytes, fed the whole log, is the state of a scan of the whole log, wherever the
/// first `k` bytes end at a line boundary.
pub proof fn resuming_is_scanning(b: Seq<u8>, k: int)
    requires
        line_boundary(b, k),
        b.len() <= usize::MAX,
    ensures
        feed_model(feed_model(fresh_replay(), b.take(k)), b) == feed_model(fresh_replay(), b),
{
    let p = b.take(k);
    let m = feed_model(fresh_replay(), p);
    feeding_is_scanning(p);
    feeding_is_scanning(b);
    lines_in_order(p, 0);
    let head = lines_from(p, 0);
    let tail = lines_from(b, k);
    lines_split(b, k, 0);
    scan_is_sound(p, head);
    filter_lines_in_prefix(fresh_filter(), b, k, head);
    filter_lines_append(fresh_filter(), b, head, tail);
    let f = full_filter(p);
    derived_in_prefix(b, k, f.live, f.flags);
    assert(m.counters == derived(b, f.live, f.flags));
    if !rewinds(b, tail) {
        tail_inside(b, k);
        counting_keeps_up(f, b, tail);
    }
}

proof fn tail_inside(b: Seq<u8>, k: int)
    requires
        line_boundary(b, k),
    ensures
        forall|i: int| 0 <= i < lines_from(b, k).len() ==> 0 <= #[trigger] lines_from(b, k)[i] < b.len(),
{
    if k == b.len() {
        line_end_bound(b, k);
        blank_line_end(b, k);
    } else if k == 0 || b[k - 1] == 10 {
        lines_in_order(b, k);
    } else {
        blank_line_end(b, k);
        assert(lines_from(b, k) == lines_from(b, k + 1));
        lines_in_order(b, k + 1);
    }
}

proof fn valid_prefix_ends_at_boundary(b: Seq<u8>, k: int)
    requires
        0 <= k <= b.len(),
        valid_utf8(b),
        valid_utf8(b.take(k)),
    ensures
        is_char_boundary(b, k),
    decreases k,
{
    if k > 0 {
        let p = b.take(k);
        let n = length_of_first_scalar(p);
        assert(p[0] == b[0]);
        assert(pop_first_scalar(b).take(k - n) =~= pop_first_scalar(p));
        valid_prefix_ends_at_boundary(pop_first_scalar(b), k - n);
    }
}

/// What a scan of `p` leaves behind.
proof fn scan_leaves(p: Seq<u8>)
    requires
        p.len() <= usize::MAX,
    ensures
        filter_sound(full_filter(p), p.len() as int),
        forall|i: int|
            0 <= i < full_filter(p).live.len() ==> (#[trigger] full_filter(p).live[i] == 0 || p[full_filter(
                p,
            ).live[i] - 1] == 10),
{
    lines_in_order(p, 0);
    let starts = lines_from(p, 0);
    scan_is_sound(p, starts);
    let f = full_filter(p);
    if starts.len() > 0 {
        assert(starts[starts.len() - 1] < p.len());
    }
    assert forall|i: int| 0 <= i < f.live.len() implies (#[trigger] f.live[i] == 0 || p[f.live[i]
        - 1] == 10) by {
        assert(starts.contains(f.live[i] as int));
        let n = choose|n: int| 0 <= n < starts.len() && starts[n] == f.live[i] as int;
        assert(starts[n] == 0 || p[starts[n] - 1] == 10);
    }
}

proof fn checkpoint_stays_valid(cp: UpdatesCheckpoint, p: Seq<u8>, b: Seq<u8>)
    requires
        is_checkpoint_of(cp, feed_model(fresh_replay(), p), p),
        p.len() <= b.len() <= usize::MAX,
        b.take(p.len() as int) == p,
    ensures
        valid_for(cp, b),
{
    let k = p.len() as int;
    feeding_is_scanning(p);
    scan_leaves(p);
    let f = full_filter(p);
    assert(cp.live_offsets@ == f.live);
    assert forall|i: int| 0 <= i < cp.live_offsets@.len() - 1 implies #[trigger] cp.live_offsets@[i]
        < cp.live_offsets@[i + 1] by {
        assert(f.live[i] < f.live[i + 1]);
    }
    let from = if k >= 4096 {
        k - 4096
    } else {
        0
    };
    assert(b.subrange(from, k) =~= p.subrange(from, k));
    assert(prefix_hash_of(b, k) == prefix_hash_of(p, k));
}

proof fn scanned_state_fits(p: Seq<u8>, b: Seq<u8>)
    requires
        valid_utf8(p),
        valid_utf8(b),
        p.len() <= b.len() <= usize::MAX,
        b.take(p.len() as int) == p,
    ensures
        fits(feed_model(fresh_replay(), p), b),
{
    let m = feed_model(fresh_replay(), p);
    feeding_is_scanning(p);
    scan_leaves(p);
    derived_is_bounded(p, m.filter.live, m.filter.flags);
    valid_prefix_ends_at_boundary(b, p.len() as int);
    assert forall|i: int| 0 <= i < m.filter.live.len() implies is_char_boundary(
        b,
        clamped(b, #[trigger] m.filter.live[i]),
    ) by {
        let o = m.filter.live[i] as int;
        if o == 0 {
            is_char_boundary_start_end_of_seq(b);
        } else {
            assert(b[o - 1] == p[o - 1]);
            ascii_byte_boundaries(b, o - 1);
        }
    }
}

/// A checkpoint taken of a log can be used for every log that begins with the same
/// bytes, and holds the state in which it was taken.
pub proof fn checkpoint_outlives_appends(cp: UpdatesCheckpoint, p: Seq<u8>, b: Seq<u8>)
    requires
        is_checkpoint_of(cp, feed_model(fresh_replay(), p), p),
        valid_utf8(p),
        valid_utf8(b),
        p.len() <= b.len() <= usize::MAX,
        b.take(p.len() as int) == p,
    ensures
        usable(cp, b),
        restored(cp) == feed_model(fresh_replay(), p),
{
    let m = feed_model(fresh_replay(), p);
    checkpoint_stays_valid(cp, p, b);
    scanned_state_fits(p, b);
    feeding_is_scanning(p);
    derived_is_bounded(p, m.filter.live, m.filter.flags);
    collected_sorted(m.counters.pending);
}

/// A checkpoint makes replay faster, never different: whatever the cursor, a replay
/// from a checkpoint taken at a line boundary is what a scan of everything gives.
pub proof fn checkpoint_replay_is_full_replay(
    cp: UpdatesCheckpoint,
    b: Seq<u8>,
    k: int,
    cursor: Option<Seq<char>>,
)
    requires
        valid_utf8(b),
        b.len() <= usize::MAX,
        line_boundary(b, k),
        is_checkpoint_of(cp, feed_model(fresh_replay(), b.take(k)), b.take(k)),
    ensures
        usable(cp, b),
        prepared_from(b, cursor, restored(cp)) == prepared_in_full(b, cursor),
{
    boundary_splits_text(b, k);
    checkpoint_outlives_appends(cp, b.take(k), b);
    resuming_is_scanning(b, k);
    feeding_is_scanning(b);
}

proof fn boundary_splits_text(b: Seq<u8>, k: int)
    requires
        valid_utf8(b),
        line_boundary(b, k),
    ensures
        valid_utf8(b.take(k)),
{
    is_char_boundary_start_end_of_seq(b);
    if k > 0 && b[k - 1] == 10 {
        ascii_byte_boundaries(b, k - 1);
    } else if k < b.len() && b[k] == 10 {
        ascii_byte_boundaries(b, k);
    }
    valid_utf8_split(b, k);
    assert(b.take(k) =~= b.subrange(0, k));
}

/// Refreshing a checkpoint gives the checkpoint that a scan of everything gives.
pub proof fn refreshing_is_seeding(previous: UpdatesCheckpoint, next: UpdatesCheckpoint, b: Seq<u8>, k: int)
    requires
        valid_utf8(b),
        b.len() <= usize::MAX,
        line_boundary(b, k),
        is_checkpoint_of(previous, feed_model(fresh_replay(), b.take(k)), b.take(k)),
        is_checkpoint_of(next, feed_model(restored(previous), b), b),
    ensures
        is_checkpoint_of(next, feed_model(fresh_replay(), b), b),
{
    boundary_splits_text(b, k);
    checkpoint_outlives_appends(previous, b.take(k), b);
    resuming_is_scanning(b, k);
}

/// A cursor never changes which lines are live or what is derived from them: it only
/// leaves out lines at the front of what is forwarded.
pub proof fn cursor_only_skips(b: Seq<u8>, f: FilterModel, c: CountersModel, cursor: Option<Seq<char>>)
    requires
        f.live.len() == f.flags.len(),
    ensures
        ({
            let with = prepared(b, f, c, cursor);
            let without = prepared(b, f, c, None);
            &&& with.total_live == without.total_live
            &&& with.last_tokens == without.last_tokens
            &&& with.max_event_seq == without.max_event_seq
            &&& with.unfinished == without.unfinished
            &&& with.mark_replay ==> with.lines == without.lines
            &&& with.lines.len() <= without.lines.len()
            &&& with.lines == without.lines.skip(without.lines.len() - with.lines.len())
        }),
{
    let start = match crate::checkpoint::cursor_position(b, f, cursor) {
        Some(p) => p + 1,
        None => 0,
    };
    forwarded_is_suffix(b, f.live, f.flags, start);
}

proof fn forwarded_is_suffix(b: Seq<u8>, live: Seq<u64>, flags: Seq<u8>, start: int)
    ensures
        forwarded(b, live, flags, start).len() <= forwarded(b, live, flags, 0).len(),
        forwarded(b, live, flags, start) == forwarded(b, live, flags, 0).skip(
            forwarded(b, live, flags, 0).len() - forwarded(b, live, flags, start).len(),
        ),
    decreases live.len(),
{
    let part = forwarded(b, live, flags, start);
    let all = forwarded(b, live, flags, 0);
    if live.len() == 0 || live.len() <= start {
        assert(part =~= all.skip(all.len() as int));
    } else {
        forwarded_is_suffix(b, live.drop_last(), flags.drop_last(), start);
        assert(part =~= all.skip(all.len() - part.len()));
    }
}

} // verus!
