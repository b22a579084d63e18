//! When a checkpoint is taken for what it is, told of its fields and of the file.
use crate::checkpoint::{
    fnv1a64_of, is_checkpoint_of, pays, prefix_hash_of, restored, valid_for, UpdatesCheckpoint,
};
use crate::replay::ReplayModel;
use vstd::prelude::*;

verus! {

/// The hash takes in the bytes one after another, each by an exclusive or and a product that
/// wraps around.
pub proof fn hash_takes_in_every_byte(bytes: Seq<u8>)
    ensures
        fnv1a64_of(bytes) == bytes.fold_left(
            0xcbf2_9ce4_8422_2325u64,
            |h: u64, b: u8| (h ^ (b as u64)).wrapping_mul(0x100_0000_01b3u64),
        ),
    decreases bytes.len(),
{
    let f = |h: u64, b: u8| (h ^ (b as u64)).wrapping_mul(0x100_0000_01b3u64);
    reveal_with_fuel(Seq::fold_left, 2);
    if bytes.len() > 0 {
        hash_takes_in_every_byte(bytes.drop_last());
        assert(bytes.fold_left(0xcbf2_9ce4_8422_2325u64, f) == f(
            bytes.drop_last().fold_left(0xcbf2_9ce4_8422_2325u64, f),
            bytes.last(),
        ));
    }
}

/// The hash of a prefix is that of its last four kibibytes, or of all of it.
pub proof fn prefix_hash_takes_the_end(b: Seq<u8>, offset: int)
    requires
        0 <= offset <= b.len(),
    ensures
        offset <= 4096 ==> prefix_hash_of(b, offset) == fnv1a64_of(b.take(offset)),
        offset > 4096 ==> prefix_hash_of(b, offset) == fnv1a64_of(
            b.subrange(offset - 4096, offset),
        ),
{
    assert(b.subrange(0, offset) =~= b.take(offset));
}

/// No place stands at or behind one that follows it.
pub open spec fn places_increase(live: Seq<u64>) -> bool {
    forall|i: int, j: int| 0 <= i < j < live.len() ==> #[trigger] live[i] < #[trigger] live[j]
}

proof fn increase_by_steps(live: Seq<u64>, i: int, j: int)
    requires
        forall|k: int| 0 <= k < live.len() - 1 ==> #[trigger] live[k] < live[k + 1],
        0 <= i < j < live.len(),
    ensures
        live[i] < live[j],
    decreases j - i,
{
    if i + 1 < j {
        increase_by_steps(live, i, j - 1);
        assert(live[j - 1] < live[j - 1 + 1]);
    } else {
        assert(live[i] < live[i + 1]);
    }
}

/// A checkpoint is valid for a file where it is of this version, ends inside the file, its
/// lists agree, its places increase and lie before its end, its turns begin among its lines,
/// and the file still reads as it did up to its end.
pub proof fn valid_checkpoints_agree_with_the_file(cp: UpdatesCheckpoint, b: Seq<u8>)
    ensures
        valid_for(cp, b) <==> {
            &&& cp.version == 1
            &&& cp.offset <= b.len()
            &&& cp.live_offsets@.len() == cp.acu_flags@.len()
            &&& forall|i: int|
                0 <= i < cp.acu_flags@.len() ==> #[trigger] cp.acu_flags@[i] == 0
                    || cp.acu_flags@[i] == 1
            &&& forall|i: int|
                0 <= i < cp.live_offsets@.len() ==> #[trigger] cp.live_offsets@[i] < cp.offset
            &&& places_increase(cp.live_offsets@)
            &&& forall|i: int|
                0 <= i < cp.prompt_starts@.len() ==> #[trigger] cp.prompt_starts@[i]
                    <= cp.live_offsets@.len()
            &&& cp.prefix_hash == prefix_hash_of(b, cp.offset as int)
        },
{
    let live = cp.live_offsets@;
    if valid_for(cp, b) {
        assert forall|i: int, j: int| 0 <= i < j < live.len() implies #[trigger] live[i]
            < #[trigger] live[j] by {
            increase_by_steps(live, i, j);
        }
    }
    if places_increase(live) {
        assert forall|k: int| 0 <= k < live.len() - 1 implies #[trigger] live[k] < live[k + 1] by {}
    }
}

/// A checkpoint pays where no more than half of the file is left to read.
pub proof fn half_the_file_pays(offset: u64, len: int)
    requires
        0 <= len,
    ensures
        offset <= len ==> (pays(offset, len) <==> 2 * (len - offset) <= len),
        offset > len ==> pays(offset, len),
{
}

/// What was kept in a checkpoint comes back out of it.
pub proof fn kept_is_restored(cp: UpdatesCheckpoint, m: ReplayModel, b: Seq<u8>)
    requires
        is_checkpoint_of(cp, m, b),
    ensures
        restored(cp).offset == m.offset,
        restored(cp).filter.live == m.filter.live,
        restored(cp).filter.flags == m.filter.flags,
        restored(cp).filter.starts == m.filter.starts,
        restored(cp).filter.tracker == m.filter.tracker,
        restored(cp).counters.last_tokens == m.counters.last_tokens,
        restored(cp).counters.max_event_seq == m.counters.max_event_seq,
        restored(cp).counters.total_live == m.counters.total_live,
        cp.prefix_hash == prefix_hash_of(b, m.offset as int),
{
}

} // verus!
