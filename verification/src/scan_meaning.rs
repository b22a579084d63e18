//! What a scan for orphaned snapshots has done when it is over, told by what was asked of the
//! machine and what it answered.
use crate::cleanup_meaning::{told, told_stays, tried};
use crate::orphan_scan::{
    fresh_scan, is_mounted, next_meta, next_storage, scan_after, scan_request, with_error,
    ScanModel, ScanStage,
};
use crate::paths::{joined, parent, same_path};
use crate::removal_meaning::{every_metadata_file_is_known, every_storage_is_known};
use crate::text::ends_with;
use crate::worktree_cleanup::{has_room, CleanupReport};
use crate::worktree_host::{answers, MetadataModel, MountModel, Op, ReplyModel, RequestModel};
use crate::worktree_removal::{directly_in, link_resolved, metadata_files, storage_dirs};
use vstd::prelude::*;

verus! {

// ---------------------------------------------------------------------- the runs

/// The scan after all the answers.
pub open spec fn scanned(m: ScanModel, replies: Seq<ReplyModel>) -> ScanModel
    decreases replies.len(),
{
    if replies.len() == 0 {
        m
    } else {
        scan_after(scanned(m, replies.drop_last()), replies.last())
    }
}

/// What was asked and answered on the way.
pub open spec fn scanning(m: ScanModel, replies: Seq<ReplyModel>) -> Seq<(RequestModel, ReplyModel)>
    decreases replies.len(),
{
    if replies.len() == 0 {
        Seq::empty()
    } else {
        scanning(m, replies.drop_last()).push(
            (scan_request(scanned(m, replies.drop_last())), replies.last()),
        )
    }
}

/// Every answer is one to what was asked.
pub open spec fn all_answered(m: ScanModel, replies: Seq<ReplyModel>) -> bool
    decreases replies.len(),
{
    replies.len() > 0 ==> all_answered(m, replies.drop_last()) && answers(
        scan_request(scanned(m, replies.drop_last())).op,
        replies.last(),
    )
}

// -------------------------------------------------------------------- what is done

/// Something is mounted at the place.
pub open spec fn in_mounts(ms: Seq<MountModel>, target: Seq<char>) -> bool {
    exists|i: int| 0 <= i < ms.len() && same_path((#[trigger] ms[i]).mount_point, target)
}

/// There is no link at the target that leads to the snapshot.
pub open spec fn not_linked(h: Seq<(RequestModel, ReplyModel)>, meta: MetadataModel) -> bool {
    let target = meta.mount_target;
    ||| told(h, Op::IsSymlink, target, ReplyModel::Flag(false))
    ||| told(h, Op::ReadLink, target, ReplyModel::Text(None))
    ||| exists|t: Seq<char>| #[trigger]
        told(h, Op::ReadLink, target, ReplyModel::Text(Some(t))) && !same_path(
            link_resolved(target, t),
            meta.snapshot_path,
        )
}

/// There is a link at the target that leads to the snapshot.
pub open spec fn is_linked(h: Seq<(RequestModel, ReplyModel)>, meta: MetadataModel) -> bool {
    let target = meta.mount_target;
    exists|t: Seq<char>| #[trigger]
        told(h, Op::ReadLink, target, ReplyModel::Text(Some(t))) && same_path(
            link_resolved(target, t),
            meta.snapshot_path,
        )
}

/// The snapshot is in use, or may be used again.
pub open spec fn spared(
    h: Seq<(RequestModel, ReplyModel)>,
    ms: Seq<MountModel>,
    meta: MetadataModel,
) -> bool {
    ||| in_mounts(ms, meta.mount_target)
    ||| is_linked(h, meta)
    ||| parent(meta.mount_target) is Some && told(
        h,
        Op::Exists,
        parent(meta.mount_target)->0,
        ReplyModel::Flag(false),
    )
}

/// Nothing uses the snapshot.
pub open spec fn orphaned(
    h: Seq<(RequestModel, ReplyModel)>,
    ms: Seq<MountModel>,
    meta: MetadataModel,
) -> bool {
    &&& !in_mounts(ms, meta.mount_target)
    &&& not_linked(h, meta)
    &&& parent(meta.mount_target) is Some ==> told(
        h,
        Op::Exists,
        parent(meta.mount_target)->0,
        ReplyModel::Flag(true),
    )
}

/// The snapshot lies where it may be deleted.
pub open spec fn deletable(
    h: Seq<(RequestModel, ReplyModel)>,
    dir: Seq<char>,
    p: Seq<char>,
) -> bool {
    directly_in(p, dir) && told(h, Op::IsSafeTarget, p, ReplyModel::Flag(true))
}

/// The snapshot lies where it may be deleted, or was not there at first.
pub open spec fn may_go(h: Seq<(RequestModel, ReplyModel)>, dir: Seq<char>, p: Seq<char>) -> bool {
    deletable(h, dir, p) || told(h, Op::Exists, p, ReplyModel::Flag(false))
}

/// The snapshot does not lie where it may be deleted.
pub open spec fn out_of_place(
    h: Seq<(RequestModel, ReplyModel)>,
    dir: Seq<char>,
    p: Seq<char>,
) -> bool {
    !directly_in(p, dir) || told(h, Op::IsSafeTarget, p, ReplyModel::Flag(false))
}

/// What refers to the snapshot was dropped.
pub open spec fn reference_dropped(h: Seq<(RequestModel, ReplyModel)>, target: Seq<char>) -> bool {
    ||| told(h, Op::IsSymlink, target, ReplyModel::Flag(true)) && tried(h, Op::RemoveFile, target)
    ||| told(h, Op::IsSymlink, target, ReplyModel::Flag(false)) && tried(h, Op::Umount, target)
        && tried(h, Op::RemoveDir, target)
}

/// An orphan was dealt with: it may not be deleted, or could not be, or it was deleted or was
/// gone already, and then its reference and its metadata were dropped.
pub open spec fn orphan_settled(
    h: Seq<(RequestModel, ReplyModel)>,
    dir: Seq<char>,
    file: Seq<char>,
    meta: MetadataModel,
) -> bool {
    let p = meta.snapshot_path;
    ||| out_of_place(h, dir, p) && told(h, Op::Exists, p, ReplyModel::Flag(true))
    ||| may_go(h, dir, p) && exists|e: Seq<char>| #[trigger]
        told(h, Op::DeleteSnapshot, p, ReplyModel::Done(Some(e)))
    ||| may_go(h, dir, p) && told(h, Op::DeleteSnapshot, p, ReplyModel::Done(None))
        && reference_dropped(h, meta.mount_target) && tried(h, Op::RemoveFile, file)
    ||| told(h, Op::Exists, p, ReplyModel::Flag(false)) && reference_dropped(h, meta.mount_target)
        && tried(h, Op::RemoveFile, file)
}

/// The metadata file was read, and what it tells of was dealt with.
pub open spec fn file_settled(
    h: Seq<(RequestModel, ReplyModel)>,
    ms: Seq<MountModel>,
    dir: Seq<char>,
    file: Seq<char>,
) -> bool {
    ||| told(h, Op::ReadMetadata, file, ReplyModel::Metadata(None)) && tried(
        h,
        Op::RemoveFile,
        file,
    )
    ||| exists|meta: MetadataModel| #[trigger]
        told(h, Op::ReadMetadata, file, ReplyModel::Metadata(Some(meta))) && (spared(h, ms, meta)
            || (orphaned(h, ms, meta) && orphan_settled(h, dir, file, meta)))
}

/// The first `n` files are settled.
pub open spec fn files_settled(
    h: Seq<(RequestModel, ReplyModel)>,
    ms: Seq<MountModel>,
    dir: Seq<char>,
    files: Seq<Seq<char>>,
    n: int,
) -> bool {
    forall|i: int| 0 <= i < n ==> file_settled(h, ms, dir, #[trigger] files[i])
}

/// The directory could not be listed, or every metadata file in it is settled.
pub open spec fn dir_settled(
    h: Seq<(RequestModel, ReplyModel)>,
    ms: Seq<MountModel>,
    suffix: Seq<char>,
    dir: Seq<char>,
) -> bool {
    ||| told(h, Op::ListDir, dir, ReplyModel::Entries(None))
    ||| exists|names: Seq<Seq<char>>|
        told(h, Op::ListDir, dir, ReplyModel::Entries(Some(names))) && #[trigger] listing_settled(
            h,
            ms,
            suffix,
            dir,
            names,
        )
}

/// Every metadata file among the names is settled.
pub open spec fn listing_settled(
    h: Seq<(RequestModel, ReplyModel)>,
    ms: Seq<MountModel>,
    suffix: Seq<char>,
    dir: Seq<char>,
    names: Seq<Seq<char>>,
) -> bool {
    forall|i: int|
        0 <= i < names.len() && ends_with(#[trigger] names[i], suffix) ==> file_settled(
            h,
            ms,
            dir,
            joined(dir, names[i]),
        )
}

/// Every storage directory below every btrfs mount is settled.
pub open spec fn storages_settled(
    h: Seq<(RequestModel, ReplyModel)>,
    ms: Seq<MountModel>,
    subdirs: Seq<Seq<char>>,
    suffix: Seq<char>,
) -> bool {
    forall|i: int, k: int|
        0 <= i < ms.len() && ms[i].fs_type == "btrfs"@ && 0 <= k < subdirs.len() ==> dir_settled(
            h,
            ms,
            suffix,
            #[trigger] joined(ms[i].mount_point, subdirs[k]),
        )
}

/// The mounts could not be read, or every storage directory is settled.
pub open spec fn all_settled(
    h: Seq<(RequestModel, ReplyModel)>,
    subdirs: Seq<Seq<char>>,
    suffix: Seq<char>,
) -> bool {
    ||| told(h, Op::ReadMounts, Seq::empty(), ReplyModel::Mounts(None))
    ||| exists|ms: Seq<MountModel>|
        told(h, Op::ReadMounts, Seq::empty(), ReplyModel::Mounts(Some(ms))) && #[trigger]
            storages_settled(h, ms, subdirs, suffix)
}

#[verifier::spinoff_prover]
#[verifier::rlimit(40)]
proof fn orphans_stay_settled(h: Seq<(RequestModel, ReplyModel)>, q: RequestModel, reply: ReplyModel)
    ensures
        forall|meta: MetadataModel| #[trigger]
            not_linked(h, meta) ==> not_linked(h.push((q, reply)), meta),
        forall|meta: MetadataModel| #[trigger]
            is_linked(h, meta) ==> is_linked(h.push((q, reply)), meta),
        forall|ms: Seq<MountModel>, meta: MetadataModel| #[trigger]
            spared(h, ms, meta) ==> spared(h.push((q, reply)), ms, meta),
        forall|ms: Seq<MountModel>, meta: MetadataModel| #[trigger]
            orphaned(h, ms, meta) ==> orphaned(h.push((q, reply)), ms, meta),
        forall|dir: Seq<char>, file: Seq<char>, meta: MetadataModel| #[trigger]
            orphan_settled(h, dir, file, meta) ==> orphan_settled(
                h.push((q, reply)),
                dir,
                file,
                meta,
            ),
{
    told_stays(h, q, reply);
    let g = h.push((q, reply));
    assert forall|meta: MetadataModel| #[trigger] is_linked(h, meta) implies is_linked(g, meta) by {
        let t = choose|t: Seq<char>| #[trigger]
            told(h, Op::ReadLink, meta.mount_target, ReplyModel::Text(Some(t))) && same_path(
                link_resolved(meta.mount_target, t),
                meta.snapshot_path,
            );
        assert(told(g, Op::ReadLink, meta.mount_target, ReplyModel::Text(Some(t))));
    }
    assert forall|meta: MetadataModel| #[trigger] not_linked(h, meta) implies not_linked(
        g,
        meta,
    ) by {
        let target = meta.mount_target;
        if !told(h, Op::IsSymlink, target, ReplyModel::Flag(false)) && !told(
            h,
            Op::ReadLink,
            target,
            ReplyModel::Text(None),
        ) {
            let t = choose|t: Seq<char>| #[trigger]
                told(h, Op::ReadLink, target, ReplyModel::Text(Some(t))) && !same_path(
                    link_resolved(target, t),
                    meta.snapshot_path,
                );
            assert(told(g, Op::ReadLink, target, ReplyModel::Text(Some(t))));
        }
    }
    assert forall|dir: Seq<char>, file: Seq<char>, meta: MetadataModel| #[trigger]
        orphan_settled(h, dir, file, meta) implies orphan_settled(g, dir, file, meta) by {
        let p = meta.snapshot_path;
        if exists|e: Seq<char>| #[trigger] told(h, Op::DeleteSnapshot, p, ReplyModel::Done(Some(e))) {
            let e = choose|e: Seq<char>| #[trigger]
                told(h, Op::DeleteSnapshot, p, ReplyModel::Done(Some(e)));
            assert(told(g, Op::DeleteSnapshot, p, ReplyModel::Done(Some(e))));
        }
    }
}

proof fn settled_stays(h: Seq<(RequestModel, ReplyModel)>, q: RequestModel, reply: ReplyModel)
    ensures
        forall|ms: Seq<MountModel>, dir: Seq<char>, file: Seq<char>| #[trigger]
            file_settled(h, ms, dir, file) ==> file_settled(h.push((q, reply)), ms, dir, file),
        forall|ms: Seq<MountModel>, dir: Seq<char>, files: Seq<Seq<char>>, n: int| #[trigger]
            files_settled(h, ms, dir, files, n) ==> files_settled(
                h.push((q, reply)),
                ms,
                dir,
                files,
                n,
            ),
        forall|ms: Seq<MountModel>, suffix: Seq<char>, dir: Seq<char>| #[trigger]
            dir_settled(h, ms, suffix, dir) ==> dir_settled(h.push((q, reply)), ms, suffix, dir),
{
    told_stays(h, q, reply);
    orphans_stay_settled(h, q, reply);
    let g = h.push((q, reply));
    assert forall|ms: Seq<MountModel>, dir: Seq<char>, file: Seq<char>| #[trigger]
        file_settled(h, ms, dir, file) implies file_settled(g, ms, dir, file) by {
        if !(told(h, Op::ReadMetadata, file, ReplyModel::Metadata(None)) && tried(
            h,
            Op::RemoveFile,
            file,
        )) {
            let meta = choose|meta: MetadataModel| #[trigger]
                told(h, Op::ReadMetadata, file, ReplyModel::Metadata(Some(meta))) && (spared(
                    h,
                    ms,
                    meta,
                ) || (orphaned(h, ms, meta) && orphan_settled(h, dir, file, meta)));
            assert(told(g, Op::ReadMetadata, file, ReplyModel::Metadata(Some(meta))));
        }
    }
    assert forall|ms: Seq<MountModel>, suffix: Seq<char>, dir: Seq<char>| #[trigger]
        dir_settled(h, ms, suffix, dir) implies dir_settled(g, ms, suffix, dir) by {
        if !told(h, Op::ListDir, dir, ReplyModel::Entries(None)) {
            let names = choose|names: Seq<Seq<char>>|
                told(h, Op::ListDir, dir, ReplyModel::Entries(Some(names))) && #[trigger]
                    listing_settled(h, ms, suffix, dir, names);
            assert(listing_settled(g, ms, suffix, dir, names));
        }
    }
}

// --------------------------------------------------------------------- on the way

/// The storage directories before the one that is looked into are settled.
spec fn storage_at(m: ScanModel, h: Seq<(RequestModel, ReplyModel)>, k: int) -> bool {
    let all = storage_dirs(m.mounts, m.subdirs);
    &&& told(h, Op::ReadMounts, Seq::empty(), ReplyModel::Mounts(Some(m.mounts)))
    &&& 0 < k <= all.len()
    &&& m.dirs == all.skip(k)
    &&& m.dir == all[k - 1]
    &&& forall|i: int|
        0 <= i < k - 1 ==> dir_settled(h, m.mounts, m.meta_suffix, #[trigger] all[i])
}

/// The metadata files before the one that is dealt with are settled.
spec fn file_at(
    m: ScanModel,
    h: Seq<(RequestModel, ReplyModel)>,
    names: Seq<Seq<char>>,
    j: int,
) -> bool {
    let all = metadata_files(m.dir, names, m.meta_suffix);
    &&& told(h, Op::ListDir, m.dir, ReplyModel::Entries(Some(names)))
    &&& 0 < j <= all.len()
    &&& m.files == all.skip(j)
    &&& m.meta_path == all[j - 1]
    &&& files_settled(h, m.mounts, m.dir, all, j - 1)
}

/// The metadata that tells of the snapshot.
spec fn read_meta(
    m: ScanModel,
    h: Seq<(RequestModel, ReplyModel)>,
    meta: MetadataModel,
) -> bool {
    &&& told(h, Op::ReadMetadata, m.meta_path, ReplyModel::Metadata(Some(meta)))
    &&& meta.mount_target == m.target
    &&& meta.snapshot_path == m.snapshot
}

spec fn meta_at(m: ScanModel, h: Seq<(RequestModel, ReplyModel)>, meta: MetadataModel) -> bool {
    let s = m.stage;
    let target = m.target;
    let p = m.snapshot;
    let late = s == ScanStage::SafeProbe || s == ScanStage::SnapshotProbe || s
        == ScanStage::ReferenceLink || s == ScanStage::ReferenceUnlink || s
        == ScanStage::ReferenceUmount || s == ScanStage::ReferenceRmdir || s
        == ScanStage::SnapshotAgain || s == ScanStage::Delete || s == ScanStage::DropMeta;
    let there = late && s != ScanStage::SafeProbe && s != ScanStage::SnapshotProbe;
    &&& read_meta(m, h, meta)
    &&& !in_mounts(m.mounts, target)
    &&& s == ScanStage::TargetRead ==> told(h, Op::IsSymlink, target, ReplyModel::Flag(true))
    &&& s == ScanStage::ParentProbe ==> not_linked(h, meta) && parent(target) is Some
    &&& late ==> orphaned(h, m.mounts, meta)
    &&& s == ScanStage::SafeProbe ==> directly_in(p, m.dir)
    &&& s == ScanStage::SnapshotProbe ==> if m.contained {
        deletable(h, m.dir, p)
    } else {
        out_of_place(h, m.dir, p)
    }
    &&& there ==> may_go(h, m.dir, p)
    &&& s == ScanStage::ReferenceUnlink ==> told(h, Op::IsSymlink, target, ReplyModel::Flag(true))
    &&& s == ScanStage::ReferenceUmount || s == ScanStage::ReferenceRmdir ==> told(
        h,
        Op::IsSymlink,
        target,
        ReplyModel::Flag(false),
    )
    &&& s == ScanStage::ReferenceRmdir ==> tried(h, Op::Umount, target)
    &&& s == ScanStage::SnapshotAgain || s == ScanStage::Delete || s == ScanStage::DropMeta
        ==> reference_dropped(h, target)
    &&& s == ScanStage::DropMeta ==> told(h, Op::Exists, p, ReplyModel::Flag(false)) || (may_go(
        h,
        m.dir,
        p,
    ) && told(h, Op::DeleteSnapshot, p, ReplyModel::Done(None)))
}

spec fn on_the_way(m: ScanModel, h: Seq<(RequestModel, ReplyModel)>) -> bool {
    match m.stage {
        ScanStage::Mounts => m.dir == Seq::<char>::empty(),
        ScanStage::Finished => all_settled(h, m.subdirs, m.meta_suffix),
        ScanStage::Listing => m.files.len() == 0 && exists|k: int| #[trigger] storage_at(m, h, k),
        _ => {
            &&& exists|k: int| #[trigger] storage_at(m, h, k)
            &&& exists|names: Seq<Seq<char>>, j: int| #[trigger] file_at(m, h, names, j)
            &&& m.stage == ScanStage::DropBroken ==> told(
                h,
                Op::ReadMetadata,
                m.meta_path,
                ReplyModel::Metadata(None),
            )
            &&& m.stage != ScanStage::DropBroken && m.stage != ScanStage::ReadingMeta
                ==> exists|meta: MetadataModel| #[trigger] meta_at(m, h, meta)
        },
    }
}

/// The storage directories up to `k` are settled: on to the next.
proof fn storage_ends(m: ScanModel, h: Seq<(RequestModel, ReplyModel)>, k: int)
    requires
        told(h, Op::ReadMounts, Seq::empty(), ReplyModel::Mounts(Some(m.mounts))),
        0 <= k <= storage_dirs(m.mounts, m.subdirs).len(),
        m.dirs == storage_dirs(m.mounts, m.subdirs).skip(k),
        m.files.len() == 0,
        forall|i: int|
            0 <= i < k ==> dir_settled(
                h,
                m.mounts,
                m.meta_suffix,
                #[trigger] storage_dirs(m.mounts, m.subdirs)[i],
            ),
    ensures
        on_the_way(next_storage(m), h),
{
    let all = storage_dirs(m.mounts, m.subdirs);
    let n = next_storage(m);
    if m.dirs.len() == 0 {
        assert forall|i: int, j: int|
            0 <= i < m.mounts.len() && m.mounts[i].fs_type == "btrfs"@ && 0 <= j
                < m.subdirs.len() implies dir_settled(
            h,
            m.mounts,
            m.meta_suffix,
            #[trigger] joined(m.mounts[i].mount_point, m.subdirs[j]),
        ) by {
            let dir = joined(m.mounts[i].mount_point, m.subdirs[j]);
            every_storage_is_known(m.mounts, m.subdirs, dir);
            let x = all.index_of(dir);
            assert(all[x] == dir);
        }
        assert(storages_settled(h, m.mounts, m.subdirs, m.meta_suffix));
    } else {
        assert(n.dirs =~= all.skip(k + 1));
        assert(n.dir == all[k]);
        assert(storage_at(n, h, k + 1));
    }
}

/// The metadata files up to `j` are settled: on to the next.
proof fn file_ends(
    m: ScanModel,
    h: Seq<(RequestModel, ReplyModel)>,
    k: int,
    names: Seq<Seq<char>>,
    j: int,
)
    requires
        storage_at(m, h, k),
        told(h, Op::ListDir, m.dir, ReplyModel::Entries(Some(names))),
        0 <= j <= metadata_files(m.dir, names, m.meta_suffix).len(),
        m.files == metadata_files(m.dir, names, m.meta_suffix).skip(j),
        files_settled(h, m.mounts, m.dir, metadata_files(m.dir, names, m.meta_suffix), j),
    ensures
        on_the_way(next_meta(m), h),
{
    let all = metadata_files(m.dir, names, m.meta_suffix);
    let n = next_meta(m);
    if m.files.len() == 0 {
        assert forall|i: int|
            0 <= i < names.len() && ends_with(#[trigger] names[i], m.meta_suffix) implies file_settled(
            h,
            m.mounts,
            m.dir,
            joined(m.dir, names[i]),
        ) by {
            let file = joined(m.dir, names[i]);
            every_metadata_file_is_known(m.dir, names, m.meta_suffix, file);
            let x = all.index_of(file);
            assert(all[x] == file);
        }
        assert(listing_settled(h, m.mounts, m.meta_suffix, m.dir, names));
        assert(dir_settled(h, m.mounts, m.meta_suffix, m.dir));
        storage_ends(m, h, k);
    } else {
        assert(n.files =~= all.skip(j + 1));
        assert(n.meta_path == all[j]);
        assert(storage_at(n, h, k));
        assert(file_at(n, h, names, j + 1));
    }
}

#[verifier::spinoff_prover]
#[verifier::rlimit(100)]
proof fn stays_on_the_way(m: ScanModel, h: Seq<(RequestModel, ReplyModel)>, reply: ReplyModel)
    requires
        on_the_way(m, h),
        answers(scan_request(m).op, reply),
    ensures
        on_the_way(scan_after(m, reply), h.push((scan_request(m), reply))),
{
    let q = scan_request(m);
    let g = h.push((q, reply));
    let n = scan_after(m, reply);
    told_stays(h, q, reply);
    orphans_stay_settled(h, q, reply);
    settled_stays(h, q, reply);
    if m.stage == ScanStage::Mounts {
        if let ReplyModel::Mounts(Some(ms)) = reply {
            let dirs = storage_dirs(ms, m.subdirs);
            assert(dirs.skip(0) =~= dirs);
            storage_ends(ScanModel { mounts: ms, dirs, files: Seq::empty(), ..m }, g, 0);
        }
    } else if m.stage == ScanStage::Listing {
        let k = choose|k: int| #[trigger] storage_at(m, h, k);
        if let ReplyModel::Entries(Some(names)) = reply {
            let files = metadata_files(m.dir, names, m.meta_suffix);
            assert(files.skip(0) =~= files);
            let o = ScanModel { files, ..m };
            assert(storage_at(o, g, k));
            file_ends(o, g, k, names, 0);
        } else {
            assert(dir_settled(g, m.mounts, m.meta_suffix, m.dir));
            storage_ends(m, g, k);
        }
    } else if m.stage != ScanStage::Finished {
        let k = choose|k: int| #[trigger] storage_at(m, h, k);
        let (names, j) = choose|names: Seq<Seq<char>>, j: int| #[trigger] file_at(m, h, names, j);
        assert(storage_at(m, g, k));
        assert(file_at(m, g, names, j));
        file_step(m, h, reply, k, names, j);
    }
}

/// The file is settled: on to the next.
proof fn settled_file_ends(
    m: ScanModel,
    n: ScanModel,
    g: Seq<(RequestModel, ReplyModel)>,
    k: int,
    names: Seq<Seq<char>>,
    j: int,
)
    requires
        storage_at(m, g, k),
        file_at(m, g, names, j),
        file_settled(g, m.mounts, m.dir, m.meta_path),
        n.subdirs == m.subdirs,
        n.meta_suffix == m.meta_suffix,
        n.mounts == m.mounts,
        n.dirs == m.dirs,
        n.dir == m.dir,
        n.files == m.files,
    ensures
        on_the_way(next_meta(n), g),
{
    let all = metadata_files(m.dir, names, m.meta_suffix);
    assert(files_settled(g, m.mounts, m.dir, all, j));
    assert(storage_at(n, g, k));
    file_ends(n, g, k, names, j);
}

#[verifier::spinoff_prover]
#[verifier::rlimit(100)]
proof fn file_step(
    m: ScanModel,
    h: Seq<(RequestModel, ReplyModel)>,
    reply: ReplyModel,
    k: int,
    names: Seq<Seq<char>>,
    j: int,
)
    requires
        on_the_way(m, h),
        m.stage != ScanStage::Mounts && m.stage != ScanStage::Listing && m.stage
            != ScanStage::Finished,
        answers(scan_request(m).op, reply),
        storage_at(m, h.push((scan_request(m), reply)), k),
        file_at(m, h.push((scan_request(m), reply)), names, j),
    ensures
        on_the_way(scan_after(m, reply), h.push((scan_request(m), reply))),
{
    let q = scan_request(m);
    let g = h.push((q, reply));
    let n = scan_after(m, reply);
    told_stays(h, q, reply);
    orphans_stay_settled(h, q, reply);
    let target = m.target;
    let p = m.snapshot;
    if m.stage == ScanStage::ReadingMeta {
        if let ReplyModel::Metadata(Some(meta)) = reply {
            if is_mounted(m.mounts, meta.mount_target) {
                assert(spared(g, m.mounts, meta));
                let o = ScanModel { target: meta.mount_target, snapshot: meta.snapshot_path, ..m };
                settled_file_ends(m, o, g, k, names, j);
            } else {
                assert(storage_at(n, g, k));
                assert(file_at(n, g, names, j));
                assert(meta_at(n, g, meta));
            }
        } else {
            assert(storage_at(n, g, k));
            assert(file_at(n, g, names, j));
        }
    } else if m.stage == ScanStage::DropBroken {
        settled_file_ends(m, m, g, k, names, j);
    } else {
        let meta = choose|meta: MetadataModel| #[trigger] meta_at(m, h, meta);
        assert(told(g, Op::ReadMetadata, m.meta_path, ReplyModel::Metadata(Some(meta))));
        meta_step(m, h, reply, meta);
        if n.stage == ScanStage::ReadingMeta || n.stage == ScanStage::Listing || n.stage
            == ScanStage::Finished {
            assert(file_settled(g, m.mounts, m.dir, m.meta_path));
            settled_file_ends(m, m, g, k, names, j);
            settled_file_ends(m, with_error(m), g, k, names, j);
            let o = ScanModel {
                report: CleanupReport { removed: (m.report.removed + 1) as u64, ..m.report },
                ..m
            };
            settled_file_ends(m, o, g, k, names, j);
        } else {
            assert(storage_at(n, g, k));
            assert(file_at(n, g, names, j));
            assert(meta_at(n, g, meta));
        }
    }
}

#[verifier::spinoff_prover]
#[verifier::rlimit(100)]
proof fn meta_step(
    m: ScanModel,
    h: Seq<(RequestModel, ReplyModel)>,
    reply: ReplyModel,
    meta: MetadataModel,
)
    requires
        meta_at(m, h, meta),
        m.stage != ScanStage::Mounts && m.stage != ScanStage::Listing && m.stage
            != ScanStage::Finished && m.stage != ScanStage::ReadingMeta && m.stage
            != ScanStage::DropBroken,
        answers(scan_request(m).op, reply),
    ensures
        ({
            let n = scan_after(m, reply);
            let g = h.push((scan_request(m), reply));
            if n.stage == ScanStage::ReadingMeta || n.stage == ScanStage::Listing || n.stage
                == ScanStage::Finished {
                spared(g, m.mounts, meta) || (orphaned(g, m.mounts, meta) && orphan_settled(
                    g,
                    m.dir,
                    m.meta_path,
                    meta,
                ))
            } else {
                meta_at(n, g, meta)
            }
        }),
{
    let q = scan_request(m);
    let g = h.push((q, reply));
    told_stays(h, q, reply);
    orphans_stay_settled(h, q, reply);
    let target = m.target;
    let p = m.snapshot;
    assert(read_meta(m, g, meta));
    match (m.stage, reply) {
        (ScanStage::TargetRead, ReplyModel::Text(t)) => {
            if let Some(x) = t {
                assert(told(g, Op::ReadLink, target, ReplyModel::Text(Some(x))));
                if same_path(link_resolved(target, x), p) {
                    assert(is_linked(g, meta));
                } else {
                    assert(not_linked(g, meta));
                }
            } else {
                assert(not_linked(g, meta));
            }
        },
        (ScanStage::TargetLink, ReplyModel::Flag(link)) => {
            if !link {
                assert(not_linked(g, meta));
            }
        },
        (ScanStage::Delete, ReplyModel::Done(e)) => {
            if let Some(x) = e {
                assert(told(g, Op::DeleteSnapshot, p, ReplyModel::Done(Some(x))));
            }
        },
        _ => {},
    }
}

proof fn runs_are_on_the_way(m: ScanModel, replies: Seq<ReplyModel>)
    requires
        m.stage == ScanStage::Mounts,
        m.dir == Seq::<char>::empty(),
        all_answered(m, replies),
    ensures
        on_the_way(scanned(m, replies), scanning(m, replies)),
        scanned(m, replies).subdirs == m.subdirs,
        scanned(m, replies).meta_suffix == m.meta_suffix,
    decreases replies.len(),
{
    if replies.len() > 0 {
        runs_are_on_the_way(m, replies.drop_last());
        stays_on_the_way(
            scanned(m, replies.drop_last()),
            scanning(m, replies.drop_last()),
            replies.last(),
        );
    }
}

/// A scan that is over has looked into every storage directory below every btrfs mount and
/// read every metadata file there. A snapshot was spared only where its target is mounted,
/// where a link at the target leads to it or where the directory of the target is missing;
/// every other one was dealt with.
pub proof fn every_orphan_is_dealt_with(
    subdirs: Seq<Seq<char>>,
    suffix: Seq<char>,
    replies: Seq<ReplyModel>,
)
    requires
        all_answered(fresh_scan(subdirs, suffix), replies),
        scanned(fresh_scan(subdirs, suffix), replies).stage == ScanStage::Finished,
    ensures
        all_settled(scanning(fresh_scan(subdirs, suffix), replies), subdirs, suffix),
{
    runs_are_on_the_way(fresh_scan(subdirs, suffix), replies);
}

// ---------------------------------------------------------------------- the counts

/// The report counts the snapshots that were deleted.
pub proof fn deleted_snapshots_are_counted(
    subdirs: Seq<Seq<char>>,
    suffix: Seq<char>,
    replies: Seq<ReplyModel>,
)
    requires
        all_answered(fresh_scan(subdirs, suffix), replies),
        replies.len() < u64::MAX,
    ensures
        ({
            let r = scanned(fresh_scan(subdirs, suffix), replies).report;
            let h = scanning(fresh_scan(subdirs, suffix), replies);
            &&& r.btrfs_deleted == h.filter(
                |x: (RequestModel, ReplyModel)|
                    x.0.op == Op::DeleteSnapshot && x.1 == ReplyModel::Done(None),
            ).len()
            &&& r.overlays_unmounted == 0
            &&& r.btrfs_deleted <= replies.len()
            &&& r.removed + r.errors <= replies.len()
        }),
    decreases replies.len(),
{
    reveal(Seq::filter);
    let start = fresh_scan(subdirs, suffix);
    if replies.len() > 0 {
        deleted_snapshots_are_counted(subdirs, suffix, replies.drop_last());
        let m = scanned(start, replies.drop_last());
        let h = scanning(start, replies.drop_last());
        let x = (scan_request(m), replies.last());
        assert(h.push(x).drop_last() =~= h);
        assert(h.push(x).last() == x);
        assert(has_room(m.report));
    }
}

/// An orphan counts as removed once its metadata goes, and as an error where it may not or
/// could not be deleted; nothing else counts.
pub proof fn every_orphan_counts_once(m: ScanModel, reply: ReplyModel)
    requires
        has_room(m.report),
        answers(scan_request(m).op, reply),
    ensures
        ({
            let n = scan_after(m, reply);
            let gone = m.stage == ScanStage::DropMeta;
            let kept = (scan_request(m).op == Op::DeleteSnapshot && reply != ReplyModel::Done(None))
                || (m.stage == ScanStage::SnapshotProbe && !m.contained && reply
                == ReplyModel::Flag(true));
            &&& n.report.removed == m.report.removed + if gone {
                1int
            } else {
                0
            }
            &&& n.report.errors == m.report.errors + if kept {
                1int
            } else {
                0
            }
        }),
{
}

} // verus!
