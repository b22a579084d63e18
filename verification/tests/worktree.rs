use qidi_core::nfs_stub::{
    candidate_data_dirs, dest_is_known_unmounted, dest_path_contains, gc_orphan_pins,
    is_grove_strategy, nfs_record_is_dead,
};
use qidi_core::orphan_scan::{
    cleanup_orphaned_btrfs_snapshots, mounted_at, symlink_resolves_to, OrphanScan,
};
use qidi_core::paths::{join_path, parent_of, parts_of, same_path_as};
use qidi_core::worktree::{
    annotate_disk_full, ignored_copy_report, is_out_of_disk, register_worktree, worker_count,
    worktree_report, BtrfsMode, Cause, CopyStats, CreationMode, IgnoredFilesMode, PlanResult,
    WorkingTreeMode, WorktreeBuilder, WorktreeStatus, OUT_OF_DISK_CONTEXT,
};
use qidi_core::worktree_cleanup::{
    cleanup_worktrees_in, cleanup_worktrees_in_with_delegate, report_has_room, CleanupReport,
};
use qidi_core::worktree_host::{
    is_answer, EntryKind, MountEntry, Op, RemovalReply, RemoveReport, Reply, SnapshotMetadata,
    UmountOutcome,
};
use qidi_core::worktree_removal::{
    read_worktree_gitdir, remove_worktree, remove_worktree_with_delegate, RemovalOutcome,
    RemovalTask, SnapshotStorage,
};

fn storage() -> SnapshotStorage {
    SnapshotStorage {
        subdirs: vec![".snapshots".to_string()],
        meta_suffix: ".btrfs-meta.json".to_string(),
    }
}

fn report(used: bool, bind: bool, overlay: bool) -> RemoveReport {
    RemoveReport { used_btrfs_delete: used, unmounted_bind: bind, unmounted_overlay: overlay }
}

/// Answers requests from a list of what is expected; whatever is not listed is answered as on
/// a machine where nothing is there.
fn drive(
    mut task: RemovalTask,
    answers: Vec<(Op, &str, Reply)>,
) -> (RemovalOutcome, Vec<(Op, String)>) {
    let mut log: Vec<(Op, String)> = Vec::new();
    let mut answers: Vec<Option<(Op, String, Reply)>> =
        answers.into_iter().map(|(o, p, r)| Some((o, p.to_string(), r))).collect();
    loop {
        let request = task.request();
        log.push((request.op, request.path.clone()));
        if request.op == Op::Finish {
            return (task.outcome, log);
        }
        let at = answers.iter().position(|a| {
            matches!(a, Some((o, p, _)) if *o == request.op && *p == request.path)
        });
        let reply = match at {
            Some(i) => answers[i].take().unwrap().2,
            None => nothing(request.op),
        };
        assert!(is_answer(request.op, &reply));
        task.reply(reply);
    }
}

fn nothing(op: Op) -> Reply {
    match op {
        Op::OverlayFromMountinfo | Op::OverlayFromMetadata => {
            Reply::Removal(RemovalReply::NotApplicable)
        }
        Op::DelegateDelete | Op::RemoveWorktree => {
            Reply::Removal(RemovalReply::Failed("no helper".to_string()))
        }
        Op::ReadMounts => Reply::Mounts(None),
        Op::ListDir => Reply::Entries(None),
        Op::ReadMetadata => Reply::Metadata(None),
        Op::IsSafeTarget | Op::IsSymlink | Op::Exists => Reply::Flag(false),
        Op::ReadLink | Op::ReadText | Op::Canonicalize => Reply::Text(None),
        Op::IsSubvolume => Reply::Subvolume(None),
        Op::EntryKind => Reply::Kind(EntryKind::Missing),
        Op::Umount => Reply::Umounted(UmountOutcome::Failed),
        _ => Reply::Done(None),
    }
}

fn removed(outcome: RemovalOutcome) -> RemoveReport {
    match outcome {
        RemovalOutcome::Removed(r) => r,
        other => panic!("expected a report, got {other:?}"),
    }
}

fn failed(outcome: RemovalOutcome) -> String {
    match outcome {
        RemovalOutcome::Failed(e) => e,
        other => panic!("expected a failure, got {other:?}"),
    }
}

fn asked(log: &[(Op, String)], op: Op, path: &str) -> bool {
    log.iter().any(|(o, p)| *o == op && p == path)
}

fn text(s: &str) -> Option<String> {
    Some(s.to_string())
}

#[test]
fn creation_mode_as_db_str_matches_schema() {
    assert_eq!(CreationMode::Linked.as_db_str(), "linked");
    assert_eq!(CreationMode::Standalone.as_db_str(), "standalone");
    assert_eq!(CreationMode::GitCheckout.as_db_str(), "git");
}

#[test]
fn plain_worktree_goes_with_its_registration() {
    let (outcome, log) = drive(
        remove_worktree("/w/x", storage(), true),
        vec![
            (Op::ReadText, "/w/x/.git", Reply::Text(text("gitdir: ../r/.git/worktrees/x\n"))),
            (Op::Canonicalize, "/w/x/../r/.git/worktrees/x", Reply::Text(text("/w/r/.git/worktrees/x"))),
            (Op::EntryKind, "/w/x", Reply::Kind(EntryKind::Directory)),
            (Op::Exists, "/w/r/.git/worktrees/x", Reply::Flag(true)),
        ],
    );
    assert_eq!(removed(outcome), report(false, false, false));
    assert!(asked(&log, Op::RemoveDirAll, "/w/x"));
    assert!(asked(&log, Op::RemoveDirAll, "/w/r/.git/worktrees/x"));
    assert!(asked(&log, Op::Unregister, "/w/x"));
}

#[test]
fn db_record_survives_failed_removal() {
    let (outcome, log) = drive(
        remove_worktree("/w/x", storage(), true),
        vec![
            (Op::EntryKind, "/w/x", Reply::Kind(EntryKind::Directory)),
            (Op::RemoveDirAll, "/w/x", Reply::Done(text("EPERM"))),
        ],
    );
    assert_eq!(failed(outcome), "failed to remove worktree directory: /w/x");
    assert!(!asked(&log, Op::Unregister, "/w/x"));
}

#[test]
fn db_record_removed_after_successful_removal() {
    let (outcome, log) = drive(
        remove_worktree("/w/x", storage(), false),
        vec![(Op::EntryKind, "/w/x", Reply::Kind(EntryKind::Symlink))],
    );
    assert_eq!(removed(outcome), report(false, false, false));
    assert!(asked(&log, Op::RemoveFile, "/w/x"));
    assert!(asked(&log, Op::Unregister, "/w/x"));
    assert_eq!(log[0].0, Op::ReadText);
}

#[test]
fn overlay_worktrees_are_tried_first() {
    let (outcome, log) = drive(
        remove_worktree("/w/x", storage(), true),
        vec![(
            Op::OverlayFromMetadata,
            "/w/x",
            Reply::Removal(RemovalReply::Removed(report(true, false, true))),
        )],
    );
    assert_eq!(removed(outcome), report(true, false, true));
    assert_eq!(log.len(), 4);
    let (outcome, _) = drive(
        remove_worktree("/w/x", storage(), true),
        vec![(
            Op::OverlayFromMountinfo,
            "/w/x",
            Reply::Removal(RemovalReply::Failed("busy".to_string())),
        )],
    );
    assert_eq!(failed(outcome), "busy");
}

fn linked(safe: bool, delete: Option<&str>) -> Vec<(Op, &'static str, Reply)> {
    vec![
        (Op::IsSymlink, "/w/x", Reply::Flag(true)),
        (Op::ReadLink, "/w/x", Reply::Text(text("../s/snap"))),
        (Op::IsSubvolume, "/w/../s/snap", Reply::Subvolume(Some(None))),
        (Op::IsSafeTarget, "/w/../s/snap", Reply::Flag(safe)),
        (Op::DeleteSnapshot, "/w/../s/snap", Reply::Done(delete.map(|e| e.to_string()))),
    ]
}

#[test]
fn linked_snapshot_goes_before_its_link() {
    let (outcome, log) = drive(remove_worktree("/w/x", storage(), true), linked(true, None));
    assert_eq!(removed(outcome), report(true, false, false));
    let delete = log.iter().position(|(o, _)| *o == Op::DeleteSnapshot).unwrap();
    let unlink = log.iter().position(|(o, _)| *o == Op::RemoveFile).unwrap();
    assert!(delete < unlink);
}

#[test]
fn planted_links_never_delete_anything() {
    let (outcome, log) = drive(remove_worktree("/w/x", storage(), true), linked(false, None));
    assert_eq!(removed(outcome), report(false, false, false));
    assert!(!log.iter().any(|(o, _)| *o == Op::DeleteSnapshot));
    assert!(asked(&log, Op::RemoveFile, "/w/x"));
}

#[test]
fn helper_is_tried_after_a_failed_deletion() {
    let (outcome, log) =
        drive(remove_worktree("/w/x", storage(), true), linked(true, Some("EPERM")));
    assert_eq!(failed(outcome), "EPERM");
    assert!(!log.iter().any(|(o, _)| *o == Op::DelegateDelete));
    let mut answers = linked(true, Some("EPERM"));
    answers.push((
        Op::DelegateDelete,
        "/w/x",
        Reply::Removal(RemovalReply::Removed(report(true, false, false))),
    ));
    let (outcome, log) =
        drive(remove_worktree_with_delegate("/w/x", true, storage(), true), answers);
    assert_eq!(removed(outcome), report(true, false, false));
    assert!(!asked(&log, Op::RemoveFile, "/w/x"));
    let (outcome, _) = drive(
        remove_worktree_with_delegate("/w/x", true, storage(), true),
        linked(true, Some("EPERM")),
    );
    assert_eq!(failed(outcome), "EPERM");
}

#[test]
fn broken_and_foreign_links_are_unlinked() {
    let (outcome, log) = drive(
        remove_worktree("/w/x", storage(), true),
        vec![(Op::IsSymlink, "/w/x", Reply::Flag(true))],
    );
    assert_eq!(removed(outcome), report(false, false, false));
    assert!(asked(&log, Op::RemoveFile, "/w/x"));
    assert!(!asked(&log, Op::IsSubvolume, "/w/x"));
    let (_, log) = drive(
        remove_worktree("/w/x", storage(), true),
        vec![
            (Op::IsSymlink, "/w/x", Reply::Flag(true)),
            (Op::ReadLink, "/w/x", Reply::Text(text("/plain"))),
        ],
    );
    assert!(asked(&log, Op::IsSubvolume, "/plain"));
    assert!(asked(&log, Op::IsSubvolume, "/w/x"));
}

#[test]
fn bind_mounts_are_unmounted_first() {
    let bind = || (Op::IsSubvolume, "/w/x", Reply::Subvolume(Some(text("/s/snap"))));
    let (outcome, log) = drive(
        remove_worktree("/w/x", storage(), true),
        vec![bind(), (Op::Umount, "/w/x", Reply::Umounted(UmountOutcome::Unmounted))],
    );
    assert_eq!(removed(outcome), report(true, true, false));
    assert!(asked(&log, Op::RemoveDir, "/w/x"));
    assert!(asked(&log, Op::DeleteSnapshot, "/s/snap"));
    assert!(asked(&log, Op::ForgetSnapshot, "/s/snap"));
    let (outcome, _) = drive(
        remove_worktree("/w/x", storage(), true),
        vec![bind(), (Op::Umount, "/w/x", Reply::Umounted(UmountOutcome::Failed))],
    );
    assert_eq!(removed(outcome), report(true, false, false));
    let (outcome, log) = drive(
        remove_worktree("/w/x", storage(), true),
        vec![bind(), (Op::Umount, "/w/x", Reply::Umounted(UmountOutcome::NotRun))],
    );
    assert_eq!(failed(outcome), "failed to execute umount");
    assert!(!asked(&log, Op::DeleteSnapshot, "/s/snap"));
}

fn mounts() -> Reply {
    Reply::Mounts(Some(vec![
        MountEntry { fs_type: "ext4".to_string(), mount_point: "/".to_string() },
        MountEntry { fs_type: "btrfs".to_string(), mount_point: "/b".to_string() },
    ]))
}

fn entries(names: &[&str]) -> Reply {
    Reply::Entries(Some(names.iter().map(|n| n.to_string()).collect()))
}

fn metadata(target: &str, snapshot: &str) -> Reply {
    Reply::Metadata(Some(SnapshotMetadata {
        mount_target: target.to_string(),
        snapshot_path: snapshot.to_string(),
    }))
}

fn stored(snapshot: &str, safe: bool) -> Vec<(Op, &'static str, Reply)> {
    vec![
        (Op::ReadMounts, "/w/x", mounts()),
        (Op::ListDir, "/b/.snapshots", entries(&["other", "a.btrfs-meta.json", "x.btrfs-meta.json"])),
        (Op::ReadMetadata, "/b/.snapshots/a.btrfs-meta.json", metadata("/w/a", "/b/.snapshots/a")),
        (Op::ReadMetadata, "/b/.snapshots/x.btrfs-meta.json", metadata("/w//x/", snapshot)),
        (Op::IsSafeTarget, "/b/.snapshots/x", Reply::Flag(safe)),
        (Op::Exists, "/b/.snapshots/x", Reply::Flag(true)),
        (Op::Exists, "/home/repo", Reply::Flag(true)),
    ]
}

#[test]
fn stored_metadata_leads_to_the_snapshot() {
    let (outcome, log) =
        drive(remove_worktree("/w/x", storage(), true), stored("/b/.snapshots/x", true));
    assert_eq!(removed(outcome), report(true, false, false));
    assert!(asked(&log, Op::Umount, "/w/x"));
    assert!(asked(&log, Op::DeleteSnapshot, "/b/.snapshots/x"));
    assert!(asked(&log, Op::RemoveDir, "/w/x"));
    assert!(asked(&log, Op::RemoveFile, "/b/.snapshots/x.btrfs-meta.json"));
}

#[test]
fn stored_metadata_outside_the_storage_is_refused() {
    for (snapshot, safe) in [("/home/repo", true), ("/b/.snapshots/x", false)] {
        let (outcome, log) =
            drive(remove_worktree("/w/x", storage(), true), stored(snapshot, safe));
        assert_eq!(removed(outcome), report(false, false, false));
        assert!(!log.iter().any(|(o, _)| *o == Op::DeleteSnapshot));
        assert!(!asked(&log, Op::RemoveFile, "/b/.snapshots/x.btrfs-meta.json"));
    }
}

fn scan(answers: Vec<(Op, &str, Reply)>) -> (CleanupReport, Vec<(Op, String)>) {
    let mut task: OrphanScan = cleanup_orphaned_btrfs_snapshots(storage());
    let mut log: Vec<(Op, String)> = Vec::new();
    let mut answers: Vec<Option<(Op, String, Reply)>> =
        answers.into_iter().map(|(o, p, r)| Some((o, p.to_string(), r))).collect();
    loop {
        let request = task.request();
        log.push((request.op, request.path.clone()));
        if request.op == Op::Finish {
            return (task.report, log);
        }
        let at = answers.iter().position(|a| {
            matches!(a, Some((o, p, _)) if *o == request.op && *p == request.path)
        });
        let reply = match at {
            Some(i) => answers[i].take().unwrap().2,
            None => nothing(request.op),
        };
        assert!(report_has_room(&task.report));
        task.reply(reply);
    }
}

fn one_meta(target: &str, snapshot: &str) -> Vec<(Op, &'static str, Reply)> {
    vec![
        (Op::ReadMounts, "", mounts()),
        (Op::ListDir, "/b/.snapshots", entries(&["x.btrfs-meta.json"])),
        (Op::ReadMetadata, "/b/.snapshots/x.btrfs-meta.json", metadata(target, snapshot)),
        (Op::Exists, "/w", Reply::Flag(true)),
        (Op::IsSafeTarget, "/b/.snapshots/x", Reply::Flag(true)),
        (Op::Exists, "/b/.snapshots/x", Reply::Flag(true)),
        (Op::Exists, "/b/.snapshots/x", Reply::Flag(true)),
    ]
}

#[test]
fn orphaned_snapshots_are_deleted() {
    let (report, log) = scan(one_meta("/w/x", "/b/.snapshots/x"));
    assert_eq!(
        report,
        CleanupReport { removed: 1, overlays_unmounted: 0, btrfs_deleted: 1, errors: 0 }
    );
    assert!(asked(&log, Op::Umount, "/w/x"));
    assert!(asked(&log, Op::DeleteSnapshot, "/b/.snapshots/x"));
    assert!(asked(&log, Op::RemoveFile, "/b/.snapshots/x.btrfs-meta.json"));
}

#[test]
fn used_snapshots_are_left_alone() {
    // Mounted.
    let (report, log) = scan(one_meta("/b", "/b/.snapshots/x"));
    assert_eq!(report, CleanupReport::default());
    assert!(!log.iter().any(|(o, _)| *o == Op::DeleteSnapshot));
    // Linked.
    let mut answers = one_meta("/w/x", "/b/.snapshots/x");
    answers.push((Op::IsSymlink, "/w/x", Reply::Flag(true)));
    answers.push((Op::ReadLink, "/w/x", Reply::Text(text("/b/.snapshots//x"))));
    let (report, log) = scan(answers);
    assert_eq!(report, CleanupReport::default());
    assert!(!log.iter().any(|(o, _)| *o == Op::DeleteSnapshot));
    // The directory of the target is missing.
    let (report, log) = scan(one_meta("/gone/x", "/b/.snapshots/x"));
    assert_eq!(report, CleanupReport::default());
    assert!(!log.iter().any(|(o, _)| *o == Op::DeleteSnapshot));
}

#[test]
fn foreign_snapshots_count_as_errors() {
    let mut answers = one_meta("/w/x", "/home/repo");
    answers.push((Op::Exists, "/home/repo", Reply::Flag(true)));
    let (report, log) = scan(answers);
    assert_eq!(report.errors, 1);
    assert_eq!(report.removed, 0);
    assert!(!asked(&log, Op::RemoveFile, "/b/.snapshots/x.btrfs-meta.json"));
    let mut answers = one_meta("/w/x", "/b/.snapshots/x");
    answers.push((Op::DeleteSnapshot, "/b/.snapshots/x", Reply::Done(text("EPERM"))));
    let (report, log) = scan(answers);
    assert_eq!(report.errors, 1);
    assert!(!asked(&log, Op::RemoveFile, "/b/.snapshots/x.btrfs-meta.json"));
}

#[test]
fn broken_metadata_goes() {
    let (report, log) = scan(vec![
        (Op::ReadMounts, "", mounts()),
        (Op::ListDir, "/b/.snapshots", entries(&["x.btrfs-meta.json"])),
    ]);
    assert_eq!(report, CleanupReport::default());
    assert!(asked(&log, Op::RemoveFile, "/b/.snapshots/x.btrfs-meta.json"));
}

#[test]
fn cleanup_takes_down_what_is_below() {
    let mut task = cleanup_worktrees_in("/w");
    let mut removals: Vec<String> = Vec::new();
    let mut dropped: Vec<String> = Vec::new();
    loop {
        let request = task.request();
        let path = request.path.as_str();
        let reply = match (request.op, path) {
            (Op::ListDir, "/w") => entries(&["link", "repo", "file", "tree"]),
            (Op::ListDir, "/w/repo") => entries(&["s1", "note", "s2"]),
            (Op::EntryKind, "/w/link") | (Op::EntryKind, "/w/repo/s2") => {
                Reply::Kind(EntryKind::Symlink)
            }
            (Op::EntryKind, "/w/file") | (Op::EntryKind, "/w/repo/note") => {
                Reply::Kind(EntryKind::File)
            }
            (Op::EntryKind, _) => Reply::Kind(EntryKind::Directory),
            (Op::Exists, "/w/tree/.git") => Reply::Flag(true),
            (Op::RemoveWorktree, p) => {
                removals.push(p.to_string());
                Reply::Removal(match p {
                    "/w/link" => RemovalReply::Removed(report(true, false, false)),
                    "/w/tree" => RemovalReply::Removed(report(true, false, true)),
                    "/w/repo/s1" => RemovalReply::Failed("busy".to_string()),
                    _ => RemovalReply::Removed(report(false, false, false)),
                })
            }
            (Op::RemoveDir, p) => {
                dropped.push(p.to_string());
                Reply::Done(None)
            }
            (Op::Finish, _) => break,
            (op, _) => nothing(op),
        };
        task.reply(reply);
    }
    assert_eq!(removals, vec!["/w/link", "/w/repo/s1", "/w/repo/s2", "/w/tree"]);
    assert_eq!(dropped, vec!["/w/repo"]);
    assert_eq!(
        task.report,
        CleanupReport { removed: 3, overlays_unmounted: 1, btrfs_deleted: 2, errors: 1 }
    );
    assert!(cleanup_worktrees_in_with_delegate("/w", true).delegate);
}

#[test]
fn builder_defaults_and_settings() {
    let b = WorktreeBuilder::new("/src", "/dst")
        .git_ref("main".to_string())
        .parallelism(4)
        .channel_buffer(8)
        .working_tree_mode(WorkingTreeMode::CleanAll)
        .standalone(true)
        .btrfs_mode(BtrfsMode::Force)
        .worktree_kind("session".to_string())
        .session_id("s1".to_string());
    let (plan, registration) = b.create();
    assert_eq!(plan.source, "/src");
    assert_eq!(plan.git_ref, "main");
    assert_eq!(plan.creation_mode, CreationMode::Standalone);
    assert_eq!(plan.working_tree, WorkingTreeMode::CleanAll);
    assert_eq!(plan.channel_buffer, 8);
    assert!(!plan.delegate);
    let record = register_worktree(
        "/dst",
        "abc123",
        registration.unwrap(),
        "dst".to_string(),
        "src".to_string(),
        7,
        99,
    );
    assert_eq!(record.id, "dst");
    assert_eq!(record.kind, "session");
    assert_eq!(record.session_id.as_deref(), Some("s1"));
    assert_eq!(record.creation_mode, "standalone");
    assert_eq!(record.head_commit.as_deref(), Some("abc123"));
    assert_eq!(record.creator_pid, Some(7));
    assert_eq!(record.status, WorktreeStatus::Alive);
    let (plan, registration) = WorktreeBuilder::new("/a", "/b").btrfs_delegate().create();
    assert_eq!(plan.git_ref, "HEAD");
    assert_eq!(plan.channel_buffer, 256);
    assert!(plan.delegate);
    assert!(registration.is_none());
}

#[test]
fn register_worktree_writes_correct_fields() {
    let (_, registration) = WorktreeBuilder::new("/src/repo", "/home/register-fields-wt")
        .git_ref("main".to_string())
        .worktree_kind("session".to_string())
        .session_id("test-session".to_string())
        .create();
    let record = register_worktree(
        "/home/register-fields-wt",
        "abc123",
        registration.unwrap(),
        "register-fields-wt".to_string(),
        "repo".to_string(),
        1,
        100,
    );
    assert_eq!(record.path, "/home/register-fields-wt");
    assert_eq!(record.kind, "session");
    assert_eq!(record.session_id.as_deref(), Some("test-session"));
    assert_eq!(record.creation_mode, "linked");
    assert_eq!(record.head_commit.as_deref(), Some("abc123"));
    assert!(record.creator_pid.is_some());
}

#[test]
fn ignored_copy_knows_its_workers() {
    assert_eq!(worker_count(3, 2, 8), 3);
    assert_eq!(worker_count(0, 2, 8), 2);
    assert_eq!(worker_count(0, 0, 8), 8);
    let plan = WorktreeBuilder::new("/a", "/b")
        .ignored_files_mode(IgnoredFilesMode::CopyOnly { skip_patterns: vec!["*.o".to_string()] })
        .copy_ignored_only();
    assert!(plan.num_workers >= 1);
    assert_eq!(plan.skip_patterns, vec!["*.o"]);
    let plan = WorktreeBuilder::new("/a", "/b").ignored_parallelism(5).copy_ignored_only();
    assert_eq!(plan.num_workers, 5);
    assert!(plan.skip_patterns.is_empty());
}

fn stats(n: u64) -> CopyStats {
    CopyStats {
        files_copied: n,
        dirs_created: 1,
        symlinks_copied: 2,
        files_skipped: 3,
        issues: vec!["odd".to_string()],
    }
}

#[test]
fn copies_are_reported() {
    let r = ignored_copy_report(stats(4), false).unwrap();
    assert_eq!((r.files_copied, r.dirs_created, r.symlinks_copied, r.files_skipped), (4, 1, 2, 3));
    assert!(r.dirty_files.is_none());
    assert_eq!(
        ignored_copy_report(stats(4), true).unwrap_err(),
        "cancelled during ignored-only copy"
    );
    let r = worktree_report(PlanResult {
        worktree_path: "/w".to_string(),
        commit: "c".to_string(),
        copy_stats: stats(5),
        ignored_stats: Some(stats(6)),
        dirty_files_report: None,
    });
    assert_eq!(r.unignored_copy.files_copied, 5);
    assert_eq!(r.ignored_copy.unwrap().files_copied, 6);
}

fn cause(message: &str, storage_full: bool) -> Cause {
    Cause { message: message.to_string(), storage_full }
}

#[test]
fn full_disks_are_put_on_top() {
    let mut chain = vec![cause("failed to copy index", false), cause("io", true)];
    annotate_disk_full(&mut chain);
    assert_eq!(chain[0].message, OUT_OF_DISK_CONTEXT);
    assert_eq!(chain.len(), 3);
    let mut chain = vec![cause("git: No space left on device (28)", false)];
    assert!(is_out_of_disk(&chain));
    annotate_disk_full(&mut chain);
    assert_eq!(chain[0].message, "not enough free disk space");
    let mut chain = vec![cause("other", false)];
    annotate_disk_full(&mut chain);
    assert_eq!(chain.len(), 1);
}

#[test]
fn gitdir_pointers_are_read() {
    assert_eq!(
        read_worktree_gitdir("gitdir: /r/.git/worktrees/x\n", "/w/x").as_deref(),
        Some("/r/.git/worktrees/x")
    );
    assert_eq!(read_worktree_gitdir("gitdir: a", "/w/x").as_deref(), Some("/w/x/a"));
    assert_eq!(read_worktree_gitdir("ref: x", "/w/x"), None);
}

#[test]
fn links_are_resolved_beside_themselves() {
    assert!(symlink_resolves_to("/w/x", &text("../s"), "/w/../s"));
    assert!(symlink_resolves_to("/w/x", &text("/s/"), "/s"));
    assert!(!symlink_resolves_to("/w/x", &text("s"), "/s"));
    assert!(!symlink_resolves_to("/w/x", &None, "/s"));
    let m = vec![MountEntry { fs_type: "x".to_string(), mount_point: "/a/b".to_string() }];
    assert!(mounted_at(&m, "/a//b/"));
    assert!(!mounted_at(&m, "/a"));
}

#[test]
fn paths_have_parts() {
    assert_eq!(parts_of("/a//b/./c/"), vec!["a", "b", "c"]);
    assert_eq!(parts_of("./a"), vec![".", "a"]);
    assert!(same_path_as("/a/b", "/a/./b/"));
    assert!(!same_path_as("a", "/a"));
    assert_eq!(join_path("/a", "b"), "/a/b");
    assert_eq!(join_path("/a/", "b"), "/a/b");
    assert_eq!(join_path("/a", "/b"), "/b");
    assert_eq!(join_path("", "b"), "b");
    assert_eq!(parent_of("/a/b").as_deref(), Some("/a"));
    assert_eq!(parent_of("/a").as_deref(), Some("/"));
    assert_eq!(parent_of("a").as_deref(), Some(""));
    assert_eq!(parent_of("/"), None);
}

#[test]
fn network_mounts_are_absent() {
    assert!(!is_grove_strategy("grove-nfs"));
    assert!(dest_is_known_unmounted("/x"));
    assert!(dest_path_contains("/a", "/a/b"));
    assert!(dest_path_contains("/a/", "/a"));
    assert!(!dest_path_contains("/a", "/ab"));
    assert!(!nfs_record_is_dead("/x", None));
    assert!(candidate_data_dirs().is_empty());
    let report = gc_orphan_pins("/x", &Vec::new(), 0, false).unwrap();
    assert_eq!(
        (report.examined, report.pruned, report.deferred_grace, report.kept_live),
        (0, 0, 0, 0)
    );
    assert!(report.pruned_ids.is_empty());
}
