use qidi_core::deploy_task::{
    deploy_skill, less_path, place, DeployOp, DeployOutcome, DeployReply, DeployTask, StagedKind,
};
use qidi_core::deploy_tool::{DeploySkillTool, ToolFailure};
use qidi_core::skill_deploy::{
    check_limits, is_valid_deploy_name, relative_member_is_safe, DeployError, DeployReport,
    DeploySkillInput, Member, MAX_DEPLOY_FILES, MAX_DEPLOY_FILE_BYTES, MAX_DEPLOY_TOTAL_BYTES,
};
use qidi_core::timestamp::{civil_from_days, utc_timestamp};
use std::collections::BTreeMap;

#[derive(Clone, PartialEq, Debug)]
enum Node {
    Dir,
    File(String),
    Link,
}

/// A file system in memory.
#[derive(Default)]
struct Disk {
    nodes: BTreeMap<String, Node>,
    now: u64,
    log: Vec<String>,
    fail_copy_to: Option<String>,
}

fn parent(path: &str) -> String {
    match path.rfind('/') {
        Some(0) | None => "/".to_string(),
        Some(i) => path[..i].to_string(),
    }
}

impl Disk {
    fn new() -> Self {
        Disk { now: 1_704_067_200, ..Disk::default() }
    }

    fn mkdirs(&mut self, path: &str) {
        let mut p = path.to_string();
        while p != "/" && !self.nodes.contains_key(&p) {
            self.nodes.insert(p.clone(), Node::Dir);
            p = parent(&p);
        }
    }

    fn write(&mut self, path: &str, text: &str) {
        self.mkdirs(&parent(path));
        self.nodes.insert(path.to_string(), Node::File(text.to_string()));
    }

    fn read(&self, path: &str) -> Option<String> {
        match self.nodes.get(path) {
            Some(Node::File(s)) => Some(s.clone()),
            _ => None,
        }
    }

    fn has(&self, path: &str) -> bool {
        self.nodes.contains_key(path)
    }

    fn names(&self, dir: &str) -> Vec<String> {
        let head = format!("{dir}/");
        self.nodes
            .keys()
            .filter(|k| k.starts_with(&head) && !k[head.len()..].contains('/'))
            .map(|k| k[head.len()..].to_string())
            .rev()
            .collect()
    }

    fn remove_all(&mut self, path: &str) {
        let head = format!("{path}/");
        self.nodes.retain(|k, _| k != path && !k.starts_with(&head));
    }

    fn rename(&mut self, from: &str, to: &str) {
        let head = format!("{from}/");
        let moved: Vec<(String, Node)> = self
            .nodes
            .iter()
            .filter(|(k, _)| *k == from || k.starts_with(&head))
            .map(|(k, v)| (format!("{to}{}", &k[from.len()..]), v.clone()))
            .collect();
        self.remove_all(from);
        self.nodes.extend(moved);
    }

    fn drive(&mut self, mut task: DeployTask) -> Result<DeployReport, DeployError> {
        loop {
            let r = task.request();
            self.log.push(format!("{:?} {} {}", r.op, r.path, r.to));
            if matches!(r.op, DeployOp::CreateDirs | DeployOp::Rename | DeployOp::RemoveDirAll) {
                assert!(r.path.starts_with("/home/"), "{}", r.path);
            }
            if matches!(r.op, DeployOp::Rename | DeployOp::Copy) {
                assert!(r.to.starts_with("/home/"), "{}", r.to);
            }
            let reply = match r.op {
                DeployOp::IsDir => DeployReply::Flag(self.nodes.get(&r.path) == Some(&Node::Dir)),
                DeployOp::IsFile => DeployReply::Flag(self.read(&r.path).is_some()),
                DeployOp::Exists => DeployReply::Flag(self.has(&r.path)),
                DeployOp::ListDir => DeployReply::Names(Ok(self.names(&r.path))),
                DeployOp::Stat => DeployReply::Stat(Ok(match &self.nodes[&r.path] {
                    Node::Dir => StagedKind::Directory,
                    Node::Link => StagedKind::Symlink,
                    Node::File(s) => StagedKind::File(s.len() as u64),
                })),
                DeployOp::Hash => DeployReply::Hash(Ok(format!("#{}", self.read(&r.path).unwrap()))),
                DeployOp::Clock => DeployReply::Seconds(self.now),
                DeployOp::CreateDirs => {
                    if self.read(&r.path).is_some() {
                        DeployReply::Done(Err("not a directory".to_string()))
                    } else {
                        self.mkdirs(&r.path);
                        DeployReply::Done(Ok(()))
                    }
                }
                DeployOp::Rename => {
                    self.rename(&r.path, &r.to);
                    DeployReply::Done(Ok(()))
                }
                DeployOp::Copy => {
                    if self.fail_copy_to.as_deref() == Some(r.to.as_str()) {
                        DeployReply::Done(Err("disk full".to_string()))
                    } else {
                        let text = self.read(&r.path).unwrap();
                        self.nodes.insert(r.to.clone(), Node::File(text));
                        DeployReply::Done(Ok(()))
                    }
                }
                DeployOp::RemoveDirAll => {
                    self.remove_all(&r.path);
                    DeployReply::Done(Ok(()))
                }
                DeployOp::Finish => {
                    return match task.outcome {
                        DeployOutcome::Deployed(report) => Ok(report),
                        DeployOutcome::Refused(e) => Err(e),
                        DeployOutcome::Pending => unreachable!(),
                    };
                }
            };
            task.reply(reply);
        }
    }

    fn deploy(&mut self, staging: &str, name: &str, force: bool) -> Result<DeployReport, DeployError> {
        self.drive(deploy_skill(staging, name, force, "/home"))
    }
}

/// A disk with a staged skill.
fn staging(extra: &[(&str, &str)]) -> Disk {
    let mut disk = Disk::new();
    disk.write("/stage/SKILL.md", "---\nname: demo\n---\nbody\n");
    for (rel, content) in extra {
        disk.write(&format!("/stage/{rel}"), content);
    }
    disk.mkdirs("/home");
    disk
}

#[test]
fn rejects_invalid_names() {
    for name in ["", "..", "../evil", "UPPER", "has space", "a/b", "a.b"] {
        assert!(!is_valid_deploy_name(name), "name {name:?} must be rejected");
    }
    assert!(!is_valid_deploy_name(&"a".repeat(65)));
}

#[test]
fn accepts_valid_names() {
    for name in ["a", "abc", "user-foo", "x1", "a-b-c", "0"] {
        assert!(is_valid_deploy_name(name), "name {name:?} must be accepted");
    }
    assert!(is_valid_deploy_name(&"a".repeat(64)));
}

#[test]
fn deploy_rejects_invalid_name_before_touching_disk() {
    let mut disk = staging(&[]);
    let err = disk.deploy("/stage", "../evil", false).unwrap_err();
    assert!(matches!(err, DeployError::InvalidName(_)));
    assert!(!disk.has("/home/skills"));
    assert_eq!(disk.log.len(), 1);
}

#[test]
fn rejects_missing_staging_dir() {
    let mut disk = Disk::new();
    let err = disk.deploy("/nonexistent/qidi/staging", "demo", false).unwrap_err();
    assert!(matches!(err, DeployError::StagingNotFound(_)));
}

#[test]
fn rejects_staging_without_skill_md() {
    let mut disk = Disk::new();
    disk.write("/stage/README.md", "no skill here");
    let err = disk.deploy("/stage", "demo", false).unwrap_err();
    assert!(matches!(err, DeployError::MissingSkillMd(_)));
}

#[test]
fn rejects_unsafe_member_components() {
    assert!(!relative_member_is_safe("../evil"));
    assert!(!relative_member_is_safe("a/../../evil"));
    assert!(!relative_member_is_safe("/abs"));
    assert!(!relative_member_is_safe(""));
    assert!(relative_member_is_safe("SKILL.md"));
    assert!(relative_member_is_safe("scripts/run.py"));
}

#[test]
fn rejects_symlinked_member() {
    let mut disk = staging(&[]);
    disk.nodes.insert("/stage/link".to_string(), Node::Link);
    let err = disk.deploy("/stage", "demo", false).unwrap_err();
    assert_eq!(err, DeployError::UnsafeMember("link".to_string()));
    assert!(!disk.has("/home/skills"));
}

#[test]
fn rejects_oversized_single_file() {
    let big = "x".repeat(MAX_DEPLOY_FILE_BYTES as usize + 1);
    let mut disk = staging(&[("big.txt", &big)]);
    let err = disk.deploy("/stage", "demo", false).unwrap_err();
    assert!(matches!(err, DeployError::FileTooLarge { .. }));
}

#[test]
fn rejects_too_many_files() {
    let mut disk = staging(&[]);
    for i in 0..MAX_DEPLOY_FILES {
        disk.write(&format!("/stage/f{i}.txt"), "x");
    }
    let err = disk.deploy("/stage", "demo", false).unwrap_err();
    assert!(matches!(err, DeployError::TooManyFiles(_)));
}

#[test]
fn deploys_skill_with_nested_files() {
    let mut disk = staging(&[("scripts/run.py", "print('hi')\n")]);
    let report = disk.deploy("/stage", "demo", false).expect("deploy");
    assert!(!report.idempotent);
    assert_eq!(report.file_count, 2);
    assert!(report.backup_dir.is_none());
    assert_eq!(report.target_dir, "/home/skills/user-demo");
    assert!(disk.read("/home/skills/user-demo/SKILL.md").is_some());
    assert!(disk.read("/home/skills/user-demo/scripts/run.py").is_some());
}

#[test]
fn failed_publish_removes_partial_target() {
    let mut disk = staging(&[("z.txt", "last")]);
    disk.fail_copy_to = Some("/home/skills/user-demo/z.txt".to_string());
    let err = disk.deploy("/stage", "demo", false).unwrap_err();
    assert_eq!(err, DeployError::Io("disk full".to_string()));
    assert!(!disk.has("/home/skills/user-demo"));
}

#[test]
fn identical_content_is_idempotent() {
    let mut disk = staging(&[]);
    disk.deploy("/stage", "demo", false).expect("first deploy");
    let report = disk.deploy("/stage", "demo", false).expect("second deploy");
    assert!(report.idempotent, "an identical redeploy must be a no-op");
    assert!(report.backup_dir.is_none());
    assert!(!disk.has("/home/evolution"));
}

#[test]
fn conflicting_content_without_force_errors() {
    let mut disk = staging(&[]);
    disk.deploy("/stage", "demo", false).expect("first deploy");
    disk.write("/other/SKILL.md", "---\nname: demo\n---\ndifferent\n");
    let err = disk.deploy("/other", "demo", false).unwrap_err();
    assert!(matches!(err, DeployError::TargetConflict(_)));
    assert!(err.message().contains("use force=true or resolve manually"));
}

#[test]
fn force_backs_up_then_overwrites() {
    let mut disk = staging(&[]);
    disk.deploy("/stage", "demo", false).expect("first deploy");
    disk.write("/other/SKILL.md", "---\nname: demo\n---\nversion two\n");
    let report = disk.deploy("/other", "demo", true).expect("force deploy");
    assert!(!report.idempotent);
    let backup = report.backup_dir.expect("backup recorded");
    assert!(backup.starts_with("/home/evolution/backups/"));
    assert!(backup.ends_with("-demo"));
    assert_eq!(backup, "/home/evolution/backups/20240101-000000-demo");
    assert_eq!(
        disk.read(&format!("{backup}/SKILL.md")).unwrap(),
        "---\nname: demo\n---\nbody\n"
    );
    assert_eq!(
        disk.read("/home/skills/user-demo/SKILL.md").unwrap(),
        "---\nname: demo\n---\nversion two\n"
    );
}

#[test]
fn second_backup_of_a_moment_gets_a_tilde() {
    let mut disk = staging(&[]);
    for text in ["one", "two", "three"] {
        disk.write("/other/SKILL.md", text);
        disk.deploy("/other", "demo", true).expect("deploy");
    }
    assert_eq!(
        disk.names("/home/evolution/backups"),
        vec!["20240101-000000-demo~1", "20240101-000000-demo"]
    );
}

#[test]
fn members_are_copied_in_the_order_of_their_paths() {
    let mut disk = staging(&[("a/b", "1"), ("a.txt", "2"), ("z", "3")]);
    disk.deploy("/stage", "demo", false).expect("deploy");
    let copies: Vec<&String> = disk.log.iter().filter(|l| l.starts_with("Copy")).collect();
    let order: Vec<bool> = [("SKILL.md", 0), ("a/b", 1), ("a.txt", 2), ("z", 3)]
        .iter()
        .map(|(p, i)| copies[*i].contains(&format!("/stage/{p} ")))
        .collect();
    assert_eq!(order, vec![true; 4]);
    assert!(less_path("a/b", "a.txt"));
    assert!(!less_path("a.txt", "a/b"));
}

#[test]
fn total_size_is_limited() {
    let member = |i: u64, size: u64| Member {
        relative: format!("f{i}"),
        source: format!("/s/f{i}"),
        size,
    };
    let ten: Vec<Member> = (0..10).map(|i| member(i, MAX_DEPLOY_FILE_BYTES)).collect();
    assert_eq!(check_limits(&ten), Ok(()));
    let mut more = ten;
    more.push(member(10, 1));
    assert_eq!(
        check_limits(&more),
        Err(DeployError::TotalTooLarge(MAX_DEPLOY_TOTAL_BYTES + 1))
    );
}

#[test]
fn errors_are_put_in_words() {
    assert_eq!(
        DeployError::InvalidName("a\"b".to_string()).message(),
        "invalid skill name \"a\\\"b\": must match ^[a-z0-9][a-z0-9-]{0,63}$"
    );
    assert_eq!(
        DeployError::StagingNotFound("/s".to_string()).message(),
        "staging directory does not exist: /s"
    );
    assert_eq!(
        DeployError::MissingSkillMd("/s/SKILL.md".to_string()).message(),
        "staging directory has no SKILL.md: /s/SKILL.md"
    );
    assert_eq!(
        DeployError::UnsafeMember("..".to_string()).message(),
        "unsafe staged member \"..\": path components must not contain `..`, absolute paths, or symlinks"
    );
    assert_eq!(
        DeployError::TooManyFiles(201).message(),
        "staged skill has 201 files, exceeding the limit of 200"
    );
    assert_eq!(
        DeployError::FileTooLarge { path: "x".to_string(), bytes: 1048577 }.message(),
        "staged file x is 1048577 bytes, exceeding the per-file limit of 1048576"
    );
    assert_eq!(
        DeployError::TotalTooLarge(10485761).message(),
        "staged skill totals 10485761 bytes, exceeding the limit of 10485760"
    );
    assert_eq!(
        DeployError::Io("boom".to_string()).message(),
        "deployment I/O error: boom"
    );
}

#[test]
fn reports_are_put_in_words() {
    let mut report = DeployReport {
        target_dir: "/h/skills/user-x".to_string(),
        file_count: 3,
        backup_dir: Some("/h/b".to_string()),
        idempotent: false,
    };
    assert_eq!(
        report.summary(),
        "Deployed skill to /h/skills/user-x (3 files). Previous content backed up to /h/b."
    );
    report.backup_dir = None;
    assert_eq!(report.summary(), "Deployed skill to /h/skills/user-x (3 files).");
    report.idempotent = true;
    assert_eq!(
        report.summary(),
        "Skill already up to date at /h/skills/user-x (3 files); no changes made."
    );
}

fn input(note: &str) -> DeploySkillInput {
    DeploySkillInput {
        staging_dir: "/stage".to_string(),
        name: "demo".to_string(),
        force: true,
        approval_note: note.to_string(),
    }
}

#[test]
fn approval_is_required() {
    assert!(matches!(
        DeploySkillTool.check_approval(&input(" \n")),
        Some(ToolFailure::InvalidArguments(_))
    ));
    assert!(DeploySkillTool.check_approval(&input("ok by me")).is_none());
    assert_eq!(DeploySkillTool.id(), "deploy_skill");
    assert_eq!(DeploySkillTool.description().name, "deploy_skill");
    assert!(!DeploySkillTool.kind().is_read_only());
    assert!(!DeploySkillTool.capabilities().is_read_only);
    assert!(DeploySkillTool.description_template().starts_with("Deploy a staged skill"));
}

#[test]
fn outcomes_are_recorded_and_answered() {
    let report = DeployReport {
        target_dir: "/t".to_string(),
        file_count: 2,
        backup_dir: None,
        idempotent: false,
    };
    let (event, answer) = DeploySkillTool.finish(&input("ok"), &Ok(report));
    assert!(event.success);
    assert_eq!(event.target_path.as_deref(), Some("/t"));
    assert_eq!(event.file_count, 2);
    assert_eq!(answer.unwrap(), "Deployed skill to /t (2 files).");
    let (event, answer) =
        DeploySkillTool.finish(&input("ok"), &Err(DeployError::Io("x".to_string())));
    assert!(!event.success);
    assert_eq!(event.error.as_deref(), Some("deployment I/O error: x"));
    assert!(matches!(answer, Err(ToolFailure::Execution(_))));
    let (_, answer) =
        DeploySkillTool.finish(&input("ok"), &Err(DeployError::TooManyFiles(300)));
    assert!(matches!(answer, Err(ToolFailure::InvalidArguments(_))));
}

#[test]
fn timestamp_is_compact_and_monotonic_shape() {
    assert_eq!(utc_timestamp(0), "19700101-000000");
    // 2024-01-01T00:00:00Z == 1704067200
    assert_eq!(utc_timestamp(1_704_067_200), "20240101-000000");
}

#[test]
fn dates_follow_the_calendar() {
    assert_eq!(civil_from_days(0), (1970, 1, 1));
    assert_eq!(civil_from_days(-1), (1969, 12, 31));
    assert_eq!(civil_from_days(11_016), (2000, 2, 29));
    assert_eq!(civil_from_days(11_017), (2000, 3, 1));
    assert_eq!(civil_from_days(-719_468), (0, 3, 1));
    assert_eq!(utc_timestamp(1_709_210_096), "20240229-123456");
    assert_eq!(utc_timestamp(253_402_300_799), "99991231-235959");
    assert!(utc_timestamp(1_709_210_096) < utc_timestamp(1_709_210_097));
}

#[test]
fn places_are_numbered_with_a_tilde() {
    assert_eq!(place("/b/x", 0), "/b/x");
    assert_eq!(place("/b/x", 12), "/b/x~12");
}
