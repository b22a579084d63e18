use qidi_core::evolution_backups::{
    backups_for, deployed_skills, list_contains, Inventory, SkillEntry,
};
use qidi_core::evolution_command::{
    companion_files, display_from, is_valid_name, list, rename_delay_ms, rollback_site,
    EvolutionOp, EvolutionReply, EvolutionResult, EvolutionTask, ListedSkill, TreeEntry,
};
use qidi_core::evolution_task::{
    disable, enable, rename_error, rollback, show, EvolutionCall, EvolutionCommand,
};
use qidi_core::evolution_command::EvolutionVerb;
use qidi_core::skill_gate::{
    evolution_enabled_for, forward_slashed, session_skill_gate_rules, skill_deploy_gate_rules,
    RuleAction, ToolFilter,
};
use qidi_core::timestamp::utc_timestamp;
use std::collections::BTreeMap;

const HOME: &str = "/home";

/// A home directory in memory: paths of files with their texts.
struct Home {
    files: BTreeMap<String, String>,
    dirs: Vec<String>,
    now: u64,
    moves: usize,
    refuse_moves: bool,
}

impl Home {
    fn new() -> Self {
        Home {
            files: BTreeMap::new(),
            dirs: Vec::new(),
            now: 1_704_067_200,
            moves: 0,
            refuse_moves: false,
        }
    }

    fn write(&mut self, path: &str, text: &str) {
        self.files.insert(format!("{HOME}/{path}"), text.to_string());
    }

    fn read(&self, path: &str) -> Option<String> {
        self.files.get(path).cloned()
    }

    fn is_dir(&self, path: &str) -> bool {
        let head = format!("{path}/");
        self.dirs.iter().any(|d| d == path) || self.files.keys().any(|k| k.starts_with(&head))
    }

    fn names(&self, dir: &str) -> Vec<String> {
        let head = format!("{dir}/");
        let mut out: Vec<String> = Vec::new();
        for k in self.files.keys().chain(self.dirs.iter()) {
            if let Some(rest) = k.strip_prefix(&head) {
                let name = rest.split('/').next().unwrap().to_string();
                if !out.contains(&name) {
                    out.push(name);
                }
            }
        }
        out
    }

    fn rename(&mut self, from: &str, to: &str) {
        let head = format!("{from}/");
        let keys: Vec<String> = self.files.keys().filter(|k| k.starts_with(&head)).cloned().collect();
        for k in keys {
            let text = self.files.remove(&k).unwrap();
            self.files.insert(format!("{to}{}", &k[from.len()..]), text);
        }
        self.dirs.retain(|d| d != from);
        self.moves += 1;
    }

    fn inventory(&self) -> Inventory {
        let skills = format!("{HOME}/skills");
        Inventory {
            skills: self
                .names(&skills)
                .into_iter()
                .map(|n| SkillEntry {
                    is_dir: self.is_dir(&format!("{skills}/{n}")),
                    has_skill_md: self.files.contains_key(&format!("{skills}/{n}/SKILL.md")),
                    dir_name: n,
                })
                .collect(),
            disabled: self.names(&format!("{HOME}/evolution/disabled")),
            backups: self
                .names(&format!("{HOME}/evolution/backups"))
                .into_iter()
                .filter(|n| self.is_dir(&format!("{HOME}/evolution/backups/{n}")))
                .collect(),
        }
    }

    fn tree(&self, dir: &str) -> Vec<TreeEntry> {
        self.names(dir)
            .into_iter()
            .rev()
            .map(|n| {
                let p = format!("{dir}/{n}");
                TreeEntry {
                    is_file: self.files.contains_key(&p),
                    is_dir: self.is_dir(&p),
                    files: self
                        .names(&p)
                        .into_iter()
                        .filter(|f| self.files.contains_key(&format!("{p}/{f}")))
                        .collect(),
                    name: n,
                }
            })
            .collect()
    }

    fn drive(&mut self, mut task: EvolutionTask) -> EvolutionResult {
        loop {
            let r = task.request();
            if matches!(r.op, EvolutionOp::CreateDirs | EvolutionOp::Rename) {
                assert!(r.path.starts_with(HOME), "{}", r.path);
                assert!(r.to.is_empty() || r.to.starts_with(HOME), "{}", r.to);
            }
            let reply = match r.op {
                EvolutionOp::IsDir => EvolutionReply::Flag(self.is_dir(&r.path)),
                EvolutionOp::IsFile => EvolutionReply::Flag(self.files.contains_key(&r.path)),
                EvolutionOp::Exists => EvolutionReply::Flag(
                    self.is_dir(&r.path) || self.files.contains_key(&r.path),
                ),
                EvolutionOp::ReadInventory => EvolutionReply::Inventory(self.inventory()),
                EvolutionOp::ReadText => {
                    EvolutionReply::Text(self.read(&r.path).ok_or("gone".to_string()))
                }
                EvolutionOp::ListTree => EvolutionReply::Tree(self.tree(&r.path)),
                EvolutionOp::FileSize => {
                    EvolutionReply::Size(self.read(&r.path).map(|t| t.len() as u64))
                }
                EvolutionOp::Clock => EvolutionReply::Seconds(self.now),
                EvolutionOp::CreateDirs => EvolutionReply::Done(Ok(())),
                EvolutionOp::Rename => {
                    if self.refuse_moves {
                        EvolutionReply::Done(Err("busy".to_string()))
                    } else {
                        self.rename(&r.path, &r.to);
                        EvolutionReply::Done(Ok(()))
                    }
                }
                EvolutionOp::Finish => return task.result,
            };
            task.reply(reply);
        }
    }
}

/// A deployed skill and one backup of it.
fn seed(home: &mut Home, name: &str, old_body: &str, new_body: &str) {
    home.write(&format!("skills/user-{name}/SKILL.md"), new_body);
    home.write(&format!("evolution/backups/20260101-000000-{name}/SKILL.md"), old_body);
}

#[test]
fn name_validation_matches_deploy_rules() {
    assert!(is_valid_name("a"));
    assert!(is_valid_name("user-foo"));
    assert!(is_valid_name("0"));
    assert!(!is_valid_name(""));
    assert!(!is_valid_name("Upper"));
    assert!(!is_valid_name("a/b"));
    assert!(!is_valid_name(".."));
    assert!(!is_valid_name(&"a".repeat(65)));
}

#[test]
fn list_reports_deployed_and_counts() {
    let mut home = Home::new();
    seed(&mut home, "demo", "old", "new");
    let inv = home.inventory();
    let skills: Vec<ListedSkill> = deployed_skills(&inv.skills)
        .into_iter()
        .map(|name| ListedSkill { name, entries: 1 })
        .collect();
    let out = list(&skills, inv.disabled.len(), inv.backups.len());
    assert!(out.contains("demo"), "{out}");
    assert!(out.contains("Backups kept: 1"), "{out}");
    assert_eq!(
        out,
        "Deployed (skills/user-*): 1\n  demo  (1 entries)  show: /evolution show demo\n\
         Disabled: 0  |  Backups kept: 1\n\
         Usage: /evolution show <name> | rollback <name> | disable <name> | enable <name>"
    );
    assert!(list(&Vec::new(), 0, 0).starts_with("No evolved skills deployed"));
}

#[test]
fn rollback_restores_latest_backup_and_preserves_current() {
    let mut home = Home::new();
    seed(&mut home, "demo", "old body", "new body");
    let res = home.drive(rollback(HOME, "demo"));
    assert_eq!(
        res,
        EvolutionResult::Message(
            "[ok] rolled back `demo`\n\
             previous state preserved at /home/evolution/backups/20240101-000000-demo-pre-rollback\n\
             restored from /home/evolution/backups/20260101-000000-demo"
                .to_string()
        )
    );
    assert_eq!(home.read("/home/skills/user-demo/SKILL.md").unwrap(), "old body");
    assert_eq!(
        home.read("/home/evolution/backups/20240101-000000-demo-pre-rollback/SKILL.md").unwrap(),
        "new body"
    );
    // What was put aside is a backup again.
    assert_eq!(
        backups_for(&home.inventory(), "demo"),
        vec!["20240101-000000-demo-pre-rollback"]
    );
}

#[test]
fn rollback_without_backup_errors() {
    let mut home = Home::new();
    let res = home.drive(rollback(HOME, "ghost"));
    assert_eq!(
        res,
        EvolutionResult::Error("no backups found for \"ghost\"; nothing to roll back".to_string())
    );
}

#[test]
fn rollback_hints_enable_for_disabled_skill() {
    let mut home = Home::new();
    home.write("evolution/disabled/demo/SKILL.md", "x");
    match home.drive(rollback(HOME, "demo")) {
        EvolutionResult::Error(msg) => assert!(msg.contains("enable"), "{msg}"),
        other => panic!("expected Error, got {other:?}"),
    }
}

#[test]
fn rollback_refuses_when_disabled_even_with_backups() {
    let mut home = Home::new();
    seed(&mut home, "demo", "old", "new");
    home.write("evolution/disabled/demo/SKILL.md", "disabled copy");
    match home.drive(rollback(HOME, "demo")) {
        EvolutionResult::Error(msg) => assert!(msg.contains("disabled"), "{msg}"),
        other => panic!("expected Error, got {other:?}"),
    }
    assert_eq!(home.moves, 0);
    assert_eq!(home.read("/home/skills/user-demo/SKILL.md").unwrap(), "new");
}

#[test]
fn rapid_rollbacks_do_not_collide_on_site_name() {
    let mut home = Home::new();
    seed(&mut home, "demo", "old", "new");
    for _ in 0..3 {
        assert!(matches!(home.drive(rollback(HOME, "demo")), EvolutionResult::Message(_)));
    }
}

#[test]
fn second_rollback_brings_back_what_the_first_put_aside() {
    let mut home = Home::new();
    seed(&mut home, "demo", "old body", "new body");
    let deployed = format!("{HOME}/skills/user-demo/SKILL.md");
    for body in ["old body", "new body", "old body", "new body"] {
        let res = home.drive(rollback(HOME, "demo"));
        assert!(matches!(res, EvolutionResult::Message(_)), "{res:?}");
        assert_eq!(home.read(&deployed).as_deref(), Some(body));
    }
}

#[test]
fn rollback_gives_up_when_all_moments_are_taken() {
    let mut home = Home::new();
    seed(&mut home, "demo", "old", "new");
    for k in 0..8 {
        let site = rollback_site(HOME, "demo", home.now + k);
        home.files.insert(format!("{site}/SKILL.md"), "x".to_string());
    }
    assert_eq!(
        home.drive(rollback(HOME, "demo")),
        EvolutionResult::Error(
            "could not allocate a pre-rollback site (clock collision); retry in a second"
                .to_string()
        )
    );
}

#[test]
fn disable_enable_roundtrip() {
    let mut home = Home::new();
    seed(&mut home, "demo", "old", "new");
    assert!(matches!(home.drive(disable(HOME, "demo")), EvolutionResult::Message(_)));
    assert!(!home.is_dir("/home/skills/user-demo"));
    assert!(home.is_dir("/home/evolution/disabled/demo"));
    assert!(matches!(home.drive(enable(HOME, "demo")), EvolutionResult::Message(_)));
    assert!(home.is_dir("/home/skills/user-demo"));
}

#[test]
fn disable_conflict_errors_when_disabled_copy_exists() {
    let mut home = Home::new();
    seed(&mut home, "demo", "old", "new");
    home.dirs.push("/home/evolution/disabled/demo".to_string());
    let res = home.drive(disable(HOME, "demo"));
    assert!(matches!(res, EvolutionResult::Error(_)), "{res:?}");
}

#[test]
fn switching_what_is_not_there_is_refused() {
    let mut home = Home::new();
    assert_eq!(
        home.drive(disable(HOME, "demo")),
        EvolutionResult::Error("no deployed skill \"demo\" (nothing to disable)".to_string())
    );
    assert_eq!(
        home.drive(enable(HOME, "demo")),
        EvolutionResult::Error("no disabled skill named \"demo\"".to_string())
    );
    home.write("evolution/disabled/demo/SKILL.md", "x");
    home.write("skills/user-demo/SKILL.md", "y");
    assert_eq!(
        home.drive(enable(HOME, "demo")),
        EvolutionResult::Error("target /home/skills/user-demo already exists".to_string())
    );
}

#[test]
fn moves_that_fail_are_reported() {
    let mut home = Home::new();
    seed(&mut home, "demo", "old", "new");
    home.refuse_moves = true;
    assert_eq!(
        home.drive(disable(HOME, "demo")),
        EvolutionResult::Error(
            "rename /home/skills/user-demo -> /home/evolution/disabled/demo failed: busy"
                .to_string()
        )
    );
    assert_eq!(rename_error("a", "b", "c"), "rename a -> b failed: c");
    let delays: Vec<Option<u64>> = (0..5).map(rename_delay_ms).collect();
    assert_eq!(delays, vec![Some(0), Some(100), Some(200), Some(300), None]);
}

#[test]
fn show_rejects_invalid_names_before_fs_access() {
    let mut home = Home::new();
    let task = show(HOME, "../evil");
    assert!(matches!(task.request().op, EvolutionOp::Finish));
    assert_eq!(
        home.drive(task),
        EvolutionResult::Error("invalid skill name: \"../evil\"".to_string())
    );
}

#[test]
fn show_returns_full_skill_md_text() {
    let mut home = Home::new();
    seed(&mut home, "demo", "old", "# full text\nbody here");
    match home.drive(show(HOME, "demo")) {
        EvolutionResult::Document { title, content } => {
            assert!(title.contains("demo"));
            assert!(content.contains("# full text\nbody here"));
        }
        other => panic!("expected a document, got {other:?}"),
    }
}

#[test]
fn show_falls_back_to_disabled_and_to_backups() {
    let mut home = Home::new();
    home.write("evolution/disabled/d/SKILL.md", "off");
    home.write("evolution/backups/20260101-000000-b/SKILL.md", "1");
    home.write("evolution/backups/20260102-000000-b/SKILL.md", "2");
    assert_eq!(
        home.drive(show(HOME, "d")),
        EvolutionResult::Document {
            title: "evolution skill: d (disabled)".to_string(),
            content: "off".to_string()
        }
    );
    assert_eq!(
        home.drive(show(HOME, "b")),
        EvolutionResult::Document {
            title: "evolution skill: b (backup only)".to_string(),
            content: "2".to_string()
        }
    );
    assert_eq!(
        home.drive(show(HOME, "x")),
        EvolutionResult::Error(
            "no deployed, disabled, or backed-up skill named \"x\"".to_string()
        )
    );
}

#[test]
fn append_companions_nested_and_oversized_cap() {
    let mut home = Home::new();
    home.write("skills/user-demo/SKILL.md", "# skill\n");
    home.write("skills/user-demo/README.md", "readme body");
    home.write("skills/user-demo/scripts/run.py", "print('hi')");
    home.write("skills/user-demo/scripts/huge.bin", &"x".repeat(1024 * 1024 + 1));
    match home.drive(show(HOME, "demo")) {
        EvolutionResult::Document { content: text, .. } => {
            assert!(text.contains("readme body"), "{text}");
            assert!(text.contains("print('hi')"), "{text}");
            assert!(text.contains("scripts"), "{text}");
            assert!(text.contains("huge.bin"), "{text}");
            assert!(text.contains("exceeds 1MiB"), "{text}");
            assert!(!text.contains(&"x".repeat(64)));
            assert_eq!(
                text,
                "# skill\n\n\n--- skills/user-demo/README.md ---\nreadme body\
                 \n\n[skipped: skills/user-demo/scripts/huge.bin exceeds 1MiB]\
                 \n\n--- skills/user-demo/scripts/run.py ---\nprint('hi')"
            );
        }
        other => panic!("expected a document, got {other:?}"),
    }
}

#[test]
fn companions_leave_the_skill_itself_out() {
    let entry = |name: &str, files: Vec<&str>| TreeEntry {
        name: name.to_string(),
        is_file: files.is_empty(),
        is_dir: !files.is_empty(),
        files: files.into_iter().map(|f| f.to_string()).collect(),
    };
    let v = vec![entry("z", vec![]), entry("SKILL.md", vec![]), entry("a", vec!["2", "1"])];
    assert_eq!(companion_files("/d", &v), vec!["/d/a/1", "/d/a/2", "/d/z"]);
    assert_eq!(display_from("/d", "/d/a/1"), "a/1");
    assert_eq!(display_from("/e", "/d/a/1"), "/d/a/1");
}

#[test]
fn timestamp_shape_is_compact() {
    assert_eq!(utc_timestamp(0), "19700101-000000");
    assert_eq!(utc_timestamp(1_704_067_200), "20240101-000000");
}

#[test]
fn backups_for_excludes_sibling_prefix_skill() {
    let mut home = Home::new();
    seed(&mut home, "demo", "old", "new");
    seed(&mut home, "demo-2", "old2", "new2");
    for dir in [
        "20260102-000000-demo-1",
        "20260103-000000-demo-pre-rollback",
        "20260104-000000-demo~1",
        "20260101-000000-demo-2~1",
    ] {
        home.write(&format!("evolution/backups/{dir}/SKILL.md"), "copy");
    }
    let inv = home.inventory();
    assert_eq!(
        backups_for(&inv, "demo"),
        vec![
            "20260101-000000-demo",
            "20260102-000000-demo-1",
            "20260103-000000-demo-pre-rollback",
            "20260104-000000-demo~1",
        ]
    );
    assert_eq!(
        backups_for(&inv, "demo-2"),
        vec!["20260101-000000-demo-2", "20260101-000000-demo-2~1"]
    );
}

#[test]
fn historical_dash_suffix_claims_orphan() {
    let mut home = Home::new();
    home.write("evolution/backups/20260101-000000-demo/SKILL.md", "bare");
    home.write("evolution/backups/20260101-000000-demo-2/SKILL.md", "orphan");
    let names = backups_for(&home.inventory(), "demo");
    assert_eq!(names.len(), 2, "{names:?}");
    assert!(names.iter().any(|n| n == "20260101-000000-demo-2"), "{names:?}");
}

#[test]
fn names_without_a_stamp_are_no_backups() {
    let inv = Inventory {
        skills: Vec::new(),
        disabled: Vec::new(),
        backups: [
            "demo",
            "2026010-0000000-demo",
            "20260101-000000_demo",
            "20260101-000000-",
            "20260101-000000-demo~",
            "20260101-000000-demo-",
            "20260101-000000-demo~x",
        ]
        .iter()
        .map(|s| s.to_string())
        .collect(),
    };
    assert!(backups_for(&inv, "demo").is_empty());
    assert!(list_contains(&inv.backups, "demo"));
    assert!(!list_contains(&inv.backups, "dem"));
}

#[test]
fn arguments_are_told_apart() {
    let cmd = EvolutionCommand;
    assert!(matches!(cmd.run(""), EvolutionCall::List));
    assert!(matches!(cmd.run("  list x"), EvolutionCall::List));
    match cmd.run(" rollback\tdemo more") {
        EvolutionCall::Do(verb, name) => {
            assert_eq!(verb, EvolutionVerb::Rollback);
            assert_eq!(name, "demo");
        }
        other => panic!("got {other:?}"),
    }
    match cmd.run("show") {
        EvolutionCall::Error(e) => {
            assert!(e.starts_with("`/show` requires a skill name. /evolution [list"), "{e}")
        }
        other => panic!("got {other:?}"),
    }
    match cmd.run("frob\"") {
        EvolutionCall::Error(e) => {
            assert!(e.starts_with("unknown subcommand \"frob\\\"\". /evolution ["), "{e}")
        }
        other => panic!("got {other:?}"),
    }
    assert_eq!(cmd.name(), "evolution");
    assert!(cmd.takes_args());
    assert!(!cmd.args_required());
    assert_eq!(cmd.usage(), format!("/evolution {}", cmd.arg_placeholder().unwrap()));
}

#[test]
fn evolution_enabled_unless_off() {
    assert!(evolution_enabled_for(None));
    assert!(evolution_enabled_for(Some("on")));
    assert!(evolution_enabled_for(Some("")));
    assert!(!evolution_enabled_for(Some("off")));
    assert!(!evolution_enabled_for(Some("OFF")));
    assert!(!evolution_enabled_for(Some("Off")));
}

#[test]
fn gate_rules_cover_both_spellings() {
    let rules = skill_deploy_gate_rules(Some("C:\\Users\\me\\.qidi"));
    assert_eq!(rules.len(), 2);
    assert_eq!(rules[0].pattern.as_deref(), Some("~/.qidi/skills/**"));
    assert_eq!(rules[1].pattern.as_deref(), Some("C:/Users/me/.qidi/skills/**"));
    for rule in &rules {
        assert_eq!(rule.action, RuleAction::Ask);
        assert_eq!(rule.tool, ToolFilter::Edit);
    }
    assert_eq!(skill_deploy_gate_rules(Some("~/.qidi")).len(), 1);
    assert_eq!(skill_deploy_gate_rules(None).len(), 1);
    assert!(session_skill_gate_rules(Some("off"), Some("/h")).is_empty());
    assert_eq!(session_skill_gate_rules(None, Some("/h")).len(), 2);
    assert_eq!(forward_slashed("a\\b/c"), "a/b/c");
}
