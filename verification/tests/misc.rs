use qidi_core::finance::{chat_message, choose_action, reconcile_bank, scan_invoice, FinanceAction};
use qidi_core::home::{default_qidi_home, qidi_home, resolve_qidi_home_from, user_qidi_home};
use qidi_core::jsonl::jsonl_lines;
use qidi_core::memory_backup::{
    snapshot, BackupOp, BackupReply, BackupStage, GitOutput, GITIGNORE,
};
use qidi_core::proxy_url::{is_cli_chat_proxy_url_for_idle_refresh, is_local_host};
use qidi_core::slash_commands::{
    imagine_instruction, imagine_usage_message, imagine_video_instruction,
    imagine_video_usage_message, loop_schedule_instruction, loop_usage_message, SlashCommandConfig,
};
use qidi_core::text::{join_texts, parse_i64, parse_u64, split_words, trim_text};
use qidi_core::tool_config::{
    params_of, parse_params_json, validate_name_override, validate_tool_name,
    ToolConfigEntryError, ToolConfigEntryErrorKind,
};

// ---------------------------------------------------------------------- home

#[test]
fn env_wins_over_os_home() {
    let resolved = resolve_qidi_home_from(Some("/custom/home"), Some("/home/u"), None);
    assert_eq!(resolved.as_deref(), Some("/custom/home"));
}

#[test]
fn env_used_verbatim_even_when_it_exists() {
    let tmp = tempfile::tempdir().unwrap();
    let path = tmp.path().to_str().unwrap();
    let resolved = resolve_qidi_home_from(Some(path), None, None);
    assert_eq!(resolved.as_deref(), Some(path));
}

#[test]
fn empty_env_falls_through_to_os_home() {
    let tmp = tempfile::tempdir().unwrap();
    let canonical = dunce::canonicalize(tmp.path()).unwrap();
    let resolved = resolve_qidi_home_from(
        Some(""),
        Some(tmp.path().to_str().unwrap()),
        Some(canonical.to_str().unwrap()),
    );
    assert_eq!(resolved, Some(canonical.join(".qidi").to_str().unwrap().to_string()));
}

#[test]
fn default_qidi_home_has_no_verbatim_prefix() {
    let os_home = dirs::home_dir().map(|p| p.to_string_lossy().into_owned());
    let canonical = os_home
        .as_ref()
        .and_then(|h| dunce::canonicalize(h).ok())
        .map(|p| p.to_string_lossy().into_owned());
    let home = default_qidi_home(os_home.as_deref(), canonical.as_deref());
    assert!(!home.starts_with(r"\\?\"));
    assert!(home.ends_with(".qidi"));
    assert_eq!(default_qidi_home(None, None), "./.qidi");
}

#[test]
fn none_when_nothing_resolves() {
    assert_eq!(resolve_qidi_home_from(None, None, None), None);
}

#[test]
fn home_falls_back_only_where_it_may() {
    let r = Some("/r".to_string());
    assert_eq!(qidi_home(r.clone(), "/d".to_string()), "/r");
    assert_eq!(qidi_home(None, "/d".to_string()), "/d");
    assert_eq!(user_qidi_home(&r, "/settled").as_deref(), Some("/settled"));
    assert_eq!(user_qidi_home(&None, "/settled"), None);
}

// --------------------------------------------------------------------- lines

#[test]
fn maps_lines_without_copying() {
    let bytes = b"{\"a\":1}\n{\"a\":2}\n\n{\"a\":3}\n";
    assert_eq!(jsonl_lines(bytes), vec!["{\"a\":1}", "{\"a\":2}", "{\"a\":3}"]);
    assert_eq!(bytes.len(), 25);
}

#[test]
fn empty_file_maps_to_no_lines() {
    assert!(jsonl_lines(b"").is_empty());
}

#[test]
fn torn_tail_line_is_exposed_not_hidden() {
    let lines = jsonl_lines(b"{\"a\":1}\n{\"a\":2}\n{\"a\":3");
    assert_eq!(lines, vec!["{\"a\":1}", "{\"a\":2}", "{\"a\":3"]);
    assert!(serde_json::from_str::<serde_json::Value>(lines[2]).is_err());
}

#[test]
fn invalid_utf8_line_is_skipped_but_neighbors_kept() {
    let lines = jsonl_lines(b"{\"a\":1}\n\xE2\x82\n{\"a\":3}\n");
    assert_eq!(lines, vec!["{\"a\":1}", "{\"a\":3}"]);
}

// -------------------------------------------------------------------- memory

fn git(code: i32, stdout: &str, stderr: &str) -> BackupReply {
    BackupReply::Git(Ok(GitOutput {
        code: Some(code),
        stdout: stdout.to_string(),
        stderr: stderr.to_string(),
    }))
}

/// A repository in memory.
struct Repo {
    dir: bool,
    git: bool,
    ignore: bool,
    identity: bool,
    staged: bool,
    commits: usize,
    commands: Vec<String>,
}

fn repo() -> Repo {
    Repo {
        dir: true,
        git: false,
        ignore: false,
        identity: false,
        staged: false,
        commits: 0,
        commands: Vec::new(),
    }
}

impl Repo {
    fn snapshot(&mut self, message: &str) -> Result<(), String> {
        let mut task = snapshot("/mem", message);
        loop {
            let r = task.request();
            let reply = match r.op {
                BackupOp::IsDir => BackupReply::Flag(self.dir),
                BackupOp::Exists => BackupReply::Flag(match r.path.as_str() {
                    "/mem/.git" => self.git,
                    "/mem/.gitignore" => self.ignore,
                    other => panic!("unexpected {other}"),
                }),
                BackupOp::WriteIgnore => {
                    self.ignore = true;
                    self.staged = true;
                    BackupReply::Done(Ok(()))
                }
                BackupOp::Git => {
                    let line = r.args.join(" ");
                    self.commands.push(line.clone());
                    match r.args[0].as_str() {
                        "init" => {
                            self.git = true;
                            git(0, "", "")
                        }
                        "config" => {
                            if r.args.len() == 4 {
                                self.identity = true;
                                git(0, "", "")
                            } else if self.identity {
                                git(0, "someone\n", "")
                            } else {
                                git(1, "", "")
                            }
                        }
                        "add" => git(0, "", ""),
                        "diff" => git(if self.staged { 1 } else { 0 }, "", ""),
                        "rev-parse" => git(if self.commits > 0 { 0 } else { 1 }, "", ""),
                        "commit" => {
                            self.commits += 1;
                            self.staged = false;
                            git(0, "", "")
                        }
                        other => panic!("unexpected {other}"),
                    }
                }
                BackupOp::Finish => {
                    return if task.stage == BackupStage::Done { Ok(()) } else { Err(task.error) };
                }
            };
            task.reply(reply);
        }
    }
}

#[test]
fn empty_dir_snapshot_inits_and_makes_first_commit() {
    let mut r = repo();
    r.snapshot("first snapshot").unwrap();
    assert!(r.git);
    assert!(r.ignore);
    assert_eq!(r.commits, 1);
    assert_eq!(
        r.commands,
        vec![
            "init -q",
            "config --local user.name",
            "config --local user.name qidi-memory",
            "config --local user.email",
            "add -A",
            "diff --cached --quiet",
            "commit -q -m first snapshot",
        ]
    );
}

#[test]
fn unchanged_snapshot_is_noop_and_ok() {
    let mut r = repo();
    r.snapshot("first").unwrap();
    r.snapshot("second").unwrap();
    r.snapshot("third").unwrap();
    assert_eq!(r.commits, 1);
}

#[test]
fn fresh_repository_without_files_gets_an_empty_commit() {
    let mut r = repo();
    r.ignore = true;
    r.snapshot("m").unwrap();
    assert_eq!(r.commands.last().unwrap(), "commit -q --allow-empty -m m");
}

#[test]
fn missing_root_returns_err() {
    let mut r = repo();
    r.dir = false;
    assert_eq!(
        r.snapshot("msg"),
        Err("memory root is not a directory: /mem".to_string())
    );
}

fn step_to_commit(reply: BackupReply) -> Result<(), String> {
    let mut task = snapshot("/mem", "m");
    for r in [BackupReply::Flag(true), BackupReply::Flag(true), BackupReply::Flag(true)] {
        task.reply(r);
    }
    task.reply(git(0, "n", ""));
    task.reply(git(0, "e", ""));
    task.reply(git(0, "", ""));
    task.reply(git(1, "", ""));
    assert_eq!(task.stage, BackupStage::Commit);
    task.reply(reply);
    if task.stage == BackupStage::Done {
        Ok(())
    } else {
        Err(task.error)
    }
}

#[test]
fn commit_outcomes_are_told_apart() {
    assert_eq!(step_to_commit(git(0, "", "")), Ok(()));
    assert_eq!(step_to_commit(git(1, "nothing to commit\n", "")), Ok(()));
    assert_eq!(step_to_commit(git(1, "", "no changes added to commit")), Ok(()));
    assert_eq!(
        step_to_commit(git(128, "a ", "lock\n")),
        Err("git commit failed: a lock".to_string())
    );
    assert_eq!(
        step_to_commit(BackupReply::Git(Err("no git".to_string()))),
        Err("failed to run git commit: no git".to_string())
    );
}

#[test]
fn git_failures_are_put_in_words() {
    let mut task = snapshot("/mem", "m");
    task.reply(BackupReply::Flag(true));
    task.reply(BackupReply::Flag(false));
    task.reply(git(128, "", " denied\n"));
    assert_eq!(task.error, "git init -q failed: denied");
    let mut task = snapshot("/mem", "m");
    task.reply(BackupReply::Flag(true));
    task.reply(BackupReply::Flag(false));
    task.reply(BackupReply::Git(Err("missing".to_string())));
    assert_eq!(task.error, "failed to run git init -q: missing");
    let mut task = snapshot("/mem", "m");
    task.reply(BackupReply::Flag(true));
    task.reply(BackupReply::Flag(true));
    task.reply(BackupReply::Flag(false));
    task.reply(BackupReply::Done(Err("ro".to_string())));
    assert_eq!(task.error, "failed to write .gitignore: ro");
    assert!(GITIGNORE.ends_with("\n*\n!*/\n!*.md\n"));
}

// --------------------------------------------------------------- tool config

#[test]
fn parameters_are_objects() {
    assert!(parse_params_json(0, "t", None).unwrap().is_none());
    assert!(parse_params_json(0, "t", Some("")).unwrap().is_none());
    let fields = parse_params_json(0, "t", Some("{\"a\":1,\"b\":[true,\"x\"]}")).unwrap().unwrap();
    assert_eq!(
        fields,
        vec![
            ("a".to_string(), "1".to_string()),
            ("b".to_string(), "[true,\"x\"]".to_string())
        ]
    );
    for raw in ["[1]", "{", "7"] {
        match parse_params_json(3, "t", Some(raw)) {
            Err(ToolConfigEntryError {
                index: 3,
                tool_id,
                kind: ToolConfigEntryErrorKind::ParamsJsonParse { raw: r, error },
            }) => {
                assert_eq!(tool_id, "t");
                assert_eq!(r, raw);
                assert!(!error.is_empty());
            }
            other => panic!("got {other:?}"),
        }
    }
    let e = params_of(1, "t", "x", Err("bad".to_string())).unwrap_err();
    assert_eq!(
        e.message(),
        "tool config entry error at index 1 (tool_id=t): ParamsJsonParse { raw: \"x\", error: \"bad\" }"
    );
    assert_eq!(
        e.message().split(": ").nth(1).map(|_| format!("{:?}", e.kind)),
        Some("ParamsJsonParse { raw: \"x\", error: \"bad\" }".to_string())
    );
}

#[test]
fn names_are_not_empty() {
    assert!(validate_tool_name("x").is_ok());
    assert_eq!(
        validate_tool_name("").unwrap_err().message(),
        "tool config entry error at index 0 (tool_id=): NameOverrideInvalid { name: \"\", error: \"tool name cannot be empty\" }"
    );
    assert!(validate_name_override(1, "t", None, None).is_ok());
    assert!(validate_name_override(1, "t", Some("n"), None).is_ok());
    let e = validate_name_override(1, "t", Some(""), None).unwrap_err();
    assert_eq!(e.index, 1);
    let other = ToolConfigEntryError::new(
        2,
        "u".to_string(),
        ToolConfigEntryErrorKind::ParamsJsonNotObject { value: "1".to_string() },
    );
    assert_eq!(
        other.message(),
        "tool config entry error at index 2 (tool_id=u): ParamsJsonNotObject { value: \"1\" }"
    );
}

// ------------------------------------------------------------ slash commands

#[test]
fn slash_commands_say_what_they_do() {
    let c = SlashCommandConfig::new("n", "d", "t");
    assert_eq!((c.name.as_str(), c.description.as_str(), c.tool_name.as_str()), ("n", "d", "t"));
    assert_eq!(imagine_instruction(), "Generate an image from a text description.");
    assert_eq!(imagine_usage_message(), "Usage: /imagine <description>");
    assert_eq!(imagine_video_instruction(), "Generate a video from an image.");
    assert_eq!(
        imagine_video_usage_message(),
        "Usage: /imagine-video <image_url> <description>"
    );
    assert_eq!(loop_usage_message(), "Usage: /loop <command> <interval>");
    let text = loop_schedule_instruction("every day: tidy up");
    assert!(text.starts_with("\n# /loop -- schedule a recurring prompt\n\nParse the input below"));
    assert!(text.ends_with("\n## Input\nevery day: tidy up\n"));
    assert!(text.contains("The minimum interval is 60 seconds"));
}

// ------------------------------------------------------------------- finance

#[test]
fn finance_skills_answer() {
    assert_eq!(chat_message("hi").unwrap(), "Echo: hi");
    assert!(scan_invoice("x").is_err());
    assert_eq!(
        reconcile_bank("e", "s").unwrap_err(),
        "bank reconciliation not yet implemented"
    );
    assert_eq!(choose_action(true, true, true, true), FinanceAction::Process);
    assert_eq!(choose_action(false, true, true, true), FinanceAction::Report);
    assert_eq!(choose_action(false, false, true, true), FinanceAction::Repl);
    assert_eq!(choose_action(false, false, false, true), FinanceAction::Serve);
    assert_eq!(choose_action(false, false, false, false), FinanceAction::Ready);
}

// ----------------------------------------------------------------- addresses

#[test]
fn local_hosts_are_refreshed() {
    assert!(is_cli_chat_proxy_url_for_idle_refresh("not a url", true));
    assert!(!is_cli_chat_proxy_url_for_idle_refresh("not a url", false));
    assert!(is_cli_chat_proxy_url_for_idle_refresh("http://127.0.0.1:99/x", false));
    assert!(is_cli_chat_proxy_url_for_idle_refresh("http://LOCALHOST/x", false));
    assert!(!is_cli_chat_proxy_url_for_idle_refresh("https://example.test", false));
    assert!(is_local_host(&Some("::1".to_string())));
    assert!(!is_local_host(&None));
}

// ---------------------------------------------------------------------- text

#[test]
fn texts_are_taken_apart_and_put_together() {
    assert_eq!(trim_text("\u{3000} a b\n"), "a b");
    let v: Vec<char> = " a  b\tc ".chars().collect();
    assert_eq!(split_words(&v), vec!["a", "b", "c"]);
    assert_eq!(join_texts(&vec!["a".to_string(), "b".to_string()], ", "), "a, b");
    let n = |s: &str| parse_u64(&s.chars().collect::<Vec<char>>());
    assert_eq!(n("+12"), Some(12));
    assert_eq!(n("++1"), None);
    assert_eq!(n(""), None);
    let i = |s: &str| parse_i64(&s.chars().collect::<Vec<char>>());
    assert_eq!(i("-9223372036854775808"), Some(i64::MIN));
    assert_eq!(i("-+1"), None);
    assert_eq!(i("9223372036854775808"), None);
}
