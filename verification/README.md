# qidi_core

The logic of a coding agent, written in Verus: every function of `src/` carries a contract.
The verifier proves all of them but those of the few wrappers around functions of other
crates and of the standard library: these are believed, and each says what it claims of the
function that it calls.

| Part | Modules |
|------|---------|
| Replay of a session's update log, and its checkpoints | `session_line`, `replay`, `checkpoint`, `jsonl`, `replay_laws` |
| Removing worktrees and cleaning up after them | `worktree`, `worktree_host`, `worktree_removal`, `worktree_cleanup`, `orphan_scan`, `nfs_stub`, `worktree_removal_laws` |
| Deploying skills and managing what was deployed | `skill_deploy`, `deploy_task`, `deploy_tool`, `evolution_backups`, `evolution_command`, `evolution_task`, `skill_gate`, `timestamp`, and their laws |
| Memory: the report on its index, and its backup | `clusters`, `doctor`, `memory_backup`, `clusters_laws` |
| Tools: web search, browser, slash commands | `html_text`, `html_nesting`, `web_search`, `browser`, `insert_text`, `tool_meta`, `tool_config`, `model_command`, `slash_commands` |
| The rest | `home`, `proxy_url`, `finance` |
| Texts, paths and JSON | `text`, `text_order`, `byte_lines`, `paths`, `path_laws`, `json` |

The `*_runs` modules speak of whole runs of a task, and of two runs in a row.

What alternates between deciding and acting is a task: `request` says what is to be done
next, `reply` takes in what came of it. The task decides; `app/` acts. The laws in the
`*_laws` modules hold of every run of a task, whatever is answered.

`app/` holds what touches files, processes, the network and the browser.
