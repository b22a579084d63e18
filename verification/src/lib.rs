//! The decision-making core of the qidi coding agent.
pub mod browser;
pub mod browser_meaning;
pub mod byte_lines;
pub mod checkpoint;
pub mod checkpoint_meaning;
pub mod cleanup_meaning;
pub mod clusters;
pub mod clusters_laws;
pub mod deploy_laws;
pub mod deploy_meaning;
pub mod deploy_runs;
pub mod deploy_task;
pub mod deploy_tool;
pub mod doctor;
pub mod doctor_meaning;
pub mod evolution_backups;
pub mod evolution_command;
pub mod evolution_laws;
pub mod evolution_meaning;
pub mod evolution_outcomes;
pub mod evolution_runs;
pub mod evolution_task;
pub mod finance;
pub mod home;
pub mod html_meaning;
pub mod html_nesting;
pub mod html_text;
pub mod insert_text;
pub mod json;
pub mod jsonl;
pub mod memory_backup;
pub mod memory_meaning;
pub mod message_meaning;
pub mod model_command;
pub mod model_meaning;
pub mod nesting_meaning;
pub mod nfs_stub;
pub mod orphan_scan;
pub mod path_laws;
pub mod path_meaning;
pub mod paths;
pub mod proxy_url;
pub mod removal_meaning;
pub mod replay;
pub mod replay_laws;
pub mod replay_meaning;
pub mod scan_meaning;
pub mod search_meaning;
pub mod session_line;
pub mod session_meaning;
pub mod skill_deploy;
pub mod skill_gate;
pub mod slash_commands;
pub mod text;
pub mod text_laws;
pub mod text_order;
pub mod timestamp;
pub mod timestamp_laws;
pub mod tool_config;
pub mod tool_meta;
pub mod web_search;
pub mod worktree;
pub mod worktree_cleanup;
pub mod worktree_host;
pub mod worktree_removal;
pub mod worktree_removal_laws;
