//! Verified core logic of the Codex terminal client: worktree management
//! decisions, slash-command and argument parsing, markdown table layout,
//! update prompts, usage-limit nudges, audio sample conversion and the
//! Windows sandbox path planning.

pub mod text;
pub mod table;
pub mod worktree;
pub mod worktree_paths;
pub mod worktree_git;
pub mod slash;
pub mod update;
pub mod update_notice;
pub mod update_prompt;
pub mod sandbox_paths;
pub mod sandbox_policy;
pub mod usage_nudge;
pub mod remote_session;
pub mod git;
pub mod audio;
pub mod transcription;
pub mod history;
pub mod source_partition;
pub mod motion;
pub mod subagents;
pub mod queued_sends;
pub mod hooks_review;
pub mod worktree_flow;
pub mod worktree_manager;
pub mod pets;
pub mod user_messages;
pub mod worktree_listing;
