//! Filters for git output: log, status, diff and more, reduced to the essential.
pub mod args;
pub mod branch;
pub mod branch_run;
pub mod change_run;
pub mod command;
pub mod diff;
pub mod diff_parts;
pub mod diff_run;
pub mod log;
pub mod log_run;
pub mod push;
pub mod session;
pub mod show_run;
pub mod stash;
pub mod stash_run;
pub mod status;
pub mod status_run;
pub mod summary;
pub mod worktree;
pub mod worktree_run;
