//! Git: command lines, filters and argument handling.
use rtk::git::args::{is_blob_show_arg, normalize_diff_args_impl};
use rtk::git::branch::filter_branch_output;
use rtk::git::command::{build_commit_command, build_status_command, git_cmd, git_cmd_c_locale};
use rtk::git::diff::compact_diff;
use rtk::git::log::{filter_log_output, parse_user_limit};
use rtk::git::push::{noise_prefixes, GitPushLineHandler, LineStreamFilter};
use rtk::git::stash::filter_stash_list;
use rtk::git::status::{
    extract_detached_head, extract_state_header, filter_status_with_args, format_status_output,
    format_status_output_detached, uses_compact_status_path,
};
use rtk::git::worktree::filter_worktree_list;

fn exists_mock<'a>(existing: &'a [&'a str]) -> impl Fn(&str) -> bool + 'a {
    move |p| existing.contains(&p)
}

fn run_push_filter(input: &str, exit_code: i32) -> String {
    let mut f = LineStreamFilter::new(GitPushLineHandler::default());
    let mut out = String::new();
    for line in input.lines() {
        if let Some(s) = f.feed_line(line) {
            out.push_str(&s);
        }
    }
    out.push_str(&f.flush());
    if let Some(s) = f.on_exit(exit_code, input) {
        out.push_str(&s);
    }
    out
}

#[test]
fn test_git_cmd_no_global_args() {
    let cmd = git_cmd(&[]);
    assert_eq!(cmd.program, "git");
    assert!(cmd.args.is_empty());
}

#[test]
fn test_git_cmd_with_directory() {
    let global_args = vec!["-C".to_string(), "/tmp".to_string()];
    let cmd = git_cmd(&global_args);
    let args = cmd.args;
    assert_eq!(args, vec!["-C", "/tmp"]);
}

#[test]
fn test_git_cmd_with_multiple_global_args() {
    let global_args = vec![
        "-C".to_string(),
        "/tmp".to_string(),
        "-c".to_string(),
        "user.name=test".to_string(),
        "--git-dir".to_string(),
        "/foo/.git".to_string(),
    ];
    let cmd = git_cmd(&global_args);
    let args = cmd.args;
    assert_eq!(
        args,
        vec![
            "-C",
            "/tmp",
            "-c",
            "user.name=test",
            "--git-dir",
            "/foo/.git"
        ]
    );
}

#[test]
fn test_git_cmd_with_boolean_flags() {
    let global_args = vec!["--no-pager".to_string(), "--bare".to_string()];
    let cmd = git_cmd(&global_args);
    let args = cmd.args;
    assert_eq!(args, vec!["--no-pager", "--bare"]);
}

#[test]
fn test_git_cmd_c_locale_sets_stable_env() {
    let cmd = git_cmd_c_locale(&[]);
    let envs = cmd.env;
    assert!(envs.contains(&("LC_ALL".to_string(), "C".to_string())));
}

#[test]
fn test_build_status_command_default_includes_uall() {
    let cmd = build_status_command(&[], &[]);
    let args = cmd.args;
    assert_eq!(args, vec!["status", "--porcelain", "-b", "-uall"]);
}

#[test]
fn test_uses_compact_status_path_for_branch_and_short_flags() {
    assert!(uses_compact_status_path(&["-b".to_string()]));
    assert!(uses_compact_status_path(&["--branch".to_string()]));
    assert!(uses_compact_status_path(&["-sb".to_string()]));
    assert!(uses_compact_status_path(&["-s".to_string(), "-b".to_string()]));
    assert!(uses_compact_status_path(&["--short".to_string(), "--branch".to_string()]));
    assert!(!uses_compact_status_path(&["-s".to_string()]));
    assert!(!uses_compact_status_path(&["--short".to_string()]));
    assert!(!uses_compact_status_path(&["--porcelain".to_string()]));
    assert!(!uses_compact_status_path(&["-uno".to_string()]));
}

#[test]
fn test_build_status_command_with_user_args_passthrough() {
    let args = vec!["--short".to_string(), "--branch".to_string()];
    let cmd = build_status_command(&args, &[]);
    let cmd_args = cmd.args;
    assert_eq!(cmd_args, vec!["status", "--porcelain", "-b", "-uall"]);
}

#[test]
fn test_build_status_command_with_incompatible_user_args_passthrough() {
    let args = vec!["--porcelain".to_string(), "-uno".to_string()];
    let cmd = build_status_command(&args, &[]);
    let cmd_args = cmd.args;
    assert_eq!(cmd_args, vec!["status", "--porcelain", "-uno"]);
}

#[test]
fn test_compact_diff() {
    let diff = r#"diff --git a/foo.rs b/foo.rs
--- a/foo.rs
+++ b/foo.rs
@@ -1,3 +1,4 @@
 fn main() {
+    println!("hello");
 }
"#;
        let result = compact_diff(diff, 100);
        assert!(result.contains("foo.rs"));
        assert!(result.contains("+"));
    }

#[test]
fn test_compact_diff_preserves_full_hunk_header_context() {
    let diff = r#"diff --git a/foo.rs b/foo.rs
--- a/foo.rs
+++ b/foo.rs
@@ -10,3 +10,4 @@ fn important_context() {
 fn main() {
+    println!("hello");
 }
"#;
        let result = compact_diff(diff, 100);
        assert!(
            result.contains("@@ -10,3 +10,4 @@ fn important_context() {"),
            "Expected full hunk header with trailing context, got:\n{}",
            result
        );
    }

#[test]
fn test_compact_diff_increased_hunk_limit() {
    // Build a hunk with 25 changed lines — should NOT be truncated with limit 30
    let mut diff =
        "diff --git a/big.rs b/big.rs\n--- a/big.rs\n+++ b/big.rs\n@@ -1,25 +1,25 @@\n"
            .to_string();
    for i in 1..=25 {
        diff.push_str(&format!("+line{}\n", i));
    }
    let result = compact_diff(&diff, 500);
    assert!(
        !result.contains("... (truncated)"),
        "25 lines should not be truncated with max_hunk_lines=30"
    );
    assert!(result.contains("+line25"));
}

#[test]
fn test_compact_diff_increased_total_limit() {
    // Build a diff with 150 output result lines across multiple files — should NOT be cut at 100
    let mut diff = String::new();
    for f in 1..=5 {
        diff.push_str(&format!("diff --git a/file{f}.rs b/file{f}.rs\n--- a/file{f}.rs\n+++ b/file{f}.rs\n@@ -1,20 +1,20 @@\n"));
        for i in 1..=20 {
            diff.push_str(&format!("+line{f}_{i}\n"));
        }
    }
    let result = compact_diff(&diff, 500);
    assert!(
        !result.contains("more changes truncated"),
        "5 files × 20 lines should not exceed max_lines=500"
    );
}

/// Baseline: `--` already present → no-op, args unchanged.
#[test]
fn test_normalize_diff_args_noop_when_separator_present() {
    let args = vec![
        "HEAD".to_string(),
        "--".to_string(),
        "src/main.rs".to_string(),
    ];
    assert_eq!(normalize_diff_args_impl(&args, exists_mock(&[])), args);
}

/// Core regression (issue #1215): clap ate `--` before a real file path.
/// When the path exists on disk, `--` must be re-inserted.
#[test]
fn test_normalize_diff_args_reinserts_separator_before_existing_path() {
    let args = vec!["apps/client/frontend/src/MyComponent.tsx".to_string()];
    let normalized = normalize_diff_args_impl(
        &args,
        exists_mock(&["apps/client/frontend/src/MyComponent.tsx"]),
    );
    assert_eq!(
        normalized,
        vec![
            "--".to_string(),
            "apps/client/frontend/src/MyComponent.tsx".to_string()
        ],
        "-- must be injected before an existing path"
    );
}

/// Ref before path: ["HEAD", "src/foo.rs"] where src/foo.rs exists → inject after HEAD.
#[test]
fn test_normalize_diff_args_reinserts_separator_after_ref() {
    let args = vec!["HEAD".to_string(), "src/foo.rs".to_string()];
    let normalized = normalize_diff_args_impl(&args, exists_mock(&["src/foo.rs"]));
    assert_eq!(
        normalized,
        vec![
            "HEAD".to_string(),
            "--".to_string(),
            "src/foo.rs".to_string()
        ]
    );
}

/// Flags before path: ["--cached", "src/foo.rs"] where src/foo.rs exists.
#[test]
fn test_normalize_diff_args_reinserts_separator_after_flag() {
    let args = vec!["--cached".to_string(), "src/foo.rs".to_string()];
    let normalized = normalize_diff_args_impl(&args, exists_mock(&["src/foo.rs"]));
    assert_eq!(
        normalized,
        vec![
            "--cached".to_string(),
            "--".to_string(),
            "src/foo.rs".to_string()
        ]
    );
}

/// Pure flags (no paths) → no injection.
#[test]
fn test_normalize_diff_args_no_injection_for_pure_flags() {
    let args = vec!["--stat".to_string(), "--cached".to_string()];
    assert_eq!(normalize_diff_args_impl(&args, exists_mock(&[])), args);
}

/// Dotfile that exists on disk → inject `--`.
#[test]
fn test_normalize_diff_args_dotfile_is_path() {
    let args = vec![".gitignore".to_string()];
    let normalized = normalize_diff_args_impl(&args, exists_mock(&[".gitignore"]));
    assert_eq!(normalized, vec!["--".to_string(), ".gitignore".to_string()]);
}

/// A bare ref (HEAD) that doesn't exist as a file → no injection.
#[test]
fn test_normalize_diff_args_no_injection_for_bare_ref() {
    let args = vec!["HEAD".to_string()];
    assert_eq!(normalize_diff_args_impl(&args, exists_mock(&[])), args);
}

/// Branch name with `/` that does NOT exist as a file → no injection.
/// Regression for issue #1431: `rtk git diff feature/user-auth` must not inject `--`.
#[test]
fn test_normalize_diff_args_no_injection_for_branch_with_slash() {
    let args = vec!["feature/user-auth".to_string()];
    assert_eq!(
        normalize_diff_args_impl(&args, exists_mock(&[])),
        args,
        "branch names containing '/' must not trigger -- injection"
    );
}

/// Range syntax with `/` → no injection.
/// Regression: `rtk git diff main...feature/user-auth` produced no output.
#[test]
fn test_normalize_diff_args_no_injection_for_range_with_slash() {
    let args = vec!["main...feature/user-auth".to_string()];
    assert_eq!(
        normalize_diff_args_impl(&args, exists_mock(&[])),
        args,
        "revision ranges like main...feature/user-auth must not trigger -- injection"
    );
}

/// Bare word that happens to exist as a file on disk → still no injection.
/// A file named "main" must not cause `--` to be injected when the user
/// intends `rtk git diff main` as a branch comparison.
#[test]
fn test_normalize_diff_args_no_injection_for_bare_word_even_if_file_exists() {
    let args = vec!["main".to_string()];
    assert_eq!(
        normalize_diff_args_impl(&args, exists_mock(&["main"])),
        args,
        "bare words must never trigger -- injection even when a same-named file exists"
    );
}

#[test]
fn test_is_blob_show_arg() {
    assert!(is_blob_show_arg("develop:modules/pairs_backtest.py"));
    assert!(is_blob_show_arg("HEAD:src/main.rs"));
    assert!(!is_blob_show_arg("--pretty=format:%h"));
    assert!(!is_blob_show_arg("--format=short"));
    assert!(!is_blob_show_arg("HEAD"));
}

#[test]
fn test_filter_branch_output() {
    let output = "* main\n  feature/auth\n  fix/bug-123\n  remotes/origin/HEAD -> origin/main\n  remotes/origin/main\n  remotes/origin/feature/auth\n  remotes/origin/release/v2\n";
    let result = filter_branch_output(output);
    assert!(result.contains("* main"));
    assert!(result.contains("feature/auth"));
    assert!(result.contains("fix/bug-123"));
    // remote-only should show release/v2 but not main or feature/auth (already local)
    assert!(result.contains("remote-only"));
    assert!(result.contains("release/v2"));
}

#[test]
fn test_filter_branch_no_remotes() {
    let output = "* main\n  develop\n";
    let result = filter_branch_output(output);
    assert!(result.contains("* main"));
    assert!(result.contains("develop"));
    assert!(!result.contains("remote-only"));
}

#[test]
fn test_filter_branch_multi_remote() {
    let output = "* main\n  develop\n  remotes/origin/HEAD -> origin/main\n  remotes/origin/main\n  remotes/origin/feature-x\n  remotes/upstream/main\n  remotes/upstream/release-v3\n  remotes/fork/main\n  remotes/fork/experiment\n";
    let result = filter_branch_output(output);
    assert!(result.contains("* main"));
    assert!(result.contains("develop"));
    assert!(
        result.contains("feature-x"),
        "origin branch shown: {}",
        result
    );
    assert!(
        result.contains("release-v3"),
        "upstream branch shown: {}",
        result
    );
    assert!(
        result.contains("experiment"),
        "fork branch shown: {}",
        result
    );
    assert!(
        !result.contains("remotes/"),
        "remote prefix stripped: {}",
        result
    );
    let main_count = result.matches("main").count();
    assert!(
        main_count <= 2,
        "main deduplicated across remotes (found {} occurrences): {}",
        main_count,
        result
    );
}

#[test]
fn test_filter_stash_list() {
    let output =
        "stash@{0}: WIP on main: abc1234 fix login\nstash@{1}: On feature: def5678 wip\n";
    let result = filter_stash_list(output);
    assert!(result.contains("stash@{0}: abc1234 fix login"));
    assert!(result.contains("stash@{1}: def5678 wip"));
}

#[test]
fn test_filter_worktree_list() {
    let output =
        "/home/user/project  abc1234 [main]\n/home/user/worktrees/feat  def5678 [feature]\n";
    let result = filter_worktree_list(output);
    assert!(result.contains("abc1234"));
    assert!(result.contains("[main]"));
    assert!(result.contains("[feature]"));
}

#[test]
fn test_format_status_output_clean() {
    let porcelain = "## main...origin/main\n";
    let result = format_status_output(porcelain);
    assert_eq!(result, "* main...origin/main\nclean — nothing to commit");
}

#[test]
fn test_extract_state_header_clean_returns_none() {
    let raw = "On branch main\nYour branch is up to date with 'origin/main'.\n\nnothing to commit, working tree clean\n";
    assert_eq!(extract_state_header(raw), None);
}

#[test]
fn test_extract_state_header_no_state_with_changes_returns_none() {
    let raw = "On branch main\nChanges not staged for commit:\n  (use \"git add <file>...\" to update what will be committed)\n\tmodified:   src/main.rs\n\nno changes added to commit\n";
    assert_eq!(extract_state_header(raw), None);
}

#[test]
fn test_extract_state_header_editing_while_rebasing() {
    let raw = "On branch feature\n\ninteractive rebase in progress; onto abc1234\nLast command done (1 command done):\n   edit abc123 some message\nNo commands remaining.\nYou are currently editing a commit while rebasing branch 'feature' on 'abc1234'.\n  (use \"git commit --amend\" to amend the current commit)\n  (use \"git rebase --continue\" once you are satisfied with your changes)\n\nnothing to commit, working tree clean\n";
    let out = extract_state_header(raw).expect("state expected");
    assert_eq!(out, "rebase in progress");
}

#[test]
fn test_extract_state_header_merge_unresolved() {
    let raw = "On branch main\nYou have unmerged paths.\n  (fix conflicts and run \"git commit\")\n  (use \"git merge --abort\" to abort the merge)\n\nUnmerged paths:\n\tboth modified:   src/main.rs\n";
    let out = extract_state_header(raw).expect("state expected");
    assert_eq!(out, "merge in progress. unresolved conflicts");
}

#[test]
fn test_extract_state_header_cherry_pick() {
    let raw = "On branch main\n\nYou are currently cherry-picking commit abc1234.\n  (fix conflicts and run \"git cherry-pick --continue\")\n  (use \"git cherry-pick --abort\" to cancel the cherry-pick operation)\n\nnothing to commit, working tree clean\n";
    let out = extract_state_header(raw).expect("state expected");
    assert_eq!(out, "cherry-pick in progress");
}

#[test]
fn test_extract_state_header_bisect() {
    let raw = "On branch main\n\nYou are currently bisecting, started from branch 'main'.\n  (use \"git bisect reset\" to get back to the original branch)\n\nnothing to commit, working tree clean\n";
    let out = extract_state_header(raw).expect("state expected");
    assert_eq!(out, "bisect in progress");
}

#[test]
fn test_extract_state_header_revert() {
    let raw = "On branch main\n\nYou are currently reverting commit abc1234.\n  (fix conflicts and run \"git revert --continue\")\n  (use \"git revert --abort\" to cancel the revert operation)\n\nnothing to commit, working tree clean\n";
    let out = extract_state_header(raw).expect("state expected");
    assert_eq!(out, "revert in progress");
}

#[test]
fn test_extract_state_header_merge_in_middle() {
    let raw = "On branch main\n\nAll conflicts fixed but you are still merging.\n  (use \"git commit\" to conclude merge)\n\nChanges to be committed:\n\tmodified:   src/main.rs\n";
    let out = extract_state_header(raw).expect("state expected");
    assert_eq!(out, "merge in progress. no conflicts");
}

#[test]
fn test_extract_state_header_am_session() {
    let raw = "On branch main\n\nYou are in the middle of an am session.\n  (use \"git am --continue\" to continue)\n  (use \"git am --abort\" to restore the original branch)\n\nnothing to commit, working tree clean\n";
    let out = extract_state_header(raw).expect("state expected");
    assert_eq!(out, "am session in progress");
}

#[test]
fn test_extract_state_header_sparse_checkout() {
    let raw = "On branch main\n\nYou are in a sparse checkout with 17% of tracked files present.\n\nnothing to commit, working tree clean\n";
    let out = extract_state_header(raw).expect("state expected");
    assert_eq!(out, "sparse checkout enabled");
}

#[test]
fn test_format_status_output_preserves_nested_untracked_paths() {
    let porcelain = "## main\n?? tmp/c.txt\n?? tmp/nested/d.txt\n";
    let result = format_status_output(porcelain);
    assert!(result.contains("* main"));
    assert!(result.contains("?? tmp/c.txt"));
    assert!(result.contains("?? tmp/nested/d.txt"));
    assert!(
        result.lines().all(|line| line != "?? tmp/"),
        "Nested untracked files must not collapse back to a directory marker:\n{}",
        result
    );
}

#[test]
fn test_format_status_output_mixed_changes() {
    let porcelain = r#"## main
M  staged.rs
 M modified.rs
A  added.rs
?? untracked.txt
"#;
        let result = format_status_output(porcelain);
        assert!(result.contains("* main"));
        assert!(result.contains("M  staged.rs"));
        assert!(result.contains(" M modified.rs"));
        assert!(result.contains("A  added.rs"));
        assert!(result.contains("?? untracked.txt"));
        assert!(!result.contains("Staged"));
        assert!(!result.contains("Modified"));
        assert!(!result.contains("Untracked"));
    }

#[test]
fn test_format_status_output_preserves_rename_and_conflict_lines() {
    let porcelain = "## main\nR  old.rs -> new.rs\nUU conflict.rs\nMM mixed.rs\n";
    let result = format_status_output(porcelain);
    assert!(result.contains("* main"));
    assert!(result.contains("R  old.rs -> new.rs"));
    assert!(result.contains("UU conflict.rs"));
    assert!(result.contains("MM mixed.rs"));
    assert!(!result.contains("conflicts:"));
}

#[test]
fn test_filter_log_output() {
    let output = "abc1234 This is a commit message (2 days ago) <author>\n\n---END---\ndef5678 Another commit (1 week ago) <other>\n\n---END---\n";
    let result = filter_log_output(output, 10, false, false);
    assert!(result.contains("abc1234"));
    assert!(result.contains("def5678"));
    assert_eq!(result.lines().count(), 2);
}

#[test]
fn test_filter_log_output_with_body() {
    // Commit with body: first non-trailer body line should appear indented
    let output = "abc1234 feat: add feature (2 days ago) <author>\nBREAKING CHANGE: removed old API\nSigned-off-by: Author <a@b.com>\n---END---\ndef5678 fix: typo (1 day ago) <other>\n\n---END---\n";
    let result = filter_log_output(output, 10, false, false);
    assert!(result.contains("abc1234"));
    assert!(result.contains("BREAKING CHANGE: removed old API"));
    assert!(!result.contains("Signed-off-by:"));
    // def5678 has no body — just header
    assert!(result.contains("def5678"));
    // 3 lines: header1, body1 indented, header2
    assert_eq!(result.lines().count(), 3);
}

#[test]
fn test_filter_log_output_skips_trailers() {
    // Body with only trailers should not produce a body line
    let output = "abc1234 chore: bump (1 day ago) <bot>\nSigned-off-by: Bot <bot@ci>\nCo-authored-by: Human <h@b>\n---END---\n";
    let result = filter_log_output(output, 10, false, false);
    assert!(result.contains("abc1234"));
    assert!(!result.contains("Signed-off-by:"));
    assert!(!result.contains("Co-authored-by:"));
    assert_eq!(result.lines().count(), 1);
}

#[test]
fn test_filter_log_output_truncate_long() {
    let long_line = "abc1234 ".to_string() + &"x".repeat(100) + " (2 days ago) <author>";
    let result = filter_log_output(&long_line, 10, false, false);
    assert!(result.chars().count() < long_line.chars().count());
    assert!(result.contains("..."));
    assert!(result.chars().count() <= 80);
}

#[test]
fn test_filter_log_output_cap_lines() {
    let output = (0..20)
        .map(|i| format!("hash{} message {} (1 day ago) <author>\n\n---END---", i, i))
        .collect::<Vec<_>>()
        .join("\n");
    let result = filter_log_output(&output, 5, false, false);
    assert_eq!(result.lines().count(), 5);
}

#[test]
fn test_filter_log_output_user_limit_no_cap() {
    // When user explicitly passes -N, all N lines should be returned (no re-truncation)
    let output = (0..20)
        .map(|i| format!("hash{} message {} (1 day ago) <author>\n\n---END---", i, i))
        .collect::<Vec<_>>()
        .join("\n");
    let result = filter_log_output(&output, 20, true, false);
    assert_eq!(
        result.lines().count(),
        20,
        "User's -20 should return all 20 lines"
    );
}

#[test]
fn test_filter_log_output_user_limit_wider_truncation() {
    // When user explicitly passes -N, lines up to 120 chars should NOT be truncated
    let line_90_chars = format!("abc1234 {} (2 days ago) <author>", "x".repeat(60));
    assert!(line_90_chars.chars().count() > 80);
    assert!(line_90_chars.chars().count() < 120);

    let result_default = filter_log_output(&line_90_chars, 10, false, false);
    let result_user = filter_log_output(&line_90_chars, 10, true, false);

    // Default truncates at 80 chars
    assert!(
        result_default.contains("..."),
        "Default should truncate at 80 chars"
    );
    // User-set limit uses wider threshold (120 chars)
    assert!(
        !result_user.contains("..."),
        "User limit should not truncate 90-char line"
    );
}

#[test]
fn test_parse_user_limit_combined() {
    let args: Vec<String> = vec!["-20".into()];
    assert_eq!(parse_user_limit(&args), Some(20));
}

#[test]
fn test_parse_user_limit_n_space() {
    let args: Vec<String> = vec!["-n".into(), "15".into()];
    assert_eq!(parse_user_limit(&args), Some(15));
}

#[test]
fn test_parse_user_limit_max_count_eq() {
    let args: Vec<String> = vec!["--max-count=30".into()];
    assert_eq!(parse_user_limit(&args), Some(30));
}

#[test]
fn test_parse_user_limit_max_count_space() {
    let args: Vec<String> = vec!["--max-count".into(), "25".into()];
    assert_eq!(parse_user_limit(&args), Some(25));
}

#[test]
fn test_parse_user_limit_none() {
    let args: Vec<String> = vec!["--oneline".into()];
    assert_eq!(parse_user_limit(&args), None);
}

#[test]
fn test_filter_log_output_token_savings() {
    let count_tokens = |text: &str| text.split_whitespace().count();
    // Simulate verbose git log output (default format with full metadata)
    let input = (0..20)
        .map(|i| {
            format!(
                "commit abc123{:02x}\nAuthor: User Name <user@example.com>\nDate:   Mon Mar 10 10:00:00 2026 +0000\n\n    fix: commit message number {}\n\n    Extended body with details about the change.\n",
                i, i
            )
        })
        .collect::<Vec<_>>()
        .join("\n");
    let output = filter_log_output(&input, 10, false, false);
    let savings = 100.0 - (count_tokens(&output) as f64 / count_tokens(&input) as f64 * 100.0);
    assert!(
        savings >= 60.0,
        "Expected ≥60% token savings, got {:.1}%",
        savings
    );
}

#[test]
fn test_filter_status_with_args() {
    let output = r#"On branch main
Your branch is up to date with 'origin/main'.

Changes not staged for commit:
  (use "git add <file>..." to update what will be committed)
  (use "git restore <file>..." to discard changes in working directory)
	modified:   src/main.rs

no changes added to commit (use "git add" and/or "git commit -a")
"#;
        let result = filter_status_with_args(output);
            assert!(result.contains("On branch main"));
        assert!(result.contains("modified:   src/main.rs"));
        assert!(
            !result.contains("(use \"git"),
            "Result should not contain git hints"
        );
    }

#[test]
fn test_filter_status_with_args_clean() {
    let output = "nothing to commit, working tree clean\n";
    let result = filter_status_with_args(output);
    assert!(result.contains("nothing to commit"));
}

#[test]
fn test_filter_log_output_multibyte() {
    // Thai characters: each is 3 bytes. A line with >80 bytes but few chars
    let thai_msg = format!("abc1234 {} (2 days ago) <author>", "ก".repeat(30));
    let result = filter_log_output(&thai_msg, 10, false, false);
    // Should not panic
    assert!(result.contains("abc1234"));
    // The line has 30 Thai chars + other text, so > 80 chars total
    // truncate_line now counts chars, not bytes
    // 30 Thai + ~33 other = 63 chars < 80 threshold, so no truncation
    assert!(result.contains("abc1234"));
}

#[test]
fn test_filter_log_output_emoji() {
    let emoji_msg = "abc1234 🎉🎊🎈🎁🎂🎄🎃🎆🎇✨🎉🎊🎈🎁🎂🎄🎃🎆🎇✨ (1 day ago) <user>";
    let result = filter_log_output(emoji_msg, 10, false, false);
    // Should not panic
    // 20 emoji + ~30 other chars = ~50 chars < 80, no truncation needed
    assert!(result.contains("abc1234"));
}

#[test]
fn test_format_status_output_thai_filename() {
    let porcelain = "## main\n M สวัสดี.txt\n?? ทดสอบ.rs\n";
    let result = format_status_output(porcelain);
    // Should not panic
    assert!(result.contains("* main"));
    assert!(result.contains("สวัสดี.txt"));
    assert!(result.contains("ทดสอบ.rs"));
}

#[test]
fn test_format_status_output_emoji_filename() {
    let porcelain = "## main\nA  🎉-party.txt\n M 日本語ファイル.rs\n";
    let result = format_status_output(porcelain);
    assert!(result.contains("* main"));
}

/// Regression test: --oneline and other user format flags must preserve all commits.
/// Before fix, filter_log_output split on ---END--- which doesn't exist when
/// the user specifies their own format, resulting in only 2 commits surviving.
#[test]
fn test_filter_log_output_user_format_oneline() {
    let oneline_output = "abc1234 feat: add feature\n\
                              def5678 fix: typo\n\
                              ghi9012 chore: bump deps\n\
                              jkl3456 docs: update readme\n\
                              mno7890 test: add tests\n";

    let result = filter_log_output(oneline_output, 10, false, true);
    // All 5 lines must survive — no ---END--- splitting
    assert_eq!(result.lines().count(), 5);
    assert!(result.contains("abc1234"));
    assert!(result.contains("mno7890"));
}

#[test]
fn test_filter_log_output_user_format_with_limit() {
    let oneline_output = "abc1234 feat: add feature\n\
                              def5678 fix: typo\n\
                              ghi9012 chore: bump deps\n\
                              jkl3456 docs: update readme\n\
                              mno7890 test: add tests\n";

    // user_set_limit=true means respect all lines (no cap)
    let result = filter_log_output(oneline_output, 3, true, true);
    assert_eq!(result.lines().count(), 5);

    // user_set_limit=false means cap at limit
    let result = filter_log_output(oneline_output, 3, false, true);
    assert_eq!(result.lines().count(), 3);
}

#[test]
fn test_commit_single_message() {
    let args = vec!["-m".to_string(), "fix: typo".to_string()];
    let cmd = build_commit_command(&args, &[]);
    let cmd_args = cmd.args;
    assert_eq!(cmd_args, vec!["commit", "-m", "fix: typo"]);
}

#[test]
fn test_commit_multiple_messages() {
    let args = vec![
        "-m".to_string(),
        "feat: add multi-paragraph support".to_string(),
        "-m".to_string(),
        "This allows git commit -m \"title\" -m \"body\".".to_string(),
    ];
    let cmd = build_commit_command(&args, &[]);
    let cmd_args = cmd.args;
    assert_eq!(
        cmd_args,
        vec![
            "commit",
            "-m",
            "feat: add multi-paragraph support",
            "-m",
            "This allows git commit -m \"title\" -m \"body\"."
        ]
    );
}

#[test]
fn test_commit_am_flag() {
    let args = vec!["-am".to_string(), "quick fix".to_string()];
    let cmd = build_commit_command(&args, &[]);
    let cmd_args = cmd.args;
    assert_eq!(cmd_args, vec!["commit", "-am", "quick fix"]);
}

#[test]
fn test_commit_amend() {
    let args = vec![
        "--amend".to_string(),
        "-m".to_string(),
        "new msg".to_string(),
    ];
    let cmd = build_commit_command(&args, &[]);
    let cmd_args = cmd.args;
    assert_eq!(cmd_args, vec!["commit", "--amend", "-m", "new msg"]);
}

#[test]
fn test_format_status_output_shows_every_file_when_many_are_dirty() {
    let mut porcelain = String::from("## main...origin/main\n");
    for i in 0..25 {
        porcelain.push_str(&format!("M  staged_file_{}.rs\n", i));
    }
    let result = format_status_output(&porcelain);
    assert!(
        result.contains("staged_file_24.rs"),
        "Expected the last staged file to remain visible, got:\n{}",
        result
    );
    assert!(
        result.lines().count() == 26,
        "Expected branch + all 25 staged files, got:\n{}",
        result
    );
    assert!(
        !result.contains("... +"),
        "Status output must not hide dirty paths behind overflow markers:\n{}",
        result
    );
}

#[test]
fn test_compact_diff_recovery_hint_present() {
    // A hunk with 110 lines exceeds max_hunk_lines (100), triggers truncation
    // The recovery hint must appear so LLMs can re-fetch the full diff
    let mut diff = String::new();
    diff.push_str("diff --git a/large.rs b/large.rs\n");
    diff.push_str("--- a/large.rs\n");
    diff.push_str("+++ b/large.rs\n");
    diff.push_str("@@ -1,150 +1,150 @@\n");
    for i in 0..110 {
        diff.push_str(&format!("+added line {}\n", i));
    }
    let result = compact_diff(&diff, 500);
    assert!(
        result.contains("[full diff: rtk git diff --no-compact]"),
        "Expected recovery hint when hunk is truncated, got:\n{}",
        result
    );
}

#[test]
fn test_compact_diff_hunk_truncation_count_accurate() {
    // 150 change lines in one hunk: 100 shown, 50 silently dropped
    // Must report the exact count, not just "(truncated)"
    let mut diff = String::from(
        "diff --git a/large.rs b/large.rs\n--- a/large.rs\n+++ b/large.rs\n@@ -1,150 +1,150 @@\n",
    );
    for i in 0..150 {
        diff.push_str(&format!("+line {}\n", i));
    }
    let result = compact_diff(&diff, 500);
    assert!(
        result.contains("50 lines truncated"),
        "Expected '50 lines truncated' (150 - 100 = 50), got:\n{}",
        result
    );
}

#[test]
fn test_extract_detached_head_returns_line() {
    let raw = "HEAD detached at abc1234\nnothing to commit, working tree clean\n";
    assert_eq!(
        extract_detached_head(raw),
        Some("HEAD detached at abc1234".to_string())
    );
}

#[test]
fn test_extract_detached_head_on_branch_is_none() {
    let raw = "On branch main\nnothing to commit, working tree clean\n";
    assert!(extract_detached_head(raw).is_none());
}

#[test]
fn test_format_status_output_detached_head() {
    let porcelain = "## HEAD (no branch)\n M src/main.rs\n";
    let result = format_status_output_detached(porcelain, "HEAD detached at abc1234");
    assert!(
        result.contains("HEAD detached at abc1234"),
        "should use explicit detached ref, got: {result}"
    );
    assert!(
        !result.contains("HEAD (no branch)"),
        "should not show opaque porcelain string, got: {result}"
    );
}

#[test]
fn test_filter_log_output_body_omission_indicator() {
    // Commit with 6 meaningful body lines: only 3 shown, must signal "+3 lines omitted"
    let body_lines = (1..=6)
        .map(|i| format!("body line {}", i))
        .collect::<Vec<_>>()
        .join("\n");
    let output = format!(
        "abc1234 feat: big change (1 day ago) <author>\n{}\n---END---\n",
        body_lines
    );
    let result = filter_log_output(&output, 10, false, false);
    assert!(
        result.contains("+3 lines omitted"),
        "Expected '+3 lines omitted' when 6 body lines truncated to 3, got:\n{}",
        result
    );
}

#[test]
fn test_push_filter_drops_progress_phases() {
    let input = "\
Enumerating objects: 5, done.
Counting objects: 100% (5/5), done.
Delta compression using up to 8 threads
Compressing objects: 100% (3/3), done.
Writing objects: 100% (3/3), 312 bytes | 312.00 KiB/s, done.
Total 3 (delta 2), reused 0 (delta 0)
To https://github.com/foo/bar.git
   abc1234..def5678  master -> master
";
    let result = run_push_filter(input, 0);
    for prefix in noise_prefixes() {
        assert!(
            !result.contains(prefix.as_str()),
            "noise prefix '{}' leaked through, got: {}",
            prefix,
            result
        );
    }
    assert!(result.contains("To https://github.com/foo/bar.git"));
    assert!(result.contains("master -> master"));
    assert!(result.ends_with("ok master\n"), "got: {}", result);
}

#[test]
fn test_push_filter_up_to_date_summary() {
    let input = "Everything up-to-date\n";
    let result = run_push_filter(input, 0);
    assert!(result.contains("Everything up-to-date"));
    assert!(result.ends_with("ok (up-to-date)\n"), "got: {}", result);
}

#[test]
fn test_push_filter_passes_remote_messages_through() {
    let input = "\
remote: Resolving deltas: 100% (2/2), completed with 2 local objects.
remote: GitHub found 1 vulnerability on foo/bar's default branch (1 moderate).
To https://github.com/foo/bar.git
   abc1234..def5678  feature -> feature
";
    let result = run_push_filter(input, 0);
    assert!(result.contains("remote: Resolving deltas"));
    assert!(result.contains("remote: GitHub found 1 vulnerability"));
    assert!(result.ends_with("ok feature\n"), "got: {}", result);
}

#[test]
fn test_push_filter_no_summary_on_failure() {
    let input = "\
To https://github.com/foo/bar.git
 ! [rejected]        master -> master (non-fast-forward)
error: failed to push some refs to 'https://github.com/foo/bar.git'
";
    let result = run_push_filter(input, 1);
    assert!(result.contains("[rejected]"));
    assert!(result.contains("error: failed to push"));
    assert!(
        !result.contains("ok "),
        "summary leaked on failure, got: {}",
        result
    );
}

#[test]
fn test_push_filter_first_ref_wins_for_summary() {
    let input = "\
To https://github.com/foo/bar.git
   abc1234..def5678  feat/a -> feat/a
   1111111..2222222  feat/b -> feat/b
";
    let result = run_push_filter(input, 0);
    assert!(result.ends_with("ok feat/a\n"), "got: {}", result);
}

#[test]
fn test_push_filter_token_savings_on_verbose_output() {
    let input = "\
Enumerating objects: 142, done.
Counting objects: 100% (142/142), done.
Delta compression using up to 8 threads
Compressing objects: 100% (88/88), done.
Writing objects: 100% (104/104), 28.50 KiB | 14.25 MiB/s, done.
Total 104 (delta 64), reused 0 (delta 0), pack-reused 0
remote: Resolving deltas: 100% (64/64), completed with 24 local objects.
To https://github.com/foo/bar.git
   abc1234..def5678  master -> master
";
    let result = run_push_filter(input, 0);
    let count_tokens = |s: &str| s.split_whitespace().count();
    let input_tokens = count_tokens(input);
    let output_tokens = count_tokens(&result);
    let savings = 100.0 - (output_tokens as f64 / input_tokens as f64 * 100.0);
    assert!(
        savings >= 60.0,
        "expected >=60% savings, got {:.1}% (in={}, out={})",
        savings,
        input_tokens,
        output_tokens
    );
}
