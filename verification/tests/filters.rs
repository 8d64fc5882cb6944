//! Git filters: exact outputs and edge cases.
use rtk::git::args::{normalize_diff_args, normalize_diff_args_impl};
use rtk::git::branch::filter_branch_output;
use rtk::git::diff::{compact_diff, MAX_HUNK_LINES};
use rtk::git::log::{filter_log_output, parse_user_limit, truncate_line};
use rtk::git::push::{GitPushLineHandler, LineStreamFilter};
use rtk::git::stash::{filter_stash_list, format_stash_message};
use rtk::git::status::{
    detect_status_state, extract_detached_head, extract_state_header, filter_status_with_args,
    format_status_output, format_status_output_detached, uses_compact_status_path, GitStatusState,
};
use rtk::git::summary::{summarize_add, summarize_fetch};
use rtk::git::worktree::{filter_worktree_list, filter_worktree_list_at};
use rtk::session::CaptureResult;

fn strings(list: &[&str]) -> Vec<String> {
    list.iter().map(|s| s.to_string()).collect()
}

#[test]
fn a_diff_of_two_files_has_totals_for_each() {
    let diff = "diff --git a/x b/x\nindex 1..2\n--- a/x\n+++ b/x\n@@ -1,2 +1,3 @@ fn f\n ctx\n-old\n+new\n+more\n ctx\n\\ No newline at end of file\ndiff --git a/y b/y\n@@ -1 +1 @@\n-gone\n";
    assert_eq!(
        compact_diff(diff, 500),
        "\nx\n  @@ -1,2 +1,3 @@ fn f\n  -old\n  +new\n  +more\n   ctx\n  +2 -1\n\ny\n  @@ -1 +1 @@\n  -gone\n  +0 -1"
    );
}

#[test]
fn a_hunk_is_cut_and_says_so() {
    let mut diff = "diff --git a/x b/x\n@@ -1 +1 @@\n".to_string();
    for i in 0..MAX_HUNK_LINES + 7 {
        diff.push_str(&format!("+l{}\n", i));
    }
    let compact = compact_diff(&diff, 500);
    let lines: Vec<&str> = compact.lines().collect();
    assert_eq!(lines[2 + MAX_HUNK_LINES], "  +l99");
    assert_eq!(lines[3 + MAX_HUNK_LINES], "  ... (7 lines truncated)");
    assert_eq!(lines[4 + MAX_HUNK_LINES], "  +107 -0");
    assert_eq!(
        lines[5 + MAX_HUNK_LINES],
        "[full diff: rtk git diff --no-compact]"
    );
    assert_eq!(lines.len(), 6 + MAX_HUNK_LINES);
}

#[test]
fn a_diff_is_cut_at_its_cap() {
    let diff = "diff --git a/x b/x\n@@ -1 +1 @@\n+a\n+b\n+c\n";
    assert_eq!(
        compact_diff(diff, 3),
        "\nx\n  @@ -1 +1 @@\n  +a\n\n... (more changes truncated)\n  +1 -0\n[full diff: rtk git diff --no-compact]"
    );
    assert_eq!(compact_diff("", 0), "");
    assert_eq!(
        compact_diff("diff --git nothing\n", 10),
        "\nunknown"
    );
}

#[test]
fn a_compact_diff_never_exceeds_its_cap_by_much() {
    let mut diff = String::new();
    for f in 0..40 {
        diff.push_str(&format!("diff --git a/f{f} b/f{f}\n@@ -1 +1 @@\n+x\n-y\n"));
    }
    for max in 0..60usize {
        assert!(compact_diff(&diff, max).matches('\n').count() < 2 * (max + 7));
    }
}

#[test]
fn lines_are_cut_to_their_width() {
    assert_eq!(truncate_line("abcdef", 5), "ab...");
    assert_eq!(truncate_line("abcde", 5), "abcde");
    assert_eq!(truncate_line("abcd", 3), "...");
    assert_eq!(truncate_line("", 0), "");
}

#[test]
fn a_log_block_keeps_its_header_and_body() {
    let block = "h1 s1\n\n b1 \nSigned-off-by: x\nb2\nb3\nb4\nb5\n---END---\n\n---END---\nh2 s2\n---END---\n";
    assert_eq!(
        filter_log_output(block, 10, false, false),
        "h1 s1\n  b1\n  b2\n  b3\n  [+2 lines omitted]\nh2 s2"
    );
    assert_eq!(filter_log_output(block, 1, false, false).lines().count(), 5);
    assert_eq!(filter_log_output("", 10, false, false), "");
    assert_eq!(filter_log_output("a\nb\nc", 0, false, true), "");
}

#[test]
fn the_first_limit_that_is_a_number_counts() {
    for args in [
        vec!["-7"],
        vec!["-n", "7"],
        vec!["--max-count=7"],
        vec!["--max-count", "7"],
        vec!["-5x", "-7", "-9"],
        vec!["-n", "x", "-7"],
        vec!["--max-count=x", "-n", "7"],
    ] {
        assert_eq!(parse_user_limit(&strings(&args)), Some(7), "{:?}", args);
    }
    assert_eq!(parse_user_limit(&strings(&["-n"])), None);
    assert_eq!(parse_user_limit(&strings(&["-n", "-7"])), None);
    assert_eq!(parse_user_limit(&strings(&["-99999999999999999999"])), None);
}

#[test]
fn statuses_are_exact() {
    assert_eq!(format_status_output(""), "Clean working tree");
    assert_eq!(format_status_output(" \n\n"), "Clean working tree");
    assert_eq!(format_status_output("## ## x\n"), "* x\nclean — nothing to commit");
    assert_eq!(format_status_output("M  a\n\n M b\n"), "M  a\n M b");
    assert_eq!(
        format_status_output_detached("## HEAD (no branch)\n", "HEAD detached at 1"),
        "* HEAD detached at 1\nclean — nothing to commit"
    );
    assert_eq!(format_status_output_detached("M  a\n", "unused"), "M  a");
}

#[test]
fn every_state_is_told() {
    for (line, state, text) in [
        (
            "All conflicts fixed but you are still merging.",
            GitStatusState::MergeReadyToCommit,
            "merge in progress. no conflicts",
        ),
        (
            "You have unmerged paths.",
            GitStatusState::MergeConflicts,
            "merge in progress. unresolved conflicts",
        ),
        (
            "You are currently cherry-picking commit x.",
            GitStatusState::CherryPick,
            "cherry-pick in progress",
        ),
        (
            "You are currently reverting commit x.",
            GitStatusState::Revert,
            "revert in progress",
        ),
        (
            "You are currently bisecting.",
            GitStatusState::Bisect,
            "bisect in progress",
        ),
        (
            "You are in the middle of an am session.",
            GitStatusState::Am,
            "am session in progress",
        ),
        (
            "You are in a sparse checkout.",
            GitStatusState::SparseCheckout,
            "sparse checkout enabled",
        ),
        (
            "You are currently rebasing.",
            GitStatusState::Rebase,
            "rebase in progress",
        ),
        (
            "You are currently splitting a commit.",
            GitStatusState::Rebase,
            "rebase in progress",
        ),
        (
            "Next command to do (1 remaining command):",
            GitStatusState::Rebase,
            "rebase in progress",
        ),
    ] {
        assert_eq!(detect_status_state(line), Some(state));
        assert_eq!(state.summary(), text);
        let raw = format!("On branch x\n  {}\nnothing to commit\n", line);
        assert_eq!(extract_state_header(&raw).as_deref(), Some(text));
        let below = format!("nothing to commit\n{}\n", line);
        assert_eq!(extract_state_header(&below), None);
    }
    assert_eq!(detect_status_state("On branch main"), None);
    assert_eq!(
        extract_detached_head("On branch main\nUntracked files:\n\tHEAD detached at x\n"),
        None
    );
    assert_eq!(extract_detached_head("Untracked files:\n\tHEAD detached at x\n"), None);
    assert_eq!(extract_detached_head("x\n  HEAD detached from 1 \n").as_deref(), Some("HEAD detached from 1"));
}

#[test]
fn a_plain_status_ends_at_a_clean_tree() {
    assert_eq!(filter_status_with_args(""), "ok");
    assert_eq!(
        filter_status_with_args("a\n  nothing to commit, working tree clean \nb\n"),
        "a\nnothing to commit, working tree clean"
    );
    assert_eq!(
        filter_status_with_args("  (create/copy files and use)\n x (use \"git restore\")\n\ty\n"),
        "\ty"
    );
}

#[test]
fn the_compact_form_stops_at_a_combined_flag() {
    assert!(uses_compact_status_path(&[]));
    assert!(uses_compact_status_path(&strings(&["-sb", "--porcelain"])));
    assert!(!uses_compact_status_path(&strings(&["--porcelain", "-sb"])));
    assert!(uses_compact_status_path(&strings(&["-b", "-s"])));
}

#[test]
fn a_branch_list_is_exact() {
    let mut output = "* main\n  a\n  remotes/origin/HEAD -> origin/main\n  remotes/origin/main\n  remotes/o/a\n  remotes/bare\n".to_string();
    assert_eq!(filter_branch_output(&output), "* main\n  a");
    for i in 0..12 {
        output.push_str(&format!("  remotes/origin/r{}\n  remotes/fork/r{}\n", i, i));
    }
    assert_eq!(
        filter_branch_output(&output),
        "* main\n  a\n  remote-only (12):\n    r0\n    r1\n    r2\n    r3\n    r4\n    r5\n    r6\n    r7\n    r8\n    r9\n    ... +2 more"
    );
    assert_eq!(filter_branch_output(""), "* ");
}

#[test]
fn normalizing_adds_one_separator_at_most() {
    let all = |_: &str| true;
    let once = normalize_diff_args_impl(&strings(&["HEAD", "a/b", "c\\d"]), all);
    assert_eq!(once, vec!["HEAD", "--", "a/b", "c\\d"]);
    assert_eq!(normalize_diff_args_impl(&once, all), once);
    assert_eq!(
        normalize_diff_args_impl(&strings(&["~/x"]), |_: &str| false),
        vec!["--", "~/x"]
    );
    assert_eq!(
        normalize_diff_args_impl(&strings(&["-a/b", ""]), all),
        vec!["-a/b", ""]
    );
    assert_eq!(
        normalize_diff_args(&strings(&["no/such/path/here"])),
        vec!["no/such/path/here"]
    );
    assert_eq!(normalize_diff_args(&strings(&["/"])), vec!["--", "/"]);
}

#[test]
fn a_push_names_its_first_ref() {
    let mut handler = GitPushLineHandler::default();
    assert!(handler.should_skip(""));
    assert!(handler.should_skip("   Total 3 (delta 1)"));
    assert!(!handler.should_skip("To x"));
    assert_eq!(handler.format_summary(0, ""), Some("ok\n".to_string()));
    handler.observe_line(" a ->   ");
    assert_eq!(handler.format_summary(0, ""), Some("ok\n".to_string()));
    handler.observe_line(" a -> b (x)");
    handler.observe_line(" c -> d");
    assert_eq!(handler.format_summary(0, ""), Some("ok b\n".to_string()));
    assert_eq!(handler.format_summary(1, ""), None);
    handler.observe_line("Everything up-to-date");
    assert_eq!(
        handler.format_summary(0, ""),
        Some("ok (up-to-date)\n".to_string())
    );
    let mut filter = LineStreamFilter::new(handler);
    assert_eq!(filter.feed_line("Counting objects: 1"), None);
    assert_eq!(filter.feed_line(" x "), Some(" x \n".to_string()));
    assert_eq!(filter.flush(), "");
    assert_eq!(filter.on_exit(2, ""), None);
}

#[test]
fn stash_lines_keep_index_and_message() {
    assert_eq!(
        filter_stash_list("stash@{0}: WIP on a: b:  c: d \nstash@{1}: only\nplain\n"),
        "stash@{0}: b:  c: d\nstash@{1}: only\nplain"
    );
    let result = |combined: &str| CaptureResult {
        stdout: String::new(),
        stderr: String::new(),
        combined: combined.to_string(),
        exit_code: 0,
    };
    assert_eq!(format_stash_message(Some("drop"), &result("No local changes")), "ok stash drop");
    assert_eq!(
        format_stash_message(Some("save"), &result("No local changes to save")),
        "No local changes to save"
    );
    assert_eq!(format_stash_message(Some("push"), &result("")), "ok stashed");
}

#[test]
fn worktrees_below_home_have_a_tilde() {
    let list = "/home/u/w  1  [a b]\n/homes/w 2 [c]\n";
    assert_eq!(
        filter_worktree_list_at(list, "/home/u"),
        "~/w 1 [a b]\n/homes/w 2 [c]"
    );
    assert_eq!(
        filter_worktree_list_at(list, ""),
        "/home/u/w 1 [a b]\n/homes/w 2 [c]"
    );
    assert_eq!(filter_worktree_list("\n x \n"), " x ");
}

#[test]
fn summaries_of_nothing_are_short() {
    assert_eq!(summarize_add(" \n"), "");
    assert_eq!(summarize_add("x\n\n"), "ok");
    assert_eq!(summarize_fetch(""), "ok fetched");
}

#[test]
fn only_what_may_be_a_path_is_asked_about() {
    let asked = |args: &[&str], found: bool| {
        let seen = std::cell::RefCell::new(Vec::new());
        let out = normalize_diff_args_impl(&strings(args), |path: &str| {
            seen.borrow_mut().push(path.to_string());
            found
        });
        (out, seen.into_inner())
    };
    let (out, seen) = asked(&["HEAD", "-a/b", "a/b", "c\\d", "main"], false);
    assert_eq!(out, strings(&["HEAD", "-a/b", "a/b", "c\\d", "main"]));
    assert_eq!(seen, strings(&["a/b", "c\\d"]));
    let (out, seen) = asked(&["a/b", "c/d"], true);
    assert_eq!(out, strings(&["--", "a/b", "c/d"]));
    assert_eq!(seen, strings(&["a/b"]));
    let (out, seen) = asked(&["x/y", "./z", "a/b"], false);
    assert_eq!(out, strings(&["x/y", "--", "./z", "a/b"]));
    assert_eq!(seen, strings(&["x/y"]));
    let (out, seen) = asked(&["a/b", "--", "c/d"], true);
    assert_eq!(out, strings(&["a/b", "--", "c/d"]));
    assert!(seen.is_empty());
}
