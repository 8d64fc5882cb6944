//! Sessions of git commands: what runs, what is printed and what is recorded.
use rtk::git::command::{At, GitStage};
use rtk::git::session::{resume, run, GitCommand};
use rtk::session::{CaptureResult, Chunk, CommandLine, Next, Record, RunMode, Step};

fn strings(list: &[&str]) -> Vec<String> {
    list.iter().map(|s| s.to_string()).collect()
}

fn begin(cmd: GitCommand, args: &[&str]) -> Step<GitStage> {
    run(cmd, &strings(args), None, 0, &[])
}

fn captured(stdout: &str, stderr: &str, exit_code: i32) -> Option<CaptureResult> {
    Some(CaptureResult {
        stdout: stdout.to_string(),
        stderr: stderr.to_string(),
        combined: format!("{}{}", stdout, stderr),
        exit_code,
    })
}

fn running(step: Step<GitStage>) -> (Vec<Chunk>, CommandLine, RunMode, GitStage) {
    assert_eq!(step.record, None);
    match step.next {
        Next::Run {
            command,
            mode,
            stage,
        } => (step.printed.chunks, command, mode, stage),
        _ => panic!("the session does not go on"),
    }
}

fn finished(step: Step<GitStage>) -> (Vec<Chunk>, Option<Record>, i32) {
    match step.next {
        Next::Done(code) => (step.printed.chunks, step.record, code),
        _ => panic!("the session does not end"),
    }
}

fn failed(step: Step<GitStage>) -> String {
    assert!(step.printed.chunks.is_empty());
    assert_eq!(step.record, None);
    match step.next {
        Next::Fail(message) => message,
        _ => panic!("the session does not fail"),
    }
}

fn out(s: &str) -> Chunk {
    Chunk::Stdout(s.to_string())
}

fn err(s: &str) -> Chunk {
    Chunk::Stderr(s.to_string())
}

fn record(original: &str, rewritten: &str, input: &str, output: &str) -> Option<Record> {
    Some(Record {
        original: original.to_string(),
        rewritten: rewritten.to_string(),
        input: input.to_string(),
        output: output.to_string(),
    })
}

fn go_on(step: Step<GitStage>, event: Option<CaptureResult>) -> Step<GitStage> {
    let (_, _, _, stage) = running(step);
    resume(stage, event)
}

const DIFF: &str = "diff --git a/f b/f\n@@ -1 +1 @@\n-a\n+b\n";

#[test]
fn a_diff_shows_statistics_and_the_compact_diff() {
    let step = begin(GitCommand::Diff, &["HEAD"]);
    let (printed, command, mode, stage) = running(step);
    assert!(printed.is_empty());
    assert_eq!(command.program, "git");
    assert_eq!(command.args, vec!["diff", "--stat", "HEAD"]);
    assert_eq!(mode, RunMode::Captured);
    let step = resume(stage, captured(" f | 2 +-\n", "", 0));
    let (printed, command, _, stage) = running(step);
    assert_eq!(printed, vec![out("f | 2 +-\n")]);
    assert_eq!(command.args, vec!["diff", "HEAD"]);
    let (printed, made, code) = finished(resume(stage, captured(DIFF, "", 0)));
    let compact = "\nf\n  @@ -1 +1 @@\n  -a\n  +b\n  +1 -1";
    assert_eq!(
        printed,
        vec![out("\n--- Changes ---\n"), out(&format!("{}\n", compact))]
    );
    assert_eq!(
        made,
        record(
            "git diff HEAD",
            "rtk git diff HEAD",
            &format!(" f | 2 +-\n\n{}", DIFF),
            &format!(" f | 2 +-\n\n--- Changes ---\n{}", compact)
        )
    );
    assert_eq!(code, 0);
}

#[test]
fn an_empty_diff_shows_its_statistics_only() {
    let step = go_on(begin(GitCommand::Diff, &[]), captured("", "", 0));
    let (printed, made, code) = finished(go_on(step, captured("", "", 0)));
    assert!(printed.is_empty());
    assert_eq!(made, record("git diff ", "rtk git diff ", "\n", ""));
    assert_eq!(code, 0);
}

#[test]
fn a_diff_with_statistics_or_in_full_is_passed_through() {
    for (args, passed) in [
        (vec!["--stat"], vec!["diff", "--stat"]),
        (vec!["--no-compact", "HEAD"], vec!["diff", "HEAD"]),
        (vec!["--numstat", "--no-compact"], vec!["diff", "--numstat"]),
    ] {
        let (_, command, _, stage) = running(begin(GitCommand::Diff, &args));
        assert_eq!(command.args, passed);
        let (printed, made, code) = finished(resume(stage, captured("\n x \n", "", 0)));
        assert_eq!(printed, vec![out("x\n")]);
        assert_eq!(
            made.unwrap().rewritten,
            format!("rtk git diff {} (passthrough)", args.join(" "))
        );
        assert_eq!(code, 0);
    }
    let step = go_on(begin(GitCommand::Diff, &["--stat"]), captured("", "bad", 129));
    assert_eq!(finished(step), (vec![err("bad\n")], None, 129));
}

#[test]
fn a_path_in_a_diff_is_set_off() {
    let (_, command, _, _) = running(begin(GitCommand::Diff, &["HEAD", "./x"]));
    assert_eq!(command.args, vec!["diff", "--stat", "HEAD", "--", "./x"]);
}

#[test]
fn a_failing_diff_keeps_its_exit_code() {
    let step = go_on(begin(GitCommand::Diff, &[]), captured("o", "fatal: x", 128));
    assert_eq!(
        finished(step),
        (
            vec![err("fatal: x")],
            record("git diff ", "rtk git diff ", "o", "o"),
            128
        )
    );
}

#[test]
fn a_commit_is_shown_in_three_parts() {
    let step = run(
        GitCommand::Show,
        &strings(&["HEAD"]),
        Some(500),
        1,
        &strings(&["-C", "/r"]),
    );
    let (_, command, _, stage) = running(step);
    assert_eq!(command.args, vec!["-C", "/r", "show", "HEAD"]);
    let (_, command, _, stage) = running(resume(stage, captured("full", "", 0)));
    assert_eq!(
        command.args,
        vec![
            "-C",
            "/r",
            "show",
            "--no-patch",
            "--pretty=format:%h %s (%ar) <%an>",
            "HEAD"
        ]
    );
    let (printed, command, _, stage) = running(resume(stage, captured("abc s\n", "", 0)));
    assert_eq!(printed, vec![out("abc s\n")]);
    assert_eq!(
        command.args,
        vec!["-C", "/r", "show", "--stat", "--pretty=format:", "HEAD"]
    );
    let (printed, command, _, stage) = running(resume(stage, captured("\n f | 2\n", "", 0)));
    assert_eq!(printed, vec![out("f | 2\n")]);
    assert_eq!(command.args, vec!["-C", "/r", "show", "--pretty=format:", "HEAD"]);
    let (printed, made, code) = finished(resume(stage, captured(DIFF, "", 0)));
    let compact = "\nf\n  @@ -1 +1 @@\n  -a\n  +b\n  +1 -1";
    assert_eq!(
        printed,
        vec![out("\n--- Changes ---\n"), out(&format!("{}\n", compact))]
    );
    assert_eq!(
        made,
        record(
            "git show HEAD",
            "rtk git show HEAD",
            "full",
            &format!("abc s\n\n{}", compact)
        )
    );
    assert_eq!(code, 0);
}

#[test]
fn a_commit_in_full_is_not_needed_to_show_it() {
    let step = go_on(begin(GitCommand::Show, &["HEAD"]), None);
    let step = go_on(step, captured("abc\n", "", 0));
    let step = go_on(step, captured(" ", "", 0));
    let (printed, made, _) = finished(go_on(step, captured("", "", 0)));
    assert!(printed.is_empty());
    assert_eq!(made, record("git show HEAD", "rtk git show HEAD", "", "abc\n"));
}

#[test]
fn a_blob_is_shown_as_it_is() {
    let (_, _, _, stage) = running(begin(GitCommand::Show, &["HEAD:f"]));
    let (printed, _, _) = finished(resume(stage, captured(" x\n\n", "", 0)));
    assert_eq!(printed, vec![out(" x\n\n")]);
    let (_, _, _, stage) = running(begin(GitCommand::Show, &["--format=%h"]));
    let (printed, _, _) = finished(resume(stage, captured(" x\n\n", "", 0)));
    assert_eq!(printed, vec![out("x\n")]);
}

#[test]
fn a_log_gets_a_format_and_a_limit() {
    let args = |list: &[&str]| running(begin(GitCommand::Log, list)).1.args;
    let format = "--pretty=format:%h %s (%ar) <%an>%n%b%n---END---";
    assert_eq!(args(&[]), vec!["log", format, "-10", "--no-merges"]);
    assert_eq!(
        args(&["--oneline"]),
        vec!["log", "-50", "--no-merges", "--oneline"]
    );
    assert_eq!(
        args(&["-20", "--merges"]),
        vec!["log", format, "-20", "--merges"]
    );
    assert_eq!(
        args(&["-n", "3", "--pretty=x"]),
        vec!["log", "--no-merges", "-n", "3", "--pretty=x"]
    );
}

#[test]
fn a_log_is_filtered_and_recorded() {
    let step = run(GitCommand::Log, &strings(&["--oneline"]), None, 1, &[]);
    let (_, _, _, stage) = running(step);
    let (printed, made, code) = finished(resume(stage, captured("a\nb\n", "", 0)));
    assert_eq!(printed, vec![err("Git log output:\n"), out("a\nb\n")]);
    assert_eq!(
        made,
        record("git log --oneline", "rtk git log --oneline", "a\nb\n", "a\nb")
    );
    assert_eq!(code, 0);
    let step = go_on(begin(GitCommand::Log, &[]), captured("", "fatal", 128));
    assert_eq!(finished(step), (vec![err("fatal\n")], None, 128));
}

#[test]
fn a_compact_status_tells_what_the_porcelain_hides() {
    let (_, command, _, stage) = running(begin(GitCommand::Status, &[]));
    assert_eq!(command.args, vec!["status"]);
    assert_eq!(
        command.env,
        vec![("LC_ALL".to_string(), "C".to_string())]
    );
    let raw = "HEAD detached at abc\nYou are currently bisecting, started from x\n";
    let (_, command, _, stage) = running(resume(stage, captured(raw, "", 0)));
    assert_eq!(command.args, vec!["status", "--porcelain", "-b", "-uall"]);
    assert!(command.env.is_empty());
    let (printed, made, code) =
        finished(resume(stage, captured("## HEAD (no branch)\n M f\n", "", 0)));
    let shown = "bisect in progress\n* HEAD detached at abc\n M f";
    assert_eq!(printed, vec![out(&format!("{}\n", shown))]);
    assert_eq!(made, record("git status", "rtk git status", raw, shown));
    assert_eq!(code, 0);
}

#[test]
fn a_status_outside_a_repository_fails() {
    let step = go_on(begin(GitCommand::Status, &["-sb"]), None);
    let message = "fatal: not a git repository";
    assert_eq!(
        finished(go_on(step, captured("", message, 128))),
        (
            vec![err("Not a git repository\n")],
            record(
                "git status -sb",
                "rtk git status -sb",
                "",
                "Not a git repository"
            ),
            128
        )
    );
}

#[test]
fn a_status_in_another_form_loses_its_hints_only() {
    let (_, command, _, stage) = running(begin(GitCommand::Status, &["--porcelain"]));
    assert_eq!(command.args, vec!["status", "--porcelain"]);
    let (printed, _, code) = finished(resume(
        stage,
        captured("x\n  (use \"git add\")\n\ny\n", "warn", 0),
    ));
    assert_eq!(printed, vec![err("warn"), out("x\ny")]);
    assert_eq!(code, 0);
}

#[test]
fn adding_is_silent_where_nothing_is_staged() {
    let (_, command, _, stage) = running(begin(GitCommand::Add, &[]));
    assert_eq!(command.args, vec!["add", "."]);
    let (_, command, _, stage) = running(resume(stage, captured("o", "e", 0)));
    assert_eq!(command.args, vec!["diff", "--cached", "--stat", "--shortstat"]);
    assert_eq!(
        finished(resume(stage, captured("\n", "", 0))),
        (vec![], record("git add ", "rtk git add ", "o\ne", ""), 0)
    );
    let step = go_on(begin(GitCommand::Add, &["f"]), captured("", "", 0));
    let stat = " f | 1 +\n 1 file changed, 1 insertion(+)\n";
    let (printed, _, _) = finished(go_on(step, captured(stat, "", 0)));
    assert_eq!(printed, vec![out("ok 1 file changed, 1 insertion(+)\n")]);
    let step = go_on(begin(GitCommand::Add, &["f"]), captured(" ", "bad", 128));
    assert_eq!(
        finished(step),
        (vec![err("FAILED: git add\n"), err("bad\n")], None, 128)
    );
}

#[test]
fn commits_are_summed_up() {
    let step = run(GitCommand::Commit, &strings(&["-m", "x"]), None, 1, &[]);
    let (printed, command, mode, stage) = running(step);
    assert_eq!(printed, vec![err("git commit -m x\n")]);
    assert_eq!(command.args, vec!["commit", "-m", "x"]);
    assert_eq!(mode, RunMode::Interactive);
    assert_eq!(
        finished(resume(stage, captured("[main abc1234] x\n", "", 0))),
        (
            vec![out("ok abc1234\n")],
            record(
                "git commit -m x",
                "rtk git commit",
                "[main abc1234] x\n\n",
                "ok abc1234"
            ),
            0
        )
    );
    let summary = |stdout: &str| {
        let step = go_on(begin(GitCommand::Commit, &[]), captured(stdout, "", 0));
        finished(step).0
    };
    assert_eq!(summary("[main abc1234] message"), vec![out("ok abc1234\n")]);
    assert_eq!(summary("[feature/login abc1234] x"), vec![out("ok abc1234\n")]);
    assert_eq!(summary("[main abc1234def] x"), vec![out("ok abc1234\n")]);
    assert_eq!(summary("[main (root-commit) abc1234] x"), vec![out("ok abc1234\n")]);
    assert_eq!(summary("[detached HEAD abc1234] x"), vec![out("ok abc1234\n")]);
    assert_eq!(summary("[a]b abc1234] fix [x y]"), vec![out("ok abc1234\n")]);
    assert_eq!(summary("[main abc] x"), vec![out("ok\n")]);
    assert_eq!(summary("[main abc1234"), vec![out("ok\n")]);
    assert_eq!(summary("note: abc1234] x"), vec![out("ok\n")]);
    assert_eq!(summary("é x"), vec![out("ok\n")]);
    assert_eq!(summary(""), vec![out("ok\n")]);
    assert_eq!(summary("nospace"), vec![out("ok\n")]);
    let step = go_on(
        begin(GitCommand::Commit, &[]),
        captured("nothing to commit, working tree clean", "", 1),
    );
    let (printed, _, code) = finished(step);
    assert_eq!(printed, vec![out("ok (nothing to commit)\n")]);
    assert_eq!(code, 0);
    let step = go_on(begin(GitCommand::Commit, &[]), captured("o", "e", 1));
    let (printed, made, code) = finished(step);
    assert_eq!(printed, vec![err("e"), err("o")]);
    assert_eq!(made.unwrap().output, "o\ne");
    assert_eq!(code, 1);
}

#[test]
fn a_push_is_streamed_and_recorded() {
    let step = run(GitCommand::Push, &strings(&["origin"]), None, 1, &[]);
    let (printed, command, mode, stage) = running(step);
    assert_eq!(printed, vec![err("git push\n")]);
    assert_eq!(command.args, vec!["push", "origin"]);
    assert_eq!(mode, RunMode::Streamed);
    let event = Some(CaptureResult {
        stdout: "filtered".to_string(),
        stderr: String::new(),
        combined: "raw".to_string(),
        exit_code: 1,
    });
    assert_eq!(
        finished(resume(stage, event)),
        (
            vec![],
            record("git push origin", "rtk git push origin", "raw", "filtered"),
            1
        )
    );
}

#[test]
fn pulls_are_summed_up() {
    let summary = |stdout: &str| {
        let step = go_on(begin(GitCommand::Pull, &[]), captured(stdout, "", 0));
        finished(step).0
    };
    assert_eq!(summary("Already up to date.\n"), vec![out("ok (up-to-date)\n")]);
    assert_eq!(summary("Already up-to-date.\n"), vec![out("ok (up-to-date)\n")]);
    assert_eq!(
        summary("Updating\n 3 files changed, 10 insertions(+), 2 deletions(-)\n"),
        vec![out("ok 3 files +10 -2\n")]
    );
    assert_eq!(
        summary(" 1 file changed, 4 deletions(-)\n"),
        vec![out("ok 1 files +0 -4\n")]
    );
    assert_eq!(summary("x files changed\n"), vec![out("ok\n")]);
    assert_eq!(summary(""), vec![out("ok\n")]);
    let step = go_on(begin(GitCommand::Pull, &["-q"]), captured("o", "e", 1));
    assert_eq!(
        finished(step),
        (
            vec![err("FAILED: git pull\n"), err("e\n"), err("o\n")],
            None,
            1
        )
    );
}

#[test]
fn fetches_are_summed_up() {
    let step = go_on(
        begin(GitCommand::Fetch, &["--all"]),
        captured("", "From x\n a..b main -> origin/main\n * [new tag] v1\n", 0),
    );
    let (printed, made, code) = finished(step);
    assert_eq!(printed, vec![out("ok fetched (2 new refs)\n")]);
    assert_eq!(made.unwrap().original, "git fetch");
    assert_eq!(code, 0);
    let step = go_on(begin(GitCommand::Fetch, &[]), captured("", "", 0));
    assert_eq!(finished(step).0, vec![out("ok fetched\n")]);
    let step = go_on(begin(GitCommand::Fetch, &[]), captured("", "e", 1));
    assert_eq!(
        finished(step),
        (vec![err("FAILED: git fetch\n"), err("e\n")], None, 1)
    );
}

#[test]
fn a_named_branch_is_made_and_not_listed() {
    let args = |list: &[&str]| running(begin(GitCommand::Branch, list)).1.args;
    assert_eq!(args(&["topic"]), vec!["branch", "topic"]);
    assert_eq!(args(&["topic", "HEAD"]), vec!["branch", "topic", "HEAD"]);
    assert_eq!(args(&["-d", "topic"]), vec!["branch", "-d", "topic"]);
    assert_eq!(args(&[]), vec!["branch", "-a", "--no-color"]);
    assert_eq!(args(&["-r"]), vec!["branch", "--no-color", "-r"]);
    assert_eq!(
        args(&["--contains", "abc"]),
        vec!["branch", "--no-color", "--contains", "abc"]
    );
    assert_eq!(args(&["-v"]), vec!["branch", "-a", "--no-color", "-v"]);
    let step = go_on(begin(GitCommand::Branch, &["topic"]), captured("", "", 0));
    assert_eq!(
        finished(step),
        (
            vec![out("ok\n")],
            record("git branch topic", "rtk git branch topic", "", "ok"),
            0
        )
    );
    let step = go_on(begin(GitCommand::Branch, &["topic"]), captured("o", "e", 128));
    assert_eq!(
        finished(step),
        (
            vec![err("FAILED: git branch topic\n"), err("e\n"), err("o\n")],
            record("git branch topic", "rtk git branch topic", "oe", "oe"),
            128
        )
    );
}

#[test]
fn branches_are_shown_and_listed() {
    let step = go_on(
        begin(GitCommand::Branch, &["--show-current"]),
        captured("main\n", "", 0),
    );
    assert_eq!(finished(step).0, vec![out("main\n")]);
    let step = go_on(
        begin(GitCommand::Branch, &["--show-current"]),
        captured("", "e", 1),
    );
    let (printed, made, code) = finished(step);
    assert_eq!(
        printed,
        vec![err("FAILED: git branch --show-current\n"), err("e\n")]
    );
    assert_eq!(made.unwrap().output, "");
    assert_eq!(code, 1);
    let step = go_on(begin(GitCommand::Branch, &[]), captured("* main\n  a\n", "", 0));
    assert_eq!(finished(step).0, vec![out("* main\n  a\n")]);
    let step = go_on(begin(GitCommand::Branch, &[]), captured("x", "e", 2));
    assert_eq!(
        finished(step),
        (
            vec![err("e")],
            record("git branch ", "rtk git branch ", "x", "x"),
            2
        )
    );
}

fn stash(sub: Option<&str>, args: &[&str]) -> Step<GitStage> {
    let subcommand = sub.map(|s| s.to_string());
    run(GitCommand::Stash { subcommand }, &strings(args), None, 0, &[])
}

#[test]
fn stash_operations_run_as_they_are_named() {
    let args = |sub: Option<&str>, list: &[&str]| running(stash(sub, list)).1.args;
    assert_eq!(args(None, &[]), vec!["stash", "push"]);
    assert_eq!(args(None, &["-m", "x"]), vec!["stash", "push", "-m", "x"]);
    assert_eq!(args(Some("push"), &["f"]), vec!["stash", "push", "f"]);
    assert_eq!(args(Some("save"), &["f"]), vec!["stash", "save", "f"]);
    assert_eq!(args(Some("pop"), &["x"]), vec!["stash", "pop", "x"]);
    assert_eq!(args(Some("--"), &["f"]), vec!["stash", "push", "--", "f"]);
    assert_eq!(args(Some("list"), &["ignored"]), vec!["stash", "list"]);
    assert_eq!(args(Some("show"), &["0"]), vec!["stash", "show", "-p", "0"]);
}

#[test]
fn a_stash_that_saved_nothing_is_told() {
    let step = go_on(stash(None, &[]), captured("No local changes to save\n", "", 0));
    assert_eq!(finished(step).0, vec![out("No local changes to save\n")]);
    let step = go_on(stash(None, &[]), captured("Saved working directory\n", "", 0));
    assert_eq!(
        finished(step),
        (
            vec![out("ok stashed\n")],
            record(
                "git stash push",
                "rtk git stash push",
                "Saved working directory\n",
                "ok stashed"
            ),
            0
        )
    );
    for sub in ["-u", "push", "save", "--"] {
        let step = go_on(stash(Some(sub), &[]), captured("No local changes to save\n", "", 0));
        let (printed, made, code) = finished(step);
        assert_eq!(printed, vec![out("No local changes to save\n")], "{}", sub);
        assert_eq!(made.unwrap().output, "No local changes to save");
        assert_eq!(code, 0);
        let step = go_on(stash(Some(sub), &[]), captured("Saved\n", "", 0));
        assert_eq!(finished(step).0, vec![out("ok stashed\n")], "{}", sub);
    }
    let step = go_on(stash(Some("pop"), &[]), captured("", "", 0));
    assert_eq!(finished(step).0, vec![out("ok stash pop\n")]);
    let step = go_on(stash(Some("pop"), &[]), captured("o", "e", 1));
    assert_eq!(
        finished(step),
        (
            vec![err("FAILED: git stash pop\n"), err("e\n")],
            record("git stash pop", "rtk git stash pop", "oe", "oe"),
            1
        )
    );
}

#[test]
fn stashes_are_listed_and_shown() {
    let step = go_on(stash(Some("list"), &[]), captured("\n", "", 0));
    assert_eq!(finished(step).0, vec![out("No stashes\n")]);
    let step = go_on(
        stash(Some("list"), &[]),
        captured("stash@{0}: WIP on main: abc x\n", "", 0),
    );
    assert_eq!(finished(step).0, vec![out("stash@{0}: abc x\n")]);
    let step = go_on(stash(Some("show"), &[]), captured("", "", 0));
    assert_eq!(finished(step).0, vec![out("Empty stash\n")]);
    let step = go_on(stash(Some("show"), &[]), captured(DIFF, "", 0));
    assert_eq!(
        finished(step).0,
        vec![out("\nf\n  @@ -1 +1 @@\n  -a\n  +b\n  +1 -1\n")]
    );
}

#[test]
fn the_note_on_a_stash_shows_what_was_named() {
    let note = |sub: Option<&str>| {
        let subcommand = sub.map(|s| s.to_string());
        let step = run(GitCommand::Stash { subcommand }, &[], None, 1, &[]);
        running(step).0
    };
    assert_eq!(note(None), vec![err("git stash None\n")]);
    assert_eq!(note(Some("a\"b")), vec![err("git stash Some(\"a\\\"b\")\n")]);
}

#[test]
fn worktrees_are_changed_and_listed() {
    let (_, command, _, stage) = running(begin(GitCommand::Worktree, &["add", "../w"]));
    assert_eq!(command.args, vec!["worktree", "add", "../w"]);
    let (printed, made, code) = finished(resume(stage, captured("x", "", 0)));
    assert_eq!(printed, vec![out("ok\n")]);
    assert_eq!(made.unwrap().output, "ok");
    assert_eq!(code, 0);
    let step = go_on(
        begin(GitCommand::Worktree, &["remove", "w"]),
        captured("", "e", 128),
    );
    assert_eq!(
        finished(step),
        (
            vec![err("FAILED: git worktree remove w\n"), err("e\n")],
            record("git worktree remove w", "rtk git worktree remove w", "e", "e"),
            128
        )
    );
    let (_, command, _, stage) = running(begin(GitCommand::Worktree, &["-v"]));
    assert_eq!(command.args, vec!["worktree", "list"]);
    let stage = GitStage {
        request: stage.request,
        at: At::WorktreeList {
            home: "/home/u".to_string(),
        },
    };
    let list = "/home/u/p  abc [main]\n/other  def (detached HEAD)\n\nbare x\n";
    let (printed, made, _) = finished(resume(stage, captured(list, "", 0)));
    assert_eq!(
        printed,
        vec![out("~/p abc [main]\n/other def (detached HEAD)\nbare x\n")]
    );
    assert_eq!(made.unwrap().rewritten, "rtk git worktree");
}

#[test]
fn commands_that_cannot_run_say_so() {
    for (cmd, message) in [
        (GitCommand::Diff, "Failed to run git diff"),
        (GitCommand::Log, "Failed to run git log"),
        (GitCommand::Add, "Failed to run git add"),
        (GitCommand::Commit, "Failed to run git commit"),
        (GitCommand::Push, "Failed to run git push"),
        (GitCommand::Pull, "Failed to run git pull"),
        (GitCommand::Branch, "Failed to run git branch"),
        (GitCommand::Fetch, "Failed to run git fetch"),
        (GitCommand::Worktree, "Failed to run git worktree list"),
    ] {
        assert_eq!(failed(go_on(begin(cmd, &[]), None)), message);
    }
    let step = go_on(begin(GitCommand::Add, &[]), captured("", "", 0));
    assert_eq!(failed(go_on(step, None)), "Failed to check staged files");
    let step = go_on(begin(GitCommand::Status, &[]), None);
    assert_eq!(failed(go_on(step, None)), "Failed to run git status");
    let step = go_on(begin(GitCommand::Show, &["HEAD"]), None);
    assert_eq!(failed(go_on(step, None)), "Failed to run git show");
    let step = go_on(begin(GitCommand::Show, &["HEAD"]), None);
    let step = go_on(step, captured("s", "", 0));
    assert_eq!(failed(go_on(step, None)), "Failed to run git show --stat");
    let step = go_on(begin(GitCommand::Show, &["HEAD"]), None);
    let step = go_on(step, captured("s", "", 0));
    let step = go_on(step, captured("s", "", 0));
    assert_eq!(failed(go_on(step, None)), "Failed to run git show (diff)");
    let fail = |sub: &str| failed(go_on(stash(Some(sub), &[]), None));
    assert_eq!(fail("list"), "Failed to run git stash list");
    assert_eq!(fail("show"), "Failed to run git stash show");
    assert_eq!(fail("pop"), "Failed to run git stash");
    let step = go_on(begin(GitCommand::Worktree, &["prune"]), None);
    assert_eq!(failed(step), "Failed to run git worktree");
}
