//! A session of `git worktree`.
use crate::git::command;
use crate::git::command::{At, AtView, GitStage, Request, RequestView, StageView};
use crate::git::worktree;
use crate::session;
use crate::session::{
    CaptureResult, CaptureView, NextView, Printed, Record, RecordView, RunMode, Step, StepView,
};
use crate::text::chars;
use crate::text::compose;
use vstd::prelude::*;

verus! {

/// A word that changes worktrees.
pub open spec fn is_action(a: Seq<char>) -> bool {
    ||| a == "add"@
    ||| a == "remove"@
    ||| a == "prune"@
    ||| a == "lock"@
    ||| a == "unlock"@
    ||| a == "move"@
}

fn action(a: &str) -> (r: bool)
    ensures
        r == is_action(a@),
{
    chars::same_str(a, "add") || chars::same_str(a, "remove") || chars::same_str(a, "prune")
        || chars::same_str(a, "lock") || chars::same_str(a, "unlock") || chars::same_str(a, "move")
}

/// Whether the arguments change worktrees.
pub open spec fn has_action(args: Seq<Seq<char>>) -> bool {
    exists|i: int| 0 <= i < args.len() && is_action(#[trigger] args[i])
}

fn acts(args: &[String]) -> (r: bool)
    ensures
        r == has_action(args.deep_view()),
{
    compose::any(args, action, Ghost(|a: Seq<char>| is_action(a)))
}

/// How `git worktree` begins; a list shows paths below `home` with a tilde.
pub open spec fn worktree_started(q: RequestView, home: Seq<char>) -> StepView<StageView> {
    let (command, at) = if has_action(q.args) {
        (command::git_sub(q.global_args, "worktree"@, q.args), AtView::WorktreeAction)
    } else {
        (command::git_sub(q.global_args, "worktree"@, seq!["list"@]), AtView::WorktreeList(home))
    };
    StepView {
        printed: session::noted(q.verbose > 0, "git worktree list"@),
        record: None,
        next: NextView::Run { command, mode: RunMode::Captured, stage: StageView { request: q, at } },
    }
}

/// Begins `git worktree`.
pub fn run_worktree(request: Request, home: String) -> (r: Step<GitStage>)
    ensures
        r@ == worktree_started(request@, home@),
{
    let ghost q = request@;
    let printed = Printed::noted(request.verbose > 0, "git worktree list");
    let cmd = command::git_cmd(request.global_args.as_slice()).arg("worktree");
    if acts(request.args.as_slice()) {
        let cmd = cmd.args(request.args.as_slice());
        let stage = GitStage::new(request, At::WorktreeAction);
        return Step::print_and_run(printed, cmd, RunMode::Captured, stage);
    }
    let cmd = cmd.arg("list");
    assert(cmd@ == command::git_sub(q.global_args, "worktree"@, seq!["list"@]));
    let stage = GitStage::new(request, At::WorktreeList { home });
    Step::print_and_run(printed, cmd, RunMode::Captured, stage)
}

/// The end of a change to worktrees.
pub open spec fn action_finished(q: RequestView, c: CaptureView) -> StepView<StageView> {
    let record = RecordView {
        original: command::label("git worktree "@, q.args),
        rewritten: command::label("rtk git worktree "@, q.args),
        input: c.combined,
        output: if c.exit_code == 0 {
            "ok"@
        } else {
            c.combined
        },
    };
    if c.exit_code == 0 {
        session::finishes(seq![session::out_line("ok"@)], Some(record), 0)
    } else {
        session::finishes(
            session::unless_blank(
                seq![session::err_line(command::label("FAILED: git worktree "@, q.args))],
                c.stderr,
            ),
            Some(record),
            c.exit_code,
        )
    }
}

/// Ends a change to worktrees.
pub fn finish_action(request: Request, result: CaptureResult) -> (r: Step<GitStage>)
    ensures
        r@ == action_finished(request@, result@),
{
    let args = request.args.as_slice();
    let original = command::label_of("git worktree ", args);
    let rewritten = command::label_of("rtk git worktree ", args);
    if result.success() {
        let record = Record::new(
            original.as_str(),
            rewritten.as_str(),
            result.combined.as_str(),
            "ok",
        );
        return Step::record(Printed::line("ok"), record, 0);
    }
    let mut printed = Printed::nothing();
    printed.errln(command::label_of("FAILED: git worktree ", args).as_str());
    printed.errln_unless_blank(result.stderr.as_str());
    let record = Record::new(
        original.as_str(),
        rewritten.as_str(),
        result.combined.as_str(),
        result.combined.as_str(),
    );
    Step::record(printed, record, result.exit_code)
}

/// The end of a worktree list.
pub open spec fn list_finished(home: Seq<char>, c: CaptureView) -> StepView<StageView> {
    let filtered = worktree::worktree_list(c.stdout, home);
    session::finishes(
        seq![session::out_line(filtered)],
        Some(
            RecordView {
                original: "git worktree list"@,
                rewritten: "rtk git worktree"@,
                input: c.stdout,
                output: filtered,
            },
        ),
        0,
    )
}

/// Ends a worktree list.
pub fn finish_list(home: String, result: CaptureResult) -> (r: Step<GitStage>)
    ensures
        r@ == list_finished(home@, result@),
{
    let filtered = worktree::filter_worktree_list_at(result.stdout.as_str(), home.as_str());
    let record = Record::new(
        "git worktree list",
        "rtk git worktree",
        result.stdout.as_str(),
        filtered.as_str(),
    );
    Step::record(Printed::line(filtered.as_str()), record, 0)
}

/// The words that change worktrees.
pub proof fn law_worktree_actions(args: Seq<Seq<char>>)
    ensures
        args.contains("add"@) ==> has_action(args),
        args.contains("remove"@) ==> has_action(args),
        args.contains("prune"@) ==> has_action(args),
        args.contains("lock"@) ==> has_action(args),
        args.contains("unlock"@) ==> has_action(args),
        args.contains("move"@) ==> has_action(args),
{
    if args.contains("add"@) {
        let i = choose|i: int| 0 <= i < args.len() && args[i] == "add"@;
        assert(is_action(args[i]));
    }
    if args.contains("remove"@) {
        let i = choose|i: int| 0 <= i < args.len() && args[i] == "remove"@;
        assert(is_action(args[i]));
    }
    if args.contains("prune"@) {
        let i = choose|i: int| 0 <= i < args.len() && args[i] == "prune"@;
        assert(is_action(args[i]));
    }
    if args.contains("lock"@) {
        let i = choose|i: int| 0 <= i < args.len() && args[i] == "lock"@;
        assert(is_action(args[i]));
    }
    if args.contains("unlock"@) {
        let i = choose|i: int| 0 <= i < args.len() && args[i] == "unlock"@;
        assert(is_action(args[i]));
    }
    if args.contains("move"@) {
        let i = choose|i: int| 0 <= i < args.len() && args[i] == "move"@;
        assert(is_action(args[i]));
    }
}

/// A change to worktrees runs as it was given; anything else lists them.
pub proof fn law_worktree_commands(q: RequestView, home: Seq<char>)
    ensures
        has_action(q.args) ==> (worktree_started(q, home).next matches NextView::Run {
            command,
            mode,
            stage,
        } && command.args == q.global_args + seq!["worktree"@] + q.args && stage.at
            == AtView::WorktreeAction),
        !has_action(q.args) ==> (worktree_started(q, home).next matches NextView::Run {
            command,
            mode,
            stage,
        } && command.args == q.global_args + seq!["worktree"@, "list"@] && stage.at
            == AtView::WorktreeList(home)),
{
    let g = q.global_args;
    assert(g.push("worktree"@) == g + seq!["worktree"@]);
    assert(g.push("worktree"@) + seq!["list"@] == g + seq!["worktree"@, "list"@]);
}

/// How a `git worktree` ends: a change is confirmed, or told with git's own words and exit code where
/// it failed; a list is shown in its compact form, and that is what is recorded.
pub proof fn law_worktree_end(q: RequestView, home: Seq<char>, c: CaptureView)
    ensures
        c.exit_code == 0 ==> action_finished(q, c).printed == seq![session::out_line("ok"@)],
        action_finished(q, c).next == NextView::<StageView>::Done(c.exit_code),
        c.exit_code != 0 && !chars::is_blank(c.stderr) ==> action_finished(q, c).printed.contains(
            session::err_line(c.stderr),
        ),
        list_finished(home, c).printed == seq![
            session::out_line(worktree::worktree_list(c.stdout, home)),
        ],
        list_finished(home, c).record matches Some(r) && r.input == c.stdout && r.output
            == worktree::worktree_list(c.stdout, home),
{
    if c.exit_code != 0 && !chars::is_blank(c.stderr) {
        let p = action_finished(q, c).printed;
        assert(p[p.len() - 1] == session::err_line(c.stderr));
    }
}

} // verus!
