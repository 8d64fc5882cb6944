//! A session of `git stash`.
use crate::git::command;
use crate::git::command::{At, AtView, GitStage, Request, RequestView, StageView};
use crate::git::diff;
use crate::git::stash;
use crate::session;
use crate::session::{
    CaptureResult, CaptureView, CommandView, NextView, Printed, Record, RecordView, RunMode, Step,
    StepView,
};
use crate::text::chars;
use crate::text::compose;
use crate::text::search;
use vstd::prelude::*;

verus! {

/// How an optional text is written for debugging, by `core::fmt::Debug`.
pub uninterp spec fn debug_text(s: Option<Seq<char>>) -> Seq<char>;

/// Writes an optional text for debugging, as `core::fmt::Debug` on `Option<&str>` does: a function
/// of the text alone.
#[verifier::external_body]
fn debug_option(s: Option<&str>) -> (r: String)
    ensures
        r@ == debug_text(compose::optional_str(s)),
{
    format!("{:?}", s)
}

/// The operations that take their arguments as they are.
pub open spec fn is_operation(sub: Seq<char>) -> bool {
    ||| sub == "apply"@
    ||| sub == "branch"@
    ||| sub == "clear"@
    ||| sub == "create"@
    ||| sub == "drop"@
    ||| sub == "export"@
    ||| sub == "import"@
    ||| sub == "pop"@
    ||| sub == "store"@
}

fn operation(sub: &str) -> (r: bool)
    ensures
        r == is_operation(sub@),
{
    chars::same_str(sub, "apply") || chars::same_str(sub, "branch") || chars::same_str(sub, "clear")
        || chars::same_str(sub, "create") || chars::same_str(sub, "drop") || chars::same_str(
        sub,
        "export",
    ) || chars::same_str(sub, "import") || chars::same_str(sub, "pop") || chars::same_str(
        sub,
        "store",
    )
}

/// The operation that runs: the one that is named, or a push of what is named.
pub open spec fn operation_of(subcommand: Option<Seq<char>>) -> Seq<char> {
    match subcommand {
        Some(sub) => if is_operation(sub) || sub == "save"@ {
            sub
        } else {
            "push"@
        },
        None => "push"@,
    }
}

/// What stands between the operation and the arguments: what was named, where it is no operation.
pub open spec fn leading_args(subcommand: Option<Seq<char>>) -> Seq<Seq<char>> {
    match subcommand {
        Some(sub) => if is_operation(sub) || sub == "save"@ || sub == "push"@ {
            Seq::empty()
        } else {
            seq![sub]
        },
        None => Seq::empty(),
    }
}

/// The command that a `git stash` runs.
pub open spec fn stash_line(
    subcommand: Option<Seq<char>>,
    args: Seq<Seq<char>>,
    global_args: Seq<Seq<char>>,
) -> CommandView {
    let head = session::with_arg(command::git_line(global_args), "stash"@);
    if subcommand == Some("list"@) {
        session::with_arg(head, "list"@)
    } else if subcommand == Some("show"@) {
        session::with_args(session::with_arg(session::with_arg(head, "show"@), "-p"@), args)
    } else {
        session::with_args(
            session::with_arg(head, operation_of(subcommand)),
            leading_args(subcommand) + args,
        )
    }
}

/// How `git stash` begins.
pub open spec fn stash_started(
    subcommand: Option<Seq<char>>,
    q: RequestView,
) -> StepView<StageView> {
    StepView {
        printed: session::noted(q.verbose > 0, "git stash "@ + debug_text(subcommand)),
        record: None,
        next: NextView::Run {
            command: stash_line(subcommand, q.args, q.global_args),
            mode: RunMode::Captured,
            stage: StageView {
                request: q,
                at: if subcommand == Some("list"@) {
                    AtView::StashList
                } else if subcommand == Some("show"@) {
                    AtView::StashShow
                } else {
                    AtView::StashOp(operation_of(subcommand))
                },
            },
        },
    }
}

/// Begins `git stash`.
pub fn run_stash(subcommand: Option<&str>, request: Request) -> (r: Step<GitStage>)
    ensures
        r@ == stash_started(compose::optional_str(subcommand), request@),
{
    let ghost q = request@;
    let mut note = "git stash ".to_string();
    note.append(debug_option(subcommand).as_str());
    let printed = Printed::noted(request.verbose > 0, note.as_str());
    let cmd = command::git_cmd(request.global_args.as_slice()).arg("stash");
    match subcommand {
        Some(sub) => {
            if chars::same_str(sub, "list") {
                let stage = GitStage::new(request, At::StashList);
                return Step::print_and_run(printed, cmd.arg("list"), RunMode::Captured, stage);
            }
            if chars::same_str(sub, "show") {
                let cmd = cmd.arg("show").arg("-p").args(request.args.as_slice());
                let stage = GitStage::new(request, At::StashShow);
                return Step::print_and_run(printed, cmd, RunMode::Captured, stage);
            }
            let named = operation(sub) || chars::same_str(sub, "save") || chars::same_str(
                sub,
                "push",
            );
            let run: &str = if named {
                sub
            } else {
                "push"
            };
            assert(run@ == operation_of(Some(sub@)));
            let cmd = if named {
                cmd.arg(run).args(request.args.as_slice())
            } else {
                cmd.arg(run).arg(sub).args(request.args.as_slice())
            };
            assert(cmd@ == stash_line(Some(sub@), q.args, q.global_args));
            let at = At::StashOp { sub: run.to_string() };
            Step::print_and_run(printed, cmd, RunMode::Captured, GitStage::new(request, at))
        },
        None => {
            let cmd = cmd.arg("push").args(request.args.as_slice());
            assert(cmd@ == stash_line(None, q.args, q.global_args));
            let at = At::StashOp { sub: "push".to_string() };
            Step::print_and_run(printed, cmd, RunMode::Captured, GitStage::new(request, at))
        },
    }
}

/// The end of a stash list.
pub open spec fn list_finished(c: CaptureView) -> StepView<StageView> {
    let shown = if chars::is_blank(c.stdout) {
        "No stashes"@
    } else {
        stash::stash_list(c.stdout)
    };
    session::finishes(
        seq![session::out_line(shown)],
        Some(
            RecordView {
                original: "git stash list"@,
                rewritten: "rtk git stash list"@,
                input: c.stdout,
                output: shown,
            },
        ),
        0,
    )
}

/// Ends a stash list.
pub fn finish_list(result: CaptureResult) -> (r: Step<GitStage>)
    ensures
        r@ == list_finished(result@),
{
    let shown = if command::blank_text(result.stdout.as_str()) {
        "No stashes".to_string()
    } else {
        stash::filter_stash_list(result.stdout.as_str())
    };
    let record = Record::new(
        "git stash list",
        "rtk git stash list",
        result.stdout.as_str(),
        shown.as_str(),
    );
    Step::record(Printed::line(shown.as_str()), record, 0)
}

/// The end of a `git stash show`: the compact diff.
pub open spec fn show_finished(c: CaptureView) -> StepView<StageView> {
    let shown = if chars::is_blank(c.stdout) {
        "Empty stash"@
    } else {
        diff::compacted(c.stdout, 100)
    };
    session::finishes(
        seq![session::out_line(shown)],
        Some(
            RecordView {
                original: "git stash show"@,
                rewritten: "rtk git stash show"@,
                input: c.stdout,
                output: shown,
            },
        ),
        0,
    )
}

/// Ends a `git stash show`.
pub fn finish_show(result: CaptureResult) -> (r: Step<GitStage>)
    ensures
        r@ == show_finished(result@),
{
    let shown = if command::blank_text(result.stdout.as_str()) {
        "Empty stash".to_string()
    } else {
        diff::compact_diff(result.stdout.as_str(), 100)
    };
    let record = Record::new(
        "git stash show",
        "rtk git stash show",
        result.stdout.as_str(),
        shown.as_str(),
    );
    Step::record(Printed::line(shown.as_str()), record, 0)
}

/// The end of another stash operation. The message goes by the operation that ran.
pub open spec fn operation_finished(sub: Seq<char>, c: CaptureView) -> StepView<StageView> {
    let msg = if c.exit_code == 0 {
        stash::stash_message(Some(sub), c.combined)
    } else {
        c.combined
    };
    session::finishes(
        if c.exit_code == 0 {
            seq![session::out_line(msg)]
        } else {
            session::unless_blank(
                seq![session::err_line("FAILED: git stash "@ + sub)],
                c.stderr,
            )
        },
        Some(
            RecordView {
                original: "git stash "@ + sub,
                rewritten: "rtk git stash "@ + sub,
                input: c.combined,
                output: msg,
            },
        ),
        c.exit_code,
    )
}

/// Ends another stash operation.
pub fn finish_operation(sub: String, result: CaptureResult) -> (r: Step<GitStage>)
    ensures
        r@ == operation_finished(sub@, result@),
{
    let mut original = "git stash ".to_string();
    original.append(sub.as_str());
    let mut rewritten = "rtk git stash ".to_string();
    rewritten.append(sub.as_str());
    if result.success() {
        let msg = stash::format_stash_message(Some(sub.as_str()), &result);
        let record = Record::new(
            original.as_str(),
            rewritten.as_str(),
            result.combined.as_str(),
            msg.as_str(),
        );
        return Step::record(Printed::line(msg.as_str()), record, 0);
    }
    let mut printed = Printed::nothing();
    let mut failed = "FAILED: git stash ".to_string();
    failed.append(sub.as_str());
    printed.errln(failed.as_str());
    printed.errln_unless_blank(result.stderr.as_str());
    let record = Record::new(
        original.as_str(),
        rewritten.as_str(),
        result.combined.as_str(),
        result.combined.as_str(),
    );
    Step::record(printed, record, result.exit_code)
}

/// A stash that saved nothing is told apart from one that did, whichever way it was asked for: by
/// name, by options alone, or not at all.
pub proof fn law_empty_stash_is_told(subcommand: Option<Seq<char>>, c: CaptureView)
    requires
        subcommand matches Some(sub) ==> !is_operation(sub),
        c.exit_code == 0,
    ensures
        operation_finished(operation_of(subcommand), c).printed == if search::occurs(
            c.combined,
            "No local changes"@,
        ) {
            seq![session::out_line("No local changes to save"@)]
        } else {
            seq![session::out_line("ok stashed"@)]
        },
        session::out_line("No local changes to save"@) != session::out_line("ok stashed"@),
{
    reveal_strlit("No local changes to save");
    reveal_strlit("ok stashed");
    assert(("No local changes to save"@ + "\n"@)[0] != ("ok stashed"@ + "\n"@)[0]);
}

/// What a `git stash` runs: the operation that is named, with the arguments; what is no operation
/// belongs to a push, and comes before the arguments.
pub proof fn law_stash_commands(
    sub: Seq<char>,
    args: Seq<Seq<char>>,
    global_args: Seq<Seq<char>>,
)
    ensures
        stash_line(None, args, global_args).args == global_args + seq!["stash"@, "push"@] + args,
        stash_line(Some("list"@), args, global_args).args == global_args + seq!["stash"@, "list"@],
        stash_line(Some("show"@), args, global_args).args == global_args + seq![
            "stash"@,
            "show"@,
            "-p"@,
        ] + args,
        (is_operation(sub) || sub == "push"@ || sub == "save"@) && sub != "list"@ && sub != "show"@
            ==> stash_line(Some(sub), args, global_args).args == global_args + seq!["stash"@, sub]
            + args,
        !is_operation(sub) && sub != "push"@ && sub != "save"@ && sub != "list"@ && sub != "show"@
            ==> stash_line(Some(sub), args, global_args).args == global_args + seq![
            "stash"@,
            "push"@,
            sub,
        ] + args,
{
    reveal_strlit("list");
    reveal_strlit("show");
    assert("list"@[0] != "show"@[0]);
    let g = global_args;
    let none = Seq::<Seq<char>>::empty();
    assert(none + args == args);
    assert(g.push("stash"@).push("push"@) == g + seq!["stash"@, "push"@]);
    assert(g.push("stash"@).push("list"@) == g + seq!["stash"@, "list"@]);
    assert(g.push("stash"@).push("show"@).push("-p"@) == g + seq!["stash"@, "show"@, "-p"@]);
    assert(g.push("stash"@).push(sub) == g + seq!["stash"@, sub]);
    assert(g.push("stash"@).push("push"@) + (seq![sub] + args) == g + seq![
        "stash"@,
        "push"@,
        sub,
    ] + args);
}

/// The operations on stashes.
pub proof fn law_stash_operations()
    ensures
        is_operation("apply"@),
        is_operation("branch"@),
        is_operation("clear"@),
        is_operation("create"@),
        is_operation("drop"@),
        is_operation("export"@),
        is_operation("import"@),
        is_operation("pop"@),
        is_operation("store"@),
{
}

/// How a `git stash` ends. A list or a stash that is empty is told to be; a failure is told with git's
/// own words, and its exit code is passed on.
pub proof fn law_stash_end(sub: Seq<char>, c: CaptureView)
    ensures
        chars::is_blank(c.stdout) ==> list_finished(c).printed == seq![
            session::out_line("No stashes"@),
        ] && show_finished(c).printed == seq![session::out_line("Empty stash"@)],
        !chars::is_blank(c.stdout) ==> list_finished(c).printed == seq![
            session::out_line(stash::stash_list(c.stdout)),
        ] && show_finished(c).printed == seq![session::out_line(diff::compacted(c.stdout, 100))],
        operation_finished(sub, c).next == NextView::<StageView>::Done(c.exit_code),
        c.exit_code == 0 ==> operation_finished(sub, c).printed == seq![
            session::out_line(stash::stash_message(Some(sub), c.combined)),
        ],
        c.exit_code != 0 && !chars::is_blank(c.stderr) ==> operation_finished(
            sub,
            c,
        ).printed.contains(session::err_line(c.stderr)),
        c.exit_code != 0 ==> operation_finished(sub, c).printed[0] == session::err_line(
            "FAILED: git stash "@ + sub,
        ),
{
    if c.exit_code != 0 && !chars::is_blank(c.stderr) {
        let p = operation_finished(sub, c).printed;
        assert(p[p.len() - 1] == session::err_line(c.stderr));
    }
}

/// A `git stash` waits for what it runs, and on request tells what the user named.
pub proof fn law_stash_started(subcommand: Option<Seq<char>>, q: RequestView)
    ensures
        stash_started(subcommand, q).next matches NextView::Run { command, mode, stage } && command
            == stash_line(subcommand, q.args, q.global_args) && stage.request == q && (subcommand
            == Some("list"@) ==> stage.at == AtView::StashList) && (subcommand == Some("show"@)
            && subcommand != Some("list"@) ==> stage.at == AtView::StashShow) && (subcommand != Some(
            "list"@,
        ) && subcommand != Some("show"@) ==> stage.at == AtView::StashOp(operation_of(subcommand))),
        q.verbose > 0 ==> stash_started(subcommand, q).printed == seq![
            session::err_line("git stash "@ + debug_text(subcommand)),
        ],
        q.verbose == 0 ==> stash_started(subcommand, q).printed.len() == 0,
{
}

} // verus!
