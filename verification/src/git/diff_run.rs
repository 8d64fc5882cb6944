//! A session of `git diff`.
use crate::git::command;
use crate::git::command::{At, AtView, GitStage, Request, RequestView, StageView};
use crate::git::diff;
use crate::session;
use crate::session::{
    CaptureResult, CaptureView, NextView, Printed, Record, RecordView, RunMode, Step, StepView,
};
use crate::text::chars;
use crate::text::compose;
use crate::text::select;
use vstd::prelude::*;

verus! {

/// A flag that asks for statistics.
pub open spec fn is_stat_flag(a: Seq<char>) -> bool {
    a == "--stat"@ || a == "--numstat"@ || a == "--shortstat"@
}

fn stat_flag(a: &str) -> (r: bool)
    ensures
        r == is_stat_flag(a@),
{
    chars::same_str(a, "--stat") || chars::same_str(a, "--numstat") || chars::same_str(
        a,
        "--shortstat",
    )
}

/// Whether the arguments ask for statistics.
pub open spec fn wants_stat(args: Seq<Seq<char>>) -> bool {
    exists|i: int| 0 <= i < args.len() && is_stat_flag(#[trigger] args[i])
}

/// Whether the arguments ask for statistics.
pub fn asks_for_stat(args: &[String]) -> (r: bool)
    ensures
        r == wants_stat(args.deep_view()),
{
    compose::any(args, stat_flag, Ghost(|a: Seq<char>| is_stat_flag(a)))
}

/// The arguments that git itself knows.
pub open spec fn git_args(args: Seq<Seq<char>>) -> Seq<Seq<char>>
    decreases args.len(),
{
    if args.len() == 0 {
        Seq::empty()
    } else if args.last() == "--no-compact"@ {
        git_args(args.drop_last())
    } else {
        git_args(args.drop_last()).push(args.last())
    }
}

fn args_for_git(args: &[String]) -> (r: Vec<String>)
    ensures
        r.deep_view() == git_args(args.deep_view()),
{
    let ghost all = args.deep_view();
    let mut out: Vec<String> = Vec::new();
    let mut i: usize = 0;
    assert(out.deep_view() == git_args(all.take(0)));
    while i < args.len()
        invariant
            i <= args@.len(),
            all == args.deep_view(),
            out.deep_view() == git_args(all.take(i as int)),
        decreases args@.len() - i,
    {
        let arg = args[i].as_str();
        assert(all.take(i + 1).drop_last() == all.take(i as int));
        assert(all.take(i + 1).last() == arg@);
        if !chars::same_str(arg, "--no-compact") {
            compose::push_str(&mut out, arg);
        }
        i += 1;
    }
    assert(all.take(all.len() as int) == all);
    out
}

/// How a diff begins: as it is where statistics or the full form are asked for, else with its
/// statistics.
pub open spec fn diff_started(q: RequestView) -> StepView<StageView> {
    if wants_stat(q.args) || q.args.contains("--no-compact"@) {
        session::runs(
            command::git_sub(q.global_args, "diff"@, git_args(q.args)),
            StageView { request: q, at: AtView::DiffPassthrough },
        )
    } else {
        session::runs(
            session::with_args(
                session::with_arg(
                    session::with_arg(command::git_line(q.global_args), "diff"@),
                    "--stat"@,
                ),
                q.args,
            ),
            StageView { request: q, at: AtView::DiffStat },
        )
    }
}

/// Begins `git diff` on normalized arguments.
pub fn run_diff(request: Request) -> (r: Step<GitStage>)
    ensures
        r@ == diff_started(request@),
{
    if asks_for_stat(request.args.as_slice()) || compose::has(
        request.args.as_slice(),
        "--no-compact",
    ) {
        let args = args_for_git(request.args.as_slice());
        let cmd = command::git_subcommand(request.global_args.as_slice(), "diff", args.as_slice());
        return Step::run(cmd, GitStage::new(request, At::DiffPassthrough));
    }
    let cmd = command::git_cmd(request.global_args.as_slice()).arg("diff").arg("--stat").args(
        request.args.as_slice(),
    );
    Step::run(cmd, GitStage::new(request, At::DiffStat))
}

/// What is recorded of a diff.
pub open spec fn diff_record(
    q: RequestView,
    input: Seq<char>,
    output: Seq<char>,
) -> RecordView {
    RecordView {
        original: command::label("git diff "@, q.args),
        rewritten: command::label("rtk git diff "@, q.args),
        input,
        output,
    }
}

fn record_diff(request: &Request, input: &str, output: &str) -> (r: Record)
    ensures
        r@ == diff_record(request@, input@, output@),
{
    let original = command::label_of("git diff ", request.args.as_slice());
    let rewritten = command::label_of("rtk git diff ", request.args.as_slice());
    Record::new(original.as_str(), rewritten.as_str(), input, output)
}

/// The end of a diff that is passed through.
pub open spec fn diff_passed_through(q: RequestView, c: CaptureView) -> StepView<StageView> {
    if c.exit_code != 0 {
        session::finishes(seq![session::err_line(c.stderr)], None, c.exit_code)
    } else {
        session::finishes(
            seq![session::out_line(chars::trimmed(c.stdout))],
            Some(
                RecordView {
                    rewritten: command::passed("rtk git diff "@, q.args),
                    ..diff_record(q, c.stdout, c.stdout)
                },
            ),
            0,
        )
    }
}

/// Ends a diff that is passed through.
pub fn finish_passthrough(request: Request, result: CaptureResult) -> (r: Step<GitStage>)
    ensures
        r@ == diff_passed_through(request@, result@),
{
    let mut printed = Printed::nothing();
    if !result.success() {
        printed.errln(result.stderr.as_str());
        return Step::done(printed, result.exit_code);
    }
    printed.outln(command::trim_text(result.stdout.as_str()).as_str());
    let original = command::label_of("git diff ", request.args.as_slice());
    let rewritten = command::passed_of("rtk git diff ", request.args.as_slice());
    let record = Record::new(
        original.as_str(),
        rewritten.as_str(),
        result.stdout.as_str(),
        result.stdout.as_str(),
    );
    Step::record(printed, record, 0)
}

/// What follows the statistics: the diff itself.
pub open spec fn diff_stat_done(q: RequestView, c: CaptureView) -> StepView<StageView> {
    if c.exit_code != 0 {
        session::finishes(
            if chars::is_blank(c.stderr) {
                Seq::empty()
            } else {
                seq![session::ChunkView::Stderr(c.stderr)]
            },
            Some(diff_record(q, c.stdout, c.stdout)),
            c.exit_code,
        )
    } else {
        StepView {
            printed: session::noted(q.verbose > 0, "Git diff summary:"@).push(
                session::out_line(chars::trimmed(c.stdout)),
            ),
            record: None,
            next: NextView::Run {
                command: command::git_sub(q.global_args, "diff"@, q.args),
                mode: RunMode::Captured,
                stage: StageView { request: q, at: AtView::DiffBody(c.stdout) },
            },
        }
    }
}

/// Goes on after the statistics.
pub fn after_stat(request: Request, result: CaptureResult) -> (r: Step<GitStage>)
    ensures
        r@ == diff_stat_done(request@, result@),
{
    if !result.success() {
        let mut printed = Printed::nothing();
        if !command::blank_text(result.stderr.as_str()) {
            printed.err(result.stderr.as_str());
        }
        let record = record_diff(&request, result.stdout.as_str(), result.stdout.as_str());
        return Step::record(printed, record, result.exit_code);
    }
    let mut printed = Printed::noted(request.verbose > 0, "Git diff summary:");
    printed.outln(command::trim_text(result.stdout.as_str()).as_str());
    let cmd = command::git_subcommand(
        request.global_args.as_slice(),
        "diff",
        request.args.as_slice(),
    );
    let stage = GitStage::new(request, At::DiffBody { stat: result.stdout });
    Step::print_and_run(printed, cmd, RunMode::Captured, stage)
}

/// The end of a diff, after its statistics.
pub open spec fn diff_finished(
    q: RequestView,
    stat: Seq<char>,
    c: CaptureView,
) -> StepView<StageView> {
    let compacted = diff::compacted(c.stdout, command::diff_cap(q.max_lines));
    let input = command::both(stat, c.stdout);
    if c.stdout.len() == 0 {
        session::finishes(Seq::empty(), Some(diff_record(q, input, stat)), 0)
    } else {
        session::finishes(
            seq![session::out_line("\n--- Changes ---"@), session::out_line(compacted)],
            Some(diff_record(q, input, stat + "\n--- Changes ---\n"@ + compacted)),
            0,
        )
    }
}

/// Ends a diff, after its statistics.
pub fn finish_diff(request: Request, stat: String, result: CaptureResult) -> (r: Step<GitStage>)
    ensures
        r@ == diff_finished(request@, stat@, result@),
{
    let mut printed = Printed::nothing();
    let input = command::both_of(stat.as_str(), result.stdout.as_str());
    let mut output = stat;
    if !result.stdout.as_str().is_empty() {
        printed.outln("\n--- Changes ---");
        let cap: usize = command::diff_cap_of(request.max_lines);
        let compacted = diff::compact_diff(result.stdout.as_str(), cap);
        printed.outln(compacted.as_str());
        output.append("\n--- Changes ---\n");
        output.append(compacted.as_str());
    }
    let record = record_diff(&request, input.as_str(), output.as_str());
    Step::record(printed, record, 0)
}

/// All of the user's arguments reach git, in order, but for the one that git does not know.
pub proof fn law_git_args(args: Seq<Seq<char>>)
    ensures
        git_args(args) == args.filter(|a: Seq<char>| a != "--no-compact"@),
    decreases args.len(),
{
    let p = |a: Seq<char>| a != "--no-compact"@;
    if args.len() == 0 {
        assert(args == Seq::<Seq<char>>::empty());
        select::lemma_filter_empty(p);
    } else {
        law_git_args(args.drop_last());
        select::lemma_front_and_last(args);
        select::lemma_filter_push(args.drop_last(), args.last(), p);
    }
}

/// A diff runs as it is where the user asks for statistics or for the full form; else it runs twice,
/// for its statistics and for the changes, each time with all of the user's arguments.
pub proof fn law_diff_commands(q: RequestView, c: CaptureView)
    ensures
        ({
            let as_it_is = q.args.contains("--stat"@) || q.args.contains("--numstat"@)
                || q.args.contains("--shortstat"@) || q.args.contains("--no-compact"@);
            &&& as_it_is ==> (diff_started(q).next matches NextView::Run { command, mode, stage }
                && command.args == q.global_args + seq!["diff"@] + q.args.filter(
                |a: Seq<char>| a != "--no-compact"@,
            ) && stage.at == AtView::DiffPassthrough)
            &&& !as_it_is ==> (diff_started(q).next matches NextView::Run { command, mode, stage }
                && command.args == q.global_args + seq!["diff"@, "--stat"@] + q.args && stage.at
                == AtView::DiffStat)
        }),
        c.exit_code == 0 ==> (diff_stat_done(q, c).next matches NextView::Run {
            command,
            mode,
            stage,
        } && command.args == q.global_args + seq!["diff"@] + q.args && stage.at == AtView::DiffBody(
            c.stdout,
        )),
{
    law_git_args(q.args);
    let a = q.args;
    assert(wants_stat(a) == (a.contains("--stat"@) || a.contains("--numstat"@) || a.contains(
        "--shortstat"@,
    ))) by {
        if wants_stat(a) {
            let i = choose|i: int| 0 <= i < a.len() && is_stat_flag(#[trigger] a[i]);
            assert(a.contains(a[i]));
        }
        if a.contains("--stat"@) {
            let i = choose|i: int| 0 <= i < a.len() && a[i] == "--stat"@;
            assert(is_stat_flag(a[i]));
        }
        if a.contains("--numstat"@) {
            let i = choose|i: int| 0 <= i < a.len() && a[i] == "--numstat"@;
            assert(is_stat_flag(a[i]));
        }
        if a.contains("--shortstat"@) {
            let i = choose|i: int| 0 <= i < a.len() && a[i] == "--shortstat"@;
            assert(is_stat_flag(a[i]));
        }
    }
    let g = q.global_args;
    assert(g.push("diff"@) == g + seq!["diff"@]);
    assert(g.push("diff"@).push("--stat"@) == g + seq!["diff"@, "--stat"@]);
}

/// What a diff shows: its statistics, and then its compact form where there are changes; git's own
/// words where it failed.
pub proof fn law_diff_shown(q: RequestView, stat: Seq<char>, c: CaptureView)
    ensures
        c.exit_code == 0 ==> diff_stat_done(q, c).printed.last() == session::out_line(
            chars::trimmed(c.stdout),
        ),
        c.exit_code != 0 ==> diff_stat_done(q, c).next == NextView::<StageView>::Done(c.exit_code)
            && (!chars::is_blank(c.stderr) ==> diff_stat_done(q, c).printed == seq![
            session::ChunkView::Stderr(c.stderr),
        ]),
        c.stdout.len() > 0 ==> ({
            let shown = diff::compacted(
                c.stdout,
                match q.max_lines {
                    Some(n) => n as nat,
                    None => 500,
                },
            );
            &&& diff_finished(q, stat, c).printed.last() == session::out_line(shown)
            &&& diff_finished(q, stat, c).record matches Some(r) && r.input == stat + "\n"@
                + c.stdout && r.output == stat + "\n--- Changes ---\n"@ + shown
        }),
        c.stdout.len() == 0 ==> diff_finished(q, stat, c).printed.len() == 0,
        c.exit_code == 0 ==> diff_passed_through(q, c).printed == seq![
            session::out_line(chars::trimmed(c.stdout)),
        ],
        c.exit_code != 0 ==> diff_passed_through(q, c).printed == seq![session::err_line(c.stderr)]
            && diff_passed_through(q, c).next == NextView::<StageView>::Done(c.exit_code),
{
}

} // verus!
