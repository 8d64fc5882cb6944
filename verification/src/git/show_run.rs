//! A session of `git show`.
use crate::git::args;
use crate::git::command;
use crate::git::command::{At, AtView, GitStage, Request, RequestView, StageView};
use crate::git::diff;
use crate::git::diff_run;
use crate::session;
use crate::session::{
    CaptureResult, CaptureView, ChunkView, NextView, Printed, Record, RecordView, RunMode, Step,
    StepView,
};
use crate::text::chars;
use crate::text::compose;
use vstd::prelude::*;

verus! {

/// A flag that sets the format.
pub open spec fn is_format_flag(a: Seq<char>) -> bool {
    chars::has_prefix(a, "--pretty"@) || chars::has_prefix(a, "--format"@)
}

fn format_flag(a: &str) -> (r: bool)
    ensures
        r == is_format_flag(a@),
{
    let t = chars::to_chars(a);
    chars::starts_with(t.as_slice(), "--pretty") || chars::starts_with(t.as_slice(), "--format")
}

/// Whether the arguments set the format.
pub open spec fn wants_format(args: Seq<Seq<char>>) -> bool {
    exists|i: int| 0 <= i < args.len() && is_format_flag(#[trigger] args[i])
}

fn asks_for_format(args: &[String]) -> (r: bool)
    ensures
        r == wants_format(args.deep_view()),
{
    compose::any(args, format_flag, Ghost(|a: Seq<char>| is_format_flag(a)))
}

/// Whether the arguments name a blob.
pub open spec fn wants_blob(args: Seq<Seq<char>>) -> bool {
    exists|i: int| 0 <= i < args.len() && args::names_blob(#[trigger] args[i])
}

fn asks_for_blob(args: &[String]) -> (r: bool)
    ensures
        r == wants_blob(args.deep_view()),
{
    compose::any(args, args::is_blob_show_arg, Ghost(|a: Seq<char>| args::names_blob(a)))
}

/// How `git show` begins: as it is where statistics, a format or a blob are asked for, else with
/// the commit in full.
pub open spec fn show_started(q: RequestView) -> StepView<StageView> {
    let cmd = command::git_sub(q.global_args, "show"@, q.args);
    if diff_run::wants_stat(q.args) || wants_format(q.args) || wants_blob(q.args) {
        session::runs(cmd, StageView { request: q, at: AtView::ShowPassthrough })
    } else {
        session::runs(cmd, StageView { request: q, at: AtView::ShowRaw })
    }
}

/// Begins `git show`.
pub fn run_show(request: Request) -> (r: Step<GitStage>)
    ensures
        r@ == show_started(request@),
{
    let cmd = command::git_subcommand(
        request.global_args.as_slice(),
        "show",
        request.args.as_slice(),
    );
    if diff_run::asks_for_stat(request.args.as_slice()) || asks_for_format(request.args.as_slice())
        || asks_for_blob(request.args.as_slice()) {
        return Step::run(cmd, GitStage::new(request, At::ShowPassthrough));
    }
    Step::run(cmd, GitStage::new(request, At::ShowRaw))
}

/// The end of a `git show` that is passed through: a blob as it is, anything else trimmed.
pub open spec fn show_passed_through(q: RequestView, c: CaptureView) -> StepView<StageView> {
    if c.exit_code != 0 {
        session::finishes(seq![session::err_line(c.stderr)], None, c.exit_code)
    } else {
        session::finishes(
            seq![
                if wants_blob(q.args) {
                    ChunkView::Stdout(c.stdout)
                } else {
                    session::out_line(chars::trimmed(c.stdout))
                },
            ],
            Some(
                RecordView {
                    original: command::label("git show "@, q.args),
                    rewritten: command::passed("rtk git show "@, q.args),
                    input: c.stdout,
                    output: c.stdout,
                },
            ),
            0,
        )
    }
}

/// Ends a `git show` that is passed through.
pub fn finish_passthrough(request: Request, result: CaptureResult) -> (r: Step<GitStage>)
    ensures
        r@ == show_passed_through(request@, result@),
{
    let mut printed = Printed::nothing();
    if !result.success() {
        printed.errln(result.stderr.as_str());
        return Step::done(printed, result.exit_code);
    }
    if asks_for_blob(request.args.as_slice()) {
        printed.out(result.stdout.as_str());
    } else {
        printed.outln(command::trim_text(result.stdout.as_str()).as_str());
    }
    let original = command::label_of("git show ", request.args.as_slice());
    let rewritten = command::passed_of("rtk git show ", request.args.as_slice());
    let record = Record::new(
        original.as_str(),
        rewritten.as_str(),
        result.stdout.as_str(),
        result.stdout.as_str(),
    );
    Step::record(printed, record, 0)
}

/// What follows the commit in full: its summary line.
pub open spec fn show_raw_done(q: RequestView, raw: Seq<char>) -> StepView<StageView> {
    session::runs(
        session::with_args(
            session::with_arg(
                session::with_arg(
                    session::with_arg(command::git_line(q.global_args), "show"@),
                    "--no-patch"@,
                ),
                "--pretty=format:%h %s (%ar) <%an>"@,
            ),
            q.args,
        ),
        StageView { request: q, at: AtView::ShowSummary(raw) },
    )
}

/// Goes on after the commit in full, which is empty where it could not be had.
pub fn after_raw(request: Request, raw: String) -> (r: Step<GitStage>)
    ensures
        r@ == show_raw_done(request@, raw@),
{
    let cmd = command::git_cmd(request.global_args.as_slice()).arg("show").arg("--no-patch").arg(
        "--pretty=format:%h %s (%ar) <%an>",
    ).args(request.args.as_slice());
    Step::run(cmd, GitStage::new(request, At::ShowSummary { raw }))
}

/// What follows the summary line: the statistics.
pub open spec fn show_summary_done(
    q: RequestView,
    raw: Seq<char>,
    c: CaptureView,
) -> StepView<StageView> {
    if c.exit_code != 0 {
        session::finishes(seq![session::err_line(c.stderr)], None, c.exit_code)
    } else {
        StepView {
            printed: seq![session::out_line(chars::trimmed(c.stdout))],
            record: None,
            next: NextView::Run {
                command: session::with_args(
                    session::with_arg(
                        session::with_arg(
                            session::with_arg(command::git_line(q.global_args), "show"@),
                            "--stat"@,
                        ),
                        "--pretty=format:"@,
                    ),
                    q.args,
                ),
                mode: RunMode::Captured,
                stage: StageView { request: q, at: AtView::ShowStat(raw, c.stdout) },
            },
        }
    }
}

/// Goes on after the summary line.
pub fn after_summary(request: Request, raw: String, result: CaptureResult) -> (r: Step<GitStage>)
    ensures
        r@ == show_summary_done(request@, raw@, result@),
{
    let mut printed = Printed::nothing();
    if !result.success() {
        printed.errln(result.stderr.as_str());
        return Step::done(printed, result.exit_code);
    }
    printed.outln(command::trim_text(result.stdout.as_str()).as_str());
    let cmd = command::git_cmd(request.global_args.as_slice()).arg("show").arg("--stat").arg(
        "--pretty=format:",
    ).args(request.args.as_slice());
    let stage = GitStage::new(request, At::ShowStat { raw, summary: result.stdout });
    Step::print_and_run(printed, cmd, RunMode::Captured, stage)
}

/// What follows the statistics: the diff.
pub open spec fn show_stat_done(
    q: RequestView,
    raw: Seq<char>,
    summary: Seq<char>,
    c: CaptureView,
) -> StepView<StageView> {
    StepView {
        printed: if chars::is_blank(c.stdout) {
            Seq::empty()
        } else {
            seq![session::out_line(chars::trimmed(c.stdout))]
        },
        record: None,
        next: NextView::Run {
            command: session::with_args(
                session::with_arg(
                    session::with_arg(command::git_line(q.global_args), "show"@),
                    "--pretty=format:"@,
                ),
                q.args,
            ),
            mode: RunMode::Captured,
            stage: StageView { request: q, at: AtView::ShowDiff(raw, summary) },
        },
    }
}

/// Goes on after the statistics.
pub fn after_stat(
    request: Request,
    raw: String,
    summary: String,
    result: CaptureResult,
) -> (r: Step<GitStage>)
    ensures
        r@ == show_stat_done(request@, raw@, summary@, result@),
{
    let mut printed = Printed::nothing();
    if !command::blank_text(result.stdout.as_str()) {
        printed.outln(command::trim_text(result.stdout.as_str()).as_str());
    }
    let cmd = command::git_cmd(request.global_args.as_slice()).arg("show").arg(
        "--pretty=format:",
    ).args(request.args.as_slice());
    let stage = GitStage::new(request, At::ShowDiff { raw, summary });
    Step::print_and_run(printed, cmd, RunMode::Captured, stage)
}

/// What is recorded of a commit that was shown.
pub open spec fn show_record(q: RequestView, raw: Seq<char>, output: Seq<char>) -> RecordView {
    RecordView {
        original: command::label("git show "@, q.args),
        rewritten: command::label("rtk git show "@, q.args),
        input: raw,
        output,
    }
}

/// The end of a `git show`: the compact diff.
pub open spec fn show_finished(
    q: RequestView,
    raw: Seq<char>,
    summary: Seq<char>,
    c: CaptureView,
) -> StepView<StageView> {
    if chars::is_blank(c.stdout) {
        session::finishes(Seq::empty(), Some(show_record(q, raw, summary)), 0)
    } else {
        let compacted = diff::compacted(chars::trimmed(c.stdout), command::diff_cap(q.max_lines));
        let title = if q.verbose > 0 {
            seq![session::out_line("\n--- Changes ---"@)]
        } else {
            Seq::empty()
        };
        session::finishes(
            title.push(session::out_line(compacted)),
            Some(show_record(q, raw, command::both(summary, compacted))),
            0,
        )
    }
}

/// Ends a `git show` with the compact diff.
pub fn finish_show(
    request: Request,
    raw: String,
    summary: String,
    result: CaptureResult,
) -> (r: Step<GitStage>)
    ensures
        r@ == show_finished(request@, raw@, summary@, result@),
{
    let mut printed = Printed::nothing();
    let mut output = summary;
    if !command::blank_text(result.stdout.as_str()) {
        if request.verbose > 0 {
            printed.outln("\n--- Changes ---");
        }
        let text = command::trim_text(result.stdout.as_str());
        let cap: usize = command::diff_cap_of(request.max_lines);
        let compacted = diff::compact_diff(text.as_str(), cap);
        printed.outln(compacted.as_str());
        output = command::both_of(output.as_str(), compacted.as_str());
    }
    let original = command::label_of("git show ", request.args.as_slice());
    let rewritten = command::label_of("rtk git show ", request.args.as_slice());
    let record = Record::new(original.as_str(), rewritten.as_str(), raw.as_str(), output.as_str());
    Step::record(printed, record, 0)
}

/// A `git show` runs as it is where statistics, a format or a blob are asked for; else it runs for the
/// commit in full, its summary line, its statistics and its changes, with all of the user's arguments
/// each time.
pub proof fn law_show_commands(q: RequestView, raw: Seq<char>, summary: Seq<char>, c: CaptureView)
    ensures
        show_started(q).next matches NextView::Run { command, mode, stage } && command.args
            == q.global_args + seq!["show"@] + q.args && stage.request == q && (stage.at
            == AtView::ShowPassthrough <==> diff_run::wants_stat(q.args) || wants_format(q.args)
            || wants_blob(q.args)) && (stage.at == AtView::ShowPassthrough || stage.at
            == AtView::ShowRaw),
        show_raw_done(q, raw).next matches NextView::Run { command, mode, stage } && command.args
            == q.global_args + seq!["show"@, "--no-patch"@, "--pretty=format:%h %s (%ar) <%an>"@]
            + q.args && stage.at == AtView::ShowSummary(raw),
        c.exit_code == 0 ==> (show_summary_done(q, raw, c).next matches NextView::Run {
            command,
            mode,
            stage,
        } && command.args == q.global_args + seq!["show"@, "--stat"@, "--pretty=format:"@] + q.args
            && stage.at == AtView::ShowStat(raw, c.stdout)),
        show_stat_done(q, raw, summary, c).next matches NextView::Run { command, mode, stage }
            && command.args == q.global_args + seq!["show"@, "--pretty=format:"@] + q.args
            && stage.at == AtView::ShowDiff(raw, summary),
{
    let g = q.global_args;
    assert(g.push("show"@) == g + seq!["show"@]);
    assert(g.push("show"@).push("--no-patch"@).push("--pretty=format:%h %s (%ar) <%an>"@) == g
        + seq!["show"@, "--no-patch"@, "--pretty=format:%h %s (%ar) <%an>"@]);
    assert(g.push("show"@).push("--stat"@).push("--pretty=format:"@) == g + seq![
        "show"@,
        "--stat"@,
        "--pretty=format:"@,
    ]);
    assert(g.push("show"@).push("--pretty=format:"@) == g + seq!["show"@, "--pretty=format:"@]);
}

/// What a `git show` shows: the summary line, the statistics and the compact changes, each where there
/// is any; a blob as it is; git's own words where it failed.
pub proof fn law_commit_shown(q: RequestView, raw: Seq<char>, summary: Seq<char>, c: CaptureView)
    ensures
        c.exit_code == 0 ==> show_summary_done(q, raw, c).printed == seq![
            session::out_line(chars::trimmed(c.stdout)),
        ],
        c.exit_code != 0 ==> show_summary_done(q, raw, c).printed == seq![
            session::err_line(c.stderr),
        ] && show_summary_done(q, raw, c).next == NextView::<StageView>::Done(c.exit_code),
        !chars::is_blank(c.stdout) ==> show_stat_done(q, raw, summary, c).printed == seq![
            session::out_line(chars::trimmed(c.stdout)),
        ],
        chars::is_blank(c.stdout) ==> show_stat_done(q, raw, summary, c).printed.len() == 0
            && show_finished(q, raw, summary, c).printed.len() == 0,
        !chars::is_blank(c.stdout) ==> ({
            let shown = diff::compacted(
                chars::trimmed(c.stdout),
                match q.max_lines {
                    Some(n) => n as nat,
                    None => 500,
                },
            );
            &&& show_finished(q, raw, summary, c).printed.last() == session::out_line(shown)
            &&& show_finished(q, raw, summary, c).record matches Some(r) && r.input == raw && r.output
                == summary + "\n"@ + shown
        }),
        c.exit_code == 0 && wants_blob(q.args) ==> show_passed_through(q, c).printed == seq![
            ChunkView::Stdout(c.stdout),
        ],
        c.exit_code == 0 && !wants_blob(q.args) ==> show_passed_through(q, c).printed == seq![
            session::out_line(chars::trimmed(c.stdout)),
        ],
        c.exit_code != 0 ==> show_passed_through(q, c).printed == seq![session::err_line(c.stderr)]
            && show_passed_through(q, c).next == NextView::<StageView>::Done(c.exit_code),
{
}

/// A format is asked for by these flags.
pub proof fn law_show_format(args: Seq<Seq<char>>, i: int, rest: Seq<char>)
    requires
        0 <= i < args.len(),
        args[i] == "--pretty"@ + rest || args[i] == "--format"@ + rest,
    ensures
        wants_format(args),
{
    chars::lemma_prefix("--pretty"@, rest);
    chars::lemma_prefix("--format"@, rest);
    assert(is_format_flag(args[i]));
}

/// One argument that names a blob is enough, wherever it stands; where none does, no blob is shown.
pub proof fn law_blob_wanted(args: Seq<Seq<char>>, i: int)
    ensures
        0 <= i < args.len() && args::names_blob(args[i]) ==> wants_blob(args),
        (forall|j: int| 0 <= j < args.len() ==> !args::names_blob(#[trigger] args[j])) ==> !wants_blob(
            args,
        ),
{
}

} // verus!
