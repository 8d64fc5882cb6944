//! A session of `git status`.
use crate::git::command;
use crate::git::command::{At, AtView, GitStage, Request, RequestView, StageView};
use crate::git::status;
use crate::session;
use crate::session::{
    CaptureResult, CaptureView, ChunkView, NextView, Printed, Record, RecordView, Step, StepView,
};
use crate::text::chars;
use crate::text::search;
use crate::text::split;
use vstd::prelude::*;

verus! {

/// How `git status` begins: as the user asked for it, or with a plain status in a stable locale
/// from which the state is read.
pub open spec fn status_started(q: RequestView) -> StepView<StageView> {
    if status::takes_compact_form(q.args) {
        session::runs(
            session::with_args(
                session::with_arg(command::git_line_c_locale(q.global_args), "status"@),
                q.args,
            ),
            StageView { request: q, at: AtView::StatusRaw },
        )
    } else {
        session::runs(
            command::status_line(q.args, q.global_args),
            StageView { request: q, at: AtView::StatusPlain },
        )
    }
}

/// Begins `git status`.
pub fn run_status(request: Request) -> (r: Step<GitStage>)
    ensures
        r@ == status_started(request@),
{
    if !status::uses_compact_status_path(request.args.as_slice()) {
        let cmd = command::build_status_command(
            request.args.as_slice(),
            request.global_args.as_slice(),
        );
        return Step::run(cmd, GitStage::new(request, At::StatusPlain));
    }
    let cmd = command::git_cmd_c_locale(request.global_args.as_slice()).arg("status").args(
        request.args.as_slice(),
    );
    Step::run(cmd, GitStage::new(request, At::StatusRaw))
}

/// What is recorded of a status with arguments.
pub open spec fn plain_record(
    q: RequestView,
    input: Seq<char>,
    output: Seq<char>,
) -> RecordView {
    RecordView {
        original: command::label("git status "@, q.args),
        rewritten: command::label("rtk git status "@, q.args),
        input,
        output,
    }
}

/// The end of a status that the user asked for in another form.
pub open spec fn plain_finished(q: RequestView, c: CaptureView) -> StepView<StageView> {
    if c.exit_code != 0 {
        session::finishes(
            if chars::is_blank(c.stderr) {
                Seq::empty()
            } else {
                seq![ChunkView::Stderr(c.stderr)]
            },
            Some(plain_record(q, c.stdout, c.stdout)),
            c.exit_code,
        )
    } else {
        let filtered = status::filtered_status(c.stdout);
        let warnings = if q.verbose > 0 || c.stderr.len() > 0 {
            seq![ChunkView::Stderr(c.stderr)]
        } else {
            Seq::empty()
        };
        session::finishes(
            warnings.push(ChunkView::Stdout(filtered)),
            Some(plain_record(q, c.stdout, filtered)),
            0,
        )
    }
}

fn record_plain(request: &Request, input: &str, output: &str) -> (r: Record)
    ensures
        r@ == plain_record(request@, input@, output@),
{
    let original = command::label_of("git status ", request.args.as_slice());
    let rewritten = command::label_of("rtk git status ", request.args.as_slice());
    Record::new(original.as_str(), rewritten.as_str(), input, output)
}

/// Ends a status that the user asked for in another form.
pub fn finish_plain(request: Request, result: CaptureResult) -> (r: Step<GitStage>)
    ensures
        r@ == plain_finished(request@, result@),
{
    let mut printed = Printed::nothing();
    if !result.success() {
        if !command::blank_text(result.stderr.as_str()) {
            printed.err(result.stderr.as_str());
        }
        let record = record_plain(&request, result.stdout.as_str(), result.stdout.as_str());
        return Step::record(printed, record, result.exit_code);
    }
    if request.verbose > 0 || !result.stderr.as_str().is_empty() {
        printed.err(result.stderr.as_str());
    }
    let filtered = status::filter_status_with_args(result.stdout.as_str());
    printed.out(filtered.as_str());
    let record = record_plain(&request, result.stdout.as_str(), filtered.as_str());
    Step::record(printed, record, 0)
}

/// What follows the plain status: the porcelain one.
pub open spec fn raw_done(q: RequestView, raw: Seq<char>) -> StepView<StageView> {
    session::runs(
        command::status_line(q.args, q.global_args),
        StageView { request: q, at: AtView::StatusCompact(raw) },
    )
}

/// Goes on after the plain status, which is empty where it could not be had.
pub fn after_raw(request: Request, raw: String) -> (r: Step<GitStage>)
    ensures
        r@ == raw_done(request@, raw@),
{
    let cmd = command::build_status_command(
        request.args.as_slice(),
        request.global_args.as_slice(),
    );
    Step::run(cmd, GitStage::new(request, At::StatusCompact { raw }))
}

/// What is recorded of a status in the compact form.
pub open spec fn compact_record(
    q: RequestView,
    input: Seq<char>,
    output: Seq<char>,
) -> RecordView {
    if q.args.len() == 0 {
        RecordView { original: "git status"@, rewritten: "rtk git status"@, input, output }
    } else {
        plain_record(q, input, output)
    }
}

fn record_compact(request: &Request, input: &str, output: &str) -> (r: Record)
    ensures
        r@ == compact_record(request@, input@, output@),
{
    if request.args.len() == 0 {
        Record::new("git status", "rtk git status", input, output)
    } else {
        record_plain(request, input, output)
    }
}

/// Whether git was called outside a repository.
pub open spec fn outside_repository(stderr: Seq<char>) -> bool {
    stderr.len() > 0 && search::occurs(stderr, "not a git repository"@)
}

/// The compact status with what the plain status tells: a detached head by its ref, and above all
/// the operation in progress.
pub open spec fn full_status(raw: Seq<char>, porcelain: Seq<char>) -> Seq<char> {
    let lines = split::lines_of(raw);
    let formatted = status::compact_status(porcelain, status::detached_head(lines));
    match status::state_header(lines) {
        Some(state) => command::both(state, formatted),
        None => formatted,
    }
}

/// The compact status, given the plain and the porcelain output.
pub fn format_full_status(raw: &str, porcelain: &str) -> (r: String)
    ensures
        r@ == full_status(raw@, porcelain@),
{
    let formatted = match status::extract_detached_head(raw) {
        Some(detached_ref) => status::format_status_output_detached(
            porcelain,
            detached_ref.as_str(),
        ),
        None => status::format_status_output(porcelain),
    };
    match status::extract_state_header(raw) {
        Some(state) => command::both_of(state.as_str(), formatted.as_str()),
        None => formatted,
    }
}

/// The end of a status in the compact form.
pub open spec fn compact_finished(
    q: RequestView,
    raw: Seq<char>,
    c: CaptureView,
) -> StepView<StageView> {
    if outside_repository(c.stderr) {
        session::finishes(
            seq![session::err_line("Not a git repository"@)],
            Some(compact_record(q, raw, "Not a git repository"@)),
            c.exit_code,
        )
    } else {
        let output = full_status(raw, c.stdout);
        session::finishes(
            seq![session::out_line(output)],
            Some(compact_record(q, raw, output)),
            0,
        )
    }
}

/// Ends a status in the compact form.
pub fn finish_compact(request: Request, raw: String, result: CaptureResult) -> (r: Step<GitStage>)
    ensures
        r@ == compact_finished(request@, raw@, result@),
{
    let mut printed = Printed::nothing();
    if !result.stderr.as_str().is_empty() && search::str_contains(
        result.stderr.as_str(),
        "not a git repository",
    ) {
        printed.errln("Not a git repository");
        let record = record_compact(&request, raw.as_str(), "Not a git repository");
        return Step::record(printed, record, result.exit_code);
    }
    let output = format_full_status(raw.as_str(), result.stdout.as_str());
    printed.outln(output.as_str());
    let record = record_compact(&request, raw.as_str(), output.as_str());
    Step::record(printed, record, 0)
}

/// Outside a repository a status ends with git's exit code, and says so on standard error alone.
pub proof fn law_outside_repository_fails(q: RequestView, raw: Seq<char>, c: CaptureView)
    requires
        outside_repository(c.stderr),
    ensures
        compact_finished(q, raw, c).next == NextView::<StageView>::Done(c.exit_code),
        compact_finished(q, raw, c).printed == seq![session::err_line("Not a git repository"@)],
{
}

/// An operation in progress that the plain status tells of stands first in the compact one.
pub proof fn law_state_comes_first(raw: Seq<char>, porcelain: Seq<char>, state: Seq<char>)
    requires
        status::state_header(split::lines_of(raw)) == Some(state),
    ensures
        chars::has_prefix(full_status(raw, porcelain), state),
{
    let full = full_status(raw, porcelain);
    assert(full.take(state.len() as int) == state);
}

/// A status in the compact form runs twice: in a stable locale for the state, and for the files, of
/// which every one is asked for. Any other status runs as the user asked for it.
pub proof fn law_status_commands(q: RequestView, raw: Seq<char>)
    ensures
        status::takes_compact_form(q.args) ==> (status_started(q).next matches NextView::Run {
            command,
            mode,
            stage,
        } && command.args == q.global_args + seq!["status"@] + q.args && command.env == seq![
            ("LC_ALL"@, "C"@),
        ] && stage.at == AtView::StatusRaw),
        status::takes_compact_form(q.args) ==> (raw_done(q, raw).next matches NextView::Run {
            command,
            mode,
            stage,
        } && command.args == q.global_args + seq![
            "status"@,
            "--porcelain"@,
            "-b"@,
            "-uall"@,
        ] && command.env.len() == 0 && stage.at == AtView::StatusCompact(raw)),
        !status::takes_compact_form(q.args) ==> (status_started(q).next matches NextView::Run {
            command,
            mode,
            stage,
        } && command.args == q.global_args + seq!["status"@] + q.args && command.env.len() == 0
            && stage.at == AtView::StatusPlain),
{
    let g = q.global_args;
    assert(g.push("status"@) == g + seq!["status"@]);
    assert(g.push("status"@) + seq!["--porcelain"@, "-b"@, "-uall"@] == g + seq![
        "status"@,
        "--porcelain"@,
        "-b"@,
        "-uall"@,
    ]);
}

/// A status inside a repository is the state in progress, where there is one, above the compact form;
/// that is shown and recorded.
pub proof fn law_status_shown(q: RequestView, raw: Seq<char>, c: CaptureView)
    requires
        !search::occurs(c.stderr, "not a git repository"@),
    ensures
        ({
            let lines = split::lines_of(raw);
            let body = status::compact_status(c.stdout, status::detached_head(lines));
            let shown = match status::state_header(lines) {
                Some(state) => state + "\n"@ + body,
                None => body,
            };
            &&& compact_finished(q, raw, c).printed == seq![session::out_line(shown)]
            &&& compact_finished(q, raw, c).next == NextView::<StageView>::Done(0)
            &&& compact_finished(q, raw, c).record matches Some(r) && r.input == raw && r.output
                == shown
        }),
{
}

/// A status that the user asked for in another form is shown without blank lines and hints, with git's
/// warnings before it; where git failed its own words and exit code are passed on.
pub proof fn law_plain_status_shown(q: RequestView, c: CaptureView)
    ensures
        c.exit_code == 0 ==> plain_finished(q, c).printed.last() == ChunkView::Stdout(
            status::filtered_status(c.stdout),
        ) && (c.stderr.len() > 0 ==> plain_finished(q, c).printed[0] == ChunkView::Stderr(
            c.stderr,
        )) && plain_finished(q, c).next == NextView::<StageView>::Done(0),
        c.exit_code != 0 ==> plain_finished(q, c).next == NextView::<StageView>::Done(c.exit_code)
            && (!chars::is_blank(c.stderr) ==> plain_finished(q, c).printed == seq![
            ChunkView::Stderr(c.stderr),
        ]),
{
}

} // verus!
