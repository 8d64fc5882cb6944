//! Sessions of `git add`, `git commit`, `git push`, `git pull` and `git fetch`.
use crate::git::command;
use crate::git::command::{At, AtView, GitStage, Request, RequestView, StageView};
use crate::git::summary;
use crate::session;
use crate::session::{
    CaptureResult, CaptureView, ChunkView, NextView, Printed, Record, RecordView, RunMode, Step,
    StepView,
};
use crate::text::chars;
use crate::text::search;
use vstd::prelude::*;

verus! {

/// How `git add` begins: on everything where nothing is named.
pub open spec fn add_started(q: RequestView) -> StepView<StageView> {
    session::runs(
        command::git_sub(
            q.global_args,
            "add"@,
            if q.args.len() == 0 {
                seq!["."@]
            } else {
                q.args
            },
        ),
        StageView { request: q, at: AtView::Add },
    )
}

/// Begins `git add`.
pub fn run_add(request: Request) -> (r: Step<GitStage>)
    ensures
        r@ == add_started(request@),
{
    let cmd = command::git_cmd(request.global_args.as_slice()).arg("add");
    let cmd = if request.args.len() == 0 {
        let whole = cmd.arg(".");
        assert(whole@ == command::git_sub(request@.global_args, "add"@, seq!["."@]));
        whole
    } else {
        cmd.args(request.args.as_slice())
    };
    Step::run(cmd, GitStage::new(request, At::Add))
}

/// A failure: what failed, and what git said.
pub open spec fn failure(
    printed: Seq<ChunkView>,
    what: Seq<char>,
    c: CaptureView,
) -> Seq<ChunkView> {
    session::unless_blank(
        session::unless_blank(printed.push(session::err_line(what)), c.stderr),
        c.stdout,
    )
}

fn print_failure(printed: &mut Printed, what: &str, result: &CaptureResult)
    ensures
        final(printed)@ == failure(old(printed)@, what@, result@),
{
    printed.errln(what);
    printed.errln_unless_blank(result.stderr.as_str());
    printed.errln_unless_blank(result.stdout.as_str());
}

/// What follows adding: the statistics of what is staged.
pub open spec fn add_done(q: RequestView, c: CaptureView) -> StepView<StageView> {
    let printed = session::noted(q.verbose > 0, "git add executed"@);
    if c.exit_code == 0 {
        StepView {
            printed,
            record: None,
            next: NextView::Run {
                command: command::git_sub(
                    q.global_args,
                    "diff"@,
                    seq!["--cached"@, "--stat"@, "--shortstat"@],
                ),
                mode: RunMode::Captured,
                stage: StageView {
                    request: q,
                    at: AtView::AddStat(command::both(c.stdout, c.stderr)),
                },
            },
        }
    } else {
        session::finishes(failure(printed, "FAILED: git add"@, c), None, c.exit_code)
    }
}

/// Goes on after adding.
pub fn after_add(request: Request, result: CaptureResult) -> (r: Step<GitStage>)
    ensures
        r@ == add_done(request@, result@),
{
    let mut printed = Printed::noted(request.verbose > 0, "git add executed");
    if !result.success() {
        print_failure(&mut printed, "FAILED: git add", &result);
        return Step::done(printed, result.exit_code);
    }
    let raw = command::both_of(result.stdout.as_str(), result.stderr.as_str());
    let cmd = command::git_cmd(request.global_args.as_slice()).arg("diff").arg("--cached").arg(
        "--stat",
    ).arg("--shortstat");
    assert(cmd@ == command::git_sub(
        request@.global_args,
        "diff"@,
        seq!["--cached"@, "--stat"@, "--shortstat"@],
    ));
    let stage = GitStage::new(request, At::AddStat { raw });
    Step::print_and_run(printed, cmd, RunMode::Captured, stage)
}

/// The end of a `git add`: silent where nothing is staged.
pub open spec fn add_finished(
    q: RequestView,
    raw: Seq<char>,
    c: CaptureView,
) -> StepView<StageView> {
    let compact = summary::staged_summary(c.stdout);
    session::finishes(
        if compact.len() > 0 {
            seq![session::out_line(compact)]
        } else {
            Seq::empty()
        },
        Some(
            RecordView {
                original: command::label("git add "@, q.args),
                rewritten: command::label("rtk git add "@, q.args),
                input: raw,
                output: compact,
            },
        ),
        0,
    )
}

/// Ends a `git add`.
pub fn finish_add(request: Request, raw: String, result: CaptureResult) -> (r: Step<GitStage>)
    ensures
        r@ == add_finished(request@, raw@, result@),
{
    let compact = summary::summarize_add(result.stdout.as_str());
    let mut printed = Printed::nothing();
    if !compact.as_str().is_empty() {
        printed.outln(compact.as_str());
    }
    let original = command::label_of("git add ", request.args.as_slice());
    let rewritten = command::label_of("rtk git add ", request.args.as_slice());
    let record = Record::new(original.as_str(), rewritten.as_str(), raw.as_str(), compact.as_str());
    Step::record(printed, record, 0)
}

/// How `git commit` begins: with the user at the terminal.
pub open spec fn commit_started(q: RequestView) -> StepView<StageView> {
    StepView {
        printed: session::noted(q.verbose > 0, command::label("git commit "@, q.args)),
        record: None,
        next: NextView::Run {
            command: command::git_sub(q.global_args, "commit"@, q.args),
            mode: RunMode::Interactive,
            stage: StageView { request: q, at: AtView::Commit },
        },
    }
}

/// Begins `git commit`.
pub fn run_commit(request: Request) -> (r: Step<GitStage>)
    ensures
        r@ == commit_started(request@),
{
    let name = command::label_of("git commit ", request.args.as_slice());
    let printed = Printed::noted(request.verbose > 0, name.as_str());
    let cmd = command::build_commit_command(
        request.args.as_slice(),
        request.global_args.as_slice(),
    );
    let stage = GitStage::new(request, At::Commit);
    Step::print_and_run(printed, cmd, RunMode::Interactive, stage)
}

/// Whether git found nothing to commit.
pub open spec fn nothing_to_commit(c: CaptureView) -> bool {
    search::occurs(c.stderr, "nothing to commit"@) || search::occurs(
        c.stdout,
        "nothing to commit"@,
    )
}

/// What is recorded of a commit.
pub open spec fn commit_record(q: RequestView, c: CaptureView, output: Seq<char>) -> RecordView {
    RecordView {
        original: command::label("git commit "@, q.args),
        rewritten: "rtk git commit"@,
        input: command::both(c.stdout, c.stderr),
        output,
    }
}

/// The text on standard error, unless it is blank.
pub open spec fn text_unless_blank(printed: Seq<ChunkView>, s: Seq<char>) -> Seq<ChunkView> {
    if chars::is_blank(s) {
        printed
    } else {
        printed.push(ChunkView::Stderr(s))
    }
}

/// The end of a `git commit`. Where there was nothing to commit, that is no failure.
pub open spec fn commit_finished(q: RequestView, c: CaptureView) -> StepView<StageView> {
    if c.exit_code == 0 {
        let compact = summary::commit_summary(c.stdout);
        session::finishes(
            seq![session::out_line(compact)],
            Some(commit_record(q, c, compact)),
            0,
        )
    } else if nothing_to_commit(c) {
        session::finishes(
            seq![session::out_line("ok (nothing to commit)"@)],
            Some(commit_record(q, c, "ok (nothing to commit)"@)),
            0,
        )
    } else {
        session::finishes(
            text_unless_blank(text_unless_blank(Seq::empty(), c.stderr), c.stdout),
            Some(commit_record(q, c, command::both(c.stdout, c.stderr))),
            c.exit_code,
        )
    }
}

/// Ends a `git commit`.
pub fn finish_commit(request: Request, result: CaptureResult) -> (r: Step<GitStage>)
    ensures
        r@ == commit_finished(request@, result@),
{
    let name = command::label_of("git commit ", request.args.as_slice());
    let raw = command::both_of(result.stdout.as_str(), result.stderr.as_str());
    let mut printed = Printed::nothing();
    if result.success() {
        let compact = summary::summarize_commit(result.stdout.as_str());
        printed.outln(compact.as_str());
        let record = Record::new(name.as_str(), "rtk git commit", raw.as_str(), compact.as_str());
        return Step::record(printed, record, 0);
    }
    if search::str_contains(result.stderr.as_str(), "nothing to commit") || search::str_contains(
        result.stdout.as_str(),
        "nothing to commit",
    ) {
        printed.outln("ok (nothing to commit)");
        let record = Record::new(
            name.as_str(),
            "rtk git commit",
            raw.as_str(),
            "ok (nothing to commit)",
        );
        return Step::record(printed, record, 0);
    }
    if !command::blank_text(result.stderr.as_str()) {
        printed.err(result.stderr.as_str());
    }
    if !command::blank_text(result.stdout.as_str()) {
        printed.err(result.stdout.as_str());
    }
    let record = Record::new(name.as_str(), "rtk git commit", raw.as_str(), raw.as_str());
    Step::record(printed, record, result.exit_code)
}

/// How a push, pull or fetch begins.
pub open spec fn remote_started(
    q: RequestView,
    note: Seq<char>,
    sub: Seq<char>,
    mode: RunMode,
    at: AtView,
) -> StepView<StageView> {
    StepView {
        printed: session::noted(q.verbose > 0, note),
        record: None,
        next: NextView::Run {
            command: command::git_sub(q.global_args, sub, q.args),
            mode,
            stage: StageView { request: q, at },
        },
    }
}

fn start(request: Request, note: &str, sub: &str, mode: RunMode, at: At) -> (r: Step<GitStage>)
    ensures
        r@ == remote_started(request@, note@, sub@, mode, at@),
{
    let printed = Printed::noted(request.verbose > 0, note);
    let cmd = command::git_subcommand(
        request.global_args.as_slice(),
        sub,
        request.args.as_slice(),
    );
    Step::print_and_run(printed, cmd, mode, GitStage::new(request, at))
}

/// How `git push` begins: through the line filter, with the user at the terminal.
pub open spec fn push_started(q: RequestView) -> StepView<StageView> {
    remote_started(q, "git push"@, "push"@, RunMode::Streamed, AtView::Push)
}

/// Begins `git push`.
pub fn run_push(request: Request) -> (r: Step<GitStage>)
    ensures
        r@ == push_started(request@),
{
    start(request, "git push", "push", RunMode::Streamed, At::Push)
}

/// The end of a `git push`: everything has been printed on the way.
pub open spec fn push_finished(q: RequestView, c: CaptureView) -> StepView<StageView> {
    session::finishes(
        Seq::empty(),
        Some(
            RecordView {
                original: command::label("git push "@, q.args),
                rewritten: "rtk "@ + command::label("git push "@, q.args),
                input: c.combined,
                output: c.stdout,
            },
        ),
        c.exit_code,
    )
}

/// Ends a `git push`.
pub fn finish_push(request: Request, result: CaptureResult) -> (r: Step<GitStage>)
    ensures
        r@ == push_finished(request@, result@),
{
    let original = command::label_of("git push ", request.args.as_slice());
    let mut rewritten = "rtk ".to_string();
    rewritten.append(original.as_str());
    let record = Record::new(
        original.as_str(),
        rewritten.as_str(),
        result.combined.as_str(),
        result.stdout.as_str(),
    );
    Step::record(Printed::nothing(), record, result.exit_code)
}

/// How `git pull` begins.
pub open spec fn pull_started(q: RequestView) -> StepView<StageView> {
    remote_started(q, "git pull"@, "pull"@, RunMode::Captured, AtView::Pull)
}

/// Begins `git pull`.
pub fn run_pull(request: Request) -> (r: Step<GitStage>)
    ensures
        r@ == pull_started(request@),
{
    start(request, "git pull", "pull", RunMode::Captured, At::Pull)
}

/// The end of a `git pull`.
pub open spec fn pull_finished(q: RequestView, c: CaptureView) -> StepView<StageView> {
    if c.exit_code == 0 {
        let compact = summary::pull_summary(c.stdout);
        session::finishes(
            seq![session::out_line(compact)],
            Some(
                RecordView {
                    original: command::label("git pull "@, q.args),
                    rewritten: command::label("rtk git pull "@, q.args),
                    input: command::both(c.stdout, c.stderr),
                    output: compact,
                },
            ),
            0,
        )
    } else {
        session::finishes(failure(Seq::empty(), "FAILED: git pull"@, c), None, c.exit_code)
    }
}

/// Ends a `git pull`.
pub fn finish_pull(request: Request, result: CaptureResult) -> (r: Step<GitStage>)
    ensures
        r@ == pull_finished(request@, result@),
{
    let mut printed = Printed::nothing();
    if !result.success() {
        print_failure(&mut printed, "FAILED: git pull", &result);
        return Step::done(printed, result.exit_code);
    }
    let compact = summary::summarize_pull(result.stdout.as_str());
    printed.outln(compact.as_str());
    let raw = command::both_of(result.stdout.as_str(), result.stderr.as_str());
    let original = command::label_of("git pull ", request.args.as_slice());
    let rewritten = command::label_of("rtk git pull ", request.args.as_slice());
    let record = Record::new(original.as_str(), rewritten.as_str(), raw.as_str(), compact.as_str());
    Step::record(printed, record, 0)
}

/// How `git fetch` begins.
pub open spec fn fetch_started(q: RequestView) -> StepView<StageView> {
    remote_started(q, "git fetch"@, "fetch"@, RunMode::Captured, AtView::Fetch)
}

/// Begins `git fetch`.
pub fn run_fetch(request: Request) -> (r: Step<GitStage>)
    ensures
        r@ == fetch_started(request@),
{
    start(request, "git fetch", "fetch", RunMode::Captured, At::Fetch)
}

/// The end of a `git fetch`.
pub open spec fn fetch_finished(c: CaptureView) -> StepView<StageView> {
    if c.exit_code != 0 {
        session::finishes(
            session::unless_blank(seq![session::err_line("FAILED: git fetch"@)], c.stderr),
            None,
            c.exit_code,
        )
    } else {
        let msg = summary::fetch_summary(c.stderr);
        session::finishes(
            seq![session::out_line(msg)],
            Some(
                RecordView {
                    original: "git fetch"@,
                    rewritten: "rtk git fetch"@,
                    input: c.combined,
                    output: msg,
                },
            ),
            0,
        )
    }
}

/// Ends a `git fetch`.
pub fn finish_fetch(result: CaptureResult) -> (r: Step<GitStage>)
    ensures
        r@ == fetch_finished(result@),
{
    let mut printed = Printed::nothing();
    if !result.success() {
        printed.errln("FAILED: git fetch");
        printed.errln_unless_blank(result.stderr.as_str());
        return Step::done(printed, result.exit_code);
    }
    let msg = summary::summarize_fetch(result.stderr.as_str());
    printed.outln(msg.as_str());
    let record = Record::new("git fetch", "rtk git fetch", result.combined.as_str(), msg.as_str());
    Step::record(printed, record, 0)
}

/// How an `add` runs: on what the user names, or on everything; and what is staged is asked for after
/// it succeeded.
pub proof fn law_add_commands(q: RequestView, c: CaptureView)
    ensures
        add_started(q).next matches NextView::Run { command, mode, stage } && command.args
            == q.global_args + seq!["add"@] + (if q.args.len() == 0 {
            seq!["."@]
        } else {
            q.args
        }) && stage.at == AtView::Add,
        c.exit_code == 0 ==> (add_done(q, c).next matches NextView::Run { command, mode, stage }
            && command.args == q.global_args + seq![
            "diff"@,
            "--cached"@,
            "--stat"@,
            "--shortstat"@,
        ] && stage.at == AtView::AddStat(c.stdout + "\n"@ + c.stderr)),
{
    let g = q.global_args;
    assert(g.push("add"@) == g + seq!["add"@]);
    assert(g.push("diff"@) + seq!["--cached"@, "--stat"@, "--shortstat"@] == g + seq![
        "diff"@,
        "--cached"@,
        "--stat"@,
        "--shortstat"@,
    ]);
}

/// Commit, push, pull and fetch run with the user's options and arguments; a commit with the user at
/// the terminal, and a push through the line filter.
pub proof fn law_change_commands(q: RequestView)
    ensures
        commit_started(q).next matches NextView::Run { command, mode, stage } && command.args
            == q.global_args + seq!["commit"@] + q.args && mode == RunMode::Interactive && stage.at
            == AtView::Commit,
        push_started(q).next matches NextView::Run { command, mode, stage } && command.args
            == q.global_args + seq!["push"@] + q.args && mode == RunMode::Streamed && stage.at
            == AtView::Push,
        pull_started(q).next matches NextView::Run { command, mode, stage } && command.args
            == q.global_args + seq!["pull"@] + q.args && mode == RunMode::Captured && stage.at
            == AtView::Pull,
        fetch_started(q).next matches NextView::Run { command, mode, stage } && command.args
            == q.global_args + seq!["fetch"@] + q.args && mode == RunMode::Captured && stage.at
            == AtView::Fetch,
{
    let g = q.global_args;
    assert(g.push("commit"@) == g + seq!["commit"@]);
    assert(g.push("push"@) == g + seq!["push"@]);
    assert(g.push("pull"@) == g + seq!["pull"@]);
    assert(g.push("fetch"@) == g + seq!["fetch"@]);
}

/// A change that git made is summed up on one line, and that is what is recorded.
pub proof fn law_changes_summed_up(q: RequestView, raw: Seq<char>, c: CaptureView)
    requires
        c.exit_code == 0,
    ensures
        ({
            let shown = summary::commit_summary(c.stdout);
            &&& commit_finished(q, c).printed == seq![session::out_line(shown)]
            &&& commit_finished(q, c).record matches Some(r) && r.output == shown
        }),
        ({
            let shown = summary::pull_summary(c.stdout);
            &&& pull_finished(q, c).printed == seq![session::out_line(shown)]
            &&& pull_finished(q, c).record matches Some(r) && r.output == shown
        }),
        ({
            let shown = summary::fetch_summary(c.stderr);
            &&& fetch_finished(c).printed == seq![session::out_line(shown)]
            &&& fetch_finished(c).record matches Some(r) && r.output == shown && r.input == c.combined
        }),
        ({
            let shown = summary::staged_summary(c.stdout);
            &&& shown.len() > 0 ==> add_finished(q, raw, c).printed == seq![session::out_line(shown)]
            &&& shown.len() == 0 ==> add_finished(q, raw, c).printed.len() == 0
            &&& add_finished(q, raw, c).record matches Some(r) && r.output == shown && r.input == raw
        }),
        push_finished(q, c).record matches Some(r) && r.output == c.stdout && r.input == c.combined,
{
}

/// Nothing to commit is no failure; any other failure is told with git's own words, and its exit code
/// is passed on.
pub proof fn law_failed_changes_told(q: RequestView, c: CaptureView)
    requires
        c.exit_code != 0,
    ensures
        search::occurs(c.stdout, "nothing to commit"@) || search::occurs(
            c.stderr,
            "nothing to commit"@,
        ) ==> commit_finished(q, c).printed == seq![session::out_line("ok (nothing to commit)"@)]
            && commit_finished(q, c).next == NextView::<StageView>::Done(0),
        !nothing_to_commit(c) ==> commit_finished(q, c).next == NextView::<StageView>::Done(
            c.exit_code,
        ) && (!chars::is_blank(c.stderr) ==> commit_finished(q, c).printed.contains(
            ChunkView::Stderr(c.stderr),
        )) && (!chars::is_blank(c.stdout) ==> commit_finished(q, c).printed.contains(
            ChunkView::Stderr(c.stdout),
        )),
        add_done(q, c).next == NextView::<StageView>::Done(c.exit_code),
        push_finished(q, c).next == NextView::<StageView>::Done(c.exit_code),
        pull_finished(q, c).next == NextView::<StageView>::Done(c.exit_code),
        fetch_finished(c).next == NextView::<StageView>::Done(c.exit_code),
        !chars::is_blank(c.stderr) ==> add_done(q, c).printed.contains(session::err_line(c.stderr))
            && pull_finished(q, c).printed.contains(session::err_line(c.stderr)) && fetch_finished(
            c,
        ).printed.contains(session::err_line(c.stderr)),
        !chars::is_blank(c.stdout) ==> add_done(q, c).printed.contains(session::err_line(c.stdout))
            && pull_finished(q, c).printed.contains(session::err_line(c.stdout)),
{
    lemma_failure(session::noted(q.verbose > 0, "git add executed"@), "FAILED: git add"@, c);
    lemma_failure(Seq::empty(), "FAILED: git pull"@, c);
    if !chars::is_blank(c.stderr) {
        let f = fetch_finished(c).printed;
        assert(f[f.len() - 1] == session::err_line(c.stderr));
    }
    let p = commit_finished(q, c).printed;
    if !nothing_to_commit(c) {
        if !chars::is_blank(c.stderr) {
            assert(p[0] == ChunkView::Stderr(c.stderr));
        }
        if !chars::is_blank(c.stdout) {
            assert(p[p.len() - 1] == ChunkView::Stderr(c.stdout));
        }
    }
}

proof fn lemma_failure(printed: Seq<ChunkView>, what: Seq<char>, c: CaptureView)
    ensures
        failure(printed, what, c).contains(session::err_line(what)),
        !chars::is_blank(c.stderr) ==> failure(printed, what, c).contains(
            session::err_line(c.stderr),
        ),
        !chars::is_blank(c.stdout) ==> failure(printed, what, c).contains(
            session::err_line(c.stdout),
        ),
{
    let f = failure(printed, what, c);
    let n = printed.len() as int;
    assert(f[n] == session::err_line(what));
    if !chars::is_blank(c.stderr) {
        assert(f[n + 1] == session::err_line(c.stderr));
    }
    if !chars::is_blank(c.stdout) {
        assert(f[f.len() - 1] == session::err_line(c.stdout));
    }
}

} // verus!
