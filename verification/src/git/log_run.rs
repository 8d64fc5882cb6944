//! A session of `git log`.
use crate::git::command;
use crate::git::command::{At, AtView, GitStage, Request, RequestView, StageView};
use crate::git::log;
use crate::session;
use crate::session::{CaptureResult, CaptureView, Printed, Record, RecordView, Step, StepView};
use crate::text::chars;
use crate::text::compose;
use vstd::prelude::*;

verus! {

/// A flag that sets the format.
pub open spec fn is_format_flag(a: Seq<char>) -> bool {
    ||| chars::has_prefix(a, "--oneline"@)
    ||| chars::has_prefix(a, "--pretty"@)
    ||| chars::has_prefix(a, "--format"@)
}

fn format_flag(a: &str) -> (r: bool)
    ensures
        r == is_format_flag(a@),
{
    let t = chars::to_chars(a);
    chars::starts_with(t.as_slice(), "--oneline") || chars::starts_with(t.as_slice(), "--pretty")
        || chars::starts_with(t.as_slice(), "--format")
}

/// Whether the arguments set the format.
pub open spec fn has_format(args: Seq<Seq<char>>) -> bool {
    exists|i: int| 0 <= i < args.len() && is_format_flag(#[trigger] args[i])
}

fn sets_format(args: &[String]) -> (r: bool)
    ensures
        r == has_format(args.deep_view()),
{
    compose::any(args, format_flag, Ghost(|a: Seq<char>| is_format_flag(a)))
}

/// A flag that sets the limit.
pub open spec fn is_limit_flag(a: Seq<char>) -> bool {
    ||| log::is_dash_number(a)
    ||| a == "-n"@
    ||| chars::has_prefix(a, "--max-count"@)
}

fn limit_flag(a: &str) -> (r: bool)
    ensures
        r == is_limit_flag(a@),
{
    let t = chars::to_chars(a);
    (t.len() > 1 && t[0] == '-' && chars::is_ascii_digit(t[1])) || chars::same_str(a, "-n")
        || chars::starts_with(t.as_slice(), "--max-count")
}

/// Whether the arguments set the limit.
pub open spec fn has_limit(args: Seq<Seq<char>>) -> bool {
    exists|i: int| 0 <= i < args.len() && is_limit_flag(#[trigger] args[i])
}

fn sets_limit(args: &[String]) -> (r: bool)
    ensures
        r == has_limit(args.deep_view()),
{
    compose::any(args, limit_flag, Ghost(|a: Seq<char>| is_limit_flag(a)))
}

/// Whether the arguments ask for merges.
pub open spec fn wants_merges(args: Seq<Seq<char>>) -> bool {
    args.contains("--merges"@) || args.contains("--min-parents=2"@)
}

/// The limit on entries: the user's, else 50 with a format of the user's and 10 without.
pub open spec fn limit(args: Seq<Seq<char>>) -> nat {
    if has_limit(args) {
        match log::limit_from(args, 0) {
            Some(n) => n,
            None => 10,
        }
    } else if has_format(args) {
        50
    } else {
        10
    }
}

/// The format that is used where the user sets none.
pub open spec fn default_format() -> Seq<char> {
    "--pretty=format:%h %s (%ar) <%an>%n%b%n---END---"@
}

/// What is added to the user's arguments: a format and a limit where none is set, and the request
/// to leave merges out unless they are asked for.
pub open spec fn added_args(args: Seq<Seq<char>>) -> Seq<Seq<char>> {
    let format = if has_format(args) {
        Seq::empty()
    } else {
        seq![default_format()]
    };
    let count = if has_limit(args) {
        Seq::empty()
    } else if has_format(args) {
        seq!["-50"@]
    } else {
        seq!["-10"@]
    };
    let merges = if wants_merges(args) {
        Seq::empty()
    } else {
        seq!["--no-merges"@]
    };
    format + count + merges
}

/// How `git log` begins.
pub open spec fn log_started(q: RequestView) -> StepView<StageView> {
    session::runs(
        command::git_sub(q.global_args, "log"@, added_args(q.args) + q.args),
        StageView { request: q, at: AtView::Log },
    )
}

/// Begins `git log`.
pub fn run_log(request: Request) -> (r: Step<GitStage>)
    ensures
        r@ == log_started(request@),
{
    let ghost q = request@;
    let args = request.args.as_slice();
    let format = sets_format(args);
    let mut all: Vec<String> = Vec::new();
    if !format {
        compose::push_str(&mut all, "--pretty=format:%h %s (%ar) <%an>%n%b%n---END---");
    }
    if !sets_limit(args) {
        if format {
            compose::push_str(&mut all, "-50");
        } else {
            compose::push_str(&mut all, "-10");
        }
    }
    if !compose::has(args, "--merges") && !compose::has(args, "--min-parents=2") {
        compose::push_str(&mut all, "--no-merges");
    }
    assert(all.deep_view() == added_args(q.args));
    compose::extend(&mut all, args);
    let cmd = command::git_subcommand(request.global_args.as_slice(), "log", all.as_slice());
    Step::run(cmd, GitStage::new(request, At::Log))
}

/// The end of a `git log`.
pub open spec fn log_finished(q: RequestView, c: CaptureView) -> StepView<StageView> {
    if c.exit_code != 0 {
        session::finishes(seq![session::err_line(c.stderr)], None, c.exit_code)
    } else {
        let filtered = log::filtered_log(
            c.stdout,
            limit(q.args),
            has_limit(q.args),
            has_format(q.args),
        );
        session::finishes(
            session::noted(q.verbose > 0, "Git log output:"@).push(session::out_line(filtered)),
            Some(
                RecordView {
                    original: command::label("git log "@, q.args),
                    rewritten: command::label("rtk git log "@, q.args),
                    input: c.stdout,
                    output: filtered,
                },
            ),
            0,
        )
    }
}

/// Ends a `git log`.
pub fn finish_log(request: Request, result: CaptureResult) -> (r: Step<GitStage>)
    ensures
        r@ == log_finished(request@, result@),
{
    if !result.success() {
        let mut printed = Printed::nothing();
        printed.errln(result.stderr.as_str());
        return Step::done(printed, result.exit_code);
    }
    let args = request.args.as_slice();
    let format = sets_format(args);
    let user_limit = sets_limit(args);
    let n: usize = if user_limit {
        match log::parse_user_limit(args) {
            Some(n) => n,
            None => 10,
        }
    } else if format {
        50
    } else {
        10
    };
    let filtered = log::filter_log_output(result.stdout.as_str(), n, user_limit, format);
    let mut printed = Printed::noted(request.verbose > 0, "Git log output:");
    printed.outln(filtered.as_str());
    let original = command::label_of("git log ", args);
    let rewritten = command::label_of("rtk git log ", args);
    let record = Record::new(
        original.as_str(),
        rewritten.as_str(),
        result.stdout.as_str(),
        filtered.as_str(),
    );
    Step::record(printed, record, 0)
}

/// A limit, a format or a request for merges of the user's is respected: nothing is added against
/// it, and the limit is not applied a second time.
pub proof fn law_user_flags_respected(args: Seq<Seq<char>>, n: nat)
    ensures
        has_limit(args) ==> !added_args(args).contains("-10"@) && !added_args(args).contains(
            "-50"@,
        ),
        has_format(args) ==> !added_args(args).contains(default_format()),
        wants_merges(args) ==> !added_args(args).contains("--no-merges"@),
        has_limit(args) ==> log::kept(n, limit(args), has_limit(args)) == n,
{
    reveal_strlit("-10");
    reveal_strlit("-50");
    reveal_strlit("--no-merges");
    reveal_strlit("--pretty=format:%h %s (%ar) <%an>%n%b%n---END---");
    assert("-10"@.len() == 3 && "-50"@.len() == 3);
    assert("--no-merges"@.len() == 11);
    assert(default_format().len() > 11);
}

/// What the user leaves open is filled in: the format, the limit and that merges are left out.
pub proof fn law_defaults_filled_in(args: Seq<Seq<char>>)
    ensures
        !has_format(args) ==> added_args(args).contains(
            "--pretty=format:%h %s (%ar) <%an>%n%b%n---END---"@,
        ),
        !has_limit(args) && !has_format(args) ==> added_args(args).contains("-10"@) && limit(args)
            == 10,
        !has_limit(args) && has_format(args) ==> added_args(args).contains("-50"@) && limit(args)
            == 50,
        !wants_merges(args) ==> added_args(args).contains("--no-merges"@),
        has_limit(args) && log::limit_from(args, 0) is Some ==> Some(limit(args))
            == log::limit_from(args, 0),
{
    let a = added_args(args);
    let f: int = if has_format(args) {
        0
    } else {
        1
    };
    let c: int = if has_limit(args) {
        0
    } else {
        1
    };
    if !has_format(args) {
        assert(a[0] == default_format());
    }
    if !has_limit(args) {
        assert(a[f] == "-10"@ || a[f] == "-50"@);
    }
    if !wants_merges(args) {
        assert(a[f + c] == "--no-merges"@);
    }
}

/// The user's arguments follow what is filled in, all of them and in order.
pub proof fn law_log_command(q: RequestView)
    ensures
        log_started(q).next matches session::NextView::Run { command, mode, stage }
            && command.args == q.global_args + seq!["log"@] + added_args(q.args) + q.args
            && stage.request == q && stage.at == AtView::Log,
{
    let all = added_args(q.args) + q.args;
    assert(q.global_args.push("log"@) + all == q.global_args + seq!["log"@] + added_args(q.args)
        + q.args);
}

/// How a format, a limit and merges are asked for.
pub proof fn law_log_flags(args: Seq<Seq<char>>, i: int, rest: Seq<char>, c: char)
    requires
        0 <= i < args.len(),
    ensures
        args[i] == "--oneline"@ + rest ==> has_format(args),
        args[i] == "--pretty"@ + rest ==> has_format(args),
        args[i] == "--format"@ + rest ==> has_format(args),
        args[i] == "-n"@ ==> has_limit(args),
        args[i] == "--max-count"@ + rest ==> has_limit(args),
        chars::is_digit(c) && args[i] == "-"@ + seq![c] + rest ==> has_limit(args),
        args[i] == "--merges"@ ==> wants_merges(args),
        args[i] == "--min-parents=2"@ ==> wants_merges(args),
{
    reveal_strlit("-");
    let a = args[i];
    assert(("--oneline"@ + rest).take("--oneline"@.len() as int) == "--oneline"@);
    assert(("--pretty"@ + rest).take("--pretty"@.len() as int) == "--pretty"@);
    assert(("--format"@ + rest).take("--format"@.len() as int) == "--format"@);
    assert(("--max-count"@ + rest).take("--max-count"@.len() as int) == "--max-count"@);
    if chars::is_digit(c) && a == "-"@ + seq![c] + rest {
        assert(a[0] == '-' && a[1] == c);
        assert(is_limit_flag(args[i]));
    }
    if chars::has_prefix(a, "--max-count"@) || a == "-n"@ {
        assert(is_limit_flag(args[i]));
    }
    if is_format_flag(a) {
        assert(is_format_flag(args[i]));
    }
}

/// A log that git could not make is told with git's own words and exit code, and nothing is shown or
/// recorded; one that it made is shown as it is filtered, and that is what is recorded.
pub proof fn law_log_end(q: RequestView, c: CaptureView)
    ensures
        c.exit_code != 0 ==> log_finished(q, c).printed == seq![session::err_line(c.stderr)]
            && log_finished(q, c).record is None && log_finished(q, c).next
            == session::NextView::<StageView>::Done(c.exit_code),
        c.exit_code == 0 ==> ({
            let shown = log::filtered_log(
                c.stdout,
                limit(q.args),
                has_limit(q.args),
                has_format(q.args),
            );
            &&& log_finished(q, c).printed.last() == session::out_line(shown)
            &&& log_finished(q, c).record matches Some(r) && r.output == shown && r.input == c.stdout
            &&& log_finished(q, c).next == session::NextView::<StageView>::Done(0)
        }),
{
}

} // verus!
