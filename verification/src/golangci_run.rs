//! A session of `golangci-lint`.
use crate::golangci;
use crate::golangci::GolangciOutput;
use crate::session;
use crate::session::{
    CaptureResult, CaptureView, CommandLine, CommandView, NextView, Printed, Record, RecordView,
    RunMode, Step, StepView,
};
use crate::text::chars;
use crate::text::compose;
use crate::text::split;
use vstd::prelude::*;

verus! {

/// A flag that sets the output format.
pub open spec fn is_format_flag(a: Seq<char>) -> bool {
    ||| a == "--out-format"@
    ||| chars::has_prefix(a, "--out-format="@)
    ||| a == "--output.json.path"@
    ||| chars::has_prefix(a, "--output.json.path="@)
}

fn format_flag(a: &str) -> (r: bool)
    ensures
        r == is_format_flag(a@),
{
    let t = chars::to_chars(a);
    let s = t.as_slice();
    chars::equals(s, "--out-format") || chars::starts_with(s, "--out-format=") || chars::equals(
        s,
        "--output.json.path",
    ) || chars::starts_with(s, "--output.json.path=")
}

/// Whether the arguments set the output format.
pub open spec fn has_format(args: Seq<Seq<char>>) -> bool {
    exists|i: int| 0 <= i < args.len() && is_format_flag(#[trigger] args[i])
}

fn sets_format(args: &[String]) -> (r: bool)
    ensures
        r == has_format(args.deep_view()),
{
    compose::any(args, format_flag, Ghost(|a: Seq<char>| is_format_flag(a)))
}

/// Where a session of golangci-lint stands.
#[derive(Debug)]
pub enum LintStage {
    /// It waits for the version.
    Version {
        /// The user's arguments.
        args: Vec<String>,
        /// How much to say on the way.
        verbose: u8,
    },
    /// It waits for the issues.
    Lint {
        /// The user's arguments.
        args: Vec<String>,
        /// The major version.
        version: u32,
    },
}

/// The model of where a session of golangci-lint stands.
pub enum LintView {
    /// It waits for the version: the user's arguments, and how much to say on the way.
    Version(Seq<Seq<char>>, u8),
    /// It waits for the issues: the user's arguments, and the major version.
    Lint(Seq<Seq<char>>, nat),
}

impl View for LintStage {
    type V = LintView;

    open spec fn view(&self) -> LintView {
        match self {
            LintStage::Version { args, verbose } => LintView::Version(args.deep_view(), *verbose),
            LintStage::Lint { args, version } => LintView::Lint(args.deep_view(), *version as nat),
        }
    }
}

/// How a session begins: with the version.
pub open spec fn lint_started(args: Seq<Seq<char>>, verbose: u8) -> StepView<LintView> {
    session::runs(
        CommandView { program: "golangci-lint"@, args: seq!["--version"@], env: Seq::empty() },
        LintView::Version(args, verbose),
    )
}

/// Begins `golangci-lint run`.
pub fn run(args: &[String], verbose: u8) -> (r: Step<LintStage>)
    ensures
        r@ == lint_started(args.deep_view(), verbose),
{
    let cmd = CommandLine::new("golangci-lint").arg("--version");
    assert(cmd@.args == seq!["--version"@]);
    Step::run(cmd, LintStage::Version { args: compose::copied(args), verbose })
}

/// The arguments that ask for JSON on standard output.
pub open spec fn json_args(version: nat) -> Seq<Seq<char>> {
    if version >= 2 {
        seq!["--output.json.path"@, "stdout"@]
    } else {
        seq!["--out-format=json"@]
    }
}

/// The command that finds the issues: JSON is asked for, unless the user sets the format.
pub open spec fn lint_line(args: Seq<Seq<char>>, version: nat) -> CommandView {
    let format = if has_format(args) {
        Seq::empty()
    } else {
        json_args(version)
    };
    CommandView {
        program: "golangci-lint"@,
        args: seq!["run"@] + format + args,
        env: Seq::empty(),
    }
}

/// The note on what runs.
pub open spec fn running(version: nat) -> Seq<char> {
    if version >= 2 {
        "Running: golangci-lint run --output.json.path stdout"@
    } else {
        "Running: golangci-lint run --out-format=json"@
    }
}

/// What follows the version: finding the issues.
pub open spec fn version_done(
    args: Seq<Seq<char>>,
    verbose: u8,
    event: Option<CaptureView>,
) -> StepView<LintView> {
    let version = golangci::detected_version(event);
    StepView {
        printed: session::noted(verbose > 0, running(version)),
        record: None,
        next: NextView::Run {
            command: lint_line(args, version),
            mode: RunMode::Captured,
            stage: LintView::Lint(args, version),
        },
    }
}

/// Goes on after the version, which is taken to be one where it could not be had.
pub fn after_version(args: Vec<String>, verbose: u8, event: Option<CaptureResult>) -> (r: Step<
    LintStage,
>)
    ensures
        r@ == version_done(args.deep_view(), verbose, session::captured(event)),
{
    let version: u32 = golangci::detect_major_version(&event);
    let ghost a = args.deep_view();
    let mut all: Vec<String> = Vec::new();
    compose::push_str(&mut all, "run");
    if !sets_format(args.as_slice()) {
        if version >= 2 {
            compose::push_str(&mut all, "--output.json.path");
            compose::push_str(&mut all, "stdout");
        } else {
            compose::push_str(&mut all, "--out-format=json");
        }
    }
    compose::extend(&mut all, args.as_slice());
    let cmd = CommandLine::new("golangci-lint").args(all.as_slice());
    assert(cmd@ == lint_line(a, version as nat));
    let printed = if version >= 2 {
        Printed::noted(verbose > 0, "Running: golangci-lint run --output.json.path stdout")
    } else {
        Printed::noted(verbose > 0, "Running: golangci-lint run --out-format=json")
    };
    Step::print_and_run(printed, cmd, RunMode::Captured, LintStage::Lint { args, version })
}

/// The part of the output that is JSON: from the second version on the first line, before it all.
pub open spec fn json_part(stdout: Seq<char>, version: nat) -> Seq<char> {
    if version >= 2 {
        let lines = split::lines_of(stdout);
        if lines.len() > 0 {
            lines[0]
        } else {
            Seq::empty()
        }
    } else {
        stdout
    }
}

/// The part of the output that is JSON.
pub fn json_output(stdout: &str, version: u32) -> (r: String)
    ensures
        r@ == json_part(stdout@, version as nat),
{
    if version < 2 {
        return stdout.to_string();
    }
    let text = chars::to_chars(stdout);
    let lines = split::lines(text.as_slice());
    assert(split::views(lines@).len() == lines@.len());
    if lines.len() == 0 {
        return String::new();
    }
    assert(split::views(lines@)[0] == lines@[0]@);
    chars::string_of(lines[0])
}

/// The exit code of a session, given that of golangci-lint: issues are no failure, and a command
/// that a signal ended always is one.
pub open spec fn lint_exit(code: Option<i32>) -> int {
    match code {
        Some(n) => if n == 1 {
            0
        } else {
            n as int
        },
        None => 130,
    }
}

/// The end of a session.
pub open spec fn lint_finished(
    args: Seq<Seq<char>>,
    version: nat,
    c: CaptureView,
    code: Option<i32>,
    parsed: Result<GolangciOutput, String>,
    max: nat,
) -> StepView<LintView> {
    let shown = golangci::filtered(parsed, json_part(c.stdout, version), version, max);
    let told = if chars::is_blank(c.stderr) {
        seq![session::out_line(shown)]
    } else {
        seq![session::out_line(shown), session::err_line(chars::trimmed(c.stderr))]
    };
    session::finishes(
        if code is None {
            told.push(session::err_line("golangci-lint: killed by signal"@))
        } else {
            told
        },
        Some(
            RecordView {
                original: "golangci-lint "@ + compose::joined(args, " "@),
                rewritten: "rtk golangci-lint "@ + compose::joined(args, " "@),
                input: c.stdout + "\n"@ + c.stderr,
                output: shown,
            },
        ),
        lint_exit(code),
    )
}

/// Ends a session. `parsed` is what the JSON part of the output was parsed into, and `code` the
/// exit code, none where a signal ended the command.
pub fn finish(
    args: Vec<String>,
    version: u32,
    result: CaptureResult,
    code: Option<i32>,
    parsed: Result<GolangciOutput, String>,
    max_chars: usize,
) -> (r: Step<LintStage>)
    ensures
        r@ == lint_finished(
            args.deep_view(),
            version as nat,
            result@,
            code,
            parsed,
            max_chars as nat,
        ),
{
    let json = json_output(result.stdout.as_str(), version);
    let shown = golangci::filter_golangci_json(parsed, json.as_str(), version, max_chars);
    let mut printed = Printed::line(shown.as_str());
    let text = chars::to_chars(result.stderr.as_str());
    let stderr = chars::trim(text.as_slice());
    if stderr.len() > 0 {
        printed.errln(chars::string_of(stderr).as_str());
    }
    let list = compose::join(args.as_slice(), " ");
    let mut original = "golangci-lint ".to_string();
    original.append(list.as_str());
    let mut rewritten = "rtk golangci-lint ".to_string();
    rewritten.append(list.as_str());
    let mut input = result.stdout;
    input.append("\n");
    input.append(result.stderr.as_str());
    let record = Record::new(
        original.as_str(),
        rewritten.as_str(),
        input.as_str(),
        shown.as_str(),
    );
    match code {
        Some(n) => Step::record(
            printed,
            record,
            if n == 1 {
                0
            } else {
                n
            },
        ),
        None => {
            printed.errln("golangci-lint: killed by signal");
            Step::record(printed, record, 130)
        },
    }
}

/// The message where golangci-lint cannot be run.
pub open spec fn not_installed() -> Seq<char> {
    "Failed to run golangci-lint. Is it installed? Try: go install github.com/golangci/golangci-lint/cmd/golangci-lint@latest"@
}

/// Ends a session where golangci-lint cannot be run.
pub fn fail_lint() -> (r: Step<LintStage>)
    ensures
        r@ == session::fails::<LintView>(not_installed()),
{
    Step::fail(
        "Failed to run golangci-lint. Is it installed? Try: go install github.com/golangci/golangci-lint/cmd/golangci-lint@latest",
    )
}

/// Issues are no failure of the session, and every other code of golangci-lint is passed on.
pub proof fn law_lint_exit(code: i32)
    ensures
        lint_exit(Some(0)) == 0,
        lint_exit(Some(1)) == 0,
        code != 1 ==> lint_exit(Some(code)) == code,
        lint_exit(None) != 0,
{
}

/// JSON is asked for exactly where the user does not set the format, and the user's arguments
/// follow in order.
pub proof fn law_format_of_user_kept(args: Seq<Seq<char>>, version: nat)
    ensures
        has_format(args) ==> lint_line(args, version).args == seq!["run"@] + args,
        !has_format(args) ==> lint_line(args, version).args == seq!["run"@] + json_args(version)
            + args,
{
    assert(seq!["run"@] + Seq::<Seq<char>>::empty() == seq!["run"@]);
}

/// The version decides what is asked for and what is read: from the second on the first line of the
/// output, before it all of it. It is told on standard output, or else on standard error.
pub proof fn law_version_decides(
    args: Seq<Seq<char>>,
    verbose: u8,
    c: CaptureView,
    stdout: Seq<char>,
    version: nat,
)
    ensures
        version >= 2 ==> json_args(version) == seq!["--output.json.path"@, "stdout"@],
        version < 2 ==> json_args(version) == seq!["--out-format=json"@] && json_part(
            stdout,
            version,
        ) == stdout,
        version >= 2 && split::lines_of(stdout).len() > 0 ==> json_part(stdout, version)
            == split::lines_of(stdout)[0],
        version_done(args, verbose, Some(c)).next matches NextView::Run { command, mode, stage }
            && stage == LintView::Lint(
            args,
            golangci::major_version(
                split::words_of(
                    if chars::is_blank(c.stdout) {
                        c.stderr
                    } else {
                        c.stdout
                    },
                ),
            ),
        ),
        version_done(args, verbose, None).next matches NextView::Run { command, mode, stage }
            && stage == LintView::Lint(args, 1),
{
}

/// What is reported is shown and recorded, and what golangci-lint says on standard error is never
/// lost.
pub proof fn law_lint_end(
    args: Seq<Seq<char>>,
    version: nat,
    c: CaptureView,
    code: Option<i32>,
    parsed: Result<GolangciOutput, String>,
    max: nat,
)
    ensures
        ({
            let end = lint_finished(args, version, c, code, parsed, max);
            let shown = golangci::filtered(parsed, json_part(c.stdout, version), version, max);
            &&& end.printed[0] == session::out_line(shown)
            &&& end.record matches Some(r) && r.output == shown && r.input == c.stdout + "\n"@
                + c.stderr
            &&& !chars::is_blank(c.stderr) ==> end.printed.contains(
                session::err_line(chars::trimmed(c.stderr)),
            )
            &&& code is None ==> end.printed.contains(
                session::err_line("golangci-lint: killed by signal"@),
            )
            &&& end.next == NextView::<LintView>::Done(lint_exit(code))
        }),
{
    let end = lint_finished(args, version, c, code, parsed, max);
    if !chars::is_blank(c.stderr) {
        assert(end.printed[1] == session::err_line(chars::trimmed(c.stderr)));
    }
    if code is None {
        assert(end.printed[end.printed.len() - 1] == session::err_line(
            "golangci-lint: killed by signal"@,
        ));
    }
}

/// A session asks for the version first, and on request tells what it then runs.
pub proof fn law_lint_commands(args: Seq<Seq<char>>, verbose: u8, event: Option<CaptureView>)
    ensures
        lint_started(args, verbose).next matches NextView::Run { command, mode, stage }
            && command.program == "golangci-lint"@ && command.args == seq!["--version"@] && stage
            == LintView::Version(args, verbose),
        ({
            let version = golangci::detected_version(event);
            &&& version_done(args, verbose, event).next matches NextView::Run { command, mode, stage }
                && command == lint_line(args, version) && command.program == "golangci-lint"@
            &&& verbose == 0 ==> version_done(args, verbose, event).printed.len() == 0
            &&& verbose > 0 && version >= 2 ==> version_done(args, verbose, event).printed == seq![
                session::err_line("Running: golangci-lint run --output.json.path stdout"@),
            ]
            &&& verbose > 0 && version < 2 ==> version_done(args, verbose, event).printed == seq![
                session::err_line("Running: golangci-lint run --out-format=json"@),
            ]
        }),
{
}

/// How the output format is set.
pub proof fn law_format_flags(args: Seq<Seq<char>>, i: int, rest: Seq<char>)
    requires
        0 <= i < args.len(),
    ensures
        args[i] == "--out-format"@ ==> has_format(args),
        args[i] == "--out-format="@ + rest ==> has_format(args),
        args[i] == "--output.json.path"@ ==> has_format(args),
        args[i] == "--output.json.path="@ + rest ==> has_format(args),
{
    chars::lemma_prefix("--out-format="@, rest);
    chars::lemma_prefix("--output.json.path="@, rest);
    if args[i] == "--out-format"@ || args[i] == "--out-format="@ + rest || args[i]
        == "--output.json.path"@ || args[i] == "--output.json.path="@ + rest {
        assert(is_format_flag(args[i]));
    }
}

} // verus!
