//! Sessions of `pnpm`.
use crate::parser::{DependencyState, ParseResult, ParseView, StateView};
use crate::pnpm;
use crate::session;
use crate::session::{
    CaptureResult, CaptureView, ChunkView, CommandLine, CommandView, NextView, Printed, Record,
    RecordView, RunMode, Step, StepView,
};
use crate::text::chars;
use crate::text::compose;
use crate::text::number;
use vstd::prelude::*;

verus! {

/// A pnpm command that is filtered.
#[derive(Debug, Clone)]
pub enum PnpmCommand {
    /// `pnpm list`.
    List {
        /// How deep the tree is listed.
        depth: usize,
    },
    /// `pnpm outdated`.
    Outdated,
    /// `pnpm install`.
    Install,
}

/// Where a session of pnpm stands: the command that it waits for.
#[derive(Debug)]
pub enum PnpmStage {
    /// The list.
    List {
        /// How deep the tree is listed.
        depth: usize,
        /// The user's arguments.
        args: Vec<String>,
        /// How much to say on the way.
        verbose: u8,
    },
    /// The outdated packages.
    Outdated {
        /// How much to say on the way.
        verbose: u8,
    },
    /// The installation.
    Install,
}

/// The model of where a session of pnpm stands.
pub enum PnpmView {
    /// The list: how deep the tree is listed, the user's arguments, how much to say on the way.
    List(nat, Seq<Seq<char>>, u8),
    /// The outdated packages: how much to say on the way.
    Outdated(u8),
    /// The installation.
    Install,
}

impl View for PnpmStage {
    type V = PnpmView;

    open spec fn view(&self) -> PnpmView {
        match self {
            PnpmStage::List { depth, args, verbose } => PnpmView::List(
                *depth as nat,
                args.deep_view(),
                *verbose,
            ),
            PnpmStage::Outdated { verbose } => PnpmView::Outdated(*verbose),
            PnpmStage::Install => PnpmView::Install,
        }
    }
}

/// The option that sets the depth of the tree.
pub open spec fn depth_flag(depth: nat) -> Seq<char> {
    "--depth="@ + number::dec(depth)
}

fn depth_option(depth: usize) -> (r: String)
    ensures
        r@ == depth_flag(depth as nat),
{
    let mut out = "--depth=".to_string();
    out.append(number::decimal(depth).as_str());
    out
}

/// The command that runs: pnpm with JSON asked for where it can be had, and the user's arguments.
pub open spec fn pnpm_line(cmd: PnpmCommand, args: Seq<Seq<char>>) -> CommandView {
    let head = match cmd {
        PnpmCommand::List { depth } => seq!["list"@, depth_flag(depth as nat), "--json"@],
        PnpmCommand::Outdated => seq!["outdated"@, "--format"@, "json"@],
        PnpmCommand::Install => seq!["install"@],
    };
    CommandView { program: "pnpm"@, args: head + args, env: Seq::empty() }
}

/// How a session begins.
pub open spec fn pnpm_started(
    cmd: PnpmCommand,
    args: Seq<Seq<char>>,
    verbose: u8,
) -> StepView<PnpmView> {
    StepView {
        printed: session::noted(
            cmd is Install && verbose > 0,
            "pnpm install running..."@,
        ),
        record: None,
        next: NextView::Run {
            command: pnpm_line(cmd, args),
            mode: RunMode::Captured,
            stage: match cmd {
                PnpmCommand::List { depth } => PnpmView::List(depth as nat, args, verbose),
                PnpmCommand::Outdated => PnpmView::Outdated(verbose),
                PnpmCommand::Install => PnpmView::Install,
            },
        },
    }
}

/// Begins a pnpm command.
pub fn run(cmd: PnpmCommand, args: &[String], verbose: u8) -> (r: Step<PnpmStage>)
    ensures
        r@ == pnpm_started(cmd, args.deep_view(), verbose),
{
    match cmd {
        PnpmCommand::List { depth } => run_list(depth, args, verbose),
        PnpmCommand::Outdated => run_outdated(args, verbose),
        PnpmCommand::Install => run_install(args, verbose),
    }
}

fn run_list(depth: usize, args: &[String], verbose: u8) -> (r: Step<PnpmStage>)
    ensures
        r@ == pnpm_started(PnpmCommand::List { depth }, args.deep_view(), verbose),
{
    let option = depth_option(depth);
    let cmd = CommandLine::new("pnpm").arg("list").arg(option.as_str()).arg("--json").args(args);
    assert(cmd@ == pnpm_line(PnpmCommand::List { depth }, args.deep_view()));
    Step::run(cmd, PnpmStage::List { depth, args: compose::copied(args), verbose })
}

fn run_outdated(args: &[String], verbose: u8) -> (r: Step<PnpmStage>)
    ensures
        r@ == pnpm_started(PnpmCommand::Outdated, args.deep_view(), verbose),
{
    let cmd = CommandLine::new("pnpm").arg("outdated").arg("--format").arg("json").args(args);
    assert(cmd@ == pnpm_line(PnpmCommand::Outdated, args.deep_view()));
    Step::run(cmd, PnpmStage::Outdated { verbose })
}

fn run_install(args: &[String], verbose: u8) -> (r: Step<PnpmStage>)
    ensures
        r@ == pnpm_started(PnpmCommand::Install, args.deep_view(), verbose),
{
    let cmd = CommandLine::new("pnpm").arg("install").args(args);
    assert(cmd@ == pnpm_line(PnpmCommand::Install, args.deep_view()));
    let printed = Printed::noted(verbose > 0, "pnpm install running...");
    Step::print_and_run(printed, cmd, RunMode::Captured, PnpmStage::Install)
}

/// The message where a command could not be run.
pub open spec fn failure_message(stage: PnpmView) -> Seq<char> {
    match stage {
        PnpmView::List(_, _, _) => "Failed to run pnpm list"@,
        PnpmView::Outdated(_) => "Failed to run pnpm outdated"@,
        PnpmView::Install => "Failed to run pnpm install"@,
    }
}

/// Ends a session whose command could not be run.
pub fn fail_pnpm(stage: &PnpmStage) -> (r: Step<PnpmStage>)
    ensures
        r@ == session::fails::<PnpmView>(failure_message(stage@)),
{
    match stage {
        PnpmStage::List { .. } => Step::fail("Failed to run pnpm list"),
        PnpmStage::Outdated { .. } => Step::fail("Failed to run pnpm outdated"),
        PnpmStage::Install => Step::fail("Failed to run pnpm install"),
    }
}

/// A flag that asks for one section only.
pub open spec fn is_section_flag(a: Seq<char>) -> bool {
    a == "--prod"@ || a == "-P"@ || a == "--dev"@ || a == "-D"@
}

fn section_flag(a: &str) -> (r: bool)
    ensures
        r == is_section_flag(a@),
{
    chars::same_str(a, "--prod") || chars::same_str(a, "-P") || chars::same_str(a, "--dev")
        || chars::same_str(a, "-D")
}

/// Whether the arguments ask for one section only.
pub open spec fn one_section(args: Seq<Seq<char>>) -> bool {
    exists|i: int| 0 <= i < args.len() && is_section_flag(#[trigger] args[i])
}

/// Whether a list is cut: one of a single section never is, so that what a cut list hides can be
/// found.
pub fn cuts_listing(args: &[String]) -> (r: bool)
    ensures
        r == !one_section(args.deep_view()),
{
    !compose::any(args, section_flag, Ghost(|a: Seq<char>| is_section_flag(a)))
}

/// What is said of how much was understood.
pub open spec fn parse_notes(
    tool: Seq<char>,
    parsed: ParseView<StateView>,
    verbose: u8,
) -> Seq<ChunkView> {
    match parsed {
        ParseView::Full(_) => session::noted(verbose > 0, tool + " (Tier 1: Full JSON parse)"@),
        ParseView::Degraded(_, warnings) => if verbose > 0 {
            seq![ChunkView::Degraded(tool, compose::joined(warnings, ", "@))]
        } else {
            Seq::empty()
        },
        ParseView::Passthrough(_) => seq![
            ChunkView::NotUnderstood(tool, "All parsing tiers failed"@),
        ],
    }
}

fn note_parse(tool: &str, parsed: &ParseResult<DependencyState>, verbose: u8) -> (r: Printed)
    ensures
        r@ == parse_notes(tool@, parsed@, verbose),
{
    let mut printed = Printed::nothing();
    match parsed {
        ParseResult::Full(_) => {
            if verbose > 0 {
                let mut note = tool.to_string();
                note.append(" (Tier 1: Full JSON parse)");
                printed.errln(note.as_str());
            }
        },
        ParseResult::Degraded(_, warnings) => {
            if verbose > 0 {
                printed.degraded(tool, compose::join(warnings.as_slice(), ", ").as_str());
            }
        },
        ParseResult::Passthrough(_) => {
            printed.not_understood(tool, "All parsing tiers failed");
        },
    }
    printed
}

/// What is shown of a list.
pub open spec fn list_shown(
    parsed: ParseView<StateView>,
    cap: bool,
    prod_hint: Option<Seq<char>>,
    dev_hint: Option<Seq<char>>,
) -> Seq<char> {
    match parsed {
        ParseView::Full(data) => pnpm::listing(data, cap, prod_hint, dev_hint),
        ParseView::Degraded(data, _) => pnpm::listing(data, cap, prod_hint, dev_hint),
        ParseView::Passthrough(raw) => raw,
    }
}

/// The end of a `pnpm list`.
pub open spec fn list_finished(
    depth: nat,
    args: Seq<Seq<char>>,
    verbose: u8,
    c: CaptureView,
    parsed: ParseView<StateView>,
    prod_hint: Option<Seq<char>>,
    dev_hint: Option<Seq<char>>,
) -> StepView<PnpmView> {
    if c.exit_code != 0 {
        session::finishes(seq![ChunkView::Stderr(c.stderr)], None, c.exit_code)
    } else {
        let shown = list_shown(parsed, !one_section(args), prod_hint, dev_hint);
        session::finishes(
            parse_notes("pnpm list"@, parsed, verbose).push(session::out_line(shown)),
            Some(
                RecordView {
                    original: "pnpm list "@ + depth_flag(depth),
                    rewritten: "rtk pnpm list "@ + depth_flag(depth),
                    input: c.stdout,
                    output: shown,
                },
            ),
            0,
        )
    }
}

/// Ends a `pnpm list`. `parsed` is what its output was understood as; the hints say where the
/// sections that are cut can be found.
pub fn finish_list(
    depth: usize,
    args: Vec<String>,
    verbose: u8,
    result: CaptureResult,
    parsed: ParseResult<DependencyState>,
    prod_hint: Option<String>,
    dev_hint: Option<String>,
) -> (r: Step<PnpmStage>)
    ensures
        r@ == list_finished(
            depth as nat,
            args.deep_view(),
            verbose,
            result@,
            parsed@,
            compose::optional(prod_hint),
            compose::optional(dev_hint),
        ),
{
    if !result.success() {
        let mut printed = Printed::nothing();
        printed.err(result.stderr.as_str());
        return Step::done(printed, result.exit_code);
    }
    let mut printed = note_parse("pnpm list", &parsed, verbose);
    let cap = cuts_listing(args.as_slice());
    let shown = match parsed {
        ParseResult::Full(data) => pnpm::format_dependency_listing(
            &data,
            cap,
            prod_hint,
            dev_hint,
        ),
        ParseResult::Degraded(data, _) => pnpm::format_dependency_listing(
            &data,
            cap,
            prod_hint,
            dev_hint,
        ),
        ParseResult::Passthrough(raw) => raw,
    };
    printed.outln(shown.as_str());
    let option = depth_option(depth);
    let mut original = "pnpm list ".to_string();
    original.append(option.as_str());
    let mut rewritten = "rtk pnpm list ".to_string();
    rewritten.append(option.as_str());
    let record = Record::new(
        original.as_str(),
        rewritten.as_str(),
        result.stdout.as_str(),
        shown.as_str(),
    );
    Step::record(printed, record, 0)
}

/// The end of a `pnpm outdated`; `formatted` is how what was understood is shown.
pub open spec fn outdated_finished(
    verbose: u8,
    c: CaptureView,
    parsed: ParseView<StateView>,
    formatted: Seq<char>,
) -> StepView<PnpmView> {
    let shown = match parsed {
        ParseView::Passthrough(raw) => raw,
        _ => formatted,
    };
    session::finishes(
        parse_notes("pnpm outdated"@, parsed, verbose).push(
            if chars::is_blank(shown) {
                session::out_line("All packages up-to-date"@)
            } else {
                session::out_line(shown)
            },
        ),
        Some(
            RecordView {
                original: "pnpm outdated"@,
                rewritten: "rtk pnpm outdated"@,
                input: c.combined,
                output: shown,
            },
        ),
        0,
    )
}

/// Ends a `pnpm outdated`, whatever its exit code: pnpm reports outdated packages by one.
pub fn finish_outdated(
    verbose: u8,
    result: CaptureResult,
    parsed: ParseResult<DependencyState>,
    formatted: String,
) -> (r: Step<PnpmStage>)
    ensures
        r@ == outdated_finished(verbose, result@, parsed@, formatted@),
{
    let mut printed = note_parse("pnpm outdated", &parsed, verbose);
    let shown = match parsed {
        ParseResult::Passthrough(raw) => raw,
        _ => formatted,
    };
    let text = chars::to_chars(shown.as_str());
    if chars::blank(text.as_slice()) {
        printed.outln("All packages up-to-date");
    } else {
        printed.outln(shown.as_str());
    }
    let record = Record::new(
        "pnpm outdated",
        "rtk pnpm outdated",
        result.combined.as_str(),
        shown.as_str(),
    );
    Step::record(printed, record, 0)
}

/// The end of a `pnpm install`.
pub open spec fn install_finished(c: CaptureView) -> StepView<PnpmView> {
    if c.exit_code != 0 {
        session::finishes(seq![ChunkView::Stderr(c.stderr)], None, c.exit_code)
    } else {
        let shown = pnpm::install_summary(c.combined);
        session::finishes(
            seq![session::out_line(shown)],
            Some(
                RecordView {
                    original: "pnpm install"@,
                    rewritten: "rtk pnpm install"@,
                    input: c.combined,
                    output: shown,
                },
            ),
            0,
        )
    }
}

/// Ends a `pnpm install`.
pub fn finish_install(result: CaptureResult) -> (r: Step<PnpmStage>)
    ensures
        r@ == install_finished(result@),
{
    if !result.success() {
        let mut printed = Printed::nothing();
        printed.err(result.stderr.as_str());
        return Step::done(printed, result.exit_code);
    }
    let shown = pnpm::filter_pnpm_install(result.combined.as_str());
    let record = Record::new(
        "pnpm install",
        "rtk pnpm install",
        result.combined.as_str(),
        shown.as_str(),
    );
    Step::record(Printed::line(shown.as_str()), record, 0)
}

/// The flags that ask for one section only.
pub proof fn law_section_flags(args: Seq<Seq<char>>)
    ensures
        args.contains("--prod"@) ==> one_section(args),
        args.contains("-P"@) ==> one_section(args),
        args.contains("--dev"@) ==> one_section(args),
        args.contains("-D"@) ==> one_section(args),
        one_section(args) ==> args.contains("--prod"@) || args.contains("-P"@) || args.contains(
            "--dev"@,
        ) || args.contains("-D"@),
{
    if args.contains("--prod"@) {
        let i = choose|i: int| 0 <= i < args.len() && args[i] == "--prod"@;
        assert(is_section_flag(args[i]));
    }
    if args.contains("-P"@) {
        let i = choose|i: int| 0 <= i < args.len() && args[i] == "-P"@;
        assert(is_section_flag(args[i]));
    }
    if args.contains("--dev"@) {
        let i = choose|i: int| 0 <= i < args.len() && args[i] == "--dev"@;
        assert(is_section_flag(args[i]));
    }
    if args.contains("-D"@) {
        let i = choose|i: int| 0 <= i < args.len() && args[i] == "-D"@;
        assert(is_section_flag(args[i]));
    }
    if one_section(args) {
        let i = choose|i: int| 0 <= i < args.len() && is_section_flag(#[trigger] args[i]);
        assert(args.contains(args[i]));
    }
}

/// A pnpm command runs with what makes its output readable and all of the user's arguments.
pub proof fn law_pnpm_commands(depth: usize, args: Seq<Seq<char>>, verbose: u8)
    ensures
        pnpm_started(PnpmCommand::List { depth }, args, verbose).next matches NextView::Run {
            command,
            mode,
            stage,
        } && command.program == "pnpm"@ && command.args == seq![
            "list"@,
            "--depth="@ + number::dec(depth as nat),
            "--json"@,
        ] + args && stage == PnpmView::List(depth as nat, args, verbose),
        pnpm_started(PnpmCommand::Outdated, args, verbose).next matches NextView::Run {
            command,
            mode,
            stage,
        } && command.program == "pnpm"@ && command.args == seq!["outdated"@, "--format"@, "json"@]
            + args && stage == PnpmView::Outdated(verbose),
        pnpm_started(PnpmCommand::Install, args, verbose).next matches NextView::Run {
            command,
            mode,
            stage,
        } && command.program == "pnpm"@ && command.args == seq!["install"@] + args && stage
            == PnpmView::Install,
{
}

/// A list is shown as far as it was understood, and cut unless the user asks for one section; an
/// output that was not understood is handed on.
pub proof fn law_list_end(
    depth: nat,
    args: Seq<Seq<char>>,
    verbose: u8,
    c: CaptureView,
    state: StateView,
    warnings: Seq<Seq<char>>,
    raw: Seq<char>,
    prod_hint: Option<Seq<char>>,
    dev_hint: Option<Seq<char>>,
)
    ensures
        ({
            let full = list_finished(
                depth,
                args,
                verbose,
                c,
                ParseView::Full(state),
                prod_hint,
                dev_hint,
            );
            let degraded = list_finished(
                depth,
                args,
                verbose,
                c,
                ParseView::Degraded(state, warnings),
                prod_hint,
                dev_hint,
            );
            let handed_on = list_finished(
                depth,
                args,
                verbose,
                c,
                ParseView::Passthrough(raw),
                prod_hint,
                dev_hint,
            );
            let shown = pnpm::listing(state, !one_section(args), prod_hint, dev_hint);
            &&& c.exit_code == 0 ==> full.printed.last() == session::out_line(shown)
                && degraded.printed.last() == session::out_line(shown) && handed_on.printed.last()
                == session::out_line(raw)
            &&& c.exit_code == 0 ==> (full.record matches Some(r) && r.input == c.stdout && r.output
                == shown)
            &&& c.exit_code != 0 ==> full.printed == seq![ChunkView::Stderr(c.stderr)] && full.next
                == NextView::<PnpmView>::Done(c.exit_code) && degraded == full && handed_on == full
            &&& c.exit_code == 0 ==> full.next == NextView::<PnpmView>::Done(0)
        }),
{
}

/// Outdated packages are shown as they are formatted, whatever the exit code is; where there is
/// nothing to show, all is said to be up to date.
pub proof fn law_outdated_end(
    verbose: u8,
    c: CaptureView,
    state: StateView,
    raw: Seq<char>,
    formatted: Seq<char>,
)
    ensures
        ({
            let full = outdated_finished(verbose, c, ParseView::Full(state), formatted);
            let handed_on = outdated_finished(verbose, c, ParseView::Passthrough(raw), formatted);
            &&& !chars::is_blank(formatted) ==> full.printed.last() == session::out_line(formatted)
            &&& chars::is_blank(formatted) ==> full.printed.last() == session::out_line(
                "All packages up-to-date"@,
            )
            &&& !chars::is_blank(raw) ==> handed_on.printed.last() == session::out_line(raw)
            &&& full.next == NextView::<PnpmView>::Done(0)
        }),
{
}

/// An installation is summed up by its errors and its summary; a failure is told with pnpm's own
/// words, and its exit code is passed on.
pub proof fn law_install_end(c: CaptureView)
    ensures
        c.exit_code == 0 ==> install_finished(c).printed == seq![
            session::out_line(pnpm::install_summary(c.combined)),
        ] && install_finished(c).next == NextView::<PnpmView>::Done(0),
        c.exit_code != 0 ==> install_finished(c).printed == seq![ChunkView::Stderr(c.stderr)]
            && install_finished(c).next == NextView::<PnpmView>::Done(c.exit_code),
{
}

/// How much was understood is told: an output that was not understood always is, the rest on request.
pub proof fn law_understanding_told(
    tool: Seq<char>,
    state: StateView,
    warnings: Seq<Seq<char>>,
    raw: Seq<char>,
    verbose: u8,
)
    ensures
        parse_notes(tool, ParseView::Passthrough(raw), verbose) == seq![
            ChunkView::NotUnderstood(tool, "All parsing tiers failed"@),
        ],
        verbose > 0 ==> parse_notes(tool, ParseView::Degraded(state, warnings), verbose) == seq![
            ChunkView::Degraded(tool, compose::joined(warnings, ", "@)),
        ],
        verbose > 0 ==> parse_notes(tool, ParseView::Full(state), verbose) == seq![
            session::err_line(tool + " (Tier 1: Full JSON parse)"@),
        ],
        verbose == 0 ==> parse_notes(tool, ParseView::Full(state), verbose).len() == 0
            && parse_notes(tool, ParseView::Degraded(state, warnings), verbose).len() == 0,
{
}

/// What was told of the understanding stands before what is shown, and an installation is announced on
/// request.
pub proof fn law_notes_come_first(
    depth: nat,
    args: Seq<Seq<char>>,
    verbose: u8,
    c: CaptureView,
    parsed: ParseView<StateView>,
    formatted: Seq<char>,
)
    ensures
        c.exit_code == 0 ==> list_finished(
            depth,
            args,
            verbose,
            c,
            parsed,
            None,
            None,
        ).printed.drop_last() == parse_notes("pnpm list"@, parsed, verbose),
        outdated_finished(verbose, c, parsed, formatted).printed.drop_last() == parse_notes(
            "pnpm outdated"@,
            parsed,
            verbose,
        ),
        pnpm_started(PnpmCommand::Install, args, verbose).printed == if verbose > 0 {
            seq![session::err_line("pnpm install running..."@)]
        } else {
            Seq::empty()
        },
        pnpm_started(PnpmCommand::Outdated, args, verbose).printed.len() == 0,
{
    let a = parse_notes("pnpm list"@, parsed, verbose);
    let shown = list_shown(parsed, !one_section(args), None, None);
    assert(a.push(session::out_line(shown)).drop_last() == a);
    let b = parse_notes("pnpm outdated"@, parsed, verbose);
    let end = outdated_finished(verbose, c, parsed, formatted).printed;
    assert(end.drop_last() == b);
}

} // verus!
