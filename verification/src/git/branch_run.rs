//! A session of `git branch`.
use crate::git::branch;
use crate::git::command;
use crate::git::command::{At, AtView, GitStage, Request, RequestView, StageView};
use crate::session;
use crate::session::{
    CaptureResult, CaptureView, ChunkView, CommandView, NextView, Printed, Record, RecordView,
    RunMode, Step, StepView,
};
use crate::text::chars;
use crate::text::compose;
use vstd::prelude::*;

verus! {

/// A flag that changes branches: it deletes, renames, copies or sets what is tracked.
pub open spec fn is_action_flag(a: Seq<char>) -> bool {
    ||| a == "-d"@
    ||| a == "-D"@
    ||| a == "-m"@
    ||| a == "-M"@
    ||| a == "-c"@
    ||| a == "-C"@
    ||| a == "--set-upstream-to"@
    ||| chars::has_prefix(a, "--set-upstream-to="@)
    ||| a == "-u"@
    ||| a == "--unset-upstream"@
    ||| a == "--edit-description"@
}

fn action_flag(a: &str) -> (r: bool)
    ensures
        r == is_action_flag(a@),
{
    let t = chars::to_chars(a);
    let s = t.as_slice();
    chars::equals(s, "-d") || chars::equals(s, "-D") || chars::equals(s, "-m") || chars::equals(
        s,
        "-M",
    ) || chars::equals(s, "-c") || chars::equals(s, "-C") || chars::equals(s, "--set-upstream-to")
        || chars::starts_with(s, "--set-upstream-to=") || chars::equals(s, "-u") || chars::equals(
        s,
        "--unset-upstream",
    ) || chars::equals(s, "--edit-description")
}

/// A flag that asks for a list.
pub open spec fn is_list_flag(a: Seq<char>) -> bool {
    ||| a == "-a"@
    ||| a == "--all"@
    ||| a == "-r"@
    ||| a == "--remotes"@
    ||| a == "--list"@
    ||| a == "--merged"@
    ||| a == "--no-merged"@
    ||| a == "--contains"@
    ||| a == "--no-contains"@
    ||| a == "--format"@
    ||| chars::has_prefix(a, "--format="@)
    ||| a == "--sort"@
    ||| chars::has_prefix(a, "--sort="@)
    ||| a == "--points-at"@
    ||| chars::has_prefix(a, "--points-at="@)
}

fn list_flag(a: &str) -> (r: bool)
    ensures
        r == is_list_flag(a@),
{
    let t = chars::to_chars(a);
    let s = t.as_slice();
    chars::equals(s, "-a") || chars::equals(s, "--all") || chars::equals(s, "-r") || chars::equals(
        s,
        "--remotes",
    ) || chars::equals(s, "--list") || chars::equals(s, "--merged") || chars::equals(
        s,
        "--no-merged",
    ) || chars::equals(s, "--contains") || chars::equals(s, "--no-contains") || chars::equals(
        s,
        "--format",
    ) || chars::starts_with(s, "--format=") || chars::equals(s, "--sort") || chars::starts_with(
        s,
        "--sort=",
    ) || chars::equals(s, "--points-at") || chars::starts_with(s, "--points-at=")
}

/// An argument that is no flag.
pub open spec fn is_positional(a: Seq<char>) -> bool {
    !(a.len() > 0 && a[0] == '-')
}

fn positional(a: &str) -> (r: bool)
    ensures
        r == is_positional(a@),
{
    let t = chars::to_chars(a);
    !chars::starts_with_char(t.as_slice(), '-')
}

/// Whether the arguments change branches by a flag.
pub open spec fn has_action(args: Seq<Seq<char>>) -> bool {
    exists|i: int| 0 <= i < args.len() && is_action_flag(#[trigger] args[i])
}

/// Whether the arguments ask for a list.
pub open spec fn has_list(args: Seq<Seq<char>>) -> bool {
    exists|i: int| 0 <= i < args.len() && is_list_flag(#[trigger] args[i])
}

/// Whether the arguments name a branch.
pub open spec fn has_positional(args: Seq<Seq<char>>) -> bool {
    exists|i: int| 0 <= i < args.len() && is_positional(#[trigger] args[i])
}

/// What a `git branch` does.
#[derive(Debug, Clone, Copy, PartialEq, Eq)]
pub enum BranchMode {
    /// Shows the name of the current branch.
    Show,
    /// Changes branches.
    Write,
    /// Lists branches.
    List,
}

/// What a `git branch` with these arguments does. A name without a list flag makes a branch.
pub open spec fn branch_mode(args: Seq<Seq<char>>) -> BranchMode {
    if args.contains("--show-current"@) {
        BranchMode::Show
    } else if has_action(args) || (has_positional(args) && !has_list(args)) {
        BranchMode::Write
    } else {
        BranchMode::List
    }
}

/// What a `git branch` with these arguments does.
pub fn mode_of(args: &[String]) -> (r: BranchMode)
    ensures
        r == branch_mode(args.deep_view()),
{
    if compose::has(args, "--show-current") {
        return BranchMode::Show;
    }
    let action = compose::any(args, action_flag, Ghost(|a: Seq<char>| is_action_flag(a)));
    let names = compose::any(args, positional, Ghost(|a: Seq<char>| is_positional(a)));
    if action || (names && !asks_for_list(args)) {
        BranchMode::Write
    } else {
        BranchMode::List
    }
}

fn asks_for_list(args: &[String]) -> (r: bool)
    ensures
        r == has_list(args.deep_view()),
{
    compose::any(args, list_flag, Ghost(|a: Seq<char>| is_list_flag(a)))
}

/// The command that a `git branch` runs. A list has no colors, and shows the remotes' branches
/// unless the user says what to list.
pub open spec fn branch_line(q: RequestView) -> CommandView {
    match branch_mode(q.args) {
        BranchMode::List => {
            let head = session::with_arg(command::git_line(q.global_args), "branch"@);
            let all = if has_list(q.args) {
                head
            } else {
                session::with_arg(head, "-a"@)
            };
            session::with_args(session::with_arg(all, "--no-color"@), q.args)
        },
        _ => command::git_sub(q.global_args, "branch"@, q.args),
    }
}

/// How `git branch` begins.
pub open spec fn branch_started(q: RequestView) -> StepView<StageView> {
    StepView {
        printed: session::noted(q.verbose > 0, "git branch"@),
        record: None,
        next: NextView::Run {
            command: branch_line(q),
            mode: RunMode::Captured,
            stage: StageView {
                request: q,
                at: match branch_mode(q.args) {
                    BranchMode::Show => AtView::BranchShow,
                    BranchMode::Write => AtView::BranchWrite,
                    BranchMode::List => AtView::BranchList,
                },
            },
        },
    }
}

/// Begins `git branch`.
pub fn run_branch(request: Request) -> (r: Step<GitStage>)
    ensures
        r@ == branch_started(request@),
{
    let printed = Printed::noted(request.verbose > 0, "git branch");
    let cmd = command::git_cmd(request.global_args.as_slice()).arg("branch");
    match mode_of(request.args.as_slice()) {
        BranchMode::Show => {
            let cmd = cmd.args(request.args.as_slice());
            let stage = GitStage::new(request, At::BranchShow);
            Step::print_and_run(printed, cmd, RunMode::Captured, stage)
        },
        BranchMode::Write => {
            let cmd = cmd.args(request.args.as_slice());
            let stage = GitStage::new(request, At::BranchWrite);
            Step::print_and_run(printed, cmd, RunMode::Captured, stage)
        },
        BranchMode::List => {
            let cmd = if asks_for_list(request.args.as_slice()) {
                cmd
            } else {
                cmd.arg("-a")
            };
            let cmd = cmd.arg("--no-color").args(request.args.as_slice());
            let stage = GitStage::new(request, At::BranchList);
            Step::print_and_run(printed, cmd, RunMode::Captured, stage)
        },
    }
}

/// What is recorded of a `git branch`.
pub open spec fn branch_record(
    q: RequestView,
    input: Seq<char>,
    output: Seq<char>,
) -> RecordView {
    RecordView {
        original: command::label("git branch "@, q.args),
        rewritten: command::label("rtk git branch "@, q.args),
        input,
        output,
    }
}

fn record_branch(request: &Request, input: &str, output: &str) -> (r: Record)
    ensures
        r@ == branch_record(request@, input@, output@),
{
    let original = command::label_of("git branch ", request.args.as_slice());
    let rewritten = command::label_of("rtk git branch ", request.args.as_slice());
    Record::new(original.as_str(), rewritten.as_str(), input, output)
}

/// A failure of `git branch`.
pub open spec fn branch_failure(q: RequestView, c: CaptureView) -> Seq<ChunkView> {
    session::unless_blank(
        seq![session::err_line(command::label("FAILED: git branch "@, q.args))],
        c.stderr,
    )
}

fn print_failure(request: &Request, result: &CaptureResult) -> (r: Printed)
    ensures
        r@ == branch_failure(request@, result@),
{
    let mut printed = Printed::nothing();
    printed.errln(command::label_of("FAILED: git branch ", request.args.as_slice()).as_str());
    printed.errln_unless_blank(result.stderr.as_str());
    printed
}

/// The end of a `git branch --show-current`.
pub open spec fn show_finished(q: RequestView, c: CaptureView) -> StepView<StageView> {
    let name = chars::trimmed(c.stdout);
    let record = Some(branch_record(q, c.combined, name));
    if c.exit_code == 0 {
        session::finishes(seq![session::out_line(name)], record, 0)
    } else {
        session::finishes(branch_failure(q, c), record, c.exit_code)
    }
}

/// Ends a `git branch --show-current`.
pub fn finish_show(request: Request, result: CaptureResult) -> (r: Step<GitStage>)
    ensures
        r@ == show_finished(request@, result@),
{
    let name = command::trim_text(result.stdout.as_str());
    let record = record_branch(&request, result.combined.as_str(), name.as_str());
    if result.success() {
        return Step::record(Printed::line(name.as_str()), record, 0);
    }
    let printed = print_failure(&request, &result);
    Step::record(printed, record, result.exit_code)
}

/// The end of a change to branches.
pub open spec fn write_finished(q: RequestView, c: CaptureView) -> StepView<StageView> {
    if c.exit_code == 0 {
        session::finishes(
            seq![session::out_line("ok"@)],
            Some(branch_record(q, c.combined, "ok"@)),
            0,
        )
    } else {
        session::finishes(
            session::unless_blank(branch_failure(q, c), c.stdout),
            Some(branch_record(q, c.combined, c.combined)),
            c.exit_code,
        )
    }
}

/// Ends a change to branches.
pub fn finish_write(request: Request, result: CaptureResult) -> (r: Step<GitStage>)
    ensures
        r@ == write_finished(request@, result@),
{
    if result.success() {
        let record = record_branch(&request, result.combined.as_str(), "ok");
        return Step::record(Printed::line("ok"), record, 0);
    }
    let record = record_branch(&request, result.combined.as_str(), result.combined.as_str());
    let mut printed = print_failure(&request, &result);
    printed.errln_unless_blank(result.stdout.as_str());
    Step::record(printed, record, result.exit_code)
}

/// The end of a branch list.
pub open spec fn list_finished(q: RequestView, c: CaptureView) -> StepView<StageView> {
    if c.exit_code != 0 {
        session::finishes(
            if chars::is_blank(c.stderr) {
                Seq::empty()
            } else {
                seq![ChunkView::Stderr(c.stderr)]
            },
            Some(branch_record(q, c.stdout, c.stdout)),
            c.exit_code,
        )
    } else {
        let filtered = branch::branch_list(c.stdout);
        session::finishes(
            seq![session::out_line(filtered)],
            Some(branch_record(q, c.stdout, filtered)),
            0,
        )
    }
}

/// Ends a branch list.
pub fn finish_list(request: Request, result: CaptureResult) -> (r: Step<GitStage>)
    ensures
        r@ == list_finished(request@, result@),
{
    if !result.success() {
        let mut printed = Printed::nothing();
        if !command::blank_text(result.stderr.as_str()) {
            printed.err(result.stderr.as_str());
        }
        let record = record_branch(&request, result.stdout.as_str(), result.stdout.as_str());
        return Step::record(printed, record, result.exit_code);
    }
    let filtered = branch::filter_branch_output(result.stdout.as_str());
    let record = record_branch(&request, result.stdout.as_str(), filtered.as_str());
    Step::record(Printed::line(filtered.as_str()), record, 0)
}

/// A branch that is named is made, not listed: the command runs as it was given.
pub proof fn law_creation_not_swallowed(q: RequestView, i: int)
    requires
        0 <= i < q.args.len(),
        is_positional(q.args[i]),
        !has_list(q.args),
        !q.args.contains("--show-current"@),
    ensures
        branch_mode(q.args) == BranchMode::Write,
        branch_line(q) == command::git_sub(q.global_args, "branch"@, q.args),
{
}

/// The flags that change branches.
pub proof fn law_action_flags(args: Seq<Seq<char>>, i: int, rest: Seq<char>)
    ensures
        args.contains("-d"@) ==> has_action(args),
        args.contains("-D"@) ==> has_action(args),
        args.contains("-m"@) ==> has_action(args),
        args.contains("-M"@) ==> has_action(args),
        args.contains("-c"@) ==> has_action(args),
        args.contains("-C"@) ==> has_action(args),
        args.contains("--set-upstream-to"@) ==> has_action(args),
        args.contains("-u"@) ==> has_action(args),
        args.contains("--unset-upstream"@) ==> has_action(args),
        args.contains("--edit-description"@) ==> has_action(args),
        0 <= i < args.len() && args[i] == "--set-upstream-to="@ + rest ==> has_action(args),
{
    if args.contains("-d"@) {
        let i = choose|i: int| 0 <= i < args.len() && args[i] == "-d"@;
        assert(is_action_flag(args[i]));
    }
    if args.contains("-D"@) {
        let i = choose|i: int| 0 <= i < args.len() && args[i] == "-D"@;
        assert(is_action_flag(args[i]));
    }
    if args.contains("-m"@) {
        let i = choose|i: int| 0 <= i < args.len() && args[i] == "-m"@;
        assert(is_action_flag(args[i]));
    }
    if args.contains("-M"@) {
        let i = choose|i: int| 0 <= i < args.len() && args[i] == "-M"@;
        assert(is_action_flag(args[i]));
    }
    if args.contains("-c"@) {
        let i = choose|i: int| 0 <= i < args.len() && args[i] == "-c"@;
        assert(is_action_flag(args[i]));
    }
    if args.contains("-C"@) {
        let i = choose|i: int| 0 <= i < args.len() && args[i] == "-C"@;
        assert(is_action_flag(args[i]));
    }
    if args.contains("--set-upstream-to"@) {
        let i = choose|i: int| 0 <= i < args.len() && args[i] == "--set-upstream-to"@;
        assert(is_action_flag(args[i]));
    }
    if args.contains("-u"@) {
        let i = choose|i: int| 0 <= i < args.len() && args[i] == "-u"@;
        assert(is_action_flag(args[i]));
    }
    if args.contains("--unset-upstream"@) {
        let i = choose|i: int| 0 <= i < args.len() && args[i] == "--unset-upstream"@;
        assert(is_action_flag(args[i]));
    }
    if args.contains("--edit-description"@) {
        let i = choose|i: int| 0 <= i < args.len() && args[i] == "--edit-description"@;
        assert(is_action_flag(args[i]));
    }
    chars::lemma_prefix("--set-upstream-to="@, rest);
    if 0 <= i < args.len() && args[i] == "--set-upstream-to="@ + rest {
        assert(is_action_flag(args[i]));
    }
}

/// The flags that ask for a list.
pub proof fn law_list_flags(args: Seq<Seq<char>>, i: int, rest: Seq<char>)
    ensures
        args.contains("-a"@) ==> has_list(args),
        args.contains("--all"@) ==> has_list(args),
        args.contains("-r"@) ==> has_list(args),
        args.contains("--remotes"@) ==> has_list(args),
        args.contains("--list"@) ==> has_list(args),
        args.contains("--merged"@) ==> has_list(args),
        args.contains("--no-merged"@) ==> has_list(args),
        args.contains("--contains"@) ==> has_list(args),
        args.contains("--no-contains"@) ==> has_list(args),
        args.contains("--format"@) ==> has_list(args),
        args.contains("--sort"@) ==> has_list(args),
        args.contains("--points-at"@) ==> has_list(args),
        0 <= i < args.len() && args[i] == "--format="@ + rest ==> has_list(args),
        0 <= i < args.len() && args[i] == "--sort="@ + rest ==> has_list(args),
        0 <= i < args.len() && args[i] == "--points-at="@ + rest ==> has_list(args),
{
    if args.contains("-a"@) {
        let i = choose|i: int| 0 <= i < args.len() && args[i] == "-a"@;
        assert(is_list_flag(args[i]));
    }
    if args.contains("--all"@) {
        let i = choose|i: int| 0 <= i < args.len() && args[i] == "--all"@;
        assert(is_list_flag(args[i]));
    }
    if args.contains("-r"@) {
        let i = choose|i: int| 0 <= i < args.len() && args[i] == "-r"@;
        assert(is_list_flag(args[i]));
    }
    if args.contains("--remotes"@) {
        let i = choose|i: int| 0 <= i < args.len() && args[i] == "--remotes"@;
        assert(is_list_flag(args[i]));
    }
    if args.contains("--list"@) {
        let i = choose|i: int| 0 <= i < args.len() && args[i] == "--list"@;
        assert(is_list_flag(args[i]));
    }
    if args.contains("--merged"@) {
        let i = choose|i: int| 0 <= i < args.len() && args[i] == "--merged"@;
        assert(is_list_flag(args[i]));
    }
    if args.contains("--no-merged"@) {
        let i = choose|i: int| 0 <= i < args.len() && args[i] == "--no-merged"@;
        assert(is_list_flag(args[i]));
    }
    if args.contains("--contains"@) {
        let i = choose|i: int| 0 <= i < args.len() && args[i] == "--contains"@;
        assert(is_list_flag(args[i]));
    }
    if args.contains("--no-contains"@) {
        let i = choose|i: int| 0 <= i < args.len() && args[i] == "--no-contains"@;
        assert(is_list_flag(args[i]));
    }
    if args.contains("--format"@) {
        let i = choose|i: int| 0 <= i < args.len() && args[i] == "--format"@;
        assert(is_list_flag(args[i]));
    }
    if args.contains("--sort"@) {
        let i = choose|i: int| 0 <= i < args.len() && args[i] == "--sort"@;
        assert(is_list_flag(args[i]));
    }
    if args.contains("--points-at"@) {
        let i = choose|i: int| 0 <= i < args.len() && args[i] == "--points-at"@;
        assert(is_list_flag(args[i]));
    }
    chars::lemma_prefix("--format="@, rest);
    chars::lemma_prefix("--sort="@, rest);
    chars::lemma_prefix("--points-at="@, rest);
    if 0 <= i < args.len() && (args[i] == "--format="@ + rest || args[i] == "--sort="@ + rest
        || args[i] == "--points-at="@ + rest) {
        assert(is_list_flag(args[i]));
    }
}

/// What a `git branch` does: `--show-current` goes before all else, a flag that changes branches makes
/// it a change whatever else is asked for, a name alone does too, and all else is a list.
pub proof fn law_branch_modes(args: Seq<Seq<char>>)
    ensures
        args.contains("--show-current"@) ==> branch_mode(args) == BranchMode::Show,
        !args.contains("--show-current"@) && has_action(args) ==> branch_mode(args)
            == BranchMode::Write,
        !args.contains("--show-current"@) && !has_action(args) && has_list(args) ==> branch_mode(
            args,
        ) == BranchMode::List,
        !args.contains("--show-current"@) && !has_action(args) && (forall|i: int|
            0 <= i < args.len() ==> (#[trigger] args[i]).len() > 0 && args[i][0] == '-')
            ==> branch_mode(args) == BranchMode::List,
{
    if forall|i: int|
        0 <= i < args.len() ==> (#[trigger] args[i]).len() > 0 && args[i][0] == '-' {
        assert(!has_positional(args));
    }
}

/// A `git branch` gets all of the user's arguments. A list is made without colors, and of all branches
/// unless the user says of which.
pub proof fn law_branch_commands(q: RequestView)
    ensures
        branch_mode(q.args) != BranchMode::List ==> branch_line(q).args == q.global_args + seq![
            "branch"@,
        ] + q.args,
        branch_mode(q.args) == BranchMode::List && has_list(q.args) ==> branch_line(q).args
            == q.global_args + seq!["branch"@, "--no-color"@] + q.args,
        branch_mode(q.args) == BranchMode::List && !has_list(q.args) ==> branch_line(q).args
            == q.global_args + seq!["branch"@, "-a"@, "--no-color"@] + q.args,
        branch_started(q).next matches NextView::Run { command, mode, stage } && command
            == branch_line(q) && stage.request == q && (stage.at == AtView::BranchShow <==> branch_mode(
            q.args,
        ) == BranchMode::Show) && (stage.at == AtView::BranchWrite <==> branch_mode(q.args)
            == BranchMode::Write) && (stage.at == AtView::BranchList <==> branch_mode(q.args)
            == BranchMode::List),
{
    let g = q.global_args;
    assert(g.push("branch"@) == g + seq!["branch"@]);
    assert(g.push("branch"@).push("--no-color"@) == g + seq!["branch"@, "--no-color"@]);
    assert(g.push("branch"@).push("-a"@).push("--no-color"@) == g + seq![
        "branch"@,
        "-a"@,
        "--no-color"@,
    ]);
}

/// How a `git branch` ends: with the name, a confirmation or the compact list where git succeeded, and
/// with git's own words and exit code where it failed.
pub proof fn law_branch_end(q: RequestView, c: CaptureView)
    ensures
        c.exit_code == 0 ==> show_finished(q, c).printed == seq![
            session::out_line(chars::trimmed(c.stdout)),
        ] && write_finished(q, c).printed == seq![session::out_line("ok"@)] && list_finished(
            q,
            c,
        ).printed == seq![session::out_line(branch::branch_list(c.stdout))],
        c.exit_code != 0 && !chars::is_blank(c.stderr) ==> show_finished(q, c).printed.contains(
            session::err_line(c.stderr),
        ) && write_finished(q, c).printed.contains(session::err_line(c.stderr)) && list_finished(
            q,
            c,
        ).printed == seq![ChunkView::Stderr(c.stderr)],
        c.exit_code != 0 && !chars::is_blank(c.stdout) ==> write_finished(q, c).printed.contains(
            session::err_line(c.stdout),
        ),
        show_finished(q, c).next == NextView::<StageView>::Done(c.exit_code),
        write_finished(q, c).next == NextView::<StageView>::Done(c.exit_code),
        list_finished(q, c).next == NextView::<StageView>::Done(c.exit_code),
{
    let head = session::err_line(command::label("FAILED: git branch "@, q.args));
    if c.exit_code != 0 && !chars::is_blank(c.stderr) {
        assert(branch_failure(q, c) == seq![head, session::err_line(c.stderr)]);
        assert(show_finished(q, c).printed[1] == session::err_line(c.stderr));
        assert(write_finished(q, c).printed[1] == session::err_line(c.stderr));
    }
    if c.exit_code != 0 && !chars::is_blank(c.stdout) {
        let p = write_finished(q, c).printed;
        assert(p[p.len() - 1] == session::err_line(c.stdout));
    }
}

/// No other flag changes branches or asks for a list, and only what begins with a dash is a flag.
pub proof fn law_other_flags(a: Seq<char>, rest: Seq<char>)
    ensures
        is_action_flag(a) ==> a == "-d"@ || a == "-D"@ || a == "-m"@ || a == "-M"@ || a == "-c"@ || a
            == "-C"@ || a == "--set-upstream-to"@ || a == "-u"@ || a == "--unset-upstream"@ || a
            == "--edit-description"@ || a == "--set-upstream-to="@ + a.skip(
            "--set-upstream-to="@.len() as int,
        ),
        is_list_flag(a) ==> a == "-a"@ || a == "--all"@ || a == "-r"@ || a == "--remotes"@ || a
            == "--list"@ || a == "--merged"@ || a == "--no-merged"@ || a == "--contains"@ || a
            == "--no-contains"@ || a == "--format"@ || a == "--sort"@ || a == "--points-at"@ || a
            == "--format="@ + a.skip("--format="@.len() as int) || a == "--sort="@ + a.skip(
            "--sort="@.len() as int,
        ) || a == "--points-at="@ + a.skip("--points-at="@.len() as int),
        !is_positional(seq!['-'] + rest),
        a.len() > 0 && a[0] != '-' ==> is_positional(a),
{
    assert((seq!['-'] + rest)[0] == '-');
    lemma_prefix_parts(a, "--set-upstream-to="@);
    lemma_prefix_parts(a, "--format="@);
    lemma_prefix_parts(a, "--sort="@);
    lemma_prefix_parts(a, "--points-at="@);
}

proof fn lemma_prefix_parts(a: Seq<char>, p: Seq<char>)
    ensures
        chars::has_prefix(a, p) ==> a == p + a.skip(p.len() as int),
{
    if chars::has_prefix(a, p) {
        assert(a == a.take(p.len() as int) + a.skip(p.len() as int));
    }
}

} // verus!
