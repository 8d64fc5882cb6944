//! Running git commands: which session a command has, and how it goes on.
use crate::git::args;
use crate::git::branch_run;
use crate::git::change_run;
use crate::git::command;
use crate::git::command::{At, AtView, GitStage, Request, RequestView, StageView};
use crate::git::diff_run;
use crate::git::log_run;
use crate::git::show_run;
use crate::git::stash_run;
use crate::git::status_run;
use crate::git::worktree;
use crate::git::worktree_run;
use crate::session;
use crate::session::{CaptureResult, CaptureView, ChunkView, NextView, Step, StepView};
use crate::text::chars;
use crate::text::compose;
use vstd::prelude::*;

verus! {

/// A git command that is filtered.
#[derive(Debug, Clone)]
pub enum GitCommand {
    /// `git diff`.
    Diff,
    /// `git log`.
    Log,
    /// `git status`.
    Status,
    /// `git show`.
    Show,
    /// `git add`.
    Add,
    /// `git commit`.
    Commit,
    /// `git push`.
    Push,
    /// `git pull`.
    Pull,
    /// `git branch`.
    Branch,
    /// `git fetch`.
    Fetch,
    /// `git stash`.
    Stash {
        /// What follows `stash`, if anything.
        subcommand: Option<String>,
    },
    /// `git worktree`.
    Worktree,
}

/// How a command begins. For a diff, `on_disk` says which arguments are the names of files; for a
/// worktree list, `home` is the user's home directory.
pub open spec fn started(
    cmd: GitCommand,
    q: RequestView,
    on_disk: Seq<bool>,
    home: Seq<char>,
) -> StepView<StageView> {
    match cmd {
        GitCommand::Diff => diff_run::diff_started(
            RequestView { args: args::normalized(q.args, on_disk), ..q },
        ),
        GitCommand::Log => log_run::log_started(q),
        GitCommand::Status => status_run::status_started(q),
        GitCommand::Show => show_run::show_started(q),
        GitCommand::Add => change_run::add_started(q),
        GitCommand::Commit => change_run::commit_started(q),
        GitCommand::Push => change_run::push_started(q),
        GitCommand::Pull => change_run::pull_started(q),
        GitCommand::Branch => branch_run::branch_started(q),
        GitCommand::Fetch => change_run::fetch_started(q),
        GitCommand::Stash { subcommand } => stash_run::stash_started(
            compose::optional(subcommand),
            q,
        ),
        GitCommand::Worktree => worktree_run::worktree_started(q, home),
    }
}

/// Begins a git command.
pub fn run(
    cmd: GitCommand,
    args: &[String],
    max_lines: Option<usize>,
    verbose: u8,
    global_args: &[String],
) -> (r: Step<GitStage>)
    ensures
        exists|on_disk: Seq<bool>, home: Seq<char>|
            on_disk.len() == args@.len() && (cmd is Diff ==> args::answered_by_disk(
                args.deep_view(),
                on_disk,
            )) && (cmd is Worktree ==> worktree::home_told(home)) && r@ == #[trigger] started(
                cmd,
                RequestView {
                    args: args.deep_view(),
                    global_args: global_args.deep_view(),
                    max_lines,
                    verbose,
                },
                on_disk,
                home,
            ),
{
    let request = Request {
        args: compose::copied(args),
        global_args: compose::copied(global_args),
        max_lines,
        verbose,
    };
    let ghost q = request@;
    let ghost none = Seq::new(args@.len(), |i: int| false);
    let ghost nowhere: Seq<char> = Seq::empty();
    match cmd {
        GitCommand::Diff => {
            let normalized = args::normalize_diff_args(args);
            let ghost on_disk = choose|on_disk: Seq<bool>|
                on_disk.len() == args@.len() && args::answered_by_disk(args.deep_view(), on_disk)
                    && normalized.deep_view() == #[trigger] args::normalized(
                    args.deep_view(),
                    on_disk,
                );
            let step = diff_run::run_diff(Request { args: normalized, ..request });
            assert(step@ == started(cmd, q, on_disk, nowhere));
            step
        },
        GitCommand::Log => {
            let step = log_run::run_log(request);
            assert(step@ == started(cmd, q, none, nowhere));
            step
        },
        GitCommand::Status => {
            let step = status_run::run_status(request);
            assert(step@ == started(cmd, q, none, nowhere));
            step
        },
        GitCommand::Show => {
            let step = show_run::run_show(request);
            assert(step@ == started(cmd, q, none, nowhere));
            step
        },
        GitCommand::Add => {
            let step = change_run::run_add(request);
            assert(step@ == started(cmd, q, none, nowhere));
            step
        },
        GitCommand::Commit => {
            let step = change_run::run_commit(request);
            assert(step@ == started(cmd, q, none, nowhere));
            step
        },
        GitCommand::Push => {
            let step = change_run::run_push(request);
            assert(step@ == started(cmd, q, none, nowhere));
            step
        },
        GitCommand::Pull => {
            let step = change_run::run_pull(request);
            assert(step@ == started(cmd, q, none, nowhere));
            step
        },
        GitCommand::Branch => {
            let step = branch_run::run_branch(request);
            assert(step@ == started(cmd, q, none, nowhere));
            step
        },
        GitCommand::Fetch => {
            let step = change_run::run_fetch(request);
            assert(step@ == started(cmd, q, none, nowhere));
            step
        },
        GitCommand::Stash { subcommand } => {
            let ghost named = subcommand;
            let step = match &subcommand {
                Some(s) => stash_run::run_stash(Some(s.as_str()), request),
                None => stash_run::run_stash(None, request),
            };
            assert(step@ == started(GitCommand::Stash { subcommand: named }, q, none, nowhere));
            step
        },
        GitCommand::Worktree => {
            let home = worktree::home();
            let ghost h = home@;
            let step = worktree_run::run_worktree(request, home);
            assert(step@ == started(cmd, q, none, h));
            step
        },
    }
}

/// The message where a command could not be run.
pub open spec fn failure_message(at: AtView) -> Seq<char> {
    match at {
        AtView::DiffPassthrough | AtView::DiffStat | AtView::DiffBody(_) => {
            "Failed to run git diff"@
        },
        AtView::ShowPassthrough | AtView::ShowRaw | AtView::ShowSummary(_) => {
            "Failed to run git show"@
        },
        AtView::ShowStat(_, _) => "Failed to run git show --stat"@,
        AtView::ShowDiff(_, _) => "Failed to run git show (diff)"@,
        AtView::Log => "Failed to run git log"@,
        AtView::StatusPlain | AtView::StatusRaw | AtView::StatusCompact(_) => {
            "Failed to run git status"@
        },
        AtView::Add => "Failed to run git add"@,
        AtView::AddStat(_) => "Failed to check staged files"@,
        AtView::Commit => "Failed to run git commit"@,
        AtView::Push => "Failed to run git push"@,
        AtView::Pull => "Failed to run git pull"@,
        AtView::BranchShow | AtView::BranchWrite | AtView::BranchList => {
            "Failed to run git branch"@
        },
        AtView::Fetch => "Failed to run git fetch"@,
        AtView::StashList => "Failed to run git stash list"@,
        AtView::StashShow => "Failed to run git stash show"@,
        AtView::StashOp(_) => "Failed to run git stash"@,
        AtView::WorktreeAction => "Failed to run git worktree"@,
        AtView::WorktreeList(_) => "Failed to run git worktree list"@,
    }
}

fn message_of(at: &At) -> (r: &'static str)
    ensures
        r@ == failure_message(at@),
{
    match at {
        At::DiffPassthrough | At::DiffStat | At::DiffBody { .. } => "Failed to run git diff",
        At::ShowPassthrough | At::ShowRaw | At::ShowSummary { .. } => "Failed to run git show",
        At::ShowStat { .. } => "Failed to run git show --stat",
        At::ShowDiff { .. } => "Failed to run git show (diff)",
        At::Log => "Failed to run git log",
        At::StatusPlain | At::StatusRaw | At::StatusCompact { .. } => "Failed to run git status",
        At::Add => "Failed to run git add",
        At::AddStat { .. } => "Failed to check staged files",
        At::Commit => "Failed to run git commit",
        At::Push => "Failed to run git push",
        At::Pull => "Failed to run git pull",
        At::BranchShow | At::BranchWrite | At::BranchList => "Failed to run git branch",
        At::Fetch => "Failed to run git fetch",
        At::StashList => "Failed to run git stash list",
        At::StashShow => "Failed to run git stash show",
        At::StashOp { .. } => "Failed to run git stash",
        At::WorktreeAction => "Failed to run git worktree",
        At::WorktreeList { .. } => "Failed to run git worktree list",
    }
}

/// How a session goes on once the command that it waited for has ended. `None` says that the
/// command could not be run: that ends the session, unless its output was only for the record.
pub open spec fn resumed(s: StageView, event: Option<CaptureView>) -> StepView<StageView> {
    let q = s.request;
    match event {
        None => match s.at {
            AtView::ShowRaw => show_run::show_raw_done(q, Seq::empty()),
            AtView::StatusRaw => status_run::raw_done(q, Seq::empty()),
            _ => session::fails(failure_message(s.at)),
        },
        Some(c) => match s.at {
            AtView::DiffPassthrough => diff_run::diff_passed_through(q, c),
            AtView::DiffStat => diff_run::diff_stat_done(q, c),
            AtView::DiffBody(stat) => diff_run::diff_finished(q, stat, c),
            AtView::ShowPassthrough => show_run::show_passed_through(q, c),
            AtView::ShowRaw => show_run::show_raw_done(q, c.stdout),
            AtView::ShowSummary(raw) => show_run::show_summary_done(q, raw, c),
            AtView::ShowStat(raw, summary) => show_run::show_stat_done(q, raw, summary, c),
            AtView::ShowDiff(raw, summary) => show_run::show_finished(q, raw, summary, c),
            AtView::Log => log_run::log_finished(q, c),
            AtView::StatusPlain => status_run::plain_finished(q, c),
            AtView::StatusRaw => status_run::raw_done(q, c.stdout),
            AtView::StatusCompact(raw) => status_run::compact_finished(q, raw, c),
            AtView::Add => change_run::add_done(q, c),
            AtView::AddStat(raw) => change_run::add_finished(q, raw, c),
            AtView::Commit => change_run::commit_finished(q, c),
            AtView::Push => change_run::push_finished(q, c),
            AtView::Pull => change_run::pull_finished(q, c),
            AtView::BranchShow => branch_run::show_finished(q, c),
            AtView::BranchWrite => branch_run::write_finished(q, c),
            AtView::BranchList => branch_run::list_finished(q, c),
            AtView::Fetch => change_run::fetch_finished(c),
            AtView::StashList => stash_run::list_finished(c),
            AtView::StashShow => stash_run::show_finished(c),
            AtView::StashOp(sub) => stash_run::operation_finished(sub, c),
            AtView::WorktreeAction => worktree_run::action_finished(q, c),
            AtView::WorktreeList(home) => worktree_run::list_finished(home, c),
        },
    }
}

/// Goes on with a session once the command that it waited for has ended.
pub fn resume(stage: GitStage, event: Option<CaptureResult>) -> (r: Step<GitStage>)
    ensures
        r@ == resumed(stage@, session::captured(event)),
{
    let request = stage.request;
    let result = match event {
        Some(result) => result,
        None => {
            return match stage.at {
                At::ShowRaw => show_run::after_raw(request, String::new()),
                At::StatusRaw => status_run::after_raw(request, String::new()),
                at => Step::fail(message_of(&at)),
            };
        },
    };
    match stage.at {
        At::DiffPassthrough => diff_run::finish_passthrough(request, result),
        At::DiffStat => diff_run::after_stat(request, result),
        At::DiffBody { stat } => diff_run::finish_diff(request, stat, result),
        At::ShowPassthrough => show_run::finish_passthrough(request, result),
        At::ShowRaw => show_run::after_raw(request, result.stdout),
        At::ShowSummary { raw } => show_run::after_summary(request, raw, result),
        At::ShowStat { raw, summary } => show_run::after_stat(request, raw, summary, result),
        At::ShowDiff { raw, summary } => show_run::finish_show(request, raw, summary, result),
        At::Log => log_run::finish_log(request, result),
        At::StatusPlain => status_run::finish_plain(request, result),
        At::StatusRaw => status_run::after_raw(request, result.stdout),
        At::StatusCompact { raw } => status_run::finish_compact(request, raw, result),
        At::Add => change_run::after_add(request, result),
        At::AddStat { raw } => change_run::finish_add(request, raw, result),
        At::Commit => change_run::finish_commit(request, result),
        At::Push => change_run::finish_push(request, result),
        At::Pull => change_run::finish_pull(request, result),
        At::BranchShow => branch_run::finish_show(request, result),
        At::BranchWrite => branch_run::finish_write(request, result),
        At::BranchList => branch_run::finish_list(request, result),
        At::Fetch => change_run::finish_fetch(result),
        At::StashList => stash_run::finish_list(result),
        At::StashShow => stash_run::finish_show(result),
        At::StashOp { sub } => stash_run::finish_operation(sub, result),
        At::WorktreeAction => worktree_run::finish_action(request, result),
        At::WorktreeList { home } => worktree_run::finish_list(home, result),
    }
}

/// How many commands a session may still run, the one that it waits for among them.
pub open spec fn commands_left(at: AtView) -> nat {
    match at {
        AtView::ShowRaw => 4,
        AtView::ShowSummary(_) => 3,
        AtView::ShowStat(_, _) | AtView::DiffStat | AtView::StatusRaw | AtView::Add => 2,
        _ => 1,
    }
}

/// A session ends: each command brings it closer to its end, and what the user asked for is kept
/// on the way.
pub proof fn law_session_ends(s: StageView, event: Option<CaptureView>)
    ensures
        resumed(s, event).next matches NextView::Run { command, mode, stage } ==> commands_left(
            stage.at,
        ) < commands_left(s.at) && stage.request == s.request,
{
}

/// A session ends with the exit code of its last command, or with zero; and where it ends with
/// another code than zero, the command failed.
pub proof fn law_exit_code(s: StageView, c: CaptureView)
    ensures
        resumed(s, Some(c)).next matches NextView::Done(code) ==> code == 0 || code == c.exit_code,
        !(resumed(s, Some(c)).next is Fail),
{
}

/// A command that cannot be run prints nothing and leaves no record.
pub proof fn law_nothing_after_failed_start(s: StageView)
    ensures
        resumed(s, None).printed == Seq::<ChunkView>::empty(),
        resumed(s, None).record is None,
        !(resumed(s, None).next is Done),
{
}

/// A record is made where a session ends, and nowhere else.
pub proof fn law_record_at_end(s: StageView, event: Option<CaptureView>)
    ensures
        resumed(s, event).record is Some ==> resumed(s, event).next is Done,
{
}

/// A subcommand runs with the options before it and the user's arguments behind it, all of them
/// and in order.
pub proof fn law_arguments_passed_on(q: RequestView, sub: Seq<char>, i: int)
    requires
        0 <= i < q.args.len(),
    ensures
        command::git_sub(q.global_args, sub, q.args).args[q.global_args.len() + 1 + i] == q.args[i],
        command::git_sub(q.global_args, sub, q.args).args.take(q.global_args.len() as int)
            == q.global_args,
        command::git_sub(q.global_args, sub, q.args).args[q.global_args.len() as int] == sub,
{
    let all = command::git_sub(q.global_args, sub, q.args).args;
    assert(all.take(q.global_args.len() as int) == q.global_args);
}

/// A command that failed fails the session with its exit code, where git is asked for what the user
/// wants; it does not where it was asked for no more than a part, or where a failure is no failure.
pub proof fn law_failure_is_passed_on(s: StageView, c: CaptureView)
    requires
        c.exit_code != 0,
        s.at is DiffPassthrough || s.at is DiffStat || s.at is ShowPassthrough || s.at is ShowSummary
            || s.at is Log || s.at is StatusPlain || s.at is Add || s.at is Push || s.at is Pull
            || s.at is BranchShow || s.at is BranchWrite || s.at is BranchList || s.at is Fetch
            || s.at is StashOp || s.at is WorktreeAction || (s.at is Commit
            && !change_run::nothing_to_commit(c)),
    ensures
        resumed(s, Some(c)).next == NextView::<StageView>::Done(c.exit_code),
{
}

/// A session whose command succeeded goes on or ends well.
pub proof fn law_success_ends_well(s: StageView, c: CaptureView)
    requires
        c.exit_code == 0,
    ensures
        resumed(s, Some(c)).next is Run || resumed(s, Some(c)).next == NextView::<StageView>::Done(0),
{
}

/// A command that cannot be run ends the session, unless its output was only for the record.
pub proof fn law_failed_start(s: StageView)
    ensures
        (resumed(s, None).next is Run) == (s.at is ShowRaw || s.at is StatusRaw),
        !(s.at is ShowRaw) && !(s.at is StatusRaw) ==> (resumed(s, None).next matches NextView::Fail(
            message,
        ) && chars::has_prefix(message, "Failed to "@)),
{
    reveal_strlit("Failed to ");
    let p = "Failed to "@;
    reveal_strlit("Failed to run git diff");
    reveal_strlit("Failed to run git show");
    reveal_strlit("Failed to run git show --stat");
    reveal_strlit("Failed to run git show (diff)");
    reveal_strlit("Failed to run git log");
    reveal_strlit("Failed to run git status");
    reveal_strlit("Failed to run git add");
    reveal_strlit("Failed to check staged files");
    reveal_strlit("Failed to run git commit");
    reveal_strlit("Failed to run git push");
    reveal_strlit("Failed to run git pull");
    reveal_strlit("Failed to run git branch");
    reveal_strlit("Failed to run git fetch");
    reveal_strlit("Failed to run git stash list");
    reveal_strlit("Failed to run git stash show");
    reveal_strlit("Failed to run git stash");
    reveal_strlit("Failed to run git worktree");
    reveal_strlit("Failed to run git worktree list");
    assert(failure_message(s.at).take(10) == p);
}

/// What is recorded names the command that the user gave, and that it was run here.
pub proof fn law_records_named(s: StageView, event: Option<CaptureView>)
    ensures
        resumed(s, event).record matches Some(r) ==> chars::has_prefix(r.original, "git "@)
            && chars::has_prefix(r.rewritten, "rtk git "@),
{
    lemma_original_names();
    lemma_rewritten_names();
    assert forall|q: Seq<char>, x: Seq<char>, p: Seq<char>| chars::has_prefix(q, p)
        implies #[trigger] chars::has_prefix(q + x, p) by {
        assert((q + x).take(p.len() as int) == q.take(p.len() as int));
    }
    assert(chars::has_prefix("rtk "@ + ("git push "@ + compose::joined(s.request.args, " "@)), "rtk git "@)) by {
        reveal_strlit("rtk ");
        reveal_strlit("git push ");
        reveal_strlit("rtk git ");
        let name = "rtk "@ + ("git push "@ + compose::joined(s.request.args, " "@));
        assert(name.take(8) == "rtk git "@);
    }
}

proof fn lemma_original_names()
    ensures
        chars::has_prefix("git diff "@, "git "@),
        chars::has_prefix("git show "@, "git "@),
        chars::has_prefix("git log "@, "git "@),
        chars::has_prefix("git status "@, "git "@),
        chars::has_prefix("git status"@, "git "@),
        chars::has_prefix("git add "@, "git "@),
        chars::has_prefix("git commit "@, "git "@),
        chars::has_prefix("git push "@, "git "@),
        chars::has_prefix("git pull "@, "git "@),
        chars::has_prefix("git branch "@, "git "@),
        chars::has_prefix("git fetch"@, "git "@),
        chars::has_prefix("git stash list"@, "git "@),
        chars::has_prefix("git stash show"@, "git "@),
        chars::has_prefix("git stash "@, "git "@),
        chars::has_prefix("git worktree "@, "git "@),
        chars::has_prefix("git worktree list"@, "git "@),
{
    reveal_strlit("git ");
    assert("git diff "@.take(4) == "git "@) by {
        reveal_strlit("git diff ");
    }
    reveal_strlit("git diff ");
    assert("git show "@.take(4) == "git "@) by {
        reveal_strlit("git show ");
    }
    reveal_strlit("git show ");
    assert("git log "@.take(4) == "git "@) by {
        reveal_strlit("git log ");
    }
    reveal_strlit("git log ");
    assert("git status "@.take(4) == "git "@) by {
        reveal_strlit("git status ");
    }
    reveal_strlit("git status ");
    assert("git status"@.take(4) == "git "@) by {
        reveal_strlit("git status");
    }
    reveal_strlit("git status");
    assert("git add "@.take(4) == "git "@) by {
        reveal_strlit("git add ");
    }
    reveal_strlit("git add ");
    assert("git commit "@.take(4) == "git "@) by {
        reveal_strlit("git commit ");
    }
    reveal_strlit("git commit ");
    assert("git push "@.take(4) == "git "@) by {
        reveal_strlit("git push ");
    }
    reveal_strlit("git push ");
    assert("git pull "@.take(4) == "git "@) by {
        reveal_strlit("git pull ");
    }
    reveal_strlit("git pull ");
    assert("git branch "@.take(4) == "git "@) by {
        reveal_strlit("git branch ");
    }
    reveal_strlit("git branch ");
    assert("git fetch"@.take(4) == "git "@) by {
        reveal_strlit("git fetch");
    }
    reveal_strlit("git fetch");
    assert("git stash list"@.take(4) == "git "@) by {
        reveal_strlit("git stash list");
    }
    reveal_strlit("git stash list");
    assert("git stash show"@.take(4) == "git "@) by {
        reveal_strlit("git stash show");
    }
    reveal_strlit("git stash show");
    assert("git stash "@.take(4) == "git "@) by {
        reveal_strlit("git stash ");
    }
    reveal_strlit("git stash ");
    assert("git worktree "@.take(4) == "git "@) by {
        reveal_strlit("git worktree ");
    }
    reveal_strlit("git worktree ");
    assert("git worktree list"@.take(4) == "git "@) by {
        reveal_strlit("git worktree list");
    }
    reveal_strlit("git worktree list");
}

proof fn lemma_rewritten_names()
    ensures
        chars::has_prefix("rtk git diff "@, "rtk git "@),
        chars::has_prefix("rtk git show "@, "rtk git "@),
        chars::has_prefix("rtk git log "@, "rtk git "@),
        chars::has_prefix("rtk git status "@, "rtk git "@),
        chars::has_prefix("rtk git status"@, "rtk git "@),
        chars::has_prefix("rtk git add "@, "rtk git "@),
        chars::has_prefix("rtk git commit"@, "rtk git "@),
        chars::has_prefix("rtk git pull "@, "rtk git "@),
        chars::has_prefix("rtk git branch "@, "rtk git "@),
        chars::has_prefix("rtk git fetch"@, "rtk git "@),
        chars::has_prefix("rtk git stash list"@, "rtk git "@),
        chars::has_prefix("rtk git stash show"@, "rtk git "@),
        chars::has_prefix("rtk git stash "@, "rtk git "@),
        chars::has_prefix("rtk git worktree "@, "rtk git "@),
        chars::has_prefix("rtk git worktree"@, "rtk git "@),
{
    reveal_strlit("rtk git ");
    assert("rtk git diff "@.take(8) == "rtk git "@) by {
        reveal_strlit("rtk git diff ");
    }
    reveal_strlit("rtk git diff ");
    assert("rtk git show "@.take(8) == "rtk git "@) by {
        reveal_strlit("rtk git show ");
    }
    reveal_strlit("rtk git show ");
    assert("rtk git log "@.take(8) == "rtk git "@) by {
        reveal_strlit("rtk git log ");
    }
    reveal_strlit("rtk git log ");
    assert("rtk git status "@.take(8) == "rtk git "@) by {
        reveal_strlit("rtk git status ");
    }
    reveal_strlit("rtk git status ");
    assert("rtk git status"@.take(8) == "rtk git "@) by {
        reveal_strlit("rtk git status");
    }
    reveal_strlit("rtk git status");
    assert("rtk git add "@.take(8) == "rtk git "@) by {
        reveal_strlit("rtk git add ");
    }
    reveal_strlit("rtk git add ");
    assert("rtk git commit"@.take(8) == "rtk git "@) by {
        reveal_strlit("rtk git commit");
    }
    reveal_strlit("rtk git commit");
    assert("rtk git pull "@.take(8) == "rtk git "@) by {
        reveal_strlit("rtk git pull ");
    }
    reveal_strlit("rtk git pull ");
    assert("rtk git branch "@.take(8) == "rtk git "@) by {
        reveal_strlit("rtk git branch ");
    }
    reveal_strlit("rtk git branch ");
    assert("rtk git fetch"@.take(8) == "rtk git "@) by {
        reveal_strlit("rtk git fetch");
    }
    reveal_strlit("rtk git fetch");
    assert("rtk git stash list"@.take(8) == "rtk git "@) by {
        reveal_strlit("rtk git stash list");
    }
    reveal_strlit("rtk git stash list");
    assert("rtk git stash show"@.take(8) == "rtk git "@) by {
        reveal_strlit("rtk git stash show");
    }
    reveal_strlit("rtk git stash show");
    assert("rtk git stash "@.take(8) == "rtk git "@) by {
        reveal_strlit("rtk git stash ");
    }
    reveal_strlit("rtk git stash ");
    assert("rtk git worktree "@.take(8) == "rtk git "@) by {
        reveal_strlit("rtk git worktree ");
    }
    reveal_strlit("rtk git worktree ");
    assert("rtk git worktree"@.take(8) == "rtk git "@) by {
        reveal_strlit("rtk git worktree");
    }
    reveal_strlit("rtk git worktree");
}

/// On request, what runs is told on standard error before anything else.
pub proof fn law_verbose_told(q: RequestView, c: CaptureView, home: Seq<char>)
    ensures
        ({
            let wanted = q.verbose > 0;
            let note = |text: Seq<char>| if wanted {
                seq![session::err_line(text)]
            } else {
                Seq::<ChunkView>::empty()
            };
            &&& change_run::push_started(q).printed == note("git push"@)
            &&& change_run::pull_started(q).printed == note("git pull"@)
            &&& change_run::fetch_started(q).printed == note("git fetch"@)
            &&& branch_run::branch_started(q).printed == note("git branch"@)
            &&& worktree_run::worktree_started(q, home).printed == note("git worktree list"@)
            &&& change_run::commit_started(q).printed == note(
                "git commit "@ + compose::joined(q.args, " "@),
            )
            &&& c.exit_code == 0 ==> change_run::add_done(q, c).printed == note(
                "git add executed"@,
            )
            &&& c.exit_code == 0 ==> log_run::log_finished(q, c).printed.drop_last() == note(
                "Git log output:"@,
            )
            &&& c.exit_code == 0 ==> diff_run::diff_stat_done(q, c).printed.drop_last() == note(
                "Git diff summary:"@,
            )
        }),
{
    let wanted = q.verbose > 0;
    let shown = log_run::log_finished(q, c).printed;
    assert(shown.len() > 0 ==> shown.drop_last().push(shown.last()) == shown);
}

/// The word by which git knows a command.
pub open spec fn own_name(cmd: GitCommand) -> Seq<char> {
    match cmd {
        GitCommand::Diff => "diff"@,
        GitCommand::Log => "log"@,
        GitCommand::Status => "status"@,
        GitCommand::Show => "show"@,
        GitCommand::Add => "add"@,
        GitCommand::Commit => "commit"@,
        GitCommand::Push => "push"@,
        GitCommand::Pull => "pull"@,
        GitCommand::Branch => "branch"@,
        GitCommand::Fetch => "fetch"@,
        GitCommand::Stash { subcommand } => "stash"@,
        GitCommand::Worktree => "worktree"@,
    }
}

/// Every command first asks git for what it is named after, behind all of the options that stand
/// before the subcommand, and waits for it with what the user asked for in hand.
pub proof fn law_own_name_is_run(
    cmd: GitCommand,
    q: RequestView,
    on_disk: Seq<bool>,
    home: Seq<char>,
)
    ensures
        started(cmd, q, on_disk, home).next matches NextView::Run { command, mode, stage }
            && command.program == "git"@ && command.args.len() > q.global_args.len()
            && command.args.take(q.global_args.len() as int) == q.global_args
            && command.args[q.global_args.len() as int] == own_name(cmd) && stage.request.global_args
            == q.global_args && stage.request.verbose == q.verbose && stage.request.max_lines
            == q.max_lines && (!(cmd is Diff) ==> stage.request.args == q.args),
{
    if let NextView::Run { command, mode, stage } = started(cmd, q, on_disk, home).next {
        assert(command.args.take(q.global_args.len() as int) == q.global_args);
    }
}

/// What a command printed reaches the user through the reading that belongs to it.
pub proof fn law_own_reading(q: RequestView, c: CaptureView, home: Seq<char>)
    requires
        c.exit_code == 0,
    ensures
        ({
            let shown = |at: AtView| resumed(StageView { request: q, at }, Some(c)).printed;
            &&& shown(AtView::Pull) == seq![session::out_line(crate::git::summary::pull_summary(c.stdout))]
            &&& shown(AtView::Fetch) == seq![session::out_line(crate::git::summary::fetch_summary(c.stderr))]
            &&& shown(AtView::Push).len() == 0
            &&& shown(AtView::BranchList) == branch_run::list_finished(q, c).printed
            &&& shown(AtView::StashList) == stash_run::list_finished(c).printed
            &&& shown(AtView::StashShow) == stash_run::show_finished(c).printed
            &&& shown(AtView::WorktreeList(home)) == worktree_run::list_finished(home, c).printed
            &&& shown(AtView::Log) == log_run::log_finished(q, c).printed
            &&& shown(AtView::StatusPlain) == status_run::plain_finished(q, c).printed
        }),
{
}

/// What is recorded holds all that git printed, and what the user saw of it.
pub proof fn law_records_hold(q: RequestView, c: CaptureView, sub: Seq<char>)
    requires
        c.exit_code == 0,
    ensures
        ({
            let record = |at: AtView| resumed(StageView { request: q, at }, Some(c)).record;
            let named = |name: Seq<char>| name + compose::joined(q.args, " "@);
            &&& record(AtView::Log) matches Some(r) && r.input == c.stdout && r.original == named(
                "git log "@,
            )
            &&& record(AtView::Commit) matches Some(r) && r.input == c.stdout + "\n"@ + c.stderr
                && r.original == named("git commit "@)
            &&& record(AtView::Pull) matches Some(r) && r.input == c.stdout + "\n"@ + c.stderr
                && r.original == named("git pull "@)
            &&& record(AtView::Push) matches Some(r) && r.original == named("git push "@)
            &&& record(AtView::BranchShow) matches Some(r) && r.input == c.combined && r.output
                == chars::trimmed(c.stdout) && r.original == named("git branch "@)
            &&& record(AtView::BranchWrite) matches Some(r) && r.input == c.combined && r.output
                == "ok"@ && r.original == named("git branch "@)
            &&& record(AtView::BranchList) matches Some(r) && r.input == c.stdout && r.original
                == named("git branch "@)
            &&& record(AtView::StashList) matches Some(r) && r.input == c.stdout && r.original
                == "git stash list"@
            &&& record(AtView::StashShow) matches Some(r) && r.input == c.stdout && r.original
                == "git stash show"@
            &&& record(AtView::StashOp(sub)) matches Some(r) && r.input == c.combined && r.original
                == "git stash "@ + sub
            &&& record(AtView::WorktreeAction) matches Some(r) && r.input == c.combined && r.output
                == "ok"@ && r.original == named("git worktree "@)
        }),
{
}

} // verus!
