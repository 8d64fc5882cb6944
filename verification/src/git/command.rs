//! Git command lines, and where a session of one stands.
use crate::git::status;
use crate::session::{CommandLine, CommandView};
use crate::text::chars;
use crate::text::compose;
use crate::session;
use vstd::prelude::*;

verus! {

/// `git` with options that stand before the subcommand.
pub open spec fn git_line(global_args: Seq<Seq<char>>) -> CommandView {
    CommandView { program: "git"@, args: global_args, env: Seq::empty() }
}

/// `git` with options (`-C`, `-c`, `--git-dir`, `--work-tree`) that stand before the subcommand.
pub fn git_cmd(global_args: &[String]) -> (r: CommandLine)
    ensures
        r@ == git_line(global_args.deep_view()),
{
    let cmd = CommandLine::new("git").args(global_args);
    assert(cmd@ == git_line(global_args.deep_view()));
    cmd
}

/// `git` with a stable locale.
pub open spec fn git_line_c_locale(global_args: Seq<Seq<char>>) -> CommandView {
    CommandView { env: seq![("LC_ALL"@, "C"@)], ..git_line(global_args) }
}

/// `git` for output that is parsed, and so must not depend on the user's locale.
pub fn git_cmd_c_locale(global_args: &[String]) -> (r: CommandLine)
    ensures
        r@ == git_line_c_locale(global_args.deep_view()),
{
    git_cmd(global_args).env("LC_ALL", "C")
}

/// `git <sub> <args>`.
pub open spec fn git_sub(
    global_args: Seq<Seq<char>>,
    sub: Seq<char>,
    args: Seq<Seq<char>>,
) -> CommandView {
    session::with_args(session::with_arg(git_line(global_args), sub), args)
}

/// `git <sub> <args>`.
pub fn git_subcommand(global_args: &[String], sub: &str, args: &[String]) -> (r: CommandLine)
    ensures
        r@ == git_sub(global_args.deep_view(), sub@, args.deep_view()),
{
    git_cmd(global_args).arg(sub).args(args)
}

/// `git status` in the compact form, or as the user asked for it.
pub open spec fn status_line(
    args: Seq<Seq<char>>,
    global_args: Seq<Seq<char>>,
) -> CommandView {
    if status::takes_compact_form(args) {
        git_sub(global_args, "status"@, seq!["--porcelain"@, "-b"@, "-uall"@])
    } else {
        git_sub(global_args, "status"@, args)
    }
}

/// `git status` in the compact form, or as the user asked for it.
pub fn build_status_command(args: &[String], global_args: &[String]) -> (r: CommandLine)
    ensures
        r@ == status_line(args.deep_view(), global_args.deep_view()),
{
    let cmd = git_cmd(global_args).arg("status");
    if status::uses_compact_status_path(args) {
        let cmd = cmd.arg("--porcelain").arg("-b").arg("-uall");
        assert(cmd@ == status_line(args.deep_view(), global_args.deep_view()));
        cmd
    } else {
        cmd.args(args)
    }
}

/// `git commit` with all of the arguments.
pub fn build_commit_command(args: &[String], global_args: &[String]) -> (r: CommandLine)
    ensures
        r@ == git_sub(global_args.deep_view(), "commit"@, args.deep_view()),
{
    git_subcommand(global_args, "commit", args)
}

/// A command by name: `prefix` and the arguments.
pub open spec fn label(prefix: Seq<char>, args: Seq<Seq<char>>) -> Seq<char> {
    prefix + compose::joined(args, " "@)
}

/// A command by name: `prefix` and the arguments.
pub fn label_of(prefix: &str, args: &[String]) -> (r: String)
    ensures
        r@ == label(prefix@, args.deep_view()),
{
    let mut out = prefix.to_string();
    out.append(compose::join(args, " ").as_str());
    out
}

/// A label that says that the output was passed through.
pub open spec fn passed(prefix: Seq<char>, args: Seq<Seq<char>>) -> Seq<char> {
    label(prefix, args) + " (passthrough)"@
}

/// A label that says that the output was passed through.
pub fn passed_of(prefix: &str, args: &[String]) -> (r: String)
    ensures
        r@ == passed(prefix@, args.deep_view()),
{
    let mut out = label_of(prefix, args);
    out.append(" (passthrough)");
    out
}

/// Two texts on lines of their own.
pub open spec fn both(a: Seq<char>, b: Seq<char>) -> Seq<char> {
    a + "\n"@ + b
}

/// Two texts on lines of their own.
pub fn both_of(a: &str, b: &str) -> (r: String)
    ensures
        r@ == both(a@, b@),
{
    let mut out = a.to_string();
    out.append("\n");
    out.append(b);
    out
}

/// The text without its leading and trailing white space.
pub fn trim_text(s: &str) -> (r: String)
    ensures
        r@ == chars::trimmed(s@),
{
    let t = chars::to_chars(s);
    chars::string_of(chars::trim(t.as_slice()))
}

/// Whether a text is nothing but white space.
pub fn blank_text(s: &str) -> (r: bool)
    ensures
        r == chars::is_blank(s@),
{
    let t = chars::to_chars(s);
    chars::blank(t.as_slice())
}

/// What the user asked for.
#[derive(Debug)]
pub struct Request {
    /// The arguments of the subcommand.
    pub args: Vec<String>,
    /// The options that stand before the subcommand.
    pub global_args: Vec<String>,
    /// The cap on output lines, where the user set one.
    pub max_lines: Option<usize>,
    /// How much to say on the way.
    pub verbose: u8,
}

/// The model of what the user asked for.
#[verifier::ext_equal]
pub struct RequestView {
    /// The arguments of the subcommand.
    pub args: Seq<Seq<char>>,
    /// The options that stand before the subcommand.
    pub global_args: Seq<Seq<char>>,
    /// The cap on output lines, where the user set one.
    pub max_lines: Option<usize>,
    /// How much to say on the way.
    pub verbose: u8,
}

impl View for Request {
    type V = RequestView;

    open spec fn view(&self) -> RequestView {
        RequestView {
            args: self.args.deep_view(),
            global_args: self.global_args.deep_view(),
            max_lines: self.max_lines,
            verbose: self.verbose,
        }
    }
}

/// The cap on the lines of a diff.
pub open spec fn diff_cap(max_lines: Option<usize>) -> nat {
    match max_lines {
        Some(n) => n as nat,
        None => 500,
    }
}

/// The cap on the lines of a diff: 500 where the user set none.
pub fn diff_cap_of(max_lines: Option<usize>) -> (r: usize)
    ensures
        r == diff_cap(max_lines),
{
    match max_lines {
        Some(n) => n,
        None => 500,
    }
}

/// The command that a session waits for.
#[derive(Debug)]
pub enum At {
    /// A diff that is passed through.
    DiffPassthrough,
    /// The statistics of a diff.
    DiffStat,
    /// The diff itself.
    DiffBody {
        /// The statistics.
        stat: String,
    },
    /// A commit or blob that is passed through.
    ShowPassthrough,
    /// A commit in full.
    ShowRaw,
    /// A commit's summary line.
    ShowSummary {
        /// The commit in full.
        raw: String,
    },
    /// A commit's statistics.
    ShowStat {
        /// The commit in full.
        raw: String,
        /// The summary line.
        summary: String,
    },
    /// A commit's diff.
    ShowDiff {
        /// The commit in full.
        raw: String,
        /// The summary line.
        summary: String,
    },
    /// The log.
    Log,
    /// A status as the user asked for it.
    StatusPlain,
    /// A plain status.
    StatusRaw,
    /// A porcelain status.
    StatusCompact {
        /// The plain status.
        raw: String,
    },
    /// Adding.
    Add,
    /// The statistics of what is staged.
    AddStat {
        /// What adding printed.
        raw: String,
    },
    /// Committing.
    Commit,
    /// Pushing.
    Push,
    /// Pulling.
    Pull,
    /// The name of the current branch.
    BranchShow,
    /// A change to branches.
    BranchWrite,
    /// The list of branches.
    BranchList,
    /// Fetching.
    Fetch,
    /// The list of stashes.
    StashList,
    /// A stash.
    StashShow,
    /// Another stash operation.
    StashOp {
        /// The operation that runs.
        sub: String,
    },
    /// A change to worktrees.
    WorktreeAction,
    /// The list of worktrees.
    WorktreeList {
        /// The user's home directory.
        home: String,
    },
}

/// The model of the command that a session waits for.
pub enum AtView {
    /// A diff that is passed through.
    DiffPassthrough,
    /// The statistics of a diff.
    DiffStat,
    /// The diff itself, after the statistics.
    DiffBody(Seq<char>),
    /// A commit or blob that is passed through.
    ShowPassthrough,
    /// A commit in full.
    ShowRaw,
    /// A commit's summary line, after the commit in full.
    ShowSummary(Seq<char>),
    /// A commit's statistics, after the commit in full and its summary line.
    ShowStat(Seq<char>, Seq<char>),
    /// A commit's diff, after the commit in full and its summary line.
    ShowDiff(Seq<char>, Seq<char>),
    /// The log.
    Log,
    /// A status as the user asked for it.
    StatusPlain,
    /// A plain status.
    StatusRaw,
    /// A porcelain status, after the plain one.
    StatusCompact(Seq<char>),
    /// Adding.
    Add,
    /// The statistics of what is staged, after what adding printed.
    AddStat(Seq<char>),
    /// Committing.
    Commit,
    /// Pushing.
    Push,
    /// Pulling.
    Pull,
    /// The name of the current branch.
    BranchShow,
    /// A change to branches.
    BranchWrite,
    /// The list of branches.
    BranchList,
    /// Fetching.
    Fetch,
    /// The list of stashes.
    StashList,
    /// A stash.
    StashShow,
    /// Another stash operation.
    StashOp(Seq<char>),
    /// A change to worktrees.
    WorktreeAction,
    /// The list of worktrees, with the user's home directory.
    WorktreeList(Seq<char>),
}

impl View for At {
    type V = AtView;

    open spec fn view(&self) -> AtView {
        match self {
            At::DiffPassthrough => AtView::DiffPassthrough,
            At::DiffStat => AtView::DiffStat,
            At::DiffBody { stat } => AtView::DiffBody(stat@),
            At::ShowPassthrough => AtView::ShowPassthrough,
            At::ShowRaw => AtView::ShowRaw,
            At::ShowSummary { raw } => AtView::ShowSummary(raw@),
            At::ShowStat { raw, summary } => AtView::ShowStat(raw@, summary@),
            At::ShowDiff { raw, summary } => AtView::ShowDiff(raw@, summary@),
            At::Log => AtView::Log,
            At::StatusPlain => AtView::StatusPlain,
            At::StatusRaw => AtView::StatusRaw,
            At::StatusCompact { raw } => AtView::StatusCompact(raw@),
            At::Add => AtView::Add,
            At::AddStat { raw } => AtView::AddStat(raw@),
            At::Commit => AtView::Commit,
            At::Push => AtView::Push,
            At::Pull => AtView::Pull,
            At::BranchShow => AtView::BranchShow,
            At::BranchWrite => AtView::BranchWrite,
            At::BranchList => AtView::BranchList,
            At::Fetch => AtView::Fetch,
            At::StashList => AtView::StashList,
            At::StashShow => AtView::StashShow,
            At::StashOp { sub } => AtView::StashOp(sub@),
            At::WorktreeAction => AtView::WorktreeAction,
            At::WorktreeList { home } => AtView::WorktreeList(home@),
        }
    }
}

/// Where a session of a git command stands.
#[derive(Debug)]
pub struct GitStage {
    /// What the user asked for.
    pub request: Request,
    /// The command that the session waits for.
    pub at: At,
}

/// The model of where a session stands.
pub struct StageView {
    /// What the user asked for.
    pub request: RequestView,
    /// The command that the session waits for.
    pub at: AtView,
}

impl View for GitStage {
    type V = StageView;

    open spec fn view(&self) -> StageView {
        StageView { request: self.request@, at: self.at@ }
    }
}

impl GitStage {
    /// A session that waits for `at`.
    pub fn new(request: Request, at: At) -> (r: Self)
        ensures
            r@ == (StageView { request: request@, at: at@ }),
    {
        GitStage { request, at }
    }
}

} // verus!
