//! `git status`: the compact form and the states that it must not hide.
use crate::text::chars;
use crate::text::compose;
use crate::text::search;
use crate::text::select;
use crate::text::split;
use vstd::prelude::*;

verus! {

/// The lines that are not blank.
pub open spec fn nonblank(lines: Seq<Seq<char>>) -> Seq<Seq<char>>
    decreases lines.len(),
{
    if lines.len() == 0 {
        Seq::empty()
    } else if chars::is_blank(lines.last()) {
        nonblank(lines.drop_last())
    } else {
        nonblank(lines.drop_last()).push(lines.last())
    }
}

/// Whether a porcelain line names the branch.
pub open spec fn is_branch_line(line: Seq<char>) -> bool {
    chars::has_prefix(line, "##"@)
}

/// How the first porcelain line is shown.
pub open spec fn first_line(line: Seq<char>, detached: Option<Seq<char>>) -> Seq<char> {
    if is_branch_line(line) {
        "* "@ + match detached {
            Some(d) => d,
            None => chars::without_prefixes(line, "## "@),
        }
    } else {
        line
    }
}

/// The lines of the compact status, given the porcelain lines that are not blank.
pub open spec fn status_lines(
    lines: Seq<Seq<char>>,
    detached: Option<Seq<char>>,
) -> Seq<Seq<char>> {
    let all = seq![first_line(lines[0], detached)] + lines.drop_first();
    if lines.len() == 1 && is_branch_line(lines[0]) {
        all.push("clean — nothing to commit"@)
    } else {
        all
    }
}

/// The compact status of a porcelain output.
pub open spec fn compact_status(porcelain: Seq<char>, detached: Option<Seq<char>>) -> Seq<char> {
    let lines = nonblank(split::lines_of(porcelain));
    if lines.len() == 0 {
        "Clean working tree"@
    } else {
        compose::joined(status_lines(lines, detached), "\n"@)
    }
}

fn nonblank_lines<'a>(text: &'a [char]) -> (r: Vec<&'a [char]>)
    ensures
        split::views(r@) == nonblank(split::lines_of(text@)),
{
    let lines = split::lines(text);
    let ghost all = split::views(lines@);
    let mut out: Vec<&'a [char]> = Vec::new();
    let mut i: usize = 0;
    assert(split::views(out@) == nonblank(all.take(0)));
    while i < lines.len()
        invariant
            i <= lines@.len(),
            all == split::views(lines@),
            split::views(out@) == nonblank(all.take(i as int)),
        decreases lines@.len() - i,
    {
        let ghost before = out@;
        assert(all.take(i + 1).drop_last() == all.take(i as int));
        assert(all.take(i + 1).last() == lines@[i as int]@);
        if !chars::blank(lines[i]) {
            out.push(lines[i]);
            assert(split::views(out@) == split::views(before).push(lines@[i as int]@));
        }
        i += 1;
    }
    assert(all.take(all.len() as int) == all);
    out
}

/// The compact form of `git status --porcelain -b`.
pub fn format_status_output(porcelain: &str) -> (r: String)
    ensures
        r@ == compact_status(porcelain@, None),
{
    format_status_inner(porcelain, None)
}

/// The compact form of `git status --porcelain -b` on a detached head, which is shown as
/// `detached_ref`.
pub fn format_status_output_detached(porcelain: &str, detached_ref: &str) -> (r: String)
    ensures
        r@ == compact_status(porcelain@, Some(detached_ref@)),
{
    format_status_inner(porcelain, Some(detached_ref))
}

fn format_status_inner(porcelain: &str, detached: Option<&str>) -> (r: String)
    ensures
        r@ == compact_status(porcelain@, compose::optional_str(detached)),
{
    let text = chars::to_chars(porcelain);
    let lines = nonblank_lines(text.as_slice());
    let ghost all = split::views(lines@);
    assert(all.len() == lines@.len());
    if lines.len() == 0 {
        return "Clean working tree".to_string();
    }
    assert(all[0] == lines@[0]@);
    let mut output: Vec<String> = Vec::new();
    let branch_line = lines[0];
    let names_branch = chars::starts_with(branch_line, "##");
    if names_branch {
        let mut shown = "* ".to_string();
        match detached {
            Some(d) => {
                shown.append(d);
            },
            None => {
                let branch = chars::strip_prefixes(branch_line, "## ");
                shown.append(chars::string_of(branch).as_str());
            },
        }
        compose::push(&mut output, shown);
    } else {
        compose::push_chars(&mut output, branch_line);
    }
    let ghost first = seq![first_line(all[0], compose::optional_str(detached))];
    assert(output.deep_view() == first + all.subrange(1, 1));
    let mut i: usize = 1;
    while i < lines.len()
        invariant
            1 <= i <= lines@.len(),
            all == split::views(lines@),
            output.deep_view() == first + all.subrange(1, i as int),
        decreases lines@.len() - i,
    {
        compose::push_chars(&mut output, lines[i]);
        assert(output.deep_view() == first + all.subrange(1, i + 1));
        i += 1;
    }
    assert(all.subrange(1, all.len() as int) == all.drop_first());
    if lines.len() == 1 && names_branch {
        compose::push_str(&mut output, "clean — nothing to commit");
    }
    compose::join(output.as_slice(), "\n")
}

/// An operation that git reports to be in progress.
#[derive(Debug, Clone, Copy, PartialEq, Eq)]
pub enum GitStatusState {
    /// A rebase.
    Rebase,
    /// A merge with unresolved conflicts.
    MergeConflicts,
    /// A merge without conflicts.
    MergeReadyToCommit,
    /// A cherry-pick.
    CherryPick,
    /// A revert.
    Revert,
    /// A bisection.
    Bisect,
    /// The application of a mailbox.
    Am,
    /// A sparse checkout.
    SparseCheckout,
}

/// What is shown of a state.
pub open spec fn summary_of(state: GitStatusState) -> Seq<char> {
    match state {
        GitStatusState::Rebase => "rebase in progress"@,
        GitStatusState::MergeConflicts => "merge in progress. unresolved conflicts"@,
        GitStatusState::MergeReadyToCommit => "merge in progress. no conflicts"@,
        GitStatusState::CherryPick => "cherry-pick in progress"@,
        GitStatusState::Revert => "revert in progress"@,
        GitStatusState::Bisect => "bisect in progress"@,
        GitStatusState::Am => "am session in progress"@,
        GitStatusState::SparseCheckout => "sparse checkout enabled"@,
    }
}

impl GitStatusState {
    /// What is shown of the state.
    pub fn summary(self) -> (r: &'static str)
        ensures
            r@ == summary_of(self),
    {
        match self {
            GitStatusState::Rebase => "rebase in progress",
            GitStatusState::MergeConflicts => "merge in progress. unresolved conflicts",
            GitStatusState::MergeReadyToCommit => "merge in progress. no conflicts",
            GitStatusState::CherryPick => "cherry-pick in progress",
            GitStatusState::Revert => "revert in progress",
            GitStatusState::Bisect => "bisect in progress",
            GitStatusState::Am => "am session in progress",
            GitStatusState::SparseCheckout => "sparse checkout enabled",
        }
    }
}

/// A line that tells of a rebase.
pub open spec fn tells_of_rebase(line: Seq<char>) -> bool {
    ||| search::occurs(line, "rebase in progress"@)
    ||| search::occurs(line, "You are currently rebasing"@)
    ||| search::occurs(line, "You are currently editing"@)
    ||| search::occurs(line, "You are currently splitting"@)
    ||| search::occurs(line, "Last command done"@)
    ||| search::occurs(line, "Next command to do"@)
    ||| search::occurs(line, "No commands remaining"@)
}

/// The state that a line of `git status` tells of.
pub open spec fn state_of(line: Seq<char>) -> Option<GitStatusState> {
    if search::occurs(line, "All conflicts fixed but you are still merging"@) {
        Some(GitStatusState::MergeReadyToCommit)
    } else if search::occurs(line, "You have unmerged paths"@) {
        Some(GitStatusState::MergeConflicts)
    } else if search::occurs(line, "You are currently cherry-picking"@) {
        Some(GitStatusState::CherryPick)
    } else if search::occurs(line, "You are currently reverting"@) {
        Some(GitStatusState::Revert)
    } else if search::occurs(line, "You are currently bisecting"@) {
        Some(GitStatusState::Bisect)
    } else if search::occurs(line, "You are in the middle of an am session"@) {
        Some(GitStatusState::Am)
    } else if search::occurs(line, "You are in a sparse checkout"@) {
        Some(GitStatusState::SparseCheckout)
    } else if tells_of_rebase(line) {
        Some(GitStatusState::Rebase)
    } else {
        None
    }
}

/// The state that a line of `git status` tells of, if any.
pub fn detect_status_state(line: &str) -> (r: Option<GitStatusState>)
    ensures
        r == state_of(line@),
{
    let text = chars::to_chars(line);
    state_in(text.as_slice())
}

fn state_in(line: &[char]) -> (r: Option<GitStatusState>)
    ensures
        r == state_of(line@),
{
    if search::contains(line, "All conflicts fixed but you are still merging") {
        Some(GitStatusState::MergeReadyToCommit)
    } else if search::contains(line, "You have unmerged paths") {
        Some(GitStatusState::MergeConflicts)
    } else if search::contains(line, "You are currently cherry-picking") {
        Some(GitStatusState::CherryPick)
    } else if search::contains(line, "You are currently reverting") {
        Some(GitStatusState::Revert)
    } else if search::contains(line, "You are currently bisecting") {
        Some(GitStatusState::Bisect)
    } else if search::contains(line, "You are in the middle of an am session") {
        Some(GitStatusState::Am)
    } else if search::contains(line, "You are in a sparse checkout") {
        Some(GitStatusState::SparseCheckout)
    } else if search::contains(line, "rebase in progress") || search::contains(
        line,
        "You are currently rebasing",
    ) || search::contains(line, "You are currently editing") || search::contains(
        line,
        "You are currently splitting",
    ) || search::contains(line, "Last command done") || search::contains(line, "Next command to do")
        || search::contains(line, "No commands remaining") {
        Some(GitStatusState::Rebase)
    } else {
        None
    }
}

/// A line that opens the list of changes, below which no state is told.
pub open spec fn opens_changes(line: Seq<char>) -> bool {
    ||| chars::has_prefix(line, "Changes to be committed:"@)
    ||| chars::has_prefix(line, "Changes not staged for commit:"@)
    ||| chars::has_prefix(line, "Untracked files:"@)
    ||| chars::has_prefix(line, "Unmerged paths:"@)
    ||| chars::has_prefix(line, "no changes added to commit"@)
    ||| chars::has_prefix(line, "nothing to commit"@)
    ||| chars::has_prefix(line, "nothing added to commit"@)
}

fn is_stopper(line: &[char]) -> (r: bool)
    ensures
        r == opens_changes(line@),
{
    chars::starts_with(line, "Changes to be committed:") || chars::starts_with(
        line,
        "Changes not staged for commit:",
    ) || chars::starts_with(line, "Untracked files:") || chars::starts_with(line, "Unmerged paths:")
        || chars::starts_with(line, "no changes added to commit") || chars::starts_with(
        line,
        "nothing to commit",
    ) || chars::starts_with(line, "nothing added to commit")
}

/// The first state told above the list of changes.
pub open spec fn state_header(lines: Seq<Seq<char>>) -> Option<Seq<char>>
    decreases lines.len(),
{
    if lines.len() == 0 {
        None
    } else {
        let l = chars::trimmed(lines[0]);
        if opens_changes(l) {
            None
        } else {
            match state_of(l) {
                Some(state) => Some(summary_of(state)),
                None => state_header(lines.drop_first()),
            }
        }
    }
}

/// The state that a plain `git status` tells of above its list of changes, in a few words.
///
/// The porcelain output leaves such states out, and a status that hides them misleads.
pub fn extract_state_header(raw: &str) -> (r: Option<String>)
    ensures
        compose::optional(r) == state_header(split::lines_of(raw@)),
{
    let text = chars::to_chars(raw);
    let lines = split::lines(text.as_slice());
    let ghost all = split::views(lines@);
    let mut i: usize = 0;
    assert(all.skip(0) == all);
    while i < lines.len()
        invariant
            i <= lines@.len(),
            all == split::views(lines@),
            all == split::lines_of(raw@),
            state_header(all.skip(i as int)) == state_header(all),
        decreases lines@.len() - i,
    {
        let stripped = chars::trim(lines[i]);
        assert(all.skip(i as int)[0] == lines@[i as int]@);
        assert(all.skip(i as int).drop_first() == all.skip(i + 1));
        if is_stopper(stripped) {
            return None;
        }
        match state_in(stripped) {
            Some(state) => {
                return Some(state.summary().to_string());
            },
            None => {},
        }
        i += 1;
    }
    None
}

/// A line that tells the branch, or below which the changes stand: no line behind it tells where
/// the head is.
pub open spec fn ends_head(line: Seq<char>) -> bool {
    chars::has_prefix(line, "On branch "@) || opens_changes(line)
}

/// The first line, trimmed, that tells of a detached head: none where the head is on a branch.
pub open spec fn detached_head(lines: Seq<Seq<char>>) -> Option<Seq<char>>
    decreases lines.len(),
{
    if lines.len() == 0 {
        None
    } else {
        let l = chars::trimmed(lines[0]);
        if ends_head(l) {
            None
        } else if chars::has_prefix(l, "HEAD detached "@) {
            Some(l)
        } else {
            detached_head(lines.drop_first())
        }
    }
}

/// The line of a plain `git status` that says where the head is detached; none where the head is on
/// a branch.
pub fn extract_detached_head(raw: &str) -> (r: Option<String>)
    ensures
        compose::optional(r) == detached_head(split::lines_of(raw@)),
{
    let text = chars::to_chars(raw);
    let lines = split::lines(text.as_slice());
    let ghost all = split::views(lines@);
    let mut i: usize = 0;
    assert(all.skip(0) == all);
    while i < lines.len()
        invariant
            i <= lines@.len(),
            all == split::views(lines@),
            all == split::lines_of(raw@),
            detached_head(all.skip(i as int)) == detached_head(all),
        decreases lines@.len() - i,
    {
        let stripped = chars::trim(lines[i]);
        assert(all.skip(i as int)[0] == lines@[i as int]@);
        assert(all.skip(i as int).drop_first() == all.skip(i + 1));
        if chars::starts_with(stripped, "On branch ") || is_stopper(stripped) {
            return None;
        }
        if chars::starts_with(stripped, "HEAD detached ") {
            return Some(chars::string_of(stripped));
        }
        i += 1;
    }
    None
}

/// A hint on which command to use next.
pub open spec fn is_hint(l: Seq<char>) -> bool {
    ||| chars::has_prefix(l, "(use \"git"@)
    ||| chars::has_prefix(l, "(create/copy files"@)
    ||| search::occurs(l, "(use \"git add"@)
    ||| search::occurs(l, "(use \"git restore"@)
}

/// A line that reports a clean tree.
pub open spec fn reports_clean(l: Seq<char>) -> bool {
    search::occurs(l, "nothing to commit"@) && search::occurs(l, "working tree clean"@)
}

/// The lines of a plain status that are kept: neither blank nor a hint, up to the report of a
/// clean tree.
pub open spec fn kept_lines(lines: Seq<Seq<char>>) -> Seq<Seq<char>>
    decreases lines.len(),
{
    if lines.len() == 0 {
        Seq::empty()
    } else {
        let l = chars::trimmed(lines[0]);
        if l.len() == 0 || is_hint(l) {
            kept_lines(lines.drop_first())
        } else if reports_clean(l) {
            seq![l]
        } else {
            seq![lines[0]] + kept_lines(lines.drop_first())
        }
    }
}

/// What a plain status is reduced to.
pub open spec fn filtered_status(output: Seq<char>) -> Seq<char> {
    let kept = kept_lines(split::lines_of(output));
    if kept.len() == 0 {
        "ok"@
    } else {
        compose::joined(kept, "\n"@)
    }
}

/// Reduces a `git status` that was called with arguments of its own: blank lines and hints go.
pub fn filter_status_with_args(output: &str) -> (r: String)
    ensures
        r@ == filtered_status(output@),
{
    let text = chars::to_chars(output);
    let lines = split::lines(text.as_slice());
    let ghost all = split::views(lines@);
    let mut kept: Vec<String> = Vec::new();
    let mut i: usize = 0;
    assert(kept.deep_view() + kept_lines(all.skip(0)) == kept_lines(all)) by {
        assert(all.skip(0) == all);
    }
    while i < lines.len()
        invariant_except_break
            kept.deep_view() + kept_lines(all.skip(i as int)) == kept_lines(all),
        invariant
            i <= lines@.len(),
            all == split::views(lines@),
        ensures
            kept.deep_view() == kept_lines(all),
        decreases lines@.len() - i,
    {
        let ghost before = kept.deep_view();
        let ghost rest = all.skip(i as int);
        assert(rest[0] == lines@[i as int]@);
        assert(rest.drop_first() == all.skip(i + 1));
        let l = chars::trim(lines[i]);
        let hint = chars::starts_with(l, "(use \"git") || chars::starts_with(
            l,
            "(create/copy files",
        ) || search::contains(l, "(use \"git add") || search::contains(l, "(use \"git restore");
        if l.len() > 0 && !hint {
            if search::contains(l, "nothing to commit") && search::contains(
                l,
                "working tree clean",
            ) {
                compose::push_chars(&mut kept, l);
                assert(kept.deep_view() == before + seq![l@]);
                break;
            }
            compose::push_chars(&mut kept, lines[i]);
            assert(kept.deep_view() + kept_lines(all.skip(i + 1)) == before + kept_lines(rest));
        }
        i += 1;
        if i == lines.len() {
            assert(all.skip(i as int).len() == 0);
            assert(kept.deep_view() + kept_lines(all.skip(i as int)) == kept.deep_view());
        }
    }
    if kept.len() == 0 {
        assert(kept.deep_view().len() == 0);
        return "ok".to_string();
    }
    assert(kept.deep_view().len() > 0);
    compose::join(kept.as_slice(), "\n")
}

/// Whether the flags ask for no more than the compact form shows; `branch` tells whether one of
/// those before asked for the branch.
pub open spec fn compact_flags(args: Seq<Seq<char>>, branch: bool) -> bool
    decreases args.len(),
{
    if args.len() == 0 {
        branch
    } else if args[0] == "-b"@ || args[0] == "--branch"@ {
        compact_flags(args.drop_first(), true)
    } else if args[0] == "-sb"@ || args[0] == "-bs"@ {
        true
    } else if args[0] == "-s"@ || args[0] == "--short"@ {
        compact_flags(args.drop_first(), branch)
    } else {
        false
    }
}

/// Whether a status with these arguments takes the compact form.
pub open spec fn takes_compact_form(args: Seq<Seq<char>>) -> bool {
    args.len() == 0 || compact_flags(args, false)
}

/// Whether a status with these arguments takes the compact form: with none, or with flags that
/// ask for the branch, short form or not.
pub fn uses_compact_status_path(args: &[String]) -> (r: bool)
    ensures
        r == takes_compact_form(args.deep_view()),
{
    if args.len() == 0 {
        return true;
    }
    proof {
        reveal_strlit("-b");
        reveal_strlit("--branch");
        reveal_strlit("-sb");
        reveal_strlit("-bs");
        reveal_strlit("-s");
        reveal_strlit("--short");
    }
    let ghost all = args.deep_view();
    let mut saw_branch = false;
    let mut i: usize = 0;
    assert(all.skip(0) == all);
    while i < args.len()
        invariant
            i <= args@.len(),
            all == args.deep_view(),
            compact_flags(all.skip(i as int), saw_branch) == compact_flags(all, false),
        decreases args@.len() - i,
    {
        let arg = args[i].as_str();
        assert(all.skip(i as int)[0] == arg@);
        assert(all.skip(i as int).drop_first() == all.skip(i + 1));
        if chars::same_str(arg, "-b") || chars::same_str(arg, "--branch") {
            saw_branch = true;
        } else if chars::same_str(arg, "-sb") || chars::same_str(arg, "-bs") {
            return true;
        } else if !chars::same_str(arg, "-s") && !chars::same_str(arg, "--short") {
            return false;
        }
        i += 1;
    }
    saw_branch
}

/// The compact status shows every porcelain line that is not blank, in order: below the branch
/// line each stands as it is.
pub proof fn law_every_path_shown(lines: Seq<Seq<char>>, detached: Option<Seq<char>>, i: int)
    requires
        0 < i < lines.len(),
    ensures
        status_lines(lines, detached).len() == lines.len(),
        status_lines(lines, detached)[i] == lines[i],
{
}

/// A line that is not blank is among the porcelain lines shown.
pub proof fn law_only_blank_lines_go(lines: Seq<Seq<char>>, i: int)
    requires
        0 <= i < lines.len(),
    ensures
        nonblank(lines).contains(lines[i]) <==> !chars::is_blank(lines[i]),
    decreases lines.len(),
{
    let prev = nonblank(lines.drop_last());
    let all = nonblank(lines);
    if i < lines.len() - 1 {
        law_only_blank_lines_go(lines.drop_last(), i);
        assert(lines.drop_last()[i] == lines[i]);
        if !chars::is_blank(lines.last()) {
            assert(all == prev.push(lines.last()));
            if prev.contains(lines[i]) {
                let k = choose|k: int| 0 <= k < prev.len() && prev[k] == lines[i];
                assert(all[k] == lines[i]);
            }
            if all.contains(lines[i]) {
                let k = choose|k: int| 0 <= k < all.len() && all[k] == lines[i];
                if k < prev.len() {
                    assert(prev[k] == lines[i]);
                }
            }
        }
    } else {
        if chars::is_blank(lines.last()) {
            lemma_nonblank(lines.drop_last());
        } else {
            assert(all[prev.len() as int] == lines.last());
        }
    }
}

proof fn lemma_nonblank(lines: Seq<Seq<char>>)
    ensures
        forall|k: int|
            0 <= k < nonblank(lines).len() ==> !chars::is_blank(#[trigger] nonblank(lines)[k]),
    decreases lines.len(),
{
    if lines.len() > 0 {
        lemma_nonblank(lines.drop_last());
        let prev = nonblank(lines.drop_last());
        assert forall|k: int| 0 <= k < nonblank(lines).len() implies !chars::is_blank(
            #[trigger] nonblank(lines)[k],
        ) by {
            if k < prev.len() {
                assert(nonblank(lines)[k] == prev[k]);
            }
        }
    }
}

/// A state that is told above the list of changes is never hidden.
pub proof fn law_state_not_hidden(lines: Seq<Seq<char>>, i: int)
    requires
        0 <= i < lines.len(),
        state_of(chars::trimmed(lines[i])) is Some,
        forall|j: int| 0 <= j <= i ==> !opens_changes(chars::trimmed(#[trigger] lines[j])),
    ensures
        state_header(lines) is Some,
    decreases lines.len(),
{
    if i > 0 {
        let rest = lines.drop_first();
        assert(rest[i - 1] == lines[i]);
        assert forall|j: int| 0 <= j <= i - 1 implies !opens_changes(
            chars::trimmed(#[trigger] rest[j]),
        ) by {
            assert(rest[j] == lines[j + 1]);
        }
        if state_of(chars::trimmed(lines[0])) is None {
            law_state_not_hidden(rest, i - 1);
        }
    }
}

/// No state is reported where no line above the list of changes tells of one.
pub proof fn law_no_state_invented(lines: Seq<Seq<char>>)
    requires
        forall|j: int| 0 <= j < lines.len() ==> state_of(chars::trimmed(#[trigger] lines[j])) is None,
    ensures
        state_header(lines) is None,
    decreases lines.len(),
{
    if lines.len() > 0 {
        let rest = lines.drop_first();
        assert forall|j: int| 0 <= j < rest.len() implies state_of(
            chars::trimmed(#[trigger] rest[j]),
        ) is None by {
            assert(rest[j] == lines[j + 1]);
        }
        law_no_state_invented(rest);
    }
}

/// Below a line that tells the branch, or that opens the changes, nothing is taken for a detached
/// head: a file may have such a name.
pub proof fn law_no_detached_head_below(
    above: Seq<Seq<char>>,
    line: Seq<char>,
    below: Seq<Seq<char>>,
)
    requires
        ends_head(chars::trimmed(line)),
    ensures
        detached_head(above.push(line) + below) == detached_head(above),
    decreases above.len(),
{
    let all = above.push(line) + below;
    if above.len() > 0 {
        assert(all.drop_first() == above.drop_first().push(line) + below);
        law_no_detached_head_below(above.drop_first(), line, below);
    }
}

/// No hint and no blank line survives.
pub proof fn law_no_hints(lines: Seq<Seq<char>>, i: int)
    requires
        0 <= i < kept_lines(lines).len(),
    ensures
        !is_hint(chars::trimmed(kept_lines(lines)[i])),
        !chars::is_blank(kept_lines(lines)[i]),
    decreases lines.len(),
{
    let l = chars::trimmed(lines[0]);
    let rest = kept_lines(lines.drop_first());
    if l.len() == 0 || is_hint(l) {
        law_no_hints(lines.drop_first(), i);
    } else if reports_clean(l) {
        chars::law_trim_idempotent(lines[0]);
    } else if i > 0 {
        assert(kept_lines(lines)[i] == rest[i - 1]);
        law_no_hints(lines.drop_first(), i - 1);
    }
}

/// The porcelain lines that are shown are all that are not blank, in order.
pub proof fn law_nonblank(lines: Seq<Seq<char>>)
    ensures
        nonblank(lines) == lines.filter(|l: Seq<char>| !chars::is_blank(l)),
    decreases lines.len(),
{
    let p = |l: Seq<char>| !chars::is_blank(l);
    if lines.len() == 0 {
        assert(lines == Seq::<Seq<char>>::empty());
        select::lemma_filter_empty(p);
    } else {
        law_nonblank(lines.drop_last());
        select::lemma_front_and_last(lines);
        select::lemma_filter_push(lines.drop_last(), lines.last(), p);
    }
}

/// The branch line is shown with a star: with the branch it names, or with what is said of a detached
/// head. Any other first line stands as it is.
pub proof fn law_branch_line(branch: Seq<char>, other: Seq<char>, detached: Seq<char>)
    requires
        !chars::has_prefix(branch, "## "@),
        !chars::has_prefix(other, "##"@),
    ensures
        first_line("## "@ + branch, None) == "* "@ + branch,
        first_line("## "@ + branch, Some(detached)) == "* "@ + detached,
        first_line(other, None) == other,
        first_line(other, Some(detached)) == other,
{
    reveal_strlit("## ");
    reveal_strlit("##");
    let line = "## "@ + branch;
    assert(line.take(3) == "## "@);
    assert(line.take(2) == "##"@);
    assert(line.skip(3) == branch);
    assert(chars::without_prefixes(branch, "## "@) == branch);
    assert(chars::without_prefixes(line, "## "@) == chars::without_prefixes(branch, "## "@));
}

/// A tree is said to be clean where there is no line but the branch line, or none at all; where there
/// is more, all of it is shown and nothing is added.
pub proof fn law_clean_is_told(porcelain: Seq<char>, detached: Option<Seq<char>>)
    ensures
        ({
            let lines = split::lines_of(porcelain).filter(|l: Seq<char>| !chars::is_blank(l));
            &&& lines.len() == 0 ==> compact_status(porcelain, detached) == "Clean working tree"@
            &&& lines.len() == 1 && chars::has_prefix(lines[0], "##"@) ==> compact_status(
                porcelain,
                detached,
            ) == compose::joined(
                seq![first_line(lines[0], detached), "clean — nothing to commit"@],
                "\n"@,
            )
            &&& lines.len() > 1 || (lines.len() == 1 && !chars::has_prefix(lines[0], "##"@))
                ==> compact_status(porcelain, detached) == compose::joined(
                seq![first_line(lines[0], detached)] + lines.drop_first(),
                "\n"@,
            )
        }),
{
    law_nonblank(split::lines_of(porcelain));
    let lines = nonblank(split::lines_of(porcelain));
    if lines.len() == 1 && is_branch_line(lines[0]) {
        assert(status_lines(lines, detached) == seq![
            first_line(lines[0], detached),
            "clean — nothing to commit"@,
        ]);
    }
}

/// What git says in each state is understood as that state. Where a line tells of a merge, that comes
/// first, and a rebase last.
pub proof fn law_states_told(line: Seq<char>)
    ensures
        search::occurs(line, "All conflicts fixed but you are still merging"@) ==> state_of(line)
            == Some(GitStatusState::MergeReadyToCommit),
        state_of(line) == Some(GitStatusState::MergeConflicts) ==> search::occurs(
            line,
            "You have unmerged paths"@,
        ),
        state_of(line) == Some(GitStatusState::CherryPick) ==> search::occurs(
            line,
            "You are currently cherry-picking"@,
        ),
        state_of(line) == Some(GitStatusState::Revert) ==> search::occurs(
            line,
            "You are currently reverting"@,
        ),
        state_of(line) == Some(GitStatusState::Bisect) ==> search::occurs(
            line,
            "You are currently bisecting"@,
        ),
        state_of(line) == Some(GitStatusState::Am) ==> search::occurs(
            line,
            "You are in the middle of an am session"@,
        ),
        state_of(line) == Some(GitStatusState::SparseCheckout) ==> search::occurs(
            line,
            "You are in a sparse checkout"@,
        ),
        state_of(line) is None ==> !search::occurs(line, "You have unmerged paths"@)
            && !search::occurs(line, "You are currently cherry-picking"@) && !search::occurs(
            line,
            "You are currently reverting"@,
        ) && !search::occurs(line, "You are currently bisecting"@) && !search::occurs(
            line,
            "You are in the middle of an am session"@,
        ) && !search::occurs(line, "You are in a sparse checkout"@) && !search::occurs(
            line,
            "rebase in progress"@,
        ) && !search::occurs(line, "You are currently rebasing"@) && !search::occurs(
            line,
            "You are currently editing"@,
        ) && !search::occurs(line, "You are currently splitting"@) && !search::occurs(
            line,
            "Last command done"@,
        ) && !search::occurs(line, "Next command to do"@) && !search::occurs(
            line,
            "No commands remaining"@,
        ),
        state_of(line) == Some(GitStatusState::Rebase) ==> !search::occurs(
            line,
            "You have unmerged paths"@,
        ) && !search::occurs(line, "You are currently cherry-picking"@) && !search::occurs(
            line,
            "You are currently reverting"@,
        ) && !search::occurs(line, "You are currently bisecting"@) && !search::occurs(
            line,
            "You are in the middle of an am session"@,
        ) && !search::occurs(line, "You are in a sparse checkout"@),
{
}

/// The state that is reported is the first that is told above the changes.
pub proof fn law_first_state_reported(lines: Seq<Seq<char>>, i: int)
    requires
        0 <= i < lines.len(),
        state_of(chars::trimmed(lines[i])) is Some,
        forall|j: int| 0 <= j <= i ==> !opens_changes(chars::trimmed(#[trigger] lines[j])),
        forall|j: int| 0 <= j < i ==> state_of(chars::trimmed(#[trigger] lines[j])) is None,
    ensures
        state_header(lines) == Some(summary_of(state_of(chars::trimmed(lines[i]))->0)),
    decreases lines.len(),
{
    assert(!opens_changes(chars::trimmed(lines[0])));
    if i > 0 {
        let rest = lines.drop_first();
        assert(state_of(chars::trimmed(lines[0])) is None);
        assert forall|j: int| 0 <= j <= i - 1 implies !opens_changes(
            chars::trimmed(#[trigger] rest[j]),
        ) by {
            assert(rest[j] == lines[j + 1]);
        }
        assert forall|j: int| 0 <= j < i - 1 implies state_of(
            chars::trimmed(#[trigger] rest[j]),
        ) is None by {
            assert(rest[j] == lines[j + 1]);
        }
        law_first_state_reported(rest, i - 1);
    }
}

/// Nothing below the line that opens the changes has a part in the state.
pub proof fn law_no_state_below(above: Seq<Seq<char>>, line: Seq<char>, below: Seq<Seq<char>>)
    requires
        opens_changes(chars::trimmed(line)),
    ensures
        state_header(above.push(line) + below) == state_header(above),
    decreases above.len(),
{
    let all = above.push(line) + below;
    if above.len() > 0 {
        assert(all.drop_first() == above.drop_first().push(line) + below);
        law_no_state_below(above.drop_first(), line, below);
    }
}

/// A detached head that is told above the branch and the changes is shown as git tells it.
pub proof fn law_detached_head_told(lines: Seq<Seq<char>>, i: int, rest: Seq<char>)
    requires
        0 <= i < lines.len(),
        chars::trimmed(lines[i]) == "HEAD detached "@ + rest,
        forall|j: int| 0 <= j <= i ==> !ends_head(chars::trimmed(#[trigger] lines[j])),
        forall|j: int|
            0 <= j < i ==> !chars::has_prefix(chars::trimmed(#[trigger] lines[j]), "HEAD detached "@),
    ensures
        detached_head(lines) == Some("HEAD detached "@ + rest),
    decreases lines.len(),
{
    assert(!ends_head(chars::trimmed(lines[0])));
    if i > 0 {
        let tail = lines.drop_first();
        assert(!chars::has_prefix(chars::trimmed(lines[0]), "HEAD detached "@));
        assert forall|j: int| 0 <= j <= i - 1 implies !ends_head(
            chars::trimmed(#[trigger] tail[j]),
        ) by {
            assert(tail[j] == lines[j + 1]);
        }
        assert forall|j: int| 0 <= j < i - 1 implies !chars::has_prefix(
            chars::trimmed(#[trigger] tail[j]),
            "HEAD detached "@,
        ) by {
            assert(tail[j] == lines[j + 1]);
        }
        law_detached_head_told(tail, i - 1, rest);
    } else {
        let l = chars::trimmed(lines[0]);
        assert(l.take("HEAD detached "@.len() as int) == "HEAD detached "@);
    }
}

/// What opens the changes of a plain status.
pub proof fn law_changes_opened(rest: Seq<char>)
    ensures
        opens_changes("Changes to be committed:"@ + rest),
        opens_changes("Changes not staged for commit:"@ + rest),
        opens_changes("Untracked files:"@ + rest),
        opens_changes("Unmerged paths:"@ + rest),
        opens_changes("no changes added to commit"@ + rest),
        opens_changes("nothing to commit"@ + rest),
        opens_changes("nothing added to commit"@ + rest),
        ends_head("On branch "@ + rest),
{
    chars::lemma_prefix("Changes to be committed:"@, rest);
    chars::lemma_prefix("Changes not staged for commit:"@, rest);
    chars::lemma_prefix("Untracked files:"@, rest);
    chars::lemma_prefix("Unmerged paths:"@, rest);
    chars::lemma_prefix("no changes added to commit"@, rest);
    chars::lemma_prefix("nothing to commit"@, rest);
    chars::lemma_prefix("nothing added to commit"@, rest);
    chars::lemma_prefix("On branch "@, rest);
}

/// Whether a line of a plain status is kept: neither blank nor a hint.
pub open spec fn is_kept(line: Seq<char>) -> bool {
    !chars::is_blank(line) && !is_hint(chars::trimmed(line))
}

/// Without a report of a clean tree, a plain status keeps every line but blank ones and hints, as it
/// is and in order.
pub proof fn law_kept_lines(lines: Seq<Seq<char>>)
    requires
        forall|i: int|
            0 <= i < lines.len() && is_kept(#[trigger] lines[i]) ==> !reports_clean(
                chars::trimmed(lines[i]),
            ),
    ensures
        kept_lines(lines) == lines.filter(|l: Seq<char>| is_kept(l)),
    decreases lines.len(),
{
    let p = |l: Seq<char>| is_kept(l);
    if lines.len() == 0 {
        assert(lines == Seq::<Seq<char>>::empty());
        select::lemma_filter_empty(p);
    } else {
        let rest = lines.drop_first();
        let one = seq![lines[0]];
        assert forall|i: int| 0 <= i < rest.len() && is_kept(#[trigger] rest[i]) implies !reports_clean(
            chars::trimmed(rest[i]),
        ) by {
            assert(rest[i] == lines[i + 1]);
        }
        law_kept_lines(rest);
        assert(lines == one + rest);
        Seq::filter_distributes_over_add(one, rest, p);
        select::lemma_filter_empty(p);
        select::lemma_filter_push(Seq::<Seq<char>>::empty(), lines[0], p);
        assert(Seq::<Seq<char>>::empty().push(lines[0]) == one);
        assert(chars::is_blank(lines[0]) == (chars::trimmed(lines[0]).len() == 0));
        if is_kept(lines[0]) {
            assert(!reports_clean(chars::trimmed(lines[0])));
            assert(one.filter(p) == one);
        } else {
            assert(one.filter(p) == Seq::<Seq<char>>::empty());
            assert(Seq::<Seq<char>>::empty() + kept_lines(rest) == kept_lines(rest));
        }
    }
}

/// The report of a clean tree is the last line that is kept, and is trimmed; what stands above it is
/// kept as ever.
pub proof fn law_clean_report_ends(
    above: Seq<Seq<char>>,
    line: Seq<char>,
    below: Seq<Seq<char>>,
)
    requires
        forall|i: int|
            0 <= i < above.len() && is_kept(#[trigger] above[i]) ==> !reports_clean(
                chars::trimmed(above[i]),
            ),
        is_kept(line),
        reports_clean(chars::trimmed(line)),
    ensures
        kept_lines(above.push(line) + below) == kept_lines(above).push(chars::trimmed(line)),
    decreases above.len(),
{
    let all = above.push(line) + below;
    let t = chars::trimmed(line);
    if above.len() == 0 {
        assert(all[0] == line);
        assert(kept_lines(all) == seq![t]);
        assert(kept_lines(above).push(t) == seq![t]);
    } else {
        let rest = above.drop_first();
        assert forall|i: int| 0 <= i < rest.len() && is_kept(#[trigger] rest[i]) implies !reports_clean(
            chars::trimmed(rest[i]),
        ) by {
            assert(rest[i] == above[i + 1]);
        }
        law_clean_report_ends(rest, line, below);
        assert(all[0] == above[0]);
        assert(all.drop_first() == rest.push(line) + below);
        if is_kept(above[0]) {
            assert(!reports_clean(chars::trimmed(above[0])));
            assert(seq![above[0]] + kept_lines(rest).push(t) == (seq![above[0]] + kept_lines(
                rest,
            )).push(t));
        }
    }
}

/// A plain status of which nothing is kept is reported as well.
pub proof fn law_filtered_status(output: Seq<char>)
    ensures
        kept_lines(split::lines_of(output)).len() == 0 ==> filtered_status(output) == "ok"@,
        kept_lines(split::lines_of(output)).len() > 0 ==> filtered_status(output)
            == compose::joined(kept_lines(split::lines_of(output)), "\n"@),
{
}

/// What a hint looks like, and the report of a clean tree.
pub proof fn law_hints(a: Seq<char>, b: Seq<char>, c: Seq<char>)
    ensures
        is_hint("(use \"git"@ + b),
        is_hint("(create/copy files"@ + b),
        is_hint(a + "(use \"git add"@ + b),
        is_hint(a + "(use \"git restore"@ + b),
        reports_clean(a + "nothing to commit"@ + b + "working tree clean"@ + c),
{
    chars::lemma_prefix("(use \"git"@, b);
    chars::lemma_prefix("(create/copy files"@, b);
    search::lemma_occurs_between(a, "(use \"git add"@, b);
    search::lemma_occurs_between(a, "(use \"git restore"@, b);
    let s = a + "nothing to commit"@ + b + "working tree clean"@ + c;
    let tail = b + "working tree clean"@ + c;
    assert(s == a + "nothing to commit"@ + tail);
    search::lemma_occurs_between(a, "nothing to commit"@, tail);
    search::lemma_occurs_between(a + "nothing to commit"@ + b, "working tree clean"@, c);
}

/// A flag that the compact form can take along with others.
pub open spec fn is_compact_flag(a: Seq<char>) -> bool {
    a == "-b"@ || a == "--branch"@ || a == "-s"@ || a == "--short"@
}

/// A flag that asks for the branch and the short form at once.
pub open spec fn is_short_branch(a: Seq<char>) -> bool {
    a == "-sb"@ || a == "-bs"@
}

proof fn lemma_compact_flags(args: Seq<Seq<char>>, branch: bool)
    ensures
        compact_flags(args, branch) <==> ((exists|k: int|
            0 <= k < args.len() && is_short_branch(#[trigger] args[k]) && forall|j: int|
                0 <= j < k ==> is_compact_flag(#[trigger] args[j])) || ((forall|j: int|
            0 <= j < args.len() ==> is_compact_flag(#[trigger] args[j])) && (branch || exists|j: int|
            0 <= j < args.len() && (#[trigger] args[j] == "-b"@ || args[j] == "--branch"@)))),
    decreases args.len(),
{
    reveal_strlit("-b");
    reveal_strlit("--branch");
    reveal_strlit("-s");
    reveal_strlit("--short");
    reveal_strlit("-sb");
    reveal_strlit("-bs");
    assert("-b"@.len() == 2 && "-s"@.len() == 2 && "-sb"@.len() == 3 && "-bs"@.len() == 3);
    assert("--branch"@.len() == 8 && "--short"@.len() == 7);
    assert("-b"@[1] == 'b' && "-s"@[1] == 's');
    if args.len() > 0 {
        let rest = args.drop_first();
        let a = args[0];
        let is_branch = a == "-b"@ || a == "--branch"@;
        lemma_compact_flags(rest, branch || is_branch);
        let some = exists|k: int|
            0 <= k < args.len() && is_short_branch(#[trigger] args[k]) && forall|j: int|
                0 <= j < k ==> is_compact_flag(#[trigger] args[j]);
        let some_rest = exists|k: int|
            0 <= k < rest.len() && is_short_branch(#[trigger] rest[k]) && forall|j: int|
                0 <= j < k ==> is_compact_flag(#[trigger] rest[j]);
        let all = forall|j: int| 0 <= j < args.len() ==> is_compact_flag(#[trigger] args[j]);
        let all_rest = forall|j: int| 0 <= j < rest.len() ==> is_compact_flag(#[trigger] rest[j]);
        let named = exists|j: int|
            0 <= j < args.len() && (#[trigger] args[j] == "-b"@ || args[j] == "--branch"@);
        let named_rest = exists|j: int|
            0 <= j < rest.len() && (#[trigger] rest[j] == "-b"@ || rest[j] == "--branch"@);
        assert(all == (is_compact_flag(a) && all_rest)) by {
            if all {
                assert(is_compact_flag(args[0]));
                assert forall|j: int| 0 <= j < rest.len() implies is_compact_flag(
                    #[trigger] rest[j],
                ) by {
                    assert(is_compact_flag(args[j + 1]));
                }
            }
            if is_compact_flag(a) && all_rest {
                assert forall|j: int| 0 <= j < args.len() implies is_compact_flag(
                    #[trigger] args[j],
                ) by {
                    if j > 0 {
                        assert(is_compact_flag(rest[j - 1]));
                    }
                }
            }
        }
        assert(named == (is_branch || named_rest)) by {
            if named {
                let j = choose|j: int|
                    0 <= j < args.len() && (#[trigger] args[j] == "-b"@ || args[j] == "--branch"@);
                if j > 0 {
                    assert(rest[j - 1] == "-b"@ || rest[j - 1] == "--branch"@);
                }
            }
            if is_branch {
                assert(args[0] == "-b"@ || args[0] == "--branch"@);
            }
            if named_rest {
                let j = choose|j: int|
                    0 <= j < rest.len() && (#[trigger] rest[j] == "-b"@ || rest[j] == "--branch"@);
                assert(args[j + 1] == "-b"@ || args[j + 1] == "--branch"@);
            }
        }
        assert(some == (is_short_branch(a) || (is_compact_flag(a) && some_rest))) by {
            if some {
                let k = choose|k: int|
                    0 <= k < args.len() && is_short_branch(#[trigger] args[k]) && forall|j: int|
                        0 <= j < k ==> is_compact_flag(#[trigger] args[j]);
                if k > 0 {
                    assert(is_compact_flag(args[0]));
                    assert(is_short_branch(rest[k - 1]));
                    assert forall|j: int| 0 <= j < k - 1 implies is_compact_flag(
                        #[trigger] rest[j],
                    ) by {
                        assert(is_compact_flag(args[j + 1]));
                    }
                }
            }
            if is_short_branch(a) {
                assert(is_short_branch(args[0]));
            } else if is_compact_flag(a) && some_rest {
                let k = choose|k: int|
                    0 <= k < rest.len() && is_short_branch(#[trigger] rest[k]) && forall|j: int|
                        0 <= j < k ==> is_compact_flag(#[trigger] rest[j]);
                assert(is_short_branch(args[k + 1]));
                assert forall|j: int| 0 <= j < k + 1 implies is_compact_flag(
                    #[trigger] args[j],
                ) by {
                    if j > 0 {
                        assert(is_compact_flag(rest[j - 1]));
                    }
                }
            }
        }
    }
}

/// The compact form is taken without arguments, and where all flags are ones that it covers and one
/// of them asks for the branch; behind `-sb` nothing else counts.
pub proof fn law_compact_form(args: Seq<Seq<char>>)
    ensures
        takes_compact_form(args) <==> (args.len() == 0 || (exists|k: int|
            0 <= k < args.len() && is_short_branch(#[trigger] args[k]) && forall|j: int|
                0 <= j < k ==> is_compact_flag(#[trigger] args[j])) || ((forall|j: int|
            0 <= j < args.len() ==> is_compact_flag(#[trigger] args[j])) && (exists|j: int|
            0 <= j < args.len() && (#[trigger] args[j] == "-b"@ || args[j] == "--branch"@)))),
{
    lemma_compact_flags(args, false);
}

/// A line that does not say that there is nothing to commit, or not that the tree is clean, reports no
/// clean tree; and a line without a word on which command to use is no hint.
pub proof fn law_no_clean_report(l: Seq<char>)
    ensures
        !search::occurs(l, "nothing to commit"@) ==> !reports_clean(l),
        !search::occurs(l, "working tree clean"@) ==> !reports_clean(l),
        !search::occurs(l, "(use \"git"@) && !search::occurs(l, "(create/copy files"@) ==> !is_hint(l),
{
    reveal_strlit("(use \"git");
    reveal_strlit("(use \"git add");
    reveal_strlit("(use \"git restore");
    let p = "(use \"git"@;
    let q = "(create/copy files"@;
    if chars::has_prefix(l, p) {
        assert(l.subrange(0, p.len() as int) == l.take(p.len() as int));
        assert(search::occurs_at(l, p, 0));
    }
    if chars::has_prefix(l, q) {
        assert(l.subrange(0, q.len() as int) == l.take(q.len() as int));
        assert(search::occurs_at(l, q, 0));
    }
    if search::occurs(l, "(use \"git add"@) {
        let i = choose|i: int| search::occurs_at(l, "(use \"git add"@, i);
        assert("(use \"git add"@.take(9) == p);
        lemma_start_occurs(l, p, "(use \"git add"@, i);
    }
    if search::occurs(l, "(use \"git restore"@) {
        let i = choose|i: int| search::occurs_at(l, "(use \"git restore"@, i);
        assert("(use \"git restore"@.take(9) == p);
        lemma_start_occurs(l, p, "(use \"git restore"@, i);
    }
}

proof fn lemma_start_occurs(l: Seq<char>, p: Seq<char>, whole: Seq<char>, i: int)
    requires
        search::occurs_at(l, whole, i),
        p.len() <= whole.len(),
        whole.take(p.len() as int) == p,
    ensures
        search::occurs(l, p),
{
    assert(l.subrange(i, i + p.len()) == l.subrange(i, i + whole.len()).take(p.len() as int));
    assert(search::occurs_at(l, p, i));
}

} // verus!
