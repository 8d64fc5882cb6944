//! `git branch`: the compact branch list.
use crate::truncate;
use crate::text::chars;
use crate::text::compose;
use crate::text::number;
use crate::text::search;
use crate::text::select;
use crate::text::split;
use vstd::prelude::*;
use vstd::slice::slice_subrange;

verus! {

/// The branches of a listing.
#[verifier::ext_equal]
pub struct BranchesView {
    /// The branch that is checked out.
    pub current: Seq<char>,
    /// The other local branches.
    pub local: Seq<Seq<char>>,
    /// The branches of all remotes, without the remote's name, each once.
    pub remote: Seq<Seq<char>>,
}

/// The branch of a remote ref such as `origin/main`, unless it is the remote's head.
pub open spec fn remote_branch(rest: Seq<char>) -> Option<Seq<char>> {
    match search::first_at(rest, "/"@) {
        Some(p) => {
            let branch = rest.skip(p + 1);
            if chars::has_prefix(branch, "HEAD "@) {
                None
            } else {
                Some(branch)
            }
        },
        None => None,
    }
}

/// The branches after one more line.
pub open spec fn with_line(b: BranchesView, raw: Seq<char>) -> BranchesView {
    let line = chars::trimmed(raw);
    if line.len() == 0 {
        b
    } else if chars::has_prefix(line, "* "@) {
        BranchesView { current: line.skip("* "@.len() as int), ..b }
    } else if chars::has_prefix(line, "remotes/"@) {
        match remote_branch(line.skip("remotes/"@.len() as int)) {
            Some(branch) => if b.remote.contains(branch) {
                b
            } else {
                BranchesView { remote: b.remote.push(branch), ..b }
            },
            None => b,
        }
    } else {
        BranchesView { local: b.local.push(line), ..b }
    }
}

/// The branches that the lines list.
pub open spec fn branches(lines: Seq<Seq<char>>) -> BranchesView
    decreases lines.len(),
{
    if lines.len() == 0 {
        BranchesView { current: Seq::empty(), local: Seq::empty(), remote: Seq::empty() }
    } else {
        with_line(branches(lines.drop_last()), lines.last())
    }
}

/// The remote branches that are neither checked out nor local.
pub open spec fn remote_only(
    remote: Seq<Seq<char>>,
    current: Seq<char>,
    local: Seq<Seq<char>>,
) -> Seq<Seq<char>>
    decreases remote.len(),
{
    if remote.len() == 0 {
        Seq::empty()
    } else {
        let prev = remote_only(remote.drop_last(), current, local);
        if remote.last() == current || local.contains(remote.last()) {
            prev
        } else {
            prev.push(remote.last())
        }
    }
}

/// The block on the branches that only remotes have, the first `CAP_WARNINGS` of them by name.
pub open spec fn remote_lines(only: Seq<Seq<char>>) -> Seq<Seq<char>> {
    let head = seq!["  remote-only ("@ + number::dec(only.len()) + "):"@];
    if only.len() == 0 {
        Seq::empty()
    } else if only.len() > truncate::CAP_WARNINGS {
        head + compose::indented("    "@, only.take(truncate::CAP_WARNINGS as int)) + seq![
            "    ... +"@ + number::dec((only.len() - truncate::CAP_WARNINGS) as nat) + " more"@,
        ]
    } else {
        head + compose::indented("    "@, only)
    }
}

/// The lines of the compact listing.
pub open spec fn branch_lines(b: BranchesView) -> Seq<Seq<char>> {
    seq!["* "@ + b.current] + compose::indented("  "@, b.local) + remote_lines(
        remote_only(b.remote, b.current, b.local),
    )
}

/// The compact listing of the output of `git branch`.
pub open spec fn branch_list(output: Seq<char>) -> Seq<char> {
    compose::joined(branch_lines(branches(split::lines_of(output))), "\n"@)
}

/// The branches of a listing.
pub struct Branches {
    /// The branch that is checked out.
    pub current: String,
    /// The other local branches.
    pub local: Vec<String>,
    /// The branches of all remotes, each once.
    pub remote: Vec<String>,
}

impl View for Branches {
    type V = BranchesView;

    open spec fn view(&self) -> BranchesView {
        BranchesView {
            current: self.current@,
            local: self.local.deep_view(),
            remote: self.remote.deep_view(),
        }
    }
}

impl Branches {
    /// No branches.
    pub fn none() -> (r: Self)
        ensures
            r@ == branches(Seq::empty()),
    {
        let b = Branches { current: String::new(), local: Vec::new(), remote: Vec::new() };
        assert(b@ == branches(Seq::empty()));
        b
    }

    /// Takes in one line of the output of `git branch`.
    pub fn take_line(&mut self, raw: &[char])
        ensures
            final(self)@ == with_line(old(self)@, raw@),
    {
        proof {
            reveal_strlit("* ");
            reveal_strlit("remotes/");
            reveal_strlit("/");
        }
        let line = chars::trim(raw);
        if line.len() == 0 {
            return;
        }
        if chars::starts_with(line, "* ") {
            let branch = slice_subrange(line, 2, line.len());
            assert(branch@ == line@.skip(2));
            self.current = chars::string_of(branch);
        } else if chars::starts_with(line, "remotes/") {
            let rest = slice_subrange(line, 8, line.len());
            assert(rest@ == line@.skip(8));
            let slash = search::find(rest, "/");
            proof {
                search::lemma_first_at(rest@, "/"@);
            }
            match slash {
                Some(p) => {
                    let branch = slice_subrange(rest, p + 1, rest.len());
                    assert(branch@ == rest@.skip(p + 1));
                    if chars::starts_with(branch, "HEAD ") {
                        return;
                    }
                    let name = chars::string_of(branch);
                    if !compose::has(self.remote.as_slice(), name.as_str()) {
                        compose::push(&mut self.remote, name);
                    }
                },
                None => {},
            }
        } else {
            compose::push_chars(&mut self.local, line);
        }
    }

    /// The remote branches that are neither checked out nor local.
    pub fn only_remote(&self) -> (r: Vec<String>)
        ensures
            r.deep_view() == remote_only(self@.remote, self@.current, self@.local),
    {
        let ghost all = self.remote.deep_view();
        let mut out: Vec<String> = Vec::new();
        let mut i: usize = 0;
        assert(out.deep_view() == remote_only(all.take(0), self@.current, self@.local));
        while i < self.remote.len()
            invariant
                i <= self.remote@.len(),
                all == self.remote.deep_view(),
                out.deep_view() == remote_only(all.take(i as int), self@.current, self@.local),
            decreases self.remote@.len() - i,
        {
            let name = self.remote[i].as_str();
            assert(all.take(i + 1).drop_last() == all.take(i as int));
            assert(all.take(i + 1).last() == name@);
            if !chars::same_str(name, self.current.as_str()) && !compose::has(
                self.local.as_slice(),
                name,
            ) {
                compose::push_str(&mut out, name);
            }
            i += 1;
        }
        assert(all.take(all.len() as int) == all);
        out
    }
}

/// Reduces the output of `git branch` to the current branch, the local branches and those that
/// only remotes have.
pub fn filter_branch_output(output: &str) -> (r: String)
    ensures
        r@ == branch_list(output@),
{
    let text = chars::to_chars(output);
    let lines = split::lines(text.as_slice());
    let ghost all = split::views(lines@);
    let mut found = Branches::none();
    let mut i: usize = 0;
    assert(all.take(0) == Seq::<Seq<char>>::empty());
    while i < lines.len()
        invariant
            i <= lines@.len(),
            all == split::views(lines@),
            found@ == branches(all.take(i as int)),
        decreases lines@.len() - i,
    {
        assert(all.take(i + 1).drop_last() == all.take(i as int));
        assert(all.take(i + 1).last() == lines@[i as int]@);
        found.take_line(lines[i]);
        i += 1;
    }
    assert(all.take(all.len() as int) == all);
    let ghost b = found@;
    let mut result: Vec<String> = Vec::new();
    let mut head = "* ".to_string();
    head.append(found.current.as_str());
    compose::push(&mut result, head);
    assert(result.deep_view() == seq!["* "@ + b.current]);
    compose::push_indented(&mut result, "  ", found.local.as_slice(), found.local.len());
    assert(b.local.take(b.local.len() as int) == b.local);
    let ghost before = result.deep_view();
    let only = found.only_remote();
    let ghost o = only.deep_view();
    if only.len() > 0 {
        let mut title = "  remote-only (".to_string();
        title.append(number::decimal(only.len()).as_str());
        title.append("):");
        compose::push(&mut result, title);
        if only.len() > truncate::CAP_WARNINGS {
            compose::push_indented(&mut result, "    ", only.as_slice(), truncate::CAP_WARNINGS);
            let mut more = "    ... +".to_string();
            more.append(number::decimal(only.len() - truncate::CAP_WARNINGS).as_str());
            more.append(" more");
            compose::push(&mut result, more);
        } else {
            compose::push_indented(&mut result, "    ", only.as_slice(), only.len());
            assert(o.take(o.len() as int) == o);
        }
        assert(result.deep_view() == before + remote_lines(o));
    } else {
        assert(result.deep_view() == before + remote_lines(o));
    }
    compose::join(result.as_slice(), "\n")
}

/// A branch that several remotes have is listed once.
pub proof fn law_remote_deduplicated(lines: Seq<Seq<char>>)
    ensures
        branches(lines).remote.no_duplicates(),
    decreases lines.len(),
{
    if lines.len() > 0 {
        law_remote_deduplicated(lines.drop_last());
    }
}

/// The remote-only block holds exactly the remote branches that are neither checked out nor local.
pub proof fn law_remote_only(
    remote: Seq<Seq<char>>,
    current: Seq<char>,
    local: Seq<Seq<char>>,
    name: Seq<char>,
)
    ensures
        remote_only(remote, current, local).contains(name) <==> remote.contains(name) && name
            != current && !local.contains(name),
    decreases remote.len(),
{
    if remote.len() > 0 {
        let prev = remote.drop_last();
        law_remote_only(prev, current, local, name);
        assert(remote == prev.push(remote.last()));
        let before = remote_only(prev, current, local);
        let after = remote_only(remote, current, local);
        assert(remote.contains(name) <==> prev.contains(name) || name == remote.last()) by {
            if prev.contains(name) {
                let k = choose|k: int| 0 <= k < prev.len() && prev[k] == name;
                assert(remote[k] == name);
            }
            if name == remote.last() {
                assert(remote[remote.len() - 1] == name);
            }
        }
        if after != before {
            assert(after == before.push(remote.last()));
            if before.contains(name) {
                let k = choose|k: int| 0 <= k < before.len() && before[k] == name;
                assert(after[k] == name);
            }
            assert(after[before.len() as int] == remote.last());
        }
    }
}

/// The remote-only block never grows beyond its title, `CAP_WARNINGS` names and a count of the
/// rest, and names that it leaves out are counted.
pub proof fn law_remote_block_bounded(only: Seq<Seq<char>>)
    ensures
        remote_lines(only).len() <= truncate::CAP_WARNINGS + 2,
        0 < only.len() <= truncate::CAP_WARNINGS ==> remote_lines(only).len() == only.len() + 1,
        only.len() > truncate::CAP_WARNINGS ==> remote_lines(only).last() == "    ... +"@ + number::dec(
            (only.len() - truncate::CAP_WARNINGS) as nat,
        ) + " more"@,
{
}

/// The current branch comes first, and every local branch is shown, in order.
pub proof fn law_local_branches_shown(b: BranchesView, i: int)
    requires
        0 <= i < b.local.len(),
    ensures
        branch_lines(b)[0] == "* "@ + b.current,
        branch_lines(b)[i + 1] == "  "@ + b.local[i],
{
}

/// A line that names the branch that is checked out.
pub open spec fn is_current_line(raw: Seq<char>) -> bool {
    chars::has_prefix(chars::trimmed(raw), "* "@)
}

/// Whether a trimmed line names a local branch that is not checked out.
pub open spec fn names_local(line: Seq<char>) -> bool {
    line.len() > 0 && !chars::has_prefix(line, "* "@) && !chars::has_prefix(line, "remotes/"@)
}

/// Whether a line names the branch `name` of some remote.
pub open spec fn names_remote(raw: Seq<char>, name: Seq<char>) -> bool {
    exists|remote: Seq<char>|
        !remote.contains('/') && !chars::has_prefix(name, "HEAD "@) && chars::trimmed(raw)
            == #[trigger] remote_ref(remote, name)
}

/// How git lists a branch of a remote.
pub open spec fn remote_ref(remote: Seq<char>, name: Seq<char>) -> Seq<char> {
    "remotes/"@ + remote + "/"@ + name
}

/// The local branches are all lines that name one, in order, whether they stand before the branch
/// that is checked out or behind it.
pub proof fn law_local_branches(lines: Seq<Seq<char>>)
    ensures
        branches(lines).local == lines.map_values(|l: Seq<char>| chars::trimmed(l)).filter(
            |l: Seq<char>| names_local(l),
        ),
    decreases lines.len(),
{
    let f = |l: Seq<char>| chars::trimmed(l);
    let p = |l: Seq<char>| names_local(l);
    if lines.len() == 0 {
        select::lemma_filter_empty(p);
        assert(lines.map_values(f) == Seq::<Seq<char>>::empty());
    } else {
        let front = lines.drop_last();
        law_local_branches(front);
        assert(lines.map_values(f) == front.map_values(f).push(f(lines.last())));
        select::lemma_filter_push(front.map_values(f), f(lines.last()), p);
    }
}

/// The branch that is checked out is the one that git marks, wherever its line stands; lines without
/// the mark do not change it.
pub proof fn law_current_branch(before: Seq<Seq<char>>, line: Seq<char>, after: Seq<Seq<char>>)
    requires
        is_current_line(line),
        forall|i: int| 0 <= i < after.len() ==> !is_current_line(#[trigger] after[i]),
    ensures
        branches(before.push(line) + after).current == chars::trimmed(line).skip(2),
    decreases after.len(),
{
    reveal_strlit("* ");
    let all = before.push(line) + after;
    if after.len() == 0 {
        assert(all == before.push(line));
        assert(all.drop_last() == before);
    } else {
        let front = after.drop_last();
        assert forall|i: int| 0 <= i < front.len() implies !is_current_line(#[trigger] front[i]) by {
            assert(front[i] == after[i]);
        }
        law_current_branch(before, line, front);
        assert(all.drop_last() == before.push(line) + front);
        assert(!is_current_line(after[after.len() - 1]));
    }
}

/// Where git marks no line, no branch is checked out.
pub proof fn law_no_current_branch(lines: Seq<Seq<char>>)
    requires
        forall|i: int| 0 <= i < lines.len() ==> !is_current_line(#[trigger] lines[i]),
    ensures
        branches(lines).current == Seq::<char>::empty(),
    decreases lines.len(),
{
    if lines.len() > 0 {
        let front = lines.drop_last();
        assert forall|i: int| 0 <= i < front.len() implies !is_current_line(#[trigger] front[i]) by {
            assert(front[i] == lines[i]);
        }
        law_no_current_branch(front);
        assert(!is_current_line(lines[lines.len() - 1]));
    }
}

proof fn lemma_remote_line(raw: Seq<char>, name: Seq<char>)
    ensures
        names_remote(raw, name) <==> chars::has_prefix(chars::trimmed(raw), "remotes/"@)
            && remote_branch(chars::trimmed(raw).skip(8)) == Some(name),
{
    reveal_strlit("remotes/");
    reveal_strlit("/");
    let line = chars::trimmed(raw);
    let rest = line.skip(8);
    search::lemma_first_at(rest, "/"@);
    if names_remote(raw, name) {
        let remote = choose|remote: Seq<char>|
            !remote.contains('/') && !chars::has_prefix(name, "HEAD "@) && line
                == #[trigger] remote_ref(remote, name);
        assert(line.take(8) == "remotes/"@);
        assert(rest == remote + "/"@ + name);
        assert(rest.take(remote.len() as int) == remote);
        search::lemma_first_char(rest, "/"@, remote.len() as int);
        assert(rest.skip(remote.len() as int + 1) == name);
    }
    if chars::has_prefix(line, "remotes/"@) && remote_branch(rest) == Some(name) {
        let p = search::first_at(rest, "/"@)->0;
        let remote = rest.take(p);
        assert forall|j: int| 0 <= j < p implies remote[j] != '/' by {
            if rest[j] == '/' {
                assert(rest.subrange(j, j + 1) == "/"@);
                assert(search::occurs_at(rest, "/"@, j));
            }
        }
        assert(rest.subrange(p, p + 1) == "/"@);
        assert(rest == remote + "/"@ + name) by {
            assert(rest.take(p) + rest.subrange(p, p + 1) + rest.skip(p + 1) == rest);
        }
        assert(line == "remotes/"@ + rest) by {
            assert(line.take(8) + line.skip(8) == line);
        }
        assert(line == remote_ref(remote, name));
    }
}

/// The branches of remotes are exactly those that some line names, with the remote's name cut off and
/// without a remote's head.
pub proof fn law_remote_branches(lines: Seq<Seq<char>>, name: Seq<char>)
    ensures
        branches(lines).remote.contains(name) <==> exists|i: int|
            0 <= i < lines.len() && names_remote(#[trigger] lines[i], name),
    decreases lines.len(),
{
    reveal_strlit("remotes/");
    reveal_strlit("* ");
    if lines.len() > 0 {
        let front = lines.drop_last();
        let raw = lines.last();
        let line = chars::trimmed(raw);
        law_remote_branches(front, name);
        lemma_remote_line(raw, name);
        let was = branches(front).remote;
        let named = exists|i: int| 0 <= i < front.len() && names_remote(#[trigger] front[i], name);
        if chars::has_prefix(line, "remotes/"@) {
            assert(line.take(8)[0] == 'r');
            assert(line[0] == 'r');
            assert(!chars::has_prefix(line, "* "@)) by {
                if chars::has_prefix(line, "* "@) {
                    assert(line.take(2)[0] == '*');
                }
            }
            match remote_branch(line.skip(8)) {
                Some(b) => {
                    select::lemma_push_contains(was, b, name);
                },
                None => {},
            }
        }
        if named {
            let i = choose|i: int| 0 <= i < front.len() && names_remote(#[trigger] front[i], name);
            assert(names_remote(lines[i], name));
        }
        if names_remote(raw, name) {
            assert(names_remote(lines[lines.len() - 1], name));
        }
        if exists|i: int| 0 <= i < lines.len() && names_remote(#[trigger] lines[i], name) {
            let i = choose|i: int| 0 <= i < lines.len() && names_remote(#[trigger] lines[i], name);
            if i < front.len() {
                assert(names_remote(front[i], name));
            }
        }
    }
}

/// Further lines add branches of remotes behind those that are known, and change none of them: they
/// stay in the order in which they are first named.
pub proof fn law_remote_branches_grow(a: Seq<Seq<char>>, b: Seq<Seq<char>>)
    ensures
        branches(a).remote.len() <= branches(a + b).remote.len(),
        branches(a + b).remote.take(branches(a).remote.len() as int) == branches(a).remote,
    decreases b.len(),
{
    let n = branches(a).remote.len() as int;
    if b.len() == 0 {
        assert(a + b == a);
    } else {
        assert((a + b).drop_last() == a + b.drop_last());
        law_remote_branches_grow(a, b.drop_last());
        let was = branches(a + b.drop_last()).remote;
        let all = branches(a + b).remote;
        assert(all.take(n) == was.take(n));
    }
}

/// The remote-only branches keep their order.
pub proof fn law_remote_only_in_order(
    remote: Seq<Seq<char>>,
    current: Seq<char>,
    local: Seq<Seq<char>>,
)
    ensures
        remote_only(remote, current, local) == remote.filter(
            |b: Seq<char>| b != current && !local.contains(b),
        ),
    decreases remote.len(),
{
    let p = |b: Seq<char>| b != current && !local.contains(b);
    if remote.len() == 0 {
        assert(remote == Seq::<Seq<char>>::empty());
        select::lemma_filter_empty(p);
    } else {
        law_remote_only_in_order(remote.drop_last(), current, local);
        select::lemma_filter_push(remote.drop_last(), remote.last(), p);
        select::lemma_front_and_last(remote);
    }
}

/// The remote-only block counts all of its branches and names the first `CAP_WARNINGS` of them, each
/// on a line of its own; where there are none there is no block.
pub proof fn law_remote_block(only: Seq<Seq<char>>, i: int)
    requires
        0 <= i < only.len(),
        i < 10,
    ensures
        remote_lines(only)[0] == "  remote-only ("@ + number::dec(only.len()) + "):"@,
        remote_lines(only)[i + 1] == "    "@ + only[i],
        only.len() > 10 ==> remote_lines(only).len() == 12,
        only.len() <= 10 ==> remote_lines(only).len() == only.len() + 1,
{
}

/// The listing is the branch that is checked out, the local branches and the remote-only block, and
/// nothing else.
pub proof fn law_listing_is_whole(b: BranchesView)
    ensures
        branch_lines(b).len() == 1 + b.local.len() + remote_lines(
            remote_only(b.remote, b.current, b.local),
        ).len(),
        branch_lines(b).skip(1 + b.local.len() as int) == remote_lines(
            b.remote.filter(|r: Seq<char>| r != b.current && !b.local.contains(r)),
        ),
        remote_lines(Seq::empty()).len() == 0,
{
    law_remote_only_in_order(b.remote, b.current, b.local);
}

} // verus!
