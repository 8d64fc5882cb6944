//! `git worktree`: the compact list.
use crate::text::chars;
use crate::text::compose;
use crate::text::select;
use crate::text::split;
use vstd::prelude::*;
use vstd::slice::slice_subrange;

verus! {

/// A path below the home directory, written with a tilde.
pub open spec fn home_relative(path: Seq<char>, home: Seq<char>) -> Seq<char> {
    if home.len() > 0 && chars::has_prefix(path, home) {
        "~"@ + path.skip(home.len() as int)
    } else {
        path
    }
}

/// How a line of `git worktree list` is shown.
pub open spec fn worktree_line(line: Seq<char>, home: Seq<char>) -> Seq<char> {
    let words = split::words_of(line);
    if words.len() >= 3 {
        home_relative(words[0], home) + " "@ + words[1] + " "@ + compose::joined(
            words.skip(2),
            " "@,
        )
    } else {
        line
    }
}

/// The lines that are not blank, as they are shown.
pub open spec fn worktree_lines(lines: Seq<Seq<char>>, home: Seq<char>) -> Seq<Seq<char>>
    decreases lines.len(),
{
    if lines.len() == 0 {
        Seq::empty()
    } else {
        let prev = worktree_lines(lines.drop_last(), home);
        if chars::is_blank(lines.last()) {
            prev
        } else {
            prev.push(worktree_line(lines.last(), home))
        }
    }
}

/// The compact form of a worktree list.
pub open spec fn worktree_list(output: Seq<char>, home: Seq<char>) -> Seq<char> {
    compose::joined(worktree_lines(split::lines_of(output), home), "\n"@)
}

fn compact_line(line: &[char], home: &str) -> (r: String)
    ensures
        r@ == worktree_line(line@, home@),
{
    let words = split::words(line);
    let ghost all = split::words_of(line@);
    assert(all.len() == words@.len());
    if words.len() < 3 {
        return chars::string_of(line);
    }
    assert(all[0] == words@[0]@ && all[1] == words@[1]@);
    let home_chars = chars::to_chars(home);
    let path = words[0];
    let mut out = if home_chars.len() > 0 && chars::starts_with(path, home) {
        let rest = slice_subrange(path, home_chars.len(), path.len());
        assert(rest@ == path@.skip(home@.len() as int));
        compose::prefixed("~", rest)
    } else {
        chars::string_of(path)
    };
    out.append(" ");
    out.append(chars::string_of(words[1]).as_str());
    out.append(" ");
    let mut branch: Vec<String> = Vec::new();
    let mut i: usize = 2;
    assert(branch.deep_view() == all.subrange(2, 2));
    while i < words.len()
        invariant
            2 <= i <= words@.len(),
            all == split::views(words@),
            branch.deep_view() == all.subrange(2, i as int),
        decreases words@.len() - i,
    {
        compose::push_chars(&mut branch, words[i]);
        assert(branch.deep_view() == all.subrange(2, i + 1));
        i += 1;
    }
    assert(all.subrange(2, all.len() as int) == all.skip(2));
    out.append(compose::join(branch.as_slice(), " ").as_str());
    out
}

/// Reduces the output of `git worktree list`, with paths below `home` written with a tilde.
pub fn filter_worktree_list_at(output: &str, home: &str) -> (r: String)
    ensures
        r@ == worktree_list(output@, home@),
{
    let text = chars::to_chars(output);
    let lines = split::lines(text.as_slice());
    let ghost all = split::views(lines@);
    let mut result: Vec<String> = Vec::new();
    let mut i: usize = 0;
    assert(result.deep_view() == worktree_lines(all.take(0), home@));
    while i < lines.len()
        invariant
            i <= lines@.len(),
            all == split::views(lines@),
            result.deep_view() == worktree_lines(all.take(i as int), home@),
        decreases lines@.len() - i,
    {
        assert(all.take(i + 1).drop_last() == all.take(i as int));
        assert(all.take(i + 1).last() == lines@[i as int]@);
        if !chars::blank(lines[i]) {
            compose::push(&mut result, compact_line(lines[i], home));
        }
        i += 1;
    }
    assert(all.take(all.len() as int) == all);
    compose::join(result.as_slice(), "\n")
}

/// The user's home directory, by `dirs::home_dir`, with what is not text in it replaced.
///
/// It depends on the user's environment, so nothing is claimed of it.
#[verifier::external_body]
fn home_dir() -> Option<String> {
    match dirs::home_dir() {
        Some(path) => Some(path.to_string_lossy().into_owned()),
        None => None,
    }
}

/// Whether `home` may be the user's home directory, empty where there is none: what comes of asking
/// for it, by `dirs::home_dir`.
pub closed spec fn home_told(home: Seq<char>) -> bool {
    exists|dir: Option<String>| #[trigger]
        call_ensures(home_dir, (), dir) && home == compose::text_or_empty(compose::optional(dir))
}

/// The user's home directory, empty where there is none.
pub(crate) fn home() -> (r: String)
    ensures
        home_told(r@),
{
    let dir = home_dir();
    let ghost told = dir;
    assert(call_ensures(home_dir, (), told));
    compose::or_empty(dir)
}

/// Reduces the output of `git worktree list`, with paths below the user's home directory written
/// with a tilde.
pub fn filter_worktree_list(output: &str) -> (r: String)
    ensures
        exists|home: Seq<char>|
            home_told(home) && r@ == #[trigger] worktree_list(output@, home),
{
    let home = home();
    filter_worktree_list_at(output, home.as_str())
}

/// A path below the home directory is shown with a tilde in place of it, and any other as it is.
pub proof fn law_home_relative(path: Seq<char>, rest: Seq<char>, home: Seq<char>)
    requires
        home.len() > 0,
    ensures
        home_relative(home + rest, home) == "~"@ + rest,
        !chars::has_prefix(path, home) ==> home_relative(path, home) == path,
{
    assert((home + rest).take(home.len() as int) == home);
    assert((home + rest).skip(home.len() as int) == rest);
}

/// Every worktree is listed, in order, and blank lines are not.
pub proof fn law_worktrees_listed(lines: Seq<Seq<char>>, home: Seq<char>)
    ensures
        worktree_lines(lines, home) == lines.filter(|l: Seq<char>| !chars::is_blank(l)).map_values(
            |l: Seq<char>| worktree_line(l, home),
        ),
    decreases lines.len(),
{
    let p = |l: Seq<char>| !chars::is_blank(l);
    let f = |l: Seq<char>| worktree_line(l, home);
    if lines.len() == 0 {
        assert(lines == Seq::<Seq<char>>::empty());
        select::lemma_filter_empty(p);
        assert(Seq::<Seq<char>>::empty().map_values(f) == Seq::<Seq<char>>::empty());
    } else {
        let front = lines.drop_last();
        let last = lines.last();
        law_worktrees_listed(front, home);
        select::lemma_front_and_last(lines);
        select::lemma_filter_push(front, last, p);
        assert(front.filter(p).push(last).map_values(f) == front.filter(p).map_values(f).push(
            f(last),
        ));
    }
}

/// A worktree is shown with all of its words, one blank apart, and its path written short; a line of
/// fewer than three words stands as it is.
pub proof fn law_worktree_line(line: Seq<char>, home: Seq<char>)
    ensures
        ({
            let words = split::words_of(line);
            &&& words.len() >= 3 ==> worktree_line(line, home) == compose::joined(
                seq![home_relative(words[0], home)] + words.skip(1),
                " "@,
            )
            &&& words.len() < 3 ==> worktree_line(line, home) == line
        }),
{
    let words = split::words_of(line);
    if words.len() >= 3 {
        let path = home_relative(words[0], home);
        let all = seq![path] + words.skip(1);
        let rest = words.skip(2);
        assert(all == seq![path, words[1]] + rest);
        compose::lemma_joined_front(seq![path, words[1]], rest, " "@);
        let two = seq![path, words[1]];
        assert(two.drop_last() == seq![path]);
        assert(compose::joined(seq![path], " "@) == path);
        assert(compose::joined(two, " "@) == path + " "@ + words[1]);
    }
}

/// One worktree stands on one line, and the next on a line of its own.
pub proof fn law_worktrees_apart(output: Seq<char>, home: Seq<char>)
    ensures
        worktree_list(output, home) == compose::joined(
            split::lines_of(output).filter(|l: Seq<char>| !chars::is_blank(l)).map_values(
                |l: Seq<char>| worktree_line(l, home),
            ),
            "\n"@,
        ),
{
    law_worktrees_listed(split::lines_of(output), home);
}

} // verus!
