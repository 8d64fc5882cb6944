//! `git stash`: the list and the messages.
use crate::session::CaptureResult;
use crate::text::chars;
use crate::text::compose;
use crate::text::search;
use crate::text::split;
use vstd::prelude::*;
use vstd::slice::slice_subrange;

verus! {

/// The message of a stash, without the branch that it was made on.
pub open spec fn stash_subject(rest: Seq<char>) -> Seq<char> {
    match search::first_at(rest, ": "@) {
        Some(q) => chars::trimmed(rest.skip(q + 2)),
        None => chars::trimmed(rest),
    }
}

/// How a line of `git stash list` is shown.
pub open spec fn stash_line(line: Seq<char>) -> Seq<char> {
    match search::first_at(line, ": "@) {
        Some(p) => line.take(p) + ": "@ + stash_subject(line.skip(p + 2)),
        None => line,
    }
}

/// The compact form of a stash list.
pub open spec fn stash_list(output: Seq<char>) -> Seq<char> {
    compose::joined(
        split::lines_of(output).map_values(|l: Seq<char>| stash_line(l)),
        "\n"@,
    )
}

fn compact_line(line: &[char]) -> (r: String)
    ensures
        r@ == stash_line(line@),
{
    proof {
        reveal_strlit(": ");
        search::lemma_first_at(line@, ": "@);
    }
    let n: usize = line.len();
    match search::find(line, ": ") {
        Some(p) => {
            let index = slice_subrange(line, 0, p);
            assert(index@ == line@.take(p as int));
            let rest = slice_subrange(line, p + 2, n);
            assert(rest@ == line@.skip(p + 2));
            let m: usize = rest.len();
            let mut out = chars::string_of(index);
            out.append(": ");
            proof {
                search::lemma_first_at(rest@, ": "@);
            }
            let subject = match search::find(rest, ": ") {
                Some(q) => {
                    let tail = slice_subrange(rest, q + 2, m);
                    assert(tail@ == rest@.skip(q + 2));
                    chars::trim(tail)
                },
                None => chars::trim(rest),
            };
            out.append(chars::string_of(subject).as_str());
            out
        },
        None => chars::string_of(line),
    }
}

/// Reduces the output of `git stash list`: each line keeps its index and its message.
pub fn filter_stash_list(output: &str) -> (r: String)
    ensures
        r@ == stash_list(output@),
{
    let text = chars::to_chars(output);
    let lines = split::lines(text.as_slice());
    let ghost all = split::views(lines@);
    let ghost f = |l: Seq<char>| stash_line(l);
    let mut result: Vec<String> = Vec::new();
    let mut i: usize = 0;
    assert(result.deep_view() == all.take(0).map_values(f));
    while i < lines.len()
        invariant
            i <= lines@.len(),
            all == split::views(lines@),
            f == (|l: Seq<char>| stash_line(l)),
            result.deep_view() == all.take(i as int).map_values(f),
        decreases lines@.len() - i,
    {
        compose::push(&mut result, compact_line(lines[i]));
        assert(all.take(i + 1) == all.take(i as int).push(lines@[i as int]@));
        assert(result.deep_view() == all.take(i + 1).map_values(f));
        i += 1;
    }
    assert(all.take(all.len() as int) == all);
    compose::join(result.as_slice(), "\n")
}

/// The message on a stash operation that succeeded.
pub open spec fn stash_message(subcommand: Option<Seq<char>>, combined: Seq<char>) -> Seq<char> {
    if subcommand is None || subcommand == Some("push"@) || subcommand == Some("save"@) {
        if search::occurs(combined, "No local changes"@) {
            "No local changes to save"@
        } else {
            "ok stashed"@
        }
    } else {
        "ok stash "@ + subcommand->0
    }
}

/// The message on a stash operation that succeeded.
///
/// A stash that saved nothing must not look like one that did: it keeps git's own message.
pub fn format_stash_message(subcommand: Option<&str>, result: &CaptureResult) -> (r: String)
    ensures
        r@ == stash_message(compose::optional_str(subcommand), result@.combined),
{
    let creates = match subcommand {
        None => true,
        Some(sub) => chars::same_str(sub, "push") || chars::same_str(sub, "save"),
    };
    if creates {
        if search::str_contains(result.combined.as_str(), "No local changes") {
            return "No local changes to save".to_string();
        }
        return "ok stashed".to_string();
    }
    let mut out = "ok stash ".to_string();
    match subcommand {
        Some(sub) => {
            out.append(sub);
        },
        None => {},
    }
    out
}

/// A stash is shown with its index and its message; the branch that it was made on goes.
pub proof fn law_stash_line(
    index: Seq<char>,
    branch: Seq<char>,
    message: Seq<char>,
    plain: Seq<char>,
)
    requires
        !search::occurs(index + seq![':'], ": "@),
        !search::occurs(branch + seq![':'], ": "@),
        !search::occurs(plain, ": "@),
    ensures
        stash_line(index + ": "@ + branch + ": "@ + message) == index + ": "@ + chars::trimmed(
            message,
        ),
        stash_line(index + ": "@ + plain) == index + ": "@ + chars::trimmed(plain),
        stash_line(plain) == plain,
{
    let rest = branch + ": "@ + message;
    lemma_first_colon(index, rest);
    lemma_first_colon(branch, message);
    lemma_first_colon(index, plain);
    let line = index + ": "@ + rest;
    assert(index + ": "@ + branch + ": "@ + message == line);
    search::lemma_first_at(plain, ": "@);
    assert(line.take(index.len() as int) == index);
    let short = index + ": "@ + plain;
    assert(short.take(index.len() as int) == index);
}

proof fn lemma_first_colon(a: Seq<char>, b: Seq<char>)
    requires
        !search::occurs(a + seq![':'], ": "@),
    ensures
        search::first_at(a + ": "@ + b, ": "@) == Some(a.len() as int),
        (a + ": "@ + b).skip(a.len() as int + 2) == b,
{
    reveal_strlit(": ");
    let p = ": "@;
    let s = a + p + b;
    let head = a + seq![':'];
    let k: int = a.len() as int;
    search::lemma_first_at(s, p);
    assert(s.subrange(k, k + 2) == p);
    assert(search::occurs_at(s, p, k));
    assert forall|j: int| 0 <= j < k implies !search::occurs_at(s, p, j) by {
        if search::occurs_at(s, p, j) {
            assert(head.subrange(j, j + 2) == s.subrange(j, j + 2));
            assert(search::occurs_at(head, p, j));
        }
    }
    assert(s.skip(k + 2) == b);
}

/// Every stash has its line, in order.
pub proof fn law_stashes_listed(output: Seq<char>)
    ensures
        stash_list(output) == compose::joined(
            Seq::new(split::lines_of(output).len(), |i: int| stash_line(split::lines_of(output)[i])),
            "\n"@,
        ),
{
    let lines = split::lines_of(output);
    assert(lines.map_values(|l: Seq<char>| stash_line(l)) == Seq::new(
        lines.len(),
        |i: int| stash_line(lines[i]),
    ));
}

/// A stash operation other than making a stash is confirmed by its name.
pub proof fn law_operation_named(sub: Seq<char>, combined: Seq<char>)
    requires
        sub != "push"@,
        sub != "save"@,
    ensures
        stash_message(Some(sub), combined) == "ok stash "@ + sub,
{
}

/// What was stashed is confirmed, unless git says that there was nothing to stash.
pub proof fn law_stashed(combined: Seq<char>, a: Seq<char>, b: Seq<char>)
    requires
        !search::occurs(combined, "No local changes"@),
    ensures
        stash_message(None, combined) == "ok stashed"@,
        stash_message(Some("push"@), combined) == "ok stashed"@,
        stash_message(Some("save"@), combined) == "ok stashed"@,
        stash_message(None, a + "No local changes"@ + b) == "No local changes to save"@,
        stash_message(Some("push"@), a + "No local changes"@ + b) == "No local changes to save"@,
        stash_message(Some("save"@), a + "No local changes"@ + b) == "No local changes to save"@,
{
    search::lemma_occurs_between(a, "No local changes"@, b);
}

} // verus!
