//! `git log`: limits, line widths and commit blocks.
use crate::text::chars;
use crate::text::compose;
use crate::text::number;
use crate::text::select;
use crate::text::split;
use vstd::prelude::*;
use vstd::slice::slice_subrange;

verus! {

/// How many lines of a commit body are shown.
pub const MAX_BODY_LINES: usize = 3;

/// `line`, cut to `width` characters with an ellipsis where it is longer.
pub open spec fn truncated_line(line: Seq<char>, width: nat) -> Seq<char> {
    if line.len() > width {
        line.take(width - 3) + "..."@
    } else {
        line
    }
}

/// Cuts a line to `width` characters, ending it in `...` where it was longer.
pub fn truncate_line(line: &str, width: usize) -> (r: String)
    requires
        line@.len() > width ==> width >= 3,
    ensures
        r@ == truncated_line(line@, width as nat),
{
    let text = chars::to_chars(line);
    truncate_chars(text.as_slice(), width)
}

fn truncate_chars(line: &[char], width: usize) -> (r: String)
    requires
        line@.len() > width ==> width >= 3,
    ensures
        r@ == truncated_line(line@, width as nat),
{
    if line.len() > width {
        let head = slice_subrange(line, 0, width - 3);
        assert(line@.take(width - 3) == head@);
        let mut out = chars::string_of(head);
        out.append("...");
        out
    } else {
        chars::string_of(line)
    }
}

/// The lines of `lines`, each cut to `width`.
pub open spec fn truncated_lines(lines: Seq<Seq<char>>, width: nat) -> Seq<Seq<char>> {
    lines.map_values(|l: Seq<char>| truncated_line(l, width))
}

/// The width that log lines are cut to.
pub open spec fn log_width(user_set_limit: bool) -> nat {
    if user_set_limit {
        120
    } else {
        80
    }
}

/// How many of `n` items are kept.
pub open spec fn kept(n: nat, limit: nat, user_set_limit: bool) -> nat {
    if user_set_limit || n < limit {
        n
    } else {
        limit
    }
}

/// A line of a commit body that is worth showing: not empty and not a trailer.
pub open spec fn is_body_line(l: Seq<char>) -> bool {
    &&& l.len() > 0
    &&& !chars::has_prefix(l, "Signed-off-by:"@)
    &&& !chars::has_prefix(l, "Co-authored-by:"@)
}

/// The lines worth showing, trimmed.
pub open spec fn body_lines(lines: Seq<Seq<char>>) -> Seq<Seq<char>>
    decreases lines.len(),
{
    if lines.len() == 0 {
        Seq::empty()
    } else {
        let l = chars::trimmed(lines.last());
        if is_body_line(l) {
            body_lines(lines.drop_last()).push(l)
        } else {
            body_lines(lines.drop_last())
        }
    }
}

/// The lines below a commit header, each on an indented line of its own.
pub open spec fn body_text(body: Seq<Seq<char>>, width: nat) -> Seq<char>
    decreases body.len(),
{
    if body.len() == 0 {
        Seq::empty()
    } else {
        body_text(body.drop_last(), width) + "\n  "@ + truncated_line(body.last(), width)
    }
}

/// The body lines that a commit shows.
pub open spec fn shown_body(body: Seq<Seq<char>>) -> Seq<Seq<char>> {
    if body.len() > MAX_BODY_LINES {
        body.take(MAX_BODY_LINES as int)
    } else {
        body
    }
}

/// The line that says how many body lines were left out, where some were.
pub open spec fn omission_note(body: Seq<Seq<char>>) -> Seq<char> {
    if body.len() > MAX_BODY_LINES {
        "\n  [+"@ + number::dec((body.len() - MAX_BODY_LINES) as nat) + " lines omitted]"@
    } else {
        Seq::empty()
    }
}

/// What a commit block is reduced to: its header line and the first lines of its body.
pub open spec fn commit_entry(block: Seq<char>, width: nat) -> Seq<char> {
    let lines = split::lines_of(chars::trimmed(block));
    let body = body_lines(lines.drop_first());
    truncated_line(chars::trimmed(lines[0]), width) + body_text(shown_body(body), width)
        + omission_note(body)
}

/// The entries of the blocks that are not blank.
pub open spec fn commit_entries(blocks: Seq<Seq<char>>, width: nat) -> Seq<Seq<char>>
    decreases blocks.len(),
{
    if blocks.len() == 0 {
        Seq::empty()
    } else {
        let prev = commit_entries(blocks.drop_last(), width);
        if chars::is_blank(blocks.last()) {
            prev
        } else {
            prev.push(commit_entry(blocks.last(), width))
        }
    }
}

/// The commit blocks of a log written in the injected format.
pub open spec fn commit_blocks(output: Seq<char>) -> Seq<Seq<char>> {
    split::pieces(output, "---END---"@)
}

/// What a log is reduced to.
pub open spec fn filtered_log(
    output: Seq<char>,
    limit: nat,
    user_set_limit: bool,
    user_format: bool,
) -> Seq<char> {
    let width = log_width(user_set_limit);
    if user_format {
        let lines = split::lines_of(output);
        let n = kept(lines.len(), limit, user_set_limit) as int;
        compose::joined(truncated_lines(lines.take(n), width), "\n"@)
    } else {
        let blocks = commit_blocks(output);
        let n = kept(blocks.len(), limit, user_set_limit) as int;
        chars::trimmed(compose::joined(commit_entries(blocks.take(n), width), "\n"@))
    }
}

fn body_of<'a>(lines: &Vec<&'a [char]>) -> (r: Vec<&'a [char]>)
    requires
        lines@.len() > 0,
    ensures
        split::views(r@) == body_lines(split::views(lines@).drop_first()),
{
    let ghost rest = split::views(lines@).drop_first();
    let mut out: Vec<&'a [char]> = Vec::new();
    let mut i: usize = 1;
    assert(split::views(out@) == body_lines(rest.take(0)));
    while i < lines.len()
        invariant
            1 <= i <= lines@.len(),
            rest == split::views(lines@).drop_first(),
            split::views(out@) == body_lines(rest.take(i - 1)),
        decreases lines@.len() - i,
    {
        let ghost before = out@;
        assert(rest.take(i as int).drop_last() == rest.take(i - 1));
        assert(rest.take(i as int).last() == lines@[i as int]@);
        let l = chars::trim(lines[i]);
        if l.len() > 0 && !chars::starts_with(l, "Signed-off-by:") && !chars::starts_with(
            l,
            "Co-authored-by:",
        ) {
            out.push(l);
            assert(split::views(out@) == split::views(before).push(l@));
        }
        i += 1;
    }
    assert(rest.take(lines@.len() - 1) == rest);
    out
}

fn entry_of(block: &[char], width: usize) -> (r: String)
    requires
        !chars::is_blank(block@),
        width >= 3,
    ensures
        r@ == commit_entry(block@, width as nat),
{
    let trimmed = chars::trim(block);
    let lines = split::lines(trimmed);
    let ghost all = split::lines_of(trimmed@);
    assert(all.len() == lines@.len());
    assert(all[0] == lines@[0]@);
    let mut out = truncate_chars(chars::trim(lines[0]), width);
    let ghost header = out@;
    let body = body_of(&lines);
    let ghost b = split::views(body@);
    let n: usize = if body.len() > MAX_BODY_LINES {
        MAX_BODY_LINES
    } else {
        body.len()
    };
    assert(shown_body(b) == b.take(n as int));
    let mut i: usize = 0;
    assert(b.take(0).len() == 0);
    assert(header + Seq::<char>::empty() == header);
    while i < n
        invariant
            i <= n <= body@.len(),
            width >= 3,
            b == split::views(body@),
            out@ == header + body_text(b.take(i as int), width as nat),
        decreases n - i,
    {
        assert(b.take(i + 1).drop_last() == b.take(i as int));
        assert(b.take(i + 1).last() == body@[i as int]@);
        out.append("\n  ");
        out.append(truncate_chars(body[i], width).as_str());
        assert(out@ == header + body_text(b.take(i + 1), width as nat));
        i += 1;
    }
    let ghost before_note = out@;
    if body.len() > MAX_BODY_LINES {
        out.append("\n  [+");
        out.append(number::decimal(body.len() - MAX_BODY_LINES).as_str());
        out.append(" lines omitted]");
        assert(out@ == before_note + omission_note(b));
    } else {
        assert(out@ == before_note + omission_note(b));
    }
    out
}

/// Reduces the output of `git log`.
///
/// A user format is kept line by line. The injected format is cut at its `---END---` markers into
/// commits, of which each keeps its header and up to `MAX_BODY_LINES` lines of its body. Lines are
/// cut to 80 characters, or to 120 where the user set the limit; `limit` caps the number of lines
/// or commits only where the user did not set it.
pub fn filter_log_output(
    output: &str,
    limit: usize,
    user_set_limit: bool,
    user_format: bool,
) -> (r: String)
    ensures
        r@ == filtered_log(output@, limit as nat, user_set_limit, user_format),
{
    let width: usize = if user_set_limit {
        120
    } else {
        80
    };
    let text = chars::to_chars(output);
    let mut entries: Vec<String> = Vec::new();
    let mut i: usize = 0;
    if user_format {
        let lines = split::lines(text.as_slice());
        let ghost all = split::lines_of(output@);
        assert(all.len() == lines@.len());
        let n: usize = if user_set_limit || lines.len() < limit {
            lines.len()
        } else {
            limit
        };
        assert(entries.deep_view() == truncated_lines(all.take(0), width as nat));
        while i < n
            invariant
                i <= n <= lines@.len(),
                width >= 3,
                all == split::views(lines@),
                entries.deep_view() == truncated_lines(all.take(i as int), width as nat),
            decreases n - i,
        {
            assert(all.take(i + 1) == all.take(i as int).push(lines@[i as int]@));
            compose::push(&mut entries, truncate_chars(lines[i], width));
            assert(entries.deep_view() == truncated_lines(all.take(i + 1), width as nat));
            i += 1;
        }
        return compose::join(entries.as_slice(), "\n");
    }
    proof {
        reveal_strlit("---END---");
    }
    let blocks = split::split(text.as_slice(), "---END---");
    let ghost all = commit_blocks(output@);
    assert(all.len() == blocks@.len());
    let n: usize = if user_set_limit || blocks.len() < limit {
        blocks.len()
    } else {
        limit
    };
    assert(entries.deep_view() == commit_entries(all.take(0), width as nat));
    while i < n
        invariant
            i <= n <= blocks@.len(),
            width >= 3,
            all == split::views(blocks@),
            entries.deep_view() == commit_entries(all.take(i as int), width as nat),
        decreases n - i,
    {
        assert(all.take(i + 1).drop_last() == all.take(i as int));
        assert(all.take(i + 1).last() == blocks@[i as int]@);
        if !chars::blank(blocks[i]) {
            compose::push(&mut entries, entry_of(blocks[i], width));
        }
        i += 1;
    }
    let joined = chars::to_chars(compose::join(entries.as_slice(), "\n").as_str());
    chars::string_of(chars::trim(joined.as_slice()))
}

/// An argument of the form `-20`: a dash and a digit.
pub open spec fn is_dash_number(a: Seq<char>) -> bool {
    a.len() > 1 && a[0] == '-' && chars::is_digit(a[1])
}

/// The number that `s` denotes, as a machine word.
pub open spec fn count(s: Seq<char>) -> Option<nat> {
    number::parsed_nat(s, usize::MAX as nat)
}

/// The limit that the arguments from `i` on set: `-20`, `-n 20`, `--max-count=20` or
/// `--max-count 20`, the first that denotes a number.
pub open spec fn limit_from(args: Seq<Seq<char>>, i: int) -> Option<nat>
    decreases args.len() - i + 1,
{
    if i < 0 || i >= args.len() {
        None
    } else if is_dash_number(args[i]) && count(args[i].skip(1)) is Some {
        count(args[i].skip(1))
    } else if args[i] == "-n"@ || args[i] == "--max-count"@ {
        if i + 1 < args.len() && count(args[i + 1]) is Some {
            count(args[i + 1])
        } else {
            limit_from(args, i + 2)
        }
    } else if chars::has_prefix(args[i], "--max-count="@) && count(
        args[i].skip("--max-count="@.len() as int),
    ) is Some {
        count(args[i].skip("--max-count="@.len() as int))
    } else {
        limit_from(args, i + 1)
    }
}

/// The limit that the arguments of `git log` set, if they set one.
pub fn parse_user_limit(args: &[String]) -> (r: Option<usize>)
    ensures
        match r {
            Some(n) => limit_from(args.deep_view(), 0) == Some(n as nat),
            None => limit_from(args.deep_view(), 0) is None,
        },
{
    let ghost all = args.deep_view();
    proof {
        reveal_strlit("-n");
        reveal_strlit("--max-count");
        reveal_strlit("--max-count=");
    }
    let mut i: usize = 0;
    while i < args.len()
        invariant
            i <= args@.len(),
            all == args.deep_view(),
            limit_from(all, i as int) == limit_from(all, 0),
            "-n"@.len() == 2 && "-n"@[0] == '-' && "-n"@[1] == 'n',
            "--max-count"@.len() == 11 && "--max-count"@[0] == '-' && "--max-count"@[1] == '-',
            "--max-count="@.len() == 12,
        decreases args@.len() - i,
    {
        let arg = chars::to_chars(args[i].as_str());
        assert(all[i as int] == arg@);
        if arg.len() > 1 && arg[0] == '-' && chars::is_ascii_digit(arg[1]) {
            let rest = slice_subrange(arg.as_slice(), 1, arg.len());
            assert(rest@ == arg@.skip(1));
            match number::parse_usize(rest) {
                Some(n) => {
                    return Some(n);
                },
                None => {},
            }
        }
        if chars::equals(arg.as_slice(), "-n") || chars::equals(arg.as_slice(), "--max-count") {
            if args.len() - i > 1 {
                let next = chars::to_chars(args[i + 1].as_str());
                assert(all[i + 1] == next@);
                match number::parse_usize(next.as_slice()) {
                    Some(n) => {
                        return Some(n);
                    },
                    None => {
                        i += 2;
                        continue;
                    },
                }
            } else {
                assert(limit_from(all, i + 2) is None);
                return None;
            }
        }
        if chars::starts_with(arg.as_slice(), "--max-count=") {
            let rest = slice_subrange(arg.as_slice(), 12, arg.len());
            assert(rest@ == arg@.skip(12));
            match number::parse_usize(rest) {
                Some(n) => {
                    return Some(n);
                },
                None => {},
            }
        }
        i += 1;
    }
    None
}

/// A line is never longer than the width it is cut to, and a line that fits is left alone.
pub proof fn law_line_width(line: Seq<char>, width: nat)
    requires
        width >= 3,
    ensures
        truncated_line(line, width).len() <= width,
        line.len() <= width ==> truncated_line(line, width) == line,
        line.len() > width ==> truncated_line(line, width).take(width - 3) == line.take(width - 3),
{
    reveal_strlit("...");
    if line.len() > width {
        assert((line.take(width - 3) + "..."@).take(width - 3) == line.take(width - 3));
    }
}

/// How many of the blocks are not blank.
pub open spec fn count_commits(blocks: Seq<Seq<char>>) -> nat
    decreases blocks.len(),
{
    if blocks.len() == 0 {
        0
    } else if chars::is_blank(blocks.last()) {
        count_commits(blocks.drop_last())
    } else {
        count_commits(blocks.drop_last()) + 1
    }
}

/// Every block that is not blank has one entry, and no other has one.
pub proof fn law_one_entry_per_commit(blocks: Seq<Seq<char>>, width: nat)
    ensures
        commit_entries(blocks, width).len() == count_commits(blocks),
        commit_entries(blocks, width).len() <= blocks.len(),
    decreases blocks.len(),
{
    if blocks.len() > 0 {
        law_one_entry_per_commit(blocks.drop_last(), width);
    }
}

/// A limit set by the user is not applied again, and a default limit holds.
pub proof fn law_limit(n: nat, limit: nat)
    ensures
        kept(n, limit, true) == n,
        kept(n, limit, false) <= limit,
        kept(n, limit, false) <= n,
        n <= limit ==> kept(n, limit, false) == n,
{
}

/// No trailer and no empty line is shown below a commit header.
pub proof fn law_no_trailers(lines: Seq<Seq<char>>, i: int)
    requires
        0 <= i < body_lines(lines).len(),
    ensures
        is_body_line(body_lines(lines)[i]),
    decreases lines.len(),
{
    if lines.len() > 0 {
        let prev = body_lines(lines.drop_last());
        if i < prev.len() {
            law_no_trailers(lines.drop_last(), i);
        }
    }
}

/// Every spelling of a limit is understood: `-N`, `-n N`, `--max-count=N` and `--max-count N`,
/// whatever stands after it.
pub proof fn law_limit_spellings(n: nat, rest: Seq<Seq<char>>)
    requires
        n <= usize::MAX,
    ensures
        limit_from(seq!["-"@ + number::dec(n)] + rest, 0) == Some(n),
        limit_from(seq!["-n"@, number::dec(n)] + rest, 0) == Some(n),
        limit_from(seq!["--max-count="@ + number::dec(n)] + rest, 0) == Some(n),
        limit_from(seq!["--max-count"@, number::dec(n)] + rest, 0) == Some(n),
{
    reveal_strlit("-");
    reveal_strlit("-n");
    reveal_strlit("--max-count");
    reveal_strlit("--max-count=");
    let d = number::dec(n);
    number::law_dec_parses(n, usize::MAX as nat);
    number::lemma_dec_digits(n);
    let a = seq!["-"@ + d] + rest;
    assert(a[0][1] == d[0]);
    assert(a[0].skip(1) == d);
    let b = seq!["-n"@, d] + rest;
    assert(b[0] == "-n"@ && b[1] == d);
    let c = seq!["--max-count="@ + d] + rest;
    assert(c[0].skip(12) == d);
    assert(c[0].take(12) == "--max-count="@);
    assert(c[0][1] == '-');
    assert(c[0] != "-n"@);
    assert(c[0].len() > 11);
    let e = seq!["--max-count"@, d] + rest;
    assert(e[0] == "--max-count"@ && e[1] == d);
}

/// A line that is cut keeps its start and says that it goes on: it fills the width.
pub proof fn law_cut_line(line: Seq<char>, width: nat)
    requires
        width >= 3,
        line.len() > width,
    ensures
        truncated_line(line, width).len() == width,
        truncated_line(line, width).take(width - 3) == line.take(width - 3),
        truncated_line(line, width).skip(width - 3) == "..."@,
{
    reveal_strlit("...");
    let cut = truncated_line(line, width);
    assert(cut.take(width - 3) == line.take(width - 3));
    assert(cut.skip(width - 3) == "..."@);
}

/// Trailers are not worth showing, and every other line that is not empty is.
pub proof fn law_body_line(line: Seq<char>, rest: Seq<char>)
    ensures
        !is_body_line("Signed-off-by:"@ + rest),
        !is_body_line("Co-authored-by:"@ + rest),
        !is_body_line(Seq::empty()),
        line.len() > 0 && line != "Signed-off-by:"@ + line.skip("Signed-off-by:"@.len() as int)
            && line != "Co-authored-by:"@ + line.skip("Co-authored-by:"@.len() as int)
            ==> is_body_line(line),
{
    let a = "Signed-off-by:"@;
    let b = "Co-authored-by:"@;
    assert((a + rest).take(a.len() as int) == a);
    assert((b + rest).take(b.len() as int) == b);
    if chars::has_prefix(line, a) {
        assert(line == line.take(a.len() as int) + line.skip(a.len() as int));
    }
    if chars::has_prefix(line, b) {
        assert(line == line.take(b.len() as int) + line.skip(b.len() as int));
    }
}

/// The body of a commit is all of its lines that are worth showing, trimmed and in order.
pub proof fn law_body_lines(lines: Seq<Seq<char>>)
    ensures
        body_lines(lines) == lines.map_values(|l: Seq<char>| chars::trimmed(l)).filter(
            |l: Seq<char>| is_body_line(l),
        ),
    decreases lines.len(),
{
    let f = |l: Seq<char>| chars::trimmed(l);
    let p = |l: Seq<char>| is_body_line(l);
    if lines.len() == 0 {
        select::lemma_filter_empty(p);
        assert(lines.map_values(f) == Seq::<Seq<char>>::empty());
    } else {
        let front = lines.drop_last();
        law_body_lines(front);
        assert(lines.map_values(f) == front.map_values(f).push(f(lines.last())));
        select::lemma_filter_push(front.map_values(f), f(lines.last()), p);
    }
}

/// The lines that a commit is shown with: its header, the first three lines of its body, indented,
/// and how many more there are where there are more. All are cut to the width.
pub open spec fn entry_lines(
    header: Seq<char>,
    body: Seq<Seq<char>>,
    width: nat,
) -> Seq<Seq<char>> {
    let n = if body.len() > 3 {
        3int
    } else {
        body.len() as int
    };
    seq![truncated_line(chars::trimmed(header), width)] + body.take(n).map_values(
        |l: Seq<char>| "  "@ + truncated_line(l, width),
    ) + if body.len() > 3 {
        seq!["  [+"@ + number::dec((body.len() - 3) as nat) + " lines omitted]"@]
    } else {
        Seq::empty()
    }
}

proof fn lemma_body_text(header: Seq<char>, body: Seq<Seq<char>>, width: nat)
    ensures
        header + body_text(body, width) == compose::joined(
            seq![header] + body.map_values(|l: Seq<char>| "  "@ + truncated_line(l, width)),
            "\n"@,
        ),
    decreases body.len(),
{
    reveal_strlit("\n");
    reveal_strlit("  ");
    reveal_strlit("\n  ");
    let f = |l: Seq<char>| "  "@ + truncated_line(l, width);
    if body.len() == 0 {
        assert(seq![header] + body.map_values(f) == seq![header]);
        assert(header + Seq::<char>::empty() == header);
    } else {
        let front = body.drop_last();
        let cut = truncated_line(body.last(), width);
        lemma_body_text(header, front, width);
        let lines = seq![header] + body.map_values(f);
        assert(lines.drop_last() == seq![header] + front.map_values(f));
        assert(lines.last() == "  "@ + cut);
        assert("\n  "@ == "\n"@ + "  "@);
        assert(header + (body_text(front, width) + "\n  "@ + cut) == (header + body_text(
            front,
            width,
        )) + "\n"@ + ("  "@ + cut));
    }
}

/// A commit is shown with its header and the start of its body, whatever the width is: no line of the
/// body goes without being shown or counted.
pub proof fn law_commit_entry(
    block: Seq<char>,
    header: Seq<char>,
    rest: Seq<Seq<char>>,
    width: nat,
)
    requires
        split::lines_of(chars::trimmed(block)) == seq![header] + rest,
    ensures
        commit_entry(block, width) == compose::joined(
            entry_lines(
                header,
                rest.map_values(|l: Seq<char>| chars::trimmed(l)).filter(
                    |l: Seq<char>| is_body_line(l),
                ),
                width,
            ),
            "\n"@,
        ),
{
    reveal_strlit("\n");
    reveal_strlit("  [+");
    reveal_strlit("\n  [+");
    let lines = split::lines_of(chars::trimmed(block));
    assert(lines.drop_first() == rest);
    assert(lines[0] == header);
    law_body_lines(rest);
    let body = body_lines(rest);
    let head = truncated_line(chars::trimmed(header), width);
    let f = |l: Seq<char>| "  "@ + truncated_line(l, width);
    let n = if body.len() > 3 {
        3int
    } else {
        body.len() as int
    };
    assert(shown_body(body) == body.take(n));
    lemma_body_text(head, body.take(n), width);
    let start = seq![head] + body.take(n).map_values(f);
    if body.len() > 3 {
        let note = "  [+"@ + number::dec((body.len() - 3) as nat) + " lines omitted]"@;
        let all = start + seq![note];
        assert(all.drop_last() == start);
        assert(all.last() == note);
        assert("\n  [+"@ == "\n"@ + "  [+"@);
        assert(omission_note(body) == "\n"@ + note);
        assert(compose::joined(start, "\n"@) + ("\n"@ + note) == compose::joined(start, "\n"@)
            + "\n"@ + note);
    } else {
        assert(start + Seq::<Seq<char>>::empty() == start);
        assert(head + body_text(body.take(n), width) + Seq::<char>::empty() == head + body_text(
            body.take(n),
            width,
        ));
    }
}

/// Every commit has its entry, in order, and blank blocks have none.
pub proof fn law_commit_entries(blocks: Seq<Seq<char>>, width: nat)
    ensures
        commit_entries(blocks, width) == blocks.filter(
            |b: Seq<char>| !chars::is_blank(b),
        ).map_values(|b: Seq<char>| commit_entry(b, width)),
    decreases blocks.len(),
{
    let p = |b: Seq<char>| !chars::is_blank(b);
    let f = |b: Seq<char>| commit_entry(b, width);
    if blocks.len() == 0 {
        assert(blocks == Seq::<Seq<char>>::empty());
        select::lemma_filter_empty(p);
        assert(Seq::<Seq<char>>::empty().map_values(f) == Seq::<Seq<char>>::empty());
    } else {
        let front = blocks.drop_last();
        let last = blocks.last();
        law_commit_entries(front, width);
        select::lemma_front_and_last(blocks);
        select::lemma_filter_push(front, last, p);
        assert(front.filter(p).push(last).map_values(f) == front.filter(p).map_values(f).push(
            f(last),
        ));
    }
}

/// A log with a limit of the user's shows every commit that git reported, at 120 characters a line.
pub proof fn law_log_of_user_limit(output: Seq<char>, limit: nat)
    ensures
        filtered_log(output, limit, true, false) == chars::trimmed(
            compose::joined(
                split::pieces(output, "---END---"@).filter(
                    |b: Seq<char>| !chars::is_blank(b),
                ).map_values(|b: Seq<char>| commit_entry(b, 120)),
                "\n"@,
            ),
        ),
        filtered_log(output, limit, true, true) == compose::joined(
            split::lines_of(output).map_values(|l: Seq<char>| truncated_line(l, 120)),
            "\n"@,
        ),
{
    let blocks = split::pieces(output, "---END---"@);
    law_commit_entries(blocks, 120);
    assert(blocks.take(blocks.len() as int) == blocks);
    let lines = split::lines_of(output);
    assert(lines.take(lines.len() as int) == lines);
}

/// A log without a limit of the user's shows no more than the limit, the first ones, at 80 characters
/// a line; where git reported no more than that, it shows all.
pub proof fn law_log_of_default_limit(output: Seq<char>, limit: nat)
    ensures
        ({
            let blocks = split::pieces(output, "---END---"@);
            let n = if blocks.len() < limit {
                blocks.len() as int
            } else {
                limit as int
            };
            filtered_log(output, limit, false, false) == chars::trimmed(
                compose::joined(
                    blocks.take(n).filter(|b: Seq<char>| !chars::is_blank(b)).map_values(
                        |b: Seq<char>| commit_entry(b, 80),
                    ),
                    "\n"@,
                ),
            )
        }),
        ({
            let lines = split::lines_of(output);
            let n = if lines.len() < limit {
                lines.len() as int
            } else {
                limit as int
            };
            filtered_log(output, limit, false, true) == compose::joined(
                lines.take(n).map_values(|l: Seq<char>| truncated_line(l, 80)),
                "\n"@,
            )
        }),
{
    let blocks = split::pieces(output, "---END---"@);
    let n = if blocks.len() < limit {
        blocks.len() as int
    } else {
        limit as int
    };
    law_commit_entries(blocks.take(n), 80);
}

/// An argument that has no part in setting a limit.
pub open spec fn sets_no_limit(a: Seq<char>) -> bool {
    !is_dash_number(a) && a != "-n"@ && !chars::has_prefix(a, "--max-count"@)
}

proof fn lemma_limit_shift(first: Seq<char>, rest: Seq<Seq<char>>, i: int)
    requires
        0 <= i,
    ensures
        limit_from(seq![first] + rest, i + 1) == limit_from(rest, i),
    decreases rest.len() - i + 1,
{
    let all = seq![first] + rest;
    if i < rest.len() {
        assert(all[i + 1] == rest[i]);
        if i + 1 < rest.len() {
            assert(all[i + 2] == rest[i + 1]);
        }
        lemma_limit_shift(first, rest, i + 1);
        if i + 2 <= rest.len() {
            lemma_limit_shift(first, rest, i + 2);
        } else {
            assert(limit_from(rest, i + 2) is None);
            assert(limit_from(all, i + 3) is None);
        }
    }
}

/// A limit is found behind other arguments, however many there are.
pub proof fn law_limit_behind_others(others: Seq<Seq<char>>, rest: Seq<Seq<char>>)
    requires
        forall|i: int| 0 <= i < others.len() ==> sets_no_limit(#[trigger] others[i]),
    ensures
        limit_from(others + rest, 0) == limit_from(rest, 0),
    decreases others.len(),
{
    reveal_strlit("--max-count");
    reveal_strlit("--max-count=");
    if others.len() == 0 {
        assert(others + rest == rest);
    } else {
        let tail = others.drop_first();
        assert forall|i: int| 0 <= i < tail.len() implies sets_no_limit(#[trigger] tail[i]) by {
            assert(tail[i] == others[i + 1]);
        }
        law_limit_behind_others(tail, rest);
        let first = others[0];
        assert(sets_no_limit(others[0]));
        assert(others + rest == seq![first] + (tail + rest));
        lemma_limit_shift(first, tail + rest, 0);
        if chars::has_prefix(first, "--max-count="@) {
            assert(first.take(11) == first.take(12).take(11));
            assert("--max-count="@.take(11) == "--max-count"@);
        }
        if first == "--max-count"@ {
            assert(first.take(11) == first);
        }
    }
}

/// An argument that looks like a limit but denotes no number sets none: the search goes on behind it.
pub proof fn law_no_number_no_limit(bad: Seq<char>, rest: Seq<Seq<char>>)
    ensures
        is_dash_number(bad) && count(bad.skip(1)) is None ==> limit_from(seq![bad] + rest, 0)
            == limit_from(rest, 0),
        count(bad) is None ==> limit_from(seq!["-n"@, bad] + rest, 0) == limit_from(rest, 0),
        count(bad) is None ==> limit_from(seq!["--max-count"@, bad] + rest, 0) == limit_from(
            rest,
            0,
        ),
        count(bad) is None ==> limit_from(seq!["--max-count="@ + bad] + rest, 0) == limit_from(
            rest,
            0,
        ),
{
    reveal_strlit("-n");
    reveal_strlit("--max-count");
    reveal_strlit("--max-count=");
    let a = seq![bad] + rest;
    assert(a[0] == bad);
    lemma_limit_shift(bad, rest, 0);
    if is_dash_number(bad) {
        assert(bad != "-n"@) by {
            assert("-n"@[1] == 'n');
        }
        assert(bad[1] != '-');
        assert(bad != "--max-count"@) by {
            assert("--max-count"@[1] == '-');
        }
        if chars::has_prefix(bad, "--max-count="@) {
            assert(bad.take(12)[1] == '-');
        }
    }
    let b = seq!["-n"@, bad] + rest;
    assert(b == seq!["-n"@] + (seq![bad] + rest));
    assert(b[0] == "-n"@ && b[1] == bad);
    lemma_limit_shift("-n"@, seq![bad] + rest, 1);
    let c = seq!["--max-count"@, bad] + rest;
    assert(c == seq!["--max-count"@] + (seq![bad] + rest));
    assert(c[0] == "--max-count"@ && c[1] == bad);
    lemma_limit_shift("--max-count"@, seq![bad] + rest, 1);
    let word = "--max-count="@ + bad;
    let d = seq![word] + rest;
    assert(d[0] == word);
    assert(word[1] == '-');
    assert(word.len() >= 12);
    assert(word.skip(12) == bad);
    lemma_limit_shift(word, rest, 0);
}

} // verus!
