//! What a compacted diff consists of: its files, their hunks and the lines of a hunk.
use crate::git::diff;
use crate::git::diff::Compact;
use crate::text::chars;
use crate::text::compose;
use crate::text::search;
use crate::text::select;
use crate::text::split;
use vstd::prelude::*;

verus! {

/// A line that begins a file.
pub open spec fn is_file(line: Seq<char>) -> bool {
    chars::has_prefix(line, "diff --git"@)
}

/// A line that begins a hunk.
pub open spec fn is_hunk(line: Seq<char>) -> bool {
    chars::has_prefix(line, "@@"@) && !is_file(line)
}

/// Whether none of the lines begins a file.
pub open spec fn of_one_file(lines: Seq<Seq<char>>) -> bool {
    forall|i: int| 0 <= i < lines.len() ==> !is_file(#[trigger] lines[i])
}

/// Whether none of the lines begins a file or a hunk.
pub open spec fn of_one_hunk(lines: Seq<Seq<char>>) -> bool {
    forall|i: int| 0 <= i < lines.len() ==> !is_file(#[trigger] lines[i]) && !is_hunk(lines[i])
}

/// A line of a hunk that adds something.
pub open spec fn adds(line: Seq<char>) -> bool {
    chars::has_prefix(line, "+"@) && !chars::has_prefix(line, "+++"@)
}

/// A line of a hunk that removes something.
pub open spec fn removes(line: Seq<char>) -> bool {
    chars::has_prefix(line, "-"@) && !chars::has_prefix(line, "---"@)
}

/// Whether the line at `i` stands in a hunk: behind a line that begins one.
pub open spec fn stands_in_hunk(lines: Seq<Seq<char>>, i: int) -> bool {
    exists|h: int| 0 <= h < i && is_hunk(#[trigger] lines[h])
}

/// The lines that stand in a hunk.
pub open spec fn lines_in_hunks(lines: Seq<Seq<char>>) -> Seq<Seq<char>> {
    Seq::new(lines.len(), |i: int| i).filter(|i: int| stands_in_hunk(lines, i)).map_values(
        |i: int| lines[i],
    )
}

/// How many lines the hunks of a file add.
pub open spec fn lines_added(lines: Seq<Seq<char>>) -> nat {
    lines_in_hunks(lines).filter(|l: Seq<char>| adds(l)).len()
}

/// How many lines the hunks of a file remove.
pub open spec fn lines_removed(lines: Seq<Seq<char>>) -> nat {
    lines_in_hunks(lines).filter(|l: Seq<char>| removes(l)).len()
}

/// The lines from the first on that adds or removes something.
pub open spec fn from_first_change(lines: Seq<Seq<char>>) -> Seq<Seq<char>>
    decreases lines.len(),
{
    if lines.len() == 0 || adds(lines[0]) || removes(lines[0]) {
        lines
    } else {
        from_first_change(lines.drop_first())
    }
}

/// The lines of a hunk that can be shown: from the first change on, without remarks such as that
/// the file does not end with a line feed.
pub open spec fn hunk_body(lines: Seq<Seq<char>>) -> Seq<Seq<char>> {
    from_first_change(lines).filter(|l: Seq<char>| !chars::has_prefix(l, "\\"@))
}

/// How many changes stand behind the first `MAX_HUNK_LINES` lines of a hunk.
pub open spec fn changes_beyond(body: Seq<Seq<char>>) -> nat {
    if body.len() > diff::MAX_HUNK_LINES {
        body.skip(diff::MAX_HUNK_LINES as int).filter(|l: Seq<char>| adds(l) || removes(l)).len()
    } else {
        0
    }
}

/// The compaction after all of the lines, however many entries it writes.
pub open spec fn read(st: Compact, lines: Seq<Seq<char>>) -> Compact
    decreases lines.len(),
{
    if lines.len() == 0 {
        st
    } else {
        diff::advance(read(st, lines.drop_last()), lines.last())
    }
}

/// The entries that are written while the lines are read.
pub open spec fn written(lines: Seq<Seq<char>>) -> Seq<Seq<char>> {
    read(diff::start(), lines).out
}

/// The entries of the lines where there is no limit, without the hint.
pub open spec fn rendered(lines: Seq<Seq<char>>) -> Seq<Seq<char>> {
    diff::totalled(diff::flushed(read(diff::start(), lines))).out
}

/// Whether some hunk of the lines is not shown in full.
pub open spec fn shortened(lines: Seq<Seq<char>>) -> bool {
    diff::flushed(read(diff::start(), lines)).truncated
}

proof fn lemma_read_first(st: Compact, lines: Seq<Seq<char>>)
    requires
        lines.len() > 0,
    ensures
        read(st, lines) == read(diff::advance(st, lines[0]), lines.drop_first()),
    decreases lines.len(),
{
    let rest = lines.drop_first();
    if rest.len() == 0 {
        assert(lines.drop_last() == Seq::<Seq<char>>::empty());
        assert(read(st, lines.drop_last()) == st);
    } else {
        lemma_read_first(st, lines.drop_last());
        assert(lines.drop_last().drop_first() == rest.drop_last());
        assert(lines.drop_last()[0] == lines[0]);
    }
}

proof fn lemma_read_concat(st: Compact, a: Seq<Seq<char>>, b: Seq<Seq<char>>)
    ensures
        read(st, a + b) == read(read(st, a), b),
    decreases b.len(),
{
    if b.len() == 0 {
        assert(a + b == a);
    } else {
        assert((a + b).drop_last() == a + b.drop_last());
        lemma_read_concat(st, a, b.drop_last());
    }
}

/// `t` goes on as `s` does, behind the entries `before`.
spec fn behind(t: Compact, s: Compact, before: Seq<Seq<char>>, told: bool) -> bool {
    &&& t.out == before + s.out
    &&& t.file == s.file
    &&& t.added == s.added
    &&& t.removed == s.removed
    &&& t.in_hunk == s.in_hunk
    &&& t.shown == s.shown
    &&& t.skipped == s.skipped
    &&& t.truncated == (told || s.truncated)
}

proof fn lemma_behind_ends(t: Compact, s: Compact, before: Seq<Seq<char>>, told: bool)
    requires
        behind(t, s, before, told),
    ensures
        behind(diff::flushed(t), diff::flushed(s), before, told),
        behind(
            diff::totalled(diff::flushed(t)),
            diff::totalled(diff::flushed(s)),
            before,
            told,
        ),
{
    let note = diff::skip_note(s.skipped);
    assert(before + s.out.push(note) == (before + s.out).push(note));
    let f = diff::flushed(s);
    let totals = diff::totals_note(f.added, f.removed);
    assert(before + f.out.push(totals) == (before + f.out).push(totals));
}

proof fn lemma_behind_line(
    t: Compact,
    s: Compact,
    before: Seq<Seq<char>>,
    told: bool,
    line: Seq<char>,
)
    requires
        behind(t, s, before, told),
    ensures
        behind(diff::advance(t, line), diff::advance(s, line), before, told),
{
    lemma_behind_ends(t, s, before, told);
    let entry = "  "@ + line;
    let title = "\n"@ + diff::header_path(line);
    let f = diff::flushed(s).out;
    let e = diff::totalled(diff::flushed(s)).out;
    assert(before + s.out.push(entry) == (before + s.out).push(entry));
    assert(before + f.push(entry) == (before + f).push(entry));
    assert(before + e.push(title) == (before + e).push(title));
}

proof fn lemma_behind(
    t: Compact,
    s: Compact,
    before: Seq<Seq<char>>,
    told: bool,
    lines: Seq<Seq<char>>,
)
    requires
        behind(t, s, before, told),
    ensures
        behind(read(t, lines), read(s, lines), before, told),
    decreases lines.len(),
{
    if lines.len() > 0 {
        lemma_behind(t, s, before, told, lines.drop_last());
        lemma_behind_line(
            read(t, lines.drop_last()),
            read(s, lines.drop_last()),
            before,
            told,
            lines.last(),
        );
    }
}

proof fn lemma_kind(line: Seq<char>, in_hunk: bool)
    ensures
        (diff::kind(line, in_hunk) is File) == is_file(line),
        (diff::kind(line, in_hunk) is Hunk) == is_hunk(line),
        (diff::kind(line, in_hunk) is Added) == (in_hunk && adds(line)),
        (diff::kind(line, in_hunk) is Removed) == (in_hunk && removes(line)),
        (diff::kind(line, in_hunk) is Context) ==> in_hunk && !chars::has_prefix(line, "\\"@),
        in_hunk && !is_file(line) && !is_hunk(line) && !adds(line) && !removes(line)
            && !chars::has_prefix(line, "\\"@) ==> diff::kind(line, in_hunk) is Context,
{
    reveal_strlit("+");
    reveal_strlit("-");
    reveal_strlit("@@");
    reveal_strlit("diff --git");
    reveal_strlit("\\");
    if line.len() > 0 {
        assert(line.take(1) == "+"@ <==> line[0] == '+') by {
            assert(line.take(1)[0] == line[0]);
            if line[0] == '+' {
                assert(line.take(1) == "+"@);
            }
        }
        assert(line.take(1) == "-"@ <==> line[0] == '-') by {
            assert(line.take(1)[0] == line[0]);
            if line[0] == '-' {
                assert(line.take(1) == "-"@);
            }
        }
    }
    if is_file(line) {
        assert(line.take("diff --git"@.len() as int)[0] == 'd');
    }
    if chars::has_prefix(line, "@@"@) {
        assert(line.take(2)[0] == '@');
    }
}

/// The kind of a line of a diff is told by how it begins: nothing but the header of a file or a hunk
/// counts outside hunks, and in one the changes are the lines with a sign that are no file name.
pub proof fn law_line_kinds(line: Seq<char>, rest: Seq<char>)
    ensures
        diff::kind("diff --git"@ + rest, true) is File,
        diff::kind("diff --git"@ + rest, false) is File,
        diff::kind("@@"@ + rest, true) is Hunk,
        diff::kind("@@"@ + rest, false) is Hunk,
        diff::kind(" "@ + rest, true) is Context,
        !chars::has_prefix(rest, "++"@) ==> diff::kind("+"@ + rest, true) is Added,
        !chars::has_prefix(rest, "--"@) ==> diff::kind("-"@ + rest, true) is Removed,
        diff::kind("+++"@ + rest, true) is Context,
        diff::kind("---"@ + rest, true) is Context,
        diff::kind("\\"@ + rest, true) is Other,
        !is_file(line) && !is_hunk(line) ==> diff::kind(line, false) is Other,
{
    reveal_strlit("diff --git");
    reveal_strlit("@@");
    reveal_strlit(" ");
    reveal_strlit("+");
    reveal_strlit("++");
    reveal_strlit("+++");
    reveal_strlit("-");
    reveal_strlit("--");
    reveal_strlit("---");
    reveal_strlit("\\");
    let file = "diff --git"@ + rest;
    assert(file.take("diff --git"@.len() as int) == "diff --git"@);
    let hunk = "@@"@ + rest;
    assert(hunk.take(2) == "@@"@);
    assert(hunk[0] == '@');
    let blank = " "@ + rest;
    assert(blank[0] == ' ');
    let plus = "+"@ + rest;
    assert(plus[0] == '+');
    let minus = "-"@ + rest;
    assert(minus[0] == '-');
    let plusses = "+++"@ + rest;
    assert(plusses[0] == '+');
    assert(plusses.take(3) == "+++"@);
    let minuses = "---"@ + rest;
    assert(minuses[0] == '-');
    assert(minuses.take(3) == "---"@);
    let remark = "\\"@ + rest;
    assert(remark[0] == '\\');
    assert(remark.take(1) == "\\"@);
    assert forall|s: Seq<char>, c: char|
        s.len() > 0 && s[0] == c && c != 'd' implies !#[trigger] starts_with(s, c, "diff --git"@) by {
        if chars::has_prefix(s, "diff --git"@) {
            assert(s.take("diff --git"@.len() as int)[0] == s[0]);
        }
    }
    assert forall|s: Seq<char>, c: char|
        s.len() > 0 && s[0] == c && c != '@' implies !#[trigger] starts_with(s, c, "@@"@) by {
        if chars::has_prefix(s, "@@"@) {
            assert(s.take(2)[0] == s[0]);
        }
    }
    assert forall|s: Seq<char>, c: char|
        s.len() > 0 && s[0] == c && c != '\\' implies !#[trigger] starts_with(s, c, "\\"@) by {
        if chars::has_prefix(s, "\\"@) {
            assert(s.take(1)[0] == s[0]);
        }
    }
    assert(!starts_with(hunk, '@', "diff --git"@));
    assert(!starts_with(blank, ' ', "diff --git"@));
    assert(!starts_with(blank, ' ', "@@"@));
    assert(!starts_with(blank, ' ', "\\"@));
    assert(!starts_with(plus, '+', "diff --git"@));
    assert(!starts_with(plus, '+', "@@"@));
    assert(!starts_with(minus, '-', "diff --git"@));
    assert(!starts_with(minus, '-', "@@"@));
    assert(!starts_with(plusses, '+', "diff --git"@));
    assert(!starts_with(plusses, '+', "@@"@));
    assert(!starts_with(plusses, '+', "\\"@));
    assert(!starts_with(minuses, '-', "diff --git"@));
    assert(!starts_with(minuses, '-', "@@"@));
    assert(!starts_with(minuses, '-', "\\"@));
    assert(!starts_with(remark, '\\', "diff --git"@));
    assert(!starts_with(remark, '\\', "@@"@));
    if chars::has_prefix(plus, "+++"@) {
        assert(plus.take(3).skip(1) == rest.take(2));
        assert("+++"@.skip(1) == "++"@);
    }
    if chars::has_prefix(minus, "---"@) {
        assert(minus.take(3).skip(1) == rest.take(2));
        assert("---"@.skip(1) == "--"@);
    }
}

spec fn starts_with(s: Seq<char>, c: char, p: Seq<char>) -> bool {
    chars::has_prefix(s, p)
}

/// A diff is rendered file by file: what stands before the header of a file has no part in how the
/// file is shown, and nothing of the file changes what was shown before.
pub proof fn law_files_apart(a: Seq<Seq<char>>, b: Seq<Seq<char>>)
    requires
        b.len() > 0,
        is_file(b[0]),
    ensures
        rendered(a + b) == rendered(a) + rendered(b),
        shortened(a + b) == (shortened(a) || shortened(b)),
{
    let s0 = diff::start();
    let s = read(s0, a);
    let before = rendered(a);
    let told = shortened(a);
    lemma_read_concat(s0, a, b);
    lemma_read_first(s, b);
    lemma_read_first(s0, b);
    lemma_kind(b[0], s.in_hunk);
    lemma_kind(b[0], false);
    let t1 = diff::advance(s, b[0]);
    let s1 = diff::advance(s0, b[0]);
    let title = "\n"@ + diff::header_path(b[0]);
    assert(s1.out == seq![title]);
    assert(t1.out == before.push(title));
    assert(before.push(title) == before + seq![title]);
    assert(behind(t1, s1, before, told));
    lemma_behind(t1, s1, before, told, b.drop_first());
    lemma_behind_ends(
        read(t1, b.drop_first()),
        read(s1, b.drop_first()),
        before,
        told,
    );
}

proof fn lemma_no_file(lines: Seq<Seq<char>>)
    requires
        of_one_file(lines),
    ensures
        read(diff::start(), lines).file == Seq::<char>::empty(),
        read(diff::start(), lines).in_hunk == stands_in_hunk(lines, lines.len() as int),
        rendered(lines) == diff::flushed(read(diff::start(), lines)).out,
    decreases lines.len(),
{
    if lines.len() > 0 {
        let front = lines.drop_last();
        let s = read(diff::start(), front);
        assert forall|i: int| 0 <= i < front.len() implies !is_file(#[trigger] front[i]) by {
            assert(front[i] == lines[i]);
        }
        lemma_no_file(front);
        assert(!is_file(lines[lines.len() - 1]));
        lemma_kind(lines.last(), s.in_hunk);
        lemma_in_hunk_push(front, lines.last());
        assert(lines == front.push(lines.last()));
    }
}

proof fn lemma_in_hunk_push(lines: Seq<Seq<char>>, line: Seq<char>)
    ensures
        stands_in_hunk(lines.push(line), lines.len() as int + 1) == (stands_in_hunk(
            lines,
            lines.len() as int,
        ) || is_hunk(line)),
        forall|i: int|
            0 <= i <= lines.len() ==> #[trigger] stands_in_hunk(lines.push(line), i)
                == stands_in_hunk(lines, i),
{
    let all = lines.push(line);
    assert forall|i: int| 0 <= i <= lines.len() implies #[trigger] stands_in_hunk(all, i)
        == stands_in_hunk(lines, i) by {
        if stands_in_hunk(all, i) {
            let h = choose|h: int| 0 <= h < i && is_hunk(#[trigger] all[h]);
            assert(is_hunk(lines[h]));
        }
        if stands_in_hunk(lines, i) {
            let h = choose|h: int| 0 <= h < i && is_hunk(#[trigger] lines[h]);
            assert(is_hunk(all[h]));
        }
    }
    let n = lines.len() as int;
    if is_hunk(line) {
        assert(is_hunk(all[n]));
    }
    if stands_in_hunk(lines, n) {
        let h = choose|h: int| 0 <= h < n && is_hunk(#[trigger] lines[h]);
        assert(is_hunk(all[h]));
    }
    if stands_in_hunk(all, n + 1) && !is_hunk(line) {
        let h = choose|h: int| 0 <= h < n + 1 && is_hunk(#[trigger] all[h]);
        assert(h < n);
        assert(is_hunk(lines[h]));
    }
}

proof fn lemma_lines_in_hunks_push(lines: Seq<Seq<char>>, line: Seq<char>)
    ensures
        lines_in_hunks(lines.push(line)) == if stands_in_hunk(lines, lines.len() as int) {
            lines_in_hunks(lines).push(line)
        } else {
            lines_in_hunks(lines)
        },
{
    let all = lines.push(line);
    let n = lines.len() as int;
    lemma_in_hunk_push(lines, line);
    let was = Seq::new(lines.len(), |i: int| i);
    let now = Seq::new(all.len(), |i: int| i);
    assert(now == was.push(n));
    let p = |i: int| stands_in_hunk(lines, i);
    let q = |i: int| stands_in_hunk(all, i);
    select::lemma_filter_push(was, n, q);
    lemma_filter_same(was, p, q);
    let kept = was.filter(p);
    let f = |i: int| lines[i];
    let g = |i: int| all[i];
    assert(kept.map_values(f) == kept.map_values(g)) by {
        assert forall|k: int| 0 <= k < kept.len() implies #[trigger] kept.map_values(f)[k]
            == kept.map_values(g)[k] by {
            assert(kept.contains(kept[k]));
            select::lemma_filter_contains(was, kept[k], p);
            let j = choose|j: int| 0 <= j < was.len() && was[j] == kept[k];
            assert(lines[kept[k]] == all[kept[k]]);
        }
    }
    assert(kept.push(n).map_values(g) == kept.map_values(g).push(line));
}

proof fn lemma_filter_same(s: Seq<int>, p: spec_fn(int) -> bool, q: spec_fn(int) -> bool)
    requires
        forall|i: int| 0 <= i < s.len() ==> p(#[trigger] s[i]) == q(s[i]),
    ensures
        s.filter(p) == s.filter(q),
    decreases s.len(),
{
    if s.len() == 0 {
        assert(s == Seq::<int>::empty());
        select::lemma_filter_empty(p);
        select::lemma_filter_empty(q);
    } else {
        let front = s.drop_last();
        select::lemma_front_and_last(s);
        assert forall|i: int| 0 <= i < front.len() implies p(#[trigger] front[i]) == q(front[i]) by {
            assert(front[i] == s[i]);
        }
        lemma_filter_same(front, p, q);
        select::lemma_filter_push(front, s.last(), p);
        select::lemma_filter_push(front, s.last(), q);
        assert(p(s[s.len() - 1]) == q(s[s.len() - 1]));
    }
}

proof fn lemma_counts(st: Compact, lines: Seq<Seq<char>>)
    requires
        of_one_file(lines),
        !st.in_hunk,
    ensures
        read(st, lines).added == st.added + lines_added(lines),
        read(st, lines).removed == st.removed + lines_removed(lines),
        read(st, lines).file == st.file,
        read(st, lines).in_hunk == stands_in_hunk(lines, lines.len() as int),
    decreases lines.len(),
{
    let a = |l: Seq<char>| adds(l);
    let d = |l: Seq<char>| removes(l);
    if lines.len() == 0 {
        assert(Seq::new(lines.len(), |i: int| i) == Seq::<int>::empty());
        select::lemma_filter_empty(|i: int| stands_in_hunk(lines, i));
        assert(lines_in_hunks(lines) == Seq::<Seq<char>>::empty());
        select::lemma_filter_empty(a);
        select::lemma_filter_empty(d);
    } else {
        let front = lines.drop_last();
        let line = lines.last();
        let s = read(st, front);
        assert forall|i: int| 0 <= i < front.len() implies !is_file(#[trigger] front[i]) by {
            assert(front[i] == lines[i]);
        }
        lemma_counts(st, front);
        assert(!is_file(lines[lines.len() - 1]));
        lemma_kind(line, s.in_hunk);
        lemma_in_hunk_push(front, line);
        lemma_lines_in_hunks_push(front, line);
        assert(lines == front.push(line));
        select::lemma_filter_push(lines_in_hunks(front), line, a);
        select::lemma_filter_push(lines_in_hunks(front), line, d);
        if is_hunk(line) {
            reveal_strlit("+");
            reveal_strlit("-");
            reveal_strlit("@@");
            assert(line.take(2)[0] == line[0]);
            if adds(line) {
                assert(line.take(1)[0] == line[0]);
            }
            if removes(line) {
                assert(line.take(1)[0] == line[0]);
            }
        }
        if adds(line) && removes(line) {
            reveal_strlit("+");
            reveal_strlit("-");
            assert(line.take(1)[0] == line[0]);
        }
    }
}

proof fn lemma_file_behind(f: Seq<char>, lines: Seq<Seq<char>>)
    requires
        is_file(f),
        of_one_file(lines),
    ensures
        ({
            let t = read(diff::advance(diff::start(), f), lines);
            let s = read(diff::start(), lines);
            &&& t.out == seq!["\n"@ + diff::header_path(f)] + s.out
            &&& t.in_hunk == s.in_hunk
            &&& t.shown == s.shown
            &&& t.skipped == s.skipped
            &&& t.truncated == s.truncated
        }),
    decreases lines.len(),
{
    let title = seq!["\n"@ + diff::header_path(f)];
    lemma_kind(f, false);
    if lines.len() == 0 {
        assert(diff::advance(diff::start(), f).out == title);
        assert(title + Seq::<Seq<char>>::empty() == title);
    } else {
        let front = lines.drop_last();
        let line = lines.last();
        assert forall|i: int| 0 <= i < front.len() implies !is_file(#[trigger] front[i]) by {
            assert(front[i] == lines[i]);
        }
        lemma_file_behind(f, front);
        assert(!is_file(lines[lines.len() - 1]));
        let s = read(diff::start(), front);
        lemma_kind(line, s.in_hunk);
        let entry = "  "@ + line;
        let note = diff::skip_note(s.skipped);
        assert((title + s.out).push(entry) == title + s.out.push(entry));
        assert((title + s.out).push(note) == title + s.out.push(note));
        assert((title + s.out).push(note).push(entry) == title + s.out.push(note).push(entry));
    }
}

/// A file is its name, its hunks, and how many lines all of its hunks add and remove; where they
/// change nothing there are no totals.
pub proof fn law_file(f: Seq<char>, lines: Seq<Seq<char>>)
    requires
        is_file(f),
        diff::header_path(f).len() > 0,
        of_one_file(lines),
    ensures
        ({
            let a = lines_added(lines);
            let r = lines_removed(lines);
            rendered(seq![f] + lines) == seq!["\n"@ + diff::header_path(f)] + rendered(lines) + if a
                > 0 || r > 0 {
                seq![diff::totals_note(a, r)]
            } else {
                Seq::empty()
            }
        }),
        shortened(seq![f] + lines) == shortened(lines),
{
    let all = seq![f] + lines;
    let title = seq!["\n"@ + diff::header_path(f)];
    let one = diff::advance(diff::start(), f);
    lemma_read_first(diff::start(), all);
    assert(all.drop_first() == lines);
    lemma_file_behind(f, lines);
    lemma_no_file(lines);
    lemma_kind(f, false);
    lemma_counts(one, lines);
    let t = read(one, lines);
    let s = read(diff::start(), lines);
    let note = diff::skip_note(s.skipped);
    assert((title + s.out).push(note) == title + s.out.push(note));
    let e = diff::flushed(t);
    assert(e.out == title + diff::flushed(s).out);
    let totals = diff::totals_note(e.added, e.removed);
    assert(e.out.push(totals) == e.out + seq![totals]);
    assert(e.out + Seq::<Seq<char>>::empty() == e.out);
}

/// The hunks of a file are shown one after another, and none changes how another is shown.
pub proof fn law_hunks_apart(a: Seq<Seq<char>>, b: Seq<Seq<char>>)
    requires
        of_one_file(a),
        of_one_file(b),
        b.len() > 0,
        is_hunk(b[0]),
    ensures
        rendered(a + b) == rendered(a) + rendered(b),
        shortened(a + b) == (shortened(a) || shortened(b)),
{
    let s0 = diff::start();
    let s = read(s0, a);
    let before = rendered(a);
    let told = shortened(a);
    lemma_no_file(a);
    lemma_no_file(b);
    lemma_read_concat(s0, a, b);
    lemma_read_first(s, b);
    lemma_read_first(s0, b);
    lemma_kind(b[0], s.in_hunk);
    lemma_kind(b[0], false);
    let t1 = diff::advance(s, b[0]);
    let s1 = diff::advance(s0, b[0]);
    let entry = "  "@ + b[0];
    assert(s1.out == seq![entry]);
    assert(t1.out == before.push(entry));
    assert(before.push(entry) == before + seq![entry]);
    let u1 = Compact { added: 0, removed: 0, ..t1 };
    assert(behind(u1, s1, before, told));
    let rest = b.drop_first();
    lemma_behind(u1, s1, before, told, rest);
    lemma_counters_apart(t1, u1, rest);
    lemma_behind_ends(read(u1, rest), read(s1, rest), before, told);
    assert forall|i: int| 0 <= i < (a + b).len() implies !is_file(#[trigger] (a + b)[i]) by {
        if i < a.len() {
            assert((a + b)[i] == a[i]);
        } else {
            assert((a + b)[i] == b[i - a.len()]);
        }
    }
    lemma_no_file(a + b);
}

proof fn lemma_counters_apart(t: Compact, u: Compact, lines: Seq<Seq<char>>)
    requires
        u == (Compact { added: u.added, removed: u.removed, ..t }),
        forall|i: int| 0 <= i < lines.len() ==> !is_file(#[trigger] lines[i]),
    ensures
        read(u, lines) == (Compact {
            added: read(u, lines).added,
            removed: read(u, lines).removed,
            ..read(t, lines)
        }),
    decreases lines.len(),
{
    if lines.len() > 0 {
        let front = lines.drop_last();
        assert forall|i: int| 0 <= i < front.len() implies !is_file(#[trigger] front[i]) by {
            assert(front[i] == lines[i]);
        }
        lemma_counters_apart(t, u, front);
        assert(!is_file(lines[lines.len() - 1]));
        lemma_kind(lines.last(), read(t, front).in_hunk);
    }
}

/// What stands before the first file and the first hunk is not shown.
pub proof fn law_preamble_dropped(lines: Seq<Seq<char>>)
    requires
        of_one_hunk(lines),
    ensures
        rendered(lines) == Seq::<Seq<char>>::empty(),
        !shortened(lines),
        read(diff::start(), lines) == diff::start(),
    decreases lines.len(),
{
    if lines.len() > 0 {
        let front = lines.drop_last();
        assert forall|i: int| 0 <= i < front.len() implies !is_file(#[trigger] front[i])
            && !is_hunk(front[i]) by {
            assert(front[i] == lines[i]);
        }
        law_preamble_dropped(front);
        let last = lines[lines.len() - 1];
        assert(!is_file(last) && !is_hunk(last));
        lemma_kind(last, false);
        assert(diff::kind(last, false) is Other);
    }
}

proof fn lemma_from_first_change_push(lines: Seq<Seq<char>>, line: Seq<char>)
    ensures
        from_first_change(lines.push(line)) == if from_first_change(lines).len() > 0 || adds(line)
            || removes(line) {
            from_first_change(lines).push(line)
        } else {
            Seq::empty()
        },
    decreases lines.len(),
{
    let all = lines.push(line);
    if lines.len() == 0 {
        assert(all[0] == line);
        assert(all.drop_first() == Seq::<Seq<char>>::empty());
        assert(from_first_change(all.drop_first()) == Seq::<Seq<char>>::empty());
        assert(from_first_change(lines) == lines);
        assert(all == lines.push(line));
    } else {
        assert(all[0] == lines[0]);
        if !adds(lines[0]) && !removes(lines[0]) {
            assert(all.drop_first() == lines.drop_first().push(line));
            lemma_from_first_change_push(lines.drop_first(), line);
        }
    }
}

spec fn capped(body: Seq<Seq<char>>) -> Seq<Seq<char>> {
    if body.len() > diff::MAX_HUNK_LINES {
        body.take(diff::MAX_HUNK_LINES as int)
    } else {
        body
    }
}

proof fn lemma_hunk_state(h: Seq<char>, lines: Seq<Seq<char>>)
    requires
        is_hunk(h),
        of_one_hunk(lines),
    ensures
        ({
            let body = hunk_body(lines);
            let s = read(diff::advance(diff::start(), h), lines);
            &&& s.out == seq!["  "@ + h] + compose::indented("  "@, capped(body))
            &&& s.shown == capped(body).len()
            &&& s.skipped == changes_beyond(body)
            &&& s.in_hunk
            &&& !s.truncated
            &&& s.file.len() == 0
            &&& from_first_change(lines).len() > 0 ==> body.len() > 0
        }),
    decreases lines.len(),
{
    let head = seq!["  "@ + h];
    let keep = |l: Seq<char>| !chars::has_prefix(l, "\\"@);
    let changes = |l: Seq<char>| adds(l) || removes(l);
    let max = diff::MAX_HUNK_LINES as int;
    lemma_kind(h, false);
    if lines.len() == 0 {
        select::lemma_filter_empty(keep);
        assert(from_first_change(lines) == Seq::<Seq<char>>::empty());
        assert(hunk_body(lines) == Seq::<Seq<char>>::empty());
        assert(diff::advance(diff::start(), h).out == head);
        assert(head + compose::indented("  "@, Seq::<Seq<char>>::empty()) == head);
    } else {
        let front = lines.drop_last();
        let line = lines.last();
        assert forall|i: int| 0 <= i < front.len() implies !is_file(#[trigger] front[i])
            && !is_hunk(front[i]) by {
            assert(front[i] == lines[i]);
        }
        lemma_hunk_state(h, front);
        let last = lines[lines.len() - 1];
        assert(!is_file(last) && !is_hunk(last));
        let s = read(diff::advance(diff::start(), h), front);
        let was = hunk_body(front);
        let body = hunk_body(lines);
        lemma_kind(line, true);
        assert(lines == front.push(line));
        lemma_from_first_change_push(front, line);
        select::lemma_filter_push(from_first_change(front), line, keep);
        select::lemma_filter_empty(keep);
        if changes(line) {
            reveal_strlit("+");
            reveal_strlit("-");
            reveal_strlit("\\");
            assert(line.take(1)[0] == line[0]);
            assert(keep(line)) by {
                if chars::has_prefix(line, "\\"@) {
                    assert(line.take(1)[0] == '\\');
                }
            }
        }
        if from_first_change(front).len() == 0 {
            assert(from_first_change(front) == Seq::<Seq<char>>::empty());
            assert(was == Seq::<Seq<char>>::empty());
        }
        let entry = "  "@ + line;
        if body.len() > was.len() {
            assert(body == was.push(line));
            if was.len() < max {
                assert(capped(body) == capped(was).push(line));
                assert(compose::indented("  "@, capped(was).push(line)) == compose::indented(
                    "  "@,
                    capped(was),
                ).push(entry));
                assert((head + compose::indented("  "@, capped(was))).push(entry) == head
                    + compose::indented("  "@, capped(was)).push(entry));
            } else {
                assert(capped(body) == capped(was)) by {
                    assert(body.take(max) == was.take(max));
                    if was.len() == max {
                        assert(was.take(max) == was);
                    }
                }
                if was.len() > max {
                    assert(body.skip(max) == was.skip(max).push(line));
                    select::lemma_filter_push(was.skip(max), line, changes);
                } else {
                    assert(was.skip(max) == Seq::<Seq<char>>::empty());
                    assert(body.skip(max) == Seq::<Seq<char>>::empty().push(line));
                    select::lemma_filter_empty(changes);
                    select::lemma_filter_push(Seq::<Seq<char>>::empty(), line, changes);
                }
            }
        } else {
            assert(body == was);
        }
    }
}

/// A hunk is its header and its lines from the first change on, `MAX_HUNK_LINES` of them at most.
/// The changes behind those are counted, and then the hunk is not shown in full.
pub proof fn law_hunk(h: Seq<char>, lines: Seq<Seq<char>>)
    requires
        is_hunk(h),
        of_one_hunk(lines),
    ensures
        ({
            let body = hunk_body(lines);
            let n = changes_beyond(body);
            let shown = if body.len() > diff::MAX_HUNK_LINES {
                body.take(diff::MAX_HUNK_LINES as int)
            } else {
                body
            };
            rendered(seq![h] + lines) == seq!["  "@ + h] + compose::indented("  "@, shown) + if n > 0 {
                seq![diff::skip_note(n)]
            } else {
                Seq::empty()
            }
        }),
        shortened(seq![h] + lines) == (changes_beyond(hunk_body(lines)) > 0),
{
    let all = seq![h] + lines;
    lemma_read_first(diff::start(), all);
    assert(all.drop_first() == lines);
    lemma_hunk_state(h, lines);
    let s = read(diff::advance(diff::start(), h), lines);
    let note = diff::skip_note(s.skipped);
    assert(s.out.push(note) == s.out + seq![note]);
    assert(s.out + Seq::<Seq<char>>::empty() == s.out);
}

proof fn lemma_written_grows(st: Compact, lines: Seq<Seq<char>>, k: int)
    requires
        0 <= k <= lines.len(),
    ensures
        read(st, lines.take(k)).out.len() <= read(st, lines).out.len(),
        read(st, lines).out.take(read(st, lines.take(k)).out.len() as int) == read(
            st,
            lines.take(k),
        ).out,
    decreases lines.len(),
{
    if k == lines.len() {
        assert(lines.take(k) == lines);
    } else {
        let front = lines.drop_last();
        lemma_written_grows(st, front, k);
        assert(front.take(k) == lines.take(k));
        let n = read(st, lines.take(k)).out.len() as int;
        let was = read(st, front);
        let now = diff::advance(was, lines.last());
        assert(now.out.take(was.out.len() as int) == was.out);
        assert(now.out.take(n) == now.out.take(was.out.len() as int).take(n));
    }
}

proof fn lemma_scan_is_read(st: Compact, lines: Seq<Seq<char>>, max: nat)
    ensures
        lines.len() == 0 || read(st, lines).out.len() < max ==> diff::scan(st, lines, max) == read(
            st,
            lines,
        ),
        lines.len() > 0 && read(st, lines).out.len() >= max ==> exists|k: int|
            0 < k <= lines.len() && max <= (#[trigger] read(st, lines.take(k))).out.len()
                && diff::scan(st, lines, max) == (Compact {
                out: read(st, lines.take(k)).out.push(diff::cut_note()),
                truncated: true,
                ..read(st, lines.take(k))
            }) && forall|j: int|
                0 < j < k ==> (#[trigger] read(st, lines.take(j))).out.len() < max,
    decreases lines.len(),
{
    if lines.len() > 0 {
        let next = diff::advance(st, lines[0]);
        let rest = lines.drop_first();
        lemma_read_first(st, lines);
        lemma_written_grows(st, lines, 1);
        assert(lines.take(1).drop_last() == Seq::<Seq<char>>::empty());
        assert(lines.take(1).last() == lines[0]);
        assert(read(st, Seq::<Seq<char>>::empty()) == st);
        assert(read(st, lines.take(1)) == next);
        if next.out.len() >= max {
            let k: int = 1;
            assert(read(st, lines.take(k)) == next);
        } else {
            lemma_scan_is_read(next, rest, max);
            if read(st, lines).out.len() >= max {
                assert(rest.len() > 0) by {
                    if rest.len() == 0 {
                        assert(read(next, rest) == next);
                    }
                }
                let k = choose|k: int|
                    0 < k <= rest.len() && max <= (#[trigger] read(next, rest.take(k))).out.len()
                        && diff::scan(next, rest, max) == (Compact {
                        out: read(next, rest.take(k)).out.push(diff::cut_note()),
                        truncated: true,
                        ..read(next, rest.take(k))
                    }) && forall|j: int|
                        0 < j < k ==> (#[trigger] read(next, rest.take(j))).out.len() < max;
                assert forall|j: int| 0 < j <= lines.len() implies #[trigger] read(st, lines.take(j))
                    == read(next, rest.take(j - 1)) by {
                    lemma_read_first(st, lines.take(j));
                    assert(lines.take(j).drop_first() == rest.take(j - 1));
                }
                assert(read(st, lines.take(k + 1)) == read(next, rest.take(k)));
                assert forall|j: int| 0 < j < k + 1 implies (#[trigger] read(
                    st,
                    lines.take(j),
                )).out.len() < max by {
                    if j > 1 {
                        assert(read(next, rest.take(j - 1)).out.len() < max);
                    }
                }
            }
        }
    }
}

/// A diff that stays below the limit is rendered in full, with the hint behind it exactly where a
/// hunk is not shown in full.
pub proof fn law_uncut(text: Seq<char>, max: nat)
    requires
        split::lines_of(text).len() == 0 || written(split::lines_of(text)).len() < max,
    ensures
        diff::compact_entries(text, max) == rendered(split::lines_of(text)) + if shortened(
            split::lines_of(text),
        ) {
            seq![diff::recovery_hint()]
        } else {
            Seq::empty()
        },
{
    let lines = split::lines_of(text);
    lemma_scan_is_read(diff::start(), lines, max);
    let r = rendered(lines);
    assert(r.push(diff::recovery_hint()) == r + seq![diff::recovery_hint()]);
    assert(r + Seq::<Seq<char>>::empty() == r);
}

/// A diff that reaches the limit shows the first entries of its rendering, `max` or up to two more,
/// then says that there are more changes, and ends with the hint.
pub proof fn law_cut(text: Seq<char>, max: nat)
    requires
        split::lines_of(text).len() > 0,
        written(split::lines_of(text)).len() >= max,
    ensures
        exists|n: int|
            max <= n <= max + 2 && n <= written(split::lines_of(text)).len()
                && diff::compact_entries(text, max).len() <= n + 4 && #[trigger] written(
                split::lines_of(text),
            ).take(n).push(diff::cut_note()) == diff::compact_entries(text, max).take(n + 1),
        diff::compact_entries(text, max).last() == diff::recovery_hint(),
{
    let lines = split::lines_of(text);
    let s0 = diff::start();
    lemma_scan_is_read(s0, lines, max);
    let k = choose|k: int|
        0 < k <= lines.len() && max <= (#[trigger] read(s0, lines.take(k))).out.len()
            && diff::scan(s0, lines, max) == (Compact {
            out: read(s0, lines.take(k)).out.push(diff::cut_note()),
            truncated: true,
            ..read(s0, lines.take(k))
        }) && forall|j: int| 0 < j < k ==> (#[trigger] read(s0, lines.take(j))).out.len() < max;
    let s = read(s0, lines.take(k));
    let n = s.out.len() as int;
    lemma_written_grows(s0, lines, k);
    assert(lines.take(k).drop_last() == lines.take(k - 1));
    let was = read(s0, lines.take(k - 1));
    assert(s.out.len() <= was.out.len() + 3);
    if k == 1 {
        assert(lines.take(0) == Seq::<Seq<char>>::empty());
        assert(was == s0);
        assert(s.out.len() <= 1) by {
            assert(s == diff::advance(s0, lines.take(1).last()));
        }
    } else {
        assert(was.out.len() < max);
    }
    let all = diff::compact_entries(text, max);
    let cut = diff::scan(s0, lines, max).out;
    assert(all.take(n + 1) == cut);
    assert(written(lines).take(n).push(diff::cut_note()) == cut);
}

/// A header names the path behind ` b/`.
pub proof fn law_header_path(path: Seq<char>)
    requires
        !search::occurs(path, " b/"@),
    ensures
        diff::header_path("diff --git a/"@ + path + " b/"@ + path) == path,
        is_file("diff --git a/"@ + path + " b/"@ + path),
{
    reveal_strlit("diff --git");
    reveal_strlit("diff --git a/");
    reveal_strlit(" b/");
    let head = "diff --git a/"@;
    let p = " b/"@;
    let s = head + path + p + path;
    let k: int = head.len() as int + path.len() as int;
    assert(s.take("diff --git"@.len() as int) == "diff --git"@);
    assert(s.subrange(k, k + 3) == p);
    assert(search::occurs_at(s, p, k));
    assert forall|j: int| 0 <= j < k implies !search::occurs_at(s, p, j) by {
        if search::occurs_at(s, p, j) {
            let w = s.subrange(j, j + 3);
            assert(w[0] == s[j] && w[1] == s[j + 1] && w[2] == s[j + 2]);
            assert(s[j] == ' ' && s[j + 1] == 'b' && s[j + 2] == '/');
            if j < head.len() {
                assert(s[j] == head[j]);
                if j + 1 < head.len() {
                    assert(s[j + 1] == head[j + 1]);
                }
            } else {
                let i = j - head.len();
                if j + 3 <= k {
                    assert(path.subrange(i, i + 3) == p);
                    assert(search::occurs_at(path, p, i));
                } else if j + 2 == k {
                    assert(s[k] == ' ');
                } else {
                    assert(s[k] == ' ');
                }
            }
        }
    }
    search::lemma_first_at(s, p);
    assert(search::first_at(s, p) == Some(k));
    assert(s.take(k) == head + path);
    assert(s.skip(k + 3) == path);
    search::lemma_first_at(path, p);
    assert(split::pieces(path, p) == seq![path]);
    assert(split::pieces(s, p) == seq![head + path] + seq![path]);
}

} // verus!
