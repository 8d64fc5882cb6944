//! The source lines in reports on golangci-lint: what one version's report has and another's lacks.
use crate::golangci;
use crate::golangci::IssueView;
use crate::tally;
use crate::text::chars;
use crate::text::number;
use crate::text::search;
use crate::text::split;
use vstd::prelude::*;

verus! {

/// A line of a report that shows a source line.
pub open spec fn is_source_line(line: Seq<char>) -> bool {
    chars::has_prefix(line, "      →"@)
}

/// The lines that show no source line.
pub open spec fn without_sources(lines: Seq<Seq<char>>) -> Seq<Seq<char>> {
    lines.filter(|l: Seq<char>| !is_source_line(l))
}

/// Whether each source line that a report may show is a single line.
pub open spec fn single_lines(issues: Seq<IssueView>) -> bool {
    forall|file: Seq<char>, linter: Seq<char>|
        (#[trigger] golangci::first_source(issues, file, linter)) matches Some(line)
            ==> !golangci::shown_source(line).contains('\n')
}

/// Whether no name of a linter or a file holds the arrow that marks a source line.
pub open spec fn plain_names(issues: Seq<IssueView>) -> bool {
    forall|i: int|
        0 <= i < issues.len() ==> !(#[trigger] issues[i]).linter.contains('→')
            && !issues[i].file.contains('→')
}

/// The lines of a text that show no source line.
spec fn kept(s: Seq<char>) -> Seq<Seq<char>> {
    without_sources(split::lines_of(s))
}

/// A text whose last line ends with a character that is no white space.
spec fn tidy(s: Seq<char>) -> bool {
    s.len() >= 2 && s.last() == '\n' && !chars::is_space(s[s.len() - 2])
}

/// A text whose last line shows a source line.
spec fn noted(s: Seq<char>) -> bool {
    exists|a: Seq<char>, source: Seq<char>|
        split::ends_line(a) && !source.contains('\n') && s == #[trigger] with_note(a, source)
}

spec fn with_note(a: Seq<char>, source: Seq<char>) -> Seq<char> {
    a + ("      → "@ + source + "\n"@)
}

proof fn lemma_kept_concat(a: Seq<char>, b: Seq<char>)
    requires
        split::ends_line(a),
    ensures
        kept(a + b) == kept(a) + kept(b),
{
    split::lemma_lines_concat(a, b);
    Seq::filter_distributes_over_add(
        split::lines_of(a),
        split::lines_of(b),
        |l: Seq<char>| !is_source_line(l),
    );
}

proof fn lemma_one_dropped(line: Seq<char>)
    requires
        is_source_line(line),
    ensures
        without_sources(seq![line]) == Seq::<Seq<char>>::empty(),
{
    reveal(Seq::filter);
    let lines = seq![line];
    let f = |l: Seq<char>| !is_source_line(l);
    assert(lines.last() == line);
    assert(lines.drop_last() == Seq::<Seq<char>>::empty());
    assert(lines.drop_last().filter(f) == Seq::<Seq<char>>::empty());
}

proof fn lemma_all_kept(lines: Seq<Seq<char>>)
    requires
        forall|i: int| 0 <= i < lines.len() ==> !is_source_line(#[trigger] lines[i]),
    ensures
        without_sources(lines) == lines,
    decreases lines.len(),
{
    reveal(Seq::filter);
    let f = |l: Seq<char>| !is_source_line(l);
    if lines.len() > 0 {
        let front = lines.drop_last();
        assert forall|i: int| 0 <= i < front.len() implies !is_source_line(#[trigger] front[i]) by {
            assert(front[i] == lines[i]);
        }
        lemma_all_kept(front);
        assert(f(lines.last()));
        assert(front.push(lines.last()) == lines);
    }
}

proof fn lemma_note_dropped(source: Seq<char>)
    requires
        !source.contains('\n'),
    ensures
        kept("      → "@ + source + "\n"@) == Seq::<Seq<char>>::empty(),
{
    reveal_strlit("      → ");
    reveal_strlit("      →");
    reveal_strlit("\n");
    let line = "      → "@ + source;
    assert(line.push('\n') == line + "\n"@);
    assert forall|i: int| 0 <= i < line.len() implies line[i] != '\n' by {
        if i >= 8 {
            assert(line[i] == source[i - 8]);
        }
    }
    split::lemma_one_line(line);
    let shown = split::without_cr(line);
    assert(line[7] == ' ');
    assert(shown.len() >= 7);
    assert(shown.take(7) == "      →"@);
    lemma_one_dropped(shown);
}

proof fn lemma_trimmed_kept(s: Seq<char>)
    requires
        tidy(s) || noted(s),
    ensures
        kept(chars::trimmed_end(s)) == kept(s),
{
    if tidy(s) {
        let t = s.drop_last();
        assert(chars::is_space('\n'));
        assert(chars::trimmed_end(s) == chars::trimmed_end(t));
        assert(chars::trimmed_end(t) == t);
        assert(t.push('\n') == s);
        assert(chars::is_space('\r'));
        split::lemma_lines_last(t);
    } else {
        let (a, source) = choose|a: Seq<char>, source: Seq<char>|
            split::ends_line(a) && !source.contains('\n') && s == #[trigger] with_note(a, source);
        reveal_strlit("      → ");
        reveal_strlit("      →");
        reveal_strlit("\n");
        let note = "      → "@ + source + "\n"@;
        let n: int = a.len() as int;
        assert(s[n + 6] == '→');
        assert(!chars::is_space('→'));
        chars::lemma_trimmed_end_keeps(s, n + 6);
        chars::lemma_trimmed_end(s);
        let r = chars::trimmed_end(s);
        let t = r.skip(n);
        assert(r.take(n) == a);
        assert(r == a + t);
        assert(chars::is_space('\n'));
        assert(r.len() < s.len());
        assert forall|i: int| 0 <= i < t.len() implies t[i] != '\n' by {
            assert(t[i] == note[i]);
            if i >= 8 {
                assert(note[i] == source[i - 8]);
            }
        }
        assert(t.len() >= 7);
        assert(t.take(7) == "      →"@);
        split::lemma_one_line(t);
        lemma_one_dropped(t);
        lemma_note_dropped(source);
        lemma_kept_concat(a, t);
        lemma_kept_concat(a, note);
    }
}

proof fn lemma_ending(a: Seq<char>, b: Seq<char>)
    requires
        split::ends_line(a),
        tidy(b) || noted(b),
    ensures
        tidy(a + b) || noted(a + b),
        split::ends_line(a + b),
{
    reveal_strlit("\n");
    if !tidy(b) {
        let (c, source) = choose|c: Seq<char>, source: Seq<char>|
            split::ends_line(c) && !source.contains('\n') && b == #[trigger] with_note(c, source);
        assert(a + b == with_note(a + c, source));
        assert(split::ends_line(a + c));
        assert(noted(a + b));
    }
}

proof fn lemma_file_linters(
    issues: Seq<IssueView>,
    file: Seq<char>,
    r: Seq<(Seq<char>, nat)>,
    version: nat,
)
    requires
        single_lines(issues),
    ensures
        ({
            let text = golangci::file_linter_lines(issues, file, r, version);
            &&& split::ends_line(text)
            &&& r.len() > 0 ==> tidy(text) || noted(text)
            &&& kept(text) == kept(golangci::file_linter_lines(issues, file, r, 1))
        }),
    decreases r.len(),
{
    if r.len() > 0 {
        reveal_strlit(")\n");
        reveal_strlit("\n");
        let front = r.drop_last();
        let name = r.last().0;
        lemma_file_linters(issues, file, front, version);
        lemma_file_linters(issues, file, front, 1);
        let prev = golangci::file_linter_lines(issues, file, front, version);
        let prev1 = golangci::file_linter_lines(issues, file, front, 1);
        let line = "    "@ + name + " ("@ + number::dec(r.last().1) + ")\n"@;
        let note = golangci::source_note(issues, file, name, version);
        let none = golangci::source_note(issues, file, name, 1);
        assert(golangci::file_linter_lines(issues, file, r, version) == prev + line + note);
        assert(golangci::file_linter_lines(issues, file, r, 1) == prev1 + line + none);
        assert(prev1 + line + none == prev1 + line);
        assert(line[line.len() - 2] == ')');
        assert(tidy(line));
        lemma_ending(prev, line);
        lemma_kept_concat(prev, line);
        lemma_kept_concat(prev1, line);
        if note.len() > 0 {
            let source = golangci::shown_source(
                golangci::first_source(issues, file, name)->0,
            );
            assert(note == "      → "@ + source + "\n"@);
            assert(prev + line + note == with_note(prev + line, source));
            assert(noted(prev + line + note));
            lemma_note_dropped(source);
            lemma_kept_concat(prev + line, note);
            assert(kept(prev + line) + Seq::<Seq<char>>::empty() == kept(prev + line));
        } else {
            assert(prev + line + note == prev + line);
        }
    }
}

proof fn lemma_file(issues: Seq<IssueView>, file: Seq<char>, n: nat, version: nat)
    requires
        single_lines(issues),
    ensures
        ({
            let text = golangci::file_lines(issues, file, n, version);
            &&& tidy(text) || noted(text)
            &&& kept(text) == kept(golangci::file_lines(issues, file, n, 1))
        }),
{
    reveal_strlit(" issues)\n");
    let head = "  "@ + golangci::short_path(file) + " ("@ + number::dec(n) + " issues)\n"@;
    let r = golangci::top(tally::ranking(golangci::linters_in(issues, file)), 3);
    let text = golangci::file_linter_lines(issues, file, r, version);
    let text1 = golangci::file_linter_lines(issues, file, r, 1);
    assert(golangci::file_lines(issues, file, n, version) == head + text);
    assert(golangci::file_lines(issues, file, n, 1) == head + text1);
    assert(head[head.len() - 2] == ')');
    lemma_file_linters(issues, file, r, version);
    lemma_kept_concat(head, text);
    lemma_kept_concat(head, text1);
    if r.len() > 0 {
        lemma_ending(head, text);
    } else {
        assert(head + text == head);
    }
}

proof fn lemma_files(issues: Seq<IssueView>, r: Seq<(Seq<char>, nat)>, version: nat)
    requires
        single_lines(issues),
    ensures
        ({
            let text = golangci::files_lines(issues, r, version);
            &&& split::ends_line(text)
            &&& r.len() > 0 ==> tidy(text) || noted(text)
            &&& kept(text) == kept(golangci::files_lines(issues, r, 1))
        }),
    decreases r.len(),
{
    if r.len() > 0 {
        let front = r.drop_last();
        lemma_files(issues, front, version);
        lemma_files(issues, front, 1);
        lemma_file(issues, r.last().0, r.last().1, version);
        let prev = golangci::files_lines(issues, front, version);
        let prev1 = golangci::files_lines(issues, front, 1);
        let text = golangci::file_lines(issues, r.last().0, r.last().1, version);
        let text1 = golangci::file_lines(issues, r.last().0, r.last().1, 1);
        lemma_ending(prev, text);
        lemma_kept_concat(prev, text);
        lemma_kept_concat(prev1, text1);
    }
}

/// What a report begins with: the totals and the linters.
spec fn totals(issues: Seq<IssueView>) -> Seq<char> {
    "golangci-lint: "@ + number::dec(issues.len()) + " issues in "@ + number::dec(
        tally::distinct(golangci::files(issues)).len(),
    ) + " files\n"@ + "═══════════════════════════════════════\n"@ + "Top linters:\n"@
        + golangci::linter_lines(golangci::top(tally::ranking(golangci::linters(issues)), 10))
        + "\n"@ + "Top files:\n"@
}

proof fn lemma_report(issues: Seq<IssueView>, version: nat)
    requires
        issues.len() > 0,
    ensures
        ({
            let by_file = tally::ranking(golangci::files(issues));
            golangci::report(issues, version) == chars::trimmed_end(
                totals(issues) + golangci::files_lines(issues, golangci::top(by_file, 10), version)
                    + golangci::more_files(by_file.len()),
            )
        }),
        tidy(totals(issues)),
{
    reveal_strlit("golangci-lint: ");
    reveal_strlit("Top files:\n");
    let by_file = tally::ranking(golangci::files(issues));
    let body = totals(issues) + golangci::files_lines(
        issues,
        golangci::top(by_file, 10),
        version,
    ) + golangci::more_files(by_file.len());
    assert(golangci::report(issues, version) == chars::trimmed(body));
    assert("golangci-lint: "@[0] == 'g');
    assert(body[0] == 'g');
    assert(!chars::is_space('g'));
    assert(chars::trimmed_start(body) == body);
    let start = totals(issues);
    assert(start[start.len() - 2] == ':');
}

proof fn lemma_report_kept(issues: Seq<IssueView>, version: nat)
    requires
        single_lines(issues),
        issues.len() > 0,
    ensures
        ({
            let by_file = tally::ranking(golangci::files(issues));
            kept(golangci::report(issues, version)) == kept(totals(issues)) + kept(
                golangci::files_lines(issues, golangci::top(by_file, 10), version),
            ) + kept(golangci::more_files(by_file.len()))
        }),
{
    reveal_strlit(" more files\n");
    let by_file = tally::ranking(golangci::files(issues));
    let r = golangci::top(by_file, 10);
    let start = totals(issues);
    let text = golangci::files_lines(issues, r, version);
    let more = golangci::more_files(by_file.len());
    lemma_report(issues, version);
    lemma_files(issues, r, version);
    lemma_kept_concat(start, text);
    lemma_kept_concat(start + text, more);
    if r.len() > 0 {
        lemma_ending(start, text);
    } else {
        assert(start + text == start);
    }
    if by_file.len() > 10 {
        assert(more[more.len() - 2] == 's');
        lemma_ending(start + text, more);
    } else {
        assert(start + text + more == start + text);
    }
    lemma_trimmed_kept(start + text + more);
}

spec fn arrowless(s: Seq<char>) -> bool {
    forall|i: int| 0 <= i < s.len() ==> s[i] != '→'
}

proof fn lemma_dec_arrowless(n: nat)
    ensures
        arrowless(number::dec(n)),
{
    number::lemma_dec_digits(n);
    let d = number::dec(n);
    assert forall|i: int| 0 <= i < d.len() implies d[i] != '→' by {
        assert(chars::is_digit(d[i]));
    }
}

proof fn lemma_path_arrowless(raw: Seq<char>)
    requires
        arrowless(raw),
    ensures
        arrowless(golangci::short_path(raw)),
{
    reveal_strlit("pkg/");
    reveal_strlit("cmd/");
    reveal_strlit("internal/");
    reveal_strlit("/pkg/");
    reveal_strlit("/cmd/");
    reveal_strlit("/internal/");
    reveal_strlit("/");
    let path = golangci::slashed(raw);
    search::lemma_last_at(path, "/pkg/"@);
    search::lemma_last_at(path, "/cmd/"@);
    search::lemma_last_at(path, "/internal/"@);
    search::lemma_last_at(path, "/"@);
    assert forall|i: int| 0 <= i < path.len() implies path[i] != '→' by {
        assert(raw[i] != '→');
    }
}

proof fn lemma_ranking_arrowless(names: Seq<Seq<char>>, n: int)
    requires
        0 <= n,
        forall|i: int| 0 <= i < names.len() ==> arrowless(#[trigger] names[i]),
    ensures
        forall|i: int|
            0 <= i < golangci::top(tally::ranking(names), n).len() ==> arrowless(
                (#[trigger] golangci::top(tally::ranking(names), n)[i]).0,
            ),
{
    let r = tally::ranking(names);
    assert forall|i: int| 0 <= i < golangci::top(r, n).len() implies arrowless(
        (#[trigger] golangci::top(r, n)[i]).0,
    ) by {
        assert(golangci::top(r, n)[i] == r[i]);
        tally::lemma_ranking_names(names, i);
        let k = choose|k: int| 0 <= k < names.len() && names[k] == r[i].0;
        assert(arrowless(names[k]));
    }
}

proof fn lemma_linters_in_arrowless(issues: Seq<IssueView>, file: Seq<char>)
    requires
        plain_names(issues),
    ensures
        forall|i: int|
            0 <= i < golangci::linters_in(issues, file).len() ==> arrowless(
                #[trigger] golangci::linters_in(issues, file)[i],
            ),
    decreases issues.len(),
{
    if issues.len() > 0 {
        let front = issues.drop_last();
        assert forall|i: int| 0 <= i < front.len() implies !(#[trigger] front[i]).linter.contains(
            '→',
        ) && !front[i].file.contains('→') by {
            assert(front[i] == issues[i]);
        }
        lemma_linters_in_arrowless(front, file);
        let last = issues[issues.len() - 1];
        assert(arrowless(last.linter));
        let prev = golangci::linters_in(front, file);
        let all = golangci::linters_in(issues, file);
        assert forall|i: int| 0 <= i < all.len() implies arrowless(#[trigger] all[i]) by {
            if i < prev.len() {
                assert(all[i] == prev[i]);
            }
        }
    }
}

proof fn lemma_linter_lines_arrowless(r: Seq<(Seq<char>, nat)>)
    requires
        forall|i: int| 0 <= i < r.len() ==> arrowless((#[trigger] r[i]).0),
    ensures
        arrowless(golangci::linter_lines(r)),
    decreases r.len(),
{
    if r.len() > 0 {
        reveal_strlit("  ");
        reveal_strlit(" (");
        reveal_strlit("x)\n");
        let front = r.drop_last();
        assert forall|i: int| 0 <= i < front.len() implies arrowless((#[trigger] front[i]).0) by {
            assert(front[i] == r[i]);
        }
        lemma_linter_lines_arrowless(front);
        lemma_dec_arrowless(r.last().1);
        assert(arrowless(r[r.len() - 1].0));
    }
}

proof fn lemma_file_linters_arrowless(
    issues: Seq<IssueView>,
    file: Seq<char>,
    r: Seq<(Seq<char>, nat)>,
    version: nat,
)
    requires
        version < 2,
        forall|i: int| 0 <= i < r.len() ==> arrowless((#[trigger] r[i]).0),
    ensures
        arrowless(golangci::file_linter_lines(issues, file, r, version)),
    decreases r.len(),
{
    if r.len() > 0 {
        reveal_strlit("    ");
        reveal_strlit(" (");
        reveal_strlit(")\n");
        let front = r.drop_last();
        assert forall|i: int| 0 <= i < front.len() implies arrowless((#[trigger] front[i]).0) by {
            assert(front[i] == r[i]);
        }
        lemma_file_linters_arrowless(issues, file, front, version);
        lemma_dec_arrowless(r.last().1);
        assert(arrowless(r[r.len() - 1].0));
    }
}

proof fn lemma_files_arrowless(
    issues: Seq<IssueView>,
    r: Seq<(Seq<char>, nat)>,
    version: nat,
)
    requires
        version < 2,
        plain_names(issues),
        forall|i: int| 0 <= i < r.len() ==> arrowless((#[trigger] r[i]).0),
    ensures
        arrowless(golangci::files_lines(issues, r, version)),
    decreases r.len(),
{
    if r.len() > 0 {
        reveal_strlit("  ");
        reveal_strlit(" (");
        reveal_strlit(" issues)\n");
        let front = r.drop_last();
        assert forall|i: int| 0 <= i < front.len() implies arrowless((#[trigger] front[i]).0) by {
            assert(front[i] == r[i]);
        }
        lemma_files_arrowless(issues, front, version);
        let file = r.last().0;
        assert(arrowless(r[r.len() - 1].0));
        lemma_path_arrowless(file);
        lemma_dec_arrowless(r.last().1);
        lemma_linters_in_arrowless(issues, file);
        let names = golangci::linters_in(issues, file);
        lemma_ranking_arrowless(names, 3);
        lemma_file_linters_arrowless(
            issues,
            file,
            golangci::top(tally::ranking(names), 3),
            version,
        );
        assert(arrowless(golangci::file_lines(issues, file, r.last().1, version)));
    }
}

proof fn lemma_report_arrowless(issues: Seq<IssueView>, version: nat)
    requires
        version < 2,
        plain_names(issues),
        issues.len() > 0,
    ensures
        arrowless(golangci::report(issues, version)),
{
    reveal_strlit("golangci-lint: ");
    reveal_strlit(" issues in ");
    reveal_strlit(" files\n");
    reveal_strlit("═══════════════════════════════════════\n");
    reveal_strlit("Top linters:\n");
    reveal_strlit("\n");
    reveal_strlit("Top files:\n");
    reveal_strlit("\n... +");
    reveal_strlit(" more files\n");
    let linters = golangci::linters(issues);
    let files = golangci::files(issues);
    assert forall|i: int| 0 <= i < issues.len() implies arrowless(#[trigger] linters[i]) by {
        assert(!issues[i].linter.contains('→'));
    }
    assert forall|i: int| 0 <= i < issues.len() implies arrowless(#[trigger] files[i]) by {
        assert(!issues[i].file.contains('→'));
    }
    lemma_ranking_arrowless(linters, 10);
    lemma_ranking_arrowless(files, 10);
    let by_file = tally::ranking(files);
    lemma_linter_lines_arrowless(golangci::top(tally::ranking(linters), 10));
    lemma_files_arrowless(issues, golangci::top(by_file, 10), version);
    lemma_dec_arrowless(issues.len());
    lemma_dec_arrowless(tally::distinct(files).len());
    if by_file.len() > 10 {
        lemma_dec_arrowless((by_file.len() - 10) as nat);
    }
    assert(arrowless(totals(issues)));
    assert(arrowless(golangci::more_files(by_file.len())));
    lemma_report(issues, version);
    let body = totals(issues) + golangci::files_lines(
        issues,
        golangci::top(by_file, 10),
        version,
    ) + golangci::more_files(by_file.len());
    assert(arrowless(body));
    chars::lemma_trimmed_end(body);
}

/// No line of a report before the second version shows a source line, unless a name is written to
/// look like one.
pub proof fn law_no_source_line_before_v2(issues: Seq<IssueView>, version: nat, i: int)
    requires
        version < 2,
        plain_names(issues),
        0 <= i < split::lines_of(golangci::report(issues, version)).len(),
    ensures
        !is_source_line(split::lines_of(golangci::report(issues, version))[i]),
{
    reveal_strlit("      →");
    let text = golangci::report(issues, version);
    if issues.len() > 0 {
        lemma_report_arrowless(issues, version);
    } else {
        reveal_strlit("golangci-lint: No issues found");
    }
    let line = split::lines_of(text)[i];
    if is_source_line(line) {
        assert(line.take(7)[6] == '→');
        assert(line[6] == '→');
        split::lemma_lines_within(text, i, '→');
    }
}

/// A later version adds source lines and nothing else: without them, its report is that of the first
/// version, line by line. Where a name of the first version's report looks like a source line, it is
/// dropped from both.
pub proof fn law_versions_differ_in_sources(issues: Seq<IssueView>, version: nat)
    requires
        single_lines(issues),
    ensures
        without_sources(split::lines_of(golangci::report(issues, version))) == without_sources(
            split::lines_of(golangci::report(issues, 1)),
        ),
        plain_names(issues) ==> without_sources(split::lines_of(golangci::report(issues, version)))
            == split::lines_of(golangci::report(issues, 1)),
{
    if issues.len() > 0 {
        lemma_report_kept(issues, version);
        lemma_report_kept(issues, 1);
        lemma_files(
            issues,
            golangci::top(tally::ranking(golangci::files(issues)), 10),
            version,
        );
    }
    if plain_names(issues) {
        let lines = split::lines_of(golangci::report(issues, 1));
        assert forall|i: int| 0 <= i < lines.len() implies !is_source_line(#[trigger] lines[i]) by {
            law_no_source_line_before_v2(issues, 1, i);
        }
        lemma_all_kept(lines);
    }
}

proof fn lemma_occurs_trimmed(s: Seq<char>, p: Seq<char>)
    requires
        search::occurs(s, p),
        p.len() > 0,
        !chars::is_space(p.last()),
    ensures
        search::occurs(chars::trimmed_end(s), p),
{
    let k = choose|k: int| search::occurs_at(s, p, k);
    let last: int = k + p.len() - 1;
    assert(s.subrange(k, k + p.len())[p.len() - 1] == s[last]);
    chars::lemma_trimmed_end_keeps(s, last);
    chars::lemma_trimmed_end(s);
    let r = chars::trimmed_end(s);
    assert(r.subrange(k, k + p.len()) == s.subrange(k, k + p.len()));
    assert(search::occurs_at(r, p, k));
}

proof fn lemma_occurs_in(a: Seq<char>, s: Seq<char>, b: Seq<char>, p: Seq<char>)
    requires
        search::occurs(s, p),
    ensures
        search::occurs(a + s + b, p),
{
    let k = choose|k: int| search::occurs_at(s, p, k);
    let whole = a + s + b;
    let i: int = a.len() as int + k;
    assert(whole.subrange(i, i + p.len()) == s.subrange(k, k + p.len()));
    assert(search::occurs_at(whole, p, i));
}

proof fn lemma_in_report(issues: Seq<IssueView>, version: nat, p: Seq<char>)
    requires
        issues.len() > 0,
        p.len() > 0,
        !chars::is_space(p.last()),
        ({
            let by_file = tally::ranking(golangci::files(issues));
            ||| search::occurs(totals(issues), p)
            ||| search::occurs(
                golangci::files_lines(issues, golangci::top(by_file, 10), version),
                p,
            )
            ||| search::occurs(golangci::more_files(by_file.len()), p)
        }),
    ensures
        search::occurs(golangci::report(issues, version), p),
{
    let by_file = tally::ranking(golangci::files(issues));
    let a = totals(issues);
    let b = golangci::files_lines(issues, golangci::top(by_file, 10), version);
    let c = golangci::more_files(by_file.len());
    let none = Seq::<char>::empty();
    if search::occurs(a, p) {
        lemma_occurs_in(none, a, b + c, p);
        assert(none + a + (b + c) == a + b + c);
    } else if search::occurs(b, p) {
        lemma_occurs_in(a, b, c, p);
    } else {
        lemma_occurs_in(a + b, c, none, p);
        assert(a + b + c + none == a + b + c);
    }
    lemma_report(issues, version);
    lemma_occurs_trimmed(a + b + c, p);
}

proof fn lemma_ranking_of_some(names: Seq<Seq<char>>)
    requires
        tally::ranking(names).len() > 0,
    ensures
        names.len() > 0,
{
    if names.len() == 0 {
        assert(names == Seq::<Seq<char>>::empty());
        tally::lemma_ranked_len(tally::tally(names));
    }
}

proof fn lemma_linter_in(r: Seq<(Seq<char>, nat)>, k: int)
    requires
        0 <= k < r.len(),
    ensures
        search::occurs(
            golangci::linter_lines(r),
            "  "@ + r[k].0 + " ("@ + number::dec(r[k].1) + "x)"@,
        ),
{
    reveal_strlit("x)\n");
    reveal_strlit("x)");
    let (name, n) = r[k];
    let one = seq![(name, n)];
    let before = r.take(k);
    let after = r.skip(k + 1);
    assert(r == before + one + after);
    golangci::law_linter_lines(before + one, after, name, n);
    golangci::law_linter_lines(before, one, name, n);
    let s = "  "@ + name + " ("@ + number::dec(n) + "x)"@;
    let none = Seq::<char>::empty();
    assert("x)\n"@ == "x)"@ + seq!['\n']);
    assert(golangci::linter_lines(one) == none + s + seq!['\n']);
    search::lemma_occurs_between(none, s, seq!['\n']);
    lemma_occurs_in(
        golangci::linter_lines(before),
        golangci::linter_lines(one),
        golangci::linter_lines(after),
        s,
    );
}

proof fn lemma_file_in(
    issues: Seq<IssueView>,
    r: Seq<(Seq<char>, nat)>,
    version: nat,
    k: int,
)
    requires
        0 <= k < r.len(),
    ensures
        search::occurs(
            golangci::files_lines(issues, r, version),
            "  "@ + golangci::short_path(r[k].0) + " ("@ + number::dec(r[k].1) + " issues)"@,
        ),
{
    let (file, n) = r[k];
    let one = seq![(file, n)];
    let before = r.take(k);
    let after = r.skip(k + 1);
    assert(r == before + one + after);
    golangci::law_files_lines(issues, before + one, after, version);
    golangci::law_files_lines(issues, before, one, version);
    let s = "  "@ + golangci::short_path(file) + " ("@ + number::dec(n) + " issues)"@;
    lemma_one_file(issues, file, n, version);
    lemma_occurs_in(
        golangci::files_lines(issues, before, version),
        golangci::files_lines(issues, one, version),
        golangci::files_lines(issues, after, version),
        s,
    );
}

proof fn lemma_one_file(issues: Seq<IssueView>, file: Seq<char>, n: nat, version: nat)
    ensures
        search::occurs(
            golangci::files_lines(issues, seq![(file, n)], version),
            "  "@ + golangci::short_path(file) + " ("@ + number::dec(n) + " issues)"@,
        ),
{
    reveal_strlit(" issues)\n");
    reveal_strlit(" issues)");
    golangci::law_file_lines(issues, file, n, version);
    let found = tally::ranking(
        issues.filter(|i: IssueView| i.file == file).map_values(|i: IssueView| i.linter),
    );
    let below = golangci::file_linter_lines(
        issues,
        file,
        if found.len() > 3 {
            found.take(3)
        } else {
            found
        },
        version,
    );
    let s = "  "@ + golangci::short_path(file) + " ("@ + number::dec(n) + " issues)"@;
    let none = Seq::<char>::empty();
    assert(" issues)\n"@ == " issues)"@ + seq!['\n']);
    assert(golangci::files_lines(issues, seq![(file, n)], version) == none + s + (seq!['\n']
        + below));
    search::lemma_occurs_between(none, s, seq!['\n'] + below);
}

/// How many issues there are, and in how many files, stands first in a report.
pub proof fn law_totals_come_first(issues: Seq<IssueView>, version: nat)
    requires
        issues.len() > 0,
    ensures
        chars::has_prefix(
            golangci::report(issues, version),
            "golangci-lint: "@ + number::dec(issues.len()) + " issues in "@ + number::dec(
                tally::distinct(issues.map_values(|i: IssueView| i.file)).len(),
            ) + " files"@,
        ),
{
    reveal_strlit(" files\n");
    reveal_strlit(" files");
    let n = number::dec(tally::distinct(issues.map_values(|i: IssueView| i.file)).len());
    let p = "golangci-lint: "@ + number::dec(issues.len()) + " issues in "@ + n + " files"@;
    let by_file = tally::ranking(golangci::files(issues));
    let body = totals(issues) + golangci::files_lines(
        issues,
        golangci::top(by_file, 10),
        version,
    ) + golangci::more_files(by_file.len());
    lemma_report(issues, version);
    assert(" files\n"@ == " files"@.push('\n'));
    assert(body.take(p.len() as int) == p);
    let last: int = p.len() as int - 1;
    assert(body[last] == p[last]);
    assert(p[last] == 's');
    chars::lemma_trimmed_end_keeps(body, last);
    chars::lemma_trimmed_end(body);
    assert(golangci::report(issues, version).take(p.len() as int) == p);
}

/// Each of the ten linters that found most is shown with how much it found.
pub proof fn law_top_linters_shown(issues: Seq<IssueView>, version: nat, k: int)
    requires
        0 <= k < tally::ranking(issues.map_values(|i: IssueView| i.linter)).len(),
        k < 10,
    ensures
        ({
            let (linter, n) = tally::ranking(issues.map_values(|i: IssueView| i.linter))[k];
            search::occurs(
                golangci::report(issues, version),
                "  "@ + linter + " ("@ + number::dec(n) + "x)"@,
            )
        }),
{
    reveal_strlit("x)");
    let all = tally::ranking(golangci::linters(issues));
    let r = golangci::top(all, 10);
    lemma_ranking_of_some(golangci::linters(issues));
    assert(r[k] == all[k]);
    lemma_linter_in(r, k);
    let s = "  "@ + all[k].0 + " ("@ + number::dec(all[k].1) + "x)"@;
    let head = "golangci-lint: "@ + number::dec(issues.len()) + " issues in "@ + number::dec(
        tally::distinct(golangci::files(issues)).len(),
    ) + " files\n"@ + "═══════════════════════════════════════\n"@ + "Top linters:\n"@;
    let tail = "\n"@ + "Top files:\n"@;
    lemma_occurs_in(head, golangci::linter_lines(r), tail, s);
    assert(totals(issues) == head + golangci::linter_lines(r) + tail);
    assert(s.last() == ')');
    lemma_in_report(issues, version, s);
}

/// Each of the ten files that have most issues is shown with how many it has.
pub proof fn law_top_files_shown(issues: Seq<IssueView>, version: nat, k: int)
    requires
        0 <= k < tally::ranking(issues.map_values(|i: IssueView| i.file)).len(),
        k < 10,
    ensures
        ({
            let (file, n) = tally::ranking(issues.map_values(|i: IssueView| i.file))[k];
            search::occurs(
                golangci::report(issues, version),
                "  "@ + golangci::short_path(file) + " ("@ + number::dec(n) + " issues)"@,
            )
        }),
{
    reveal_strlit(" issues)");
    let all = tally::ranking(golangci::files(issues));
    let r = golangci::top(all, 10);
    lemma_ranking_of_some(golangci::files(issues));
    assert(r[k] == all[k]);
    lemma_file_in(issues, r, version, k);
    let s = "  "@ + golangci::short_path(all[k].0) + " ("@ + number::dec(all[k].1) + " issues)"@;
    assert(s.last() == ')');
    lemma_in_report(issues, version, s);
}

/// Files that are left out are counted.
pub proof fn law_other_files_counted(issues: Seq<IssueView>, version: nat)
    requires
        tally::ranking(issues.map_values(|i: IssueView| i.file)).len() > 10,
    ensures
        search::occurs(
            golangci::report(issues, version),
            "... +"@ + number::dec(
                (tally::ranking(issues.map_values(|i: IssueView| i.file)).len() - 10) as nat,
            ) + " more files"@,
        ),
{
    reveal_strlit("\n... +");
    reveal_strlit("... +");
    reveal_strlit(" more files\n");
    reveal_strlit(" more files");
    let all = tally::ranking(golangci::files(issues));
    lemma_ranking_of_some(golangci::files(issues));
    let s = "... +"@ + number::dec((all.len() - 10) as nat) + " more files"@;
    assert("\n... +"@ == seq!['\n'] + "... +"@);
    assert(" more files\n"@ == " more files"@ + seq!['\n']);
    assert(golangci::more_files(all.len()) == seq!['\n'] + s + seq!['\n']);
    search::lemma_occurs_between(seq!['\n'], s, seq!['\n']);
    assert(s.last() == 's');
    lemma_in_report(issues, version, s);
}

} // verus!
