//! `golangci-lint`: issues grouped by linter and by file.
use crate::session;
use crate::session::{CaptureResult, CaptureView};
use crate::tally;
use crate::text::chars;
use crate::text::compose;
use crate::text::number;
use crate::text::search;
use crate::text::select;
use crate::text::split;
use crate::utils;
use vstd::prelude::*;
use vstd::slice::slice_subrange;

verus! {

/// Where an issue is.
#[derive(Debug)]
pub struct Position {
    /// The file.
    pub filename: String,
    /// The line.
    pub line: usize,
    /// The column.
    pub column: usize,
    /// The offset in the file.
    pub offset: usize,
}

/// An issue.
#[derive(Debug)]
pub struct Issue {
    /// The linter that found it.
    pub from_linter: String,
    /// What it is.
    pub text: String,
    /// Where it is.
    pub pos: Position,
    /// The lines that it is about.
    pub source_lines: Vec<String>,
    /// How severe it is.
    pub severity: String,
}

/// What golangci-lint reports.
#[derive(Debug)]
pub struct GolangciOutput {
    /// The issues.
    pub issues: Vec<Issue>,
}

/// The model of an issue: what the report shows of it.
pub struct IssueView {
    /// The linter that found it.
    pub linter: Seq<char>,
    /// The file that it is in.
    pub file: Seq<char>,
    /// The lines that it is about.
    pub source: Seq<Seq<char>>,
}

impl View for Issue {
    type V = IssueView;

    open spec fn view(&self) -> IssueView {
        IssueView {
            linter: self.from_linter@,
            file: self.pos.filename@,
            source: self.source_lines.deep_view(),
        }
    }
}

/// The model of a sequence of issues.
pub open spec fn issues_of(v: Seq<Issue>) -> Seq<IssueView> {
    v.map_values(|i: Issue| i@)
}

impl View for GolangciOutput {
    type V = Seq<IssueView>;

    open spec fn view(&self) -> Seq<IssueView> {
        issues_of(self.issues@)
    }
}

/// A word that begins with a number and a dot, as a version does.
pub open spec fn major_in(word: Seq<char>) -> Option<nat> {
    if word.contains('.') {
        number::parsed_nat(split::pieces(word, "."@)[0], u32::MAX as nat)
    } else {
        None
    }
}

/// The major version that the first such word tells, one where there is none.
pub open spec fn major_version(words: Seq<Seq<char>>) -> nat
    decreases words.len(),
{
    if words.len() == 0 {
        1
    } else {
        match major_in(words[0]) {
            Some(n) => n,
            None => major_version(words.drop_first()),
        }
    }
}

fn read_major(word: &[char]) -> (r: Option<u32>)
    ensures
        match r {
            Some(n) => major_in(word@) == Some(n as nat),
            None => major_in(word@) is None,
        },
{
    if !search::contains_char(word, '.') {
        return None;
    }
    proof {
        reveal_strlit(".");
    }
    let parts = split::split(word, ".");
    assert(split::views(parts@)[0] == parts@[0]@);
    number::parse_u32(parts[0])
}

/// The major version in the output of `golangci-lint --version`; one where none is found.
pub fn parse_major_version(version_output: &str) -> (r: u32)
    ensures
        r == major_version(split::words_of(version_output@)),
{
    let text = chars::to_chars(version_output);
    let words = split::words(text.as_slice());
    let ghost all = split::views(words@);
    let mut i: usize = 0;
    assert(all.skip(0) == all);
    while i < words.len()
        invariant
            i <= words@.len(),
            all == split::views(words@),
            all == split::words_of(version_output@),
            major_version(all.skip(i as int)) == major_version(all),
        decreases words@.len() - i,
    {
        assert(all.skip(i as int)[0] == words@[i as int]@);
        assert(all.skip(i as int).drop_first() == all.skip(i + 1));
        match read_major(words[i]) {
            Some(n) => {
                return n;
            },
            None => {},
        }
        i += 1;
    }
    1
}

/// The major version, given what `golangci-lint --version` brought: read from standard output, or
/// from standard error where that is blank.
pub open spec fn detected_version(event: Option<CaptureView>) -> nat {
    match event {
        Some(c) => major_version(
            split::words_of(
                if chars::is_blank(c.stdout) {
                    c.stderr
                } else {
                    c.stdout
                },
            ),
        ),
        None => 1,
    }
}

/// The major version, given what `golangci-lint --version` brought; one where it could not be run.
pub fn detect_major_version(event: &Option<CaptureResult>) -> (r: u32)
    ensures
        r == detected_version(session::captured(*event)),
{
    match event {
        Some(result) => {
            let text = chars::to_chars(result.stdout.as_str());
            if chars::blank(text.as_slice()) {
                parse_major_version(result.stderr.as_str())
            } else {
                parse_major_version(result.stdout.as_str())
            }
        },
        None => 1,
    }
}

/// A path with slashes.
pub open spec fn slashed(path: Seq<char>) -> Seq<char> {
    path.map_values(|c: char| if c == '\\' { '/' } else { c })
}

/// A path from the last directory of a usual name on, or the file alone.
pub open spec fn short_path(raw: Seq<char>) -> Seq<char> {
    let path = slashed(raw);
    match search::last_at(path, "/pkg/"@) {
        Some(p) => "pkg/"@ + path.skip(p + 5),
        None => match search::last_at(path, "/cmd/"@) {
            Some(p) => "cmd/"@ + path.skip(p + 5),
            None => match search::last_at(path, "/internal/"@) {
                Some(p) => "internal/"@ + path.skip(p + 10),
                None => match search::last_at(path, "/"@) {
                    Some(p) => path.skip(p + 1),
                    None => path,
                },
            },
        },
    }
}

fn with_slashes(path: &str) -> (r: Vec<char>)
    ensures
        r@ == slashed(path@),
{
    let text = chars::to_chars(path);
    let ghost f = |c: char| if c == '\\' { '/' } else { c };
    let mut out: Vec<char> = Vec::new();
    let mut i: usize = 0;
    assert(out@ == path@.take(0).map_values(f));
    while i < text.len()
        invariant
            i <= text@.len(),
            text@ == path@,
            f == (|c: char| if c == '\\' { '/' } else { c }),
            out@ == path@.take(i as int).map_values(f),
        decreases text@.len() - i,
    {
        let c = text[i];
        out.push(
            if c == '\\' {
                '/'
            } else {
                c
            },
        );
        assert(path@.take(i + 1) == path@.take(i as int).push(c));
        assert(out@ == path@.take(i + 1).map_values(f));
        i += 1;
    }
    assert(path@.take(path@.len() as int) == path@);
    out
}

fn tail_behind(path: &[char], prefix: &str, from: usize) -> (r: String)
    requires
        from <= path@.len(),
    ensures
        r@ == prefix@ + path@.skip(from as int),
{
    let rest = slice_subrange(path, from, path.len());
    assert(rest@ == path@.skip(from as int));
    compose::prefixed(prefix, rest)
}

/// Shortens a path: to what stands from the last `pkg`, `cmd` or `internal` on, or to the file
/// name.
pub fn compact_path(path: &str) -> (r: String)
    ensures
        r@ == short_path(path@),
{
    let text = with_slashes(path);
    let p = text.as_slice();
    let n: usize = p.len();
    proof {
        reveal_strlit("/pkg/");
        reveal_strlit("/cmd/");
        reveal_strlit("/internal/");
        reveal_strlit("/");
        reveal_strlit("");
        search::lemma_last_at(p@, "/pkg/"@);
        search::lemma_last_at(p@, "/cmd/"@);
        search::lemma_last_at(p@, "/internal/"@);
        search::lemma_last_at(p@, "/"@);
    }
    match search::rfind(p, "/pkg/") {
        Some(at) => {
            return tail_behind(p, "pkg/", at + 5);
        },
        None => {},
    }
    match search::rfind(p, "/cmd/") {
        Some(at) => {
            return tail_behind(p, "cmd/", at + 5);
        },
        None => {},
    }
    match search::rfind(p, "/internal/") {
        Some(at) => {
            return tail_behind(p, "internal/", at + 10);
        },
        None => {},
    }
    match search::rfind(p, "/") {
        Some(at) => {
            let r = tail_behind(p, "", at + 1);
            assert(r@ == p@.skip(at + 1));
            r
        },
        None => chars::string_of(p),
    }
}

/// The linters of the issues.
pub open spec fn linters(issues: Seq<IssueView>) -> Seq<Seq<char>> {
    issues.map_values(|i: IssueView| i.linter)
}

/// The files of the issues.
pub open spec fn files(issues: Seq<IssueView>) -> Seq<Seq<char>> {
    issues.map_values(|i: IssueView| i.file)
}

/// The linters of the issues in one file.
pub open spec fn linters_in(issues: Seq<IssueView>, file: Seq<char>) -> Seq<Seq<char>>
    decreases issues.len(),
{
    if issues.len() == 0 {
        Seq::empty()
    } else if issues.last().file == file {
        linters_in(issues.drop_last(), file).push(issues.last().linter)
    } else {
        linters_in(issues.drop_last(), file)
    }
}

/// The first entries of a ranking.
pub open spec fn top(r: Seq<(Seq<char>, nat)>, n: int) -> Seq<(Seq<char>, nat)> {
    if r.len() > n {
        r.take(n)
    } else {
        r
    }
}

/// The lines on linters.
pub open spec fn linter_lines(r: Seq<(Seq<char>, nat)>) -> Seq<char>
    decreases r.len(),
{
    if r.len() == 0 {
        Seq::empty()
    } else {
        linter_lines(r.drop_last()) + "  "@ + r.last().0 + " ("@ + number::dec(r.last().1)
            + "x)\n"@
    }
}

/// The first line that the first issue of a linter in a file is about.
pub open spec fn first_source(
    issues: Seq<IssueView>,
    file: Seq<char>,
    linter: Seq<char>,
) -> Option<Seq<char>>
    decreases issues.len(),
{
    if issues.len() == 0 {
        None
    } else if issues[0].file == file && issues[0].linter == linter {
        if issues[0].source.len() > 0 {
            Some(issues[0].source[0])
        } else {
            None
        }
    } else {
        first_source(issues.drop_first(), file, linter)
    }
}

/// How a source line is shown: trimmed and cut to 80 characters.
pub open spec fn shown_source(line: Seq<char>) -> Seq<char> {
    let t = chars::trimmed(line);
    if t.len() > 80 {
        t.take(80)
    } else {
        t
    }
}

/// The source line of a linter in a file, where the version reports one.
pub open spec fn source_note(
    issues: Seq<IssueView>,
    file: Seq<char>,
    linter: Seq<char>,
    version: nat,
) -> Seq<char> {
    if version >= 2 {
        match first_source(issues, file, linter) {
            Some(line) => "      → "@ + shown_source(line) + "\n"@,
            None => Seq::empty(),
        }
    } else {
        Seq::empty()
    }
}

/// The lines on the linters in one file.
pub open spec fn file_linter_lines(
    issues: Seq<IssueView>,
    file: Seq<char>,
    r: Seq<(Seq<char>, nat)>,
    version: nat,
) -> Seq<char>
    decreases r.len(),
{
    if r.len() == 0 {
        Seq::empty()
    } else {
        file_linter_lines(issues, file, r.drop_last(), version) + "    "@ + r.last().0 + " ("@
            + number::dec(r.last().1) + ")\n"@ + source_note(issues, file, r.last().0, version)
    }
}

/// The lines on one file: how many issues it has, and its first three linters.
pub open spec fn file_lines(
    issues: Seq<IssueView>,
    file: Seq<char>,
    n: nat,
    version: nat,
) -> Seq<char> {
    "  "@ + short_path(file) + " ("@ + number::dec(n) + " issues)\n"@ + file_linter_lines(
        issues,
        file,
        top(tally::ranking(linters_in(issues, file)), 3),
        version,
    )
}

/// The lines on files.
pub open spec fn files_lines(
    issues: Seq<IssueView>,
    r: Seq<(Seq<char>, nat)>,
    version: nat,
) -> Seq<char>
    decreases r.len(),
{
    if r.len() == 0 {
        Seq::empty()
    } else {
        files_lines(issues, r.drop_last(), version) + file_lines(
            issues,
            r.last().0,
            r.last().1,
            version,
        )
    }
}

/// The line on the files that are left out.
pub open spec fn more_files(n: nat) -> Seq<char> {
    if n > 10 {
        "\n... +"@ + number::dec((n - 10) as nat) + " more files\n"@
    } else {
        Seq::empty()
    }
}

/// The report on issues: how many, the ten linters and the ten files that have most.
pub open spec fn report(issues: Seq<IssueView>, version: nat) -> Seq<char> {
    if issues.len() == 0 {
        "golangci-lint: No issues found"@
    } else {
        let by_file = tally::ranking(files(issues));
        chars::trimmed(
            "golangci-lint: "@ + number::dec(issues.len()) + " issues in "@ + number::dec(
                tally::distinct(files(issues)).len(),
            ) + " files\n"@ + "═══════════════════════════════════════\n"@ + "Top linters:\n"@
                + linter_lines(top(tally::ranking(linters(issues)), 10)) + "\n"@ + "Top files:\n"@
                + files_lines(issues, top(by_file, 10), version) + more_files(by_file.len()),
        )
    }
}

/// The report on an output that could not be parsed: why, and the output itself, cut.
pub open spec fn unparsed(reason: Seq<char>, output: Seq<char>, max: nat) -> Seq<char> {
    "golangci-lint (JSON parse failed: "@ + reason + ")\n"@ + utils::truncated(output, max)
}

/// The report on an output: on its issues where it could be parsed.
pub open spec fn filtered(
    parsed: Result<GolangciOutput, String>,
    output: Seq<char>,
    version: nat,
    max: nat,
) -> Seq<char> {
    match parsed {
        Ok(found) => report(found@, version),
        Err(reason) => unparsed(reason@, output, max),
    }
}

fn names_of_linters(issues: &Vec<Issue>) -> (r: Vec<String>)
    ensures
        r.deep_view() == linters(issues_of(issues@)),
{
    let mut out: Vec<String> = Vec::new();
    let mut i: usize = 0;
    let ghost all = issues_of(issues@);
    assert(out.deep_view() == linters(all.take(0)));
    while i < issues.len()
        invariant
            i <= issues@.len(),
            all == issues_of(issues@),
            out.deep_view() == linters(all.take(i as int)),
        decreases issues@.len() - i,
    {
        compose::push_str(&mut out, issues[i].from_linter.as_str());
        assert(all.take(i + 1) == all.take(i as int).push(issues@[i as int]@));
        assert(out.deep_view() == linters(all.take(i + 1)));
        i += 1;
    }
    assert(all.take(all.len() as int) == all);
    out
}

fn names_of_files(issues: &Vec<Issue>) -> (r: Vec<String>)
    ensures
        r.deep_view() == files(issues_of(issues@)),
{
    let mut out: Vec<String> = Vec::new();
    let mut i: usize = 0;
    let ghost all = issues_of(issues@);
    assert(out.deep_view() == files(all.take(0)));
    while i < issues.len()
        invariant
            i <= issues@.len(),
            all == issues_of(issues@),
            out.deep_view() == files(all.take(i as int)),
        decreases issues@.len() - i,
    {
        compose::push_str(&mut out, issues[i].pos.filename.as_str());
        assert(all.take(i + 1) == all.take(i as int).push(issues@[i as int]@));
        assert(out.deep_view() == files(all.take(i + 1)));
        i += 1;
    }
    assert(all.take(all.len() as int) == all);
    out
}

fn names_of_linters_in(issues: &Vec<Issue>, file: &str) -> (r: Vec<String>)
    ensures
        r.deep_view() == linters_in(issues_of(issues@), file@),
{
    let mut out: Vec<String> = Vec::new();
    let mut i: usize = 0;
    let ghost all = issues_of(issues@);
    assert(out.deep_view() == linters_in(all.take(0), file@));
    while i < issues.len()
        invariant
            i <= issues@.len(),
            all == issues_of(issues@),
            out.deep_view() == linters_in(all.take(i as int), file@),
        decreases issues@.len() - i,
    {
        assert(all.take(i + 1).drop_last() == all.take(i as int));
        assert(all.take(i + 1).last() == issues@[i as int]@);
        if chars::same_str(issues[i].pos.filename.as_str(), file) {
            compose::push_str(&mut out, issues[i].from_linter.as_str());
        }
        i += 1;
    }
    assert(all.take(all.len() as int) == all);
    out
}

fn find_source(issues: &Vec<Issue>, file: &str, linter: &str) -> (r: Option<String>)
    ensures
        compose::optional(r) == first_source(issues_of(issues@), file@, linter@),
{
    let mut i: usize = 0;
    let ghost all = issues_of(issues@);
    assert(all.skip(0) == all);
    while i < issues.len()
        invariant
            i <= issues@.len(),
            all == issues_of(issues@),
            first_source(all.skip(i as int), file@, linter@) == first_source(all, file@, linter@),
        decreases issues@.len() - i,
    {
        assert(all.skip(i as int)[0] == issues@[i as int]@);
        assert(all.skip(i as int).drop_first() == all.skip(i + 1));
        let issue = &issues[i];
        if chars::same_str(issue.pos.filename.as_str(), file) && chars::same_str(
            issue.from_linter.as_str(),
            linter,
        ) {
            if issue.source_lines.len() > 0 {
                return Some(issue.source_lines[0].as_str().to_string());
            }
            return None;
        }
        i += 1;
    }
    None
}

fn append_source(out: &mut String, issues: &Vec<Issue>, file: &str, linter: &str, version: u32)
    ensures
        final(out)@ == old(out)@ + source_note(
            issues_of(issues@),
            file@,
            linter@,
            version as nat,
        ),
{
    let ghost before = out@;
    assert(before + Seq::<char>::empty() == before);
    if version >= 2 {
        match find_source(issues, file, linter) {
            Some(line) => {
                let text = chars::to_chars(line.as_str());
                let trimmed = chars::trim(text.as_slice());
                let shown = if trimmed.len() > 80 {
                    slice_subrange(trimmed, 0, 80)
                } else {
                    trimmed
                };
                assert(shown@ == shown_source(line@));
                out.append("      → ");
                out.append(chars::string_of(shown).as_str());
                out.append("\n");
                assert(out@ == before + source_note(
                    issues_of(issues@),
                    file@,
                    linter@,
                    version as nat,
                ));
            },
            None => {},
        }
    }
}

fn shown_entries(ranking: &Vec<(String, usize)>, n: usize) -> (r: usize)
    ensures
        r <= ranking@.len(),
        tally::entries(ranking@).take(r as int) == top(tally::entries(ranking@), n as int),
{
    let ghost r = tally::entries(ranking@);
    if ranking.len() > n {
        n
    } else {
        assert(r.take(r.len() as int) == r);
        ranking.len()
    }
}

fn append_linters(out: &mut String, ranking: &Vec<(String, usize)>)
    ensures
        final(out)@ == old(out)@ + linter_lines(top(tally::entries(ranking@), 10)),
{
    let ghost r = tally::entries(ranking@);
    let ghost before = out@;
    let n: usize = shown_entries(ranking, 10);
    let mut i: usize = 0;
    assert(r.take(0).len() == 0);
    assert(before + Seq::<char>::empty() == before);
    while i < n
        invariant
            i <= n <= ranking@.len(),
            r == tally::entries(ranking@),
            out@ == before + linter_lines(r.take(i as int)),
        decreases n - i,
    {
        assert(r.take(i + 1).drop_last() == r.take(i as int));
        assert(r.take(i + 1).last() == r[i as int]);
        out.append("  ");
        out.append(ranking[i].0.as_str());
        out.append(" (");
        out.append(number::decimal(ranking[i].1).as_str());
        out.append("x)\n");
        assert(out@ == before + linter_lines(r.take(i + 1)));
        i += 1;
    }
}

fn append_file(out: &mut String, issues: &Vec<Issue>, file: &str, count: usize, version: u32)
    ensures
        final(out)@ == old(out)@ + file_lines(
            issues_of(issues@),
            file@,
            count as nat,
            version as nat,
        ),
{
    let ghost v = version as nat;
    let ghost all = issues_of(issues@);
    let ghost before = out@;
    out.append("  ");
    out.append(compact_path(file).as_str());
    out.append(" (");
    out.append(number::decimal(count).as_str());
    out.append(" issues)\n");
    let ghost head = out@;
    let ranking = tally::rank_names(names_of_linters_in(issues, file).as_slice());
    let ghost r = tally::entries(ranking@);
    let n: usize = shown_entries(&ranking, 3);
    let mut i: usize = 0;
    assert(r.take(0).len() == 0);
    assert(head + Seq::<char>::empty() == head);
    while i < n
        invariant
            i <= n <= ranking@.len(),
            r == tally::entries(ranking@),
            all == issues_of(issues@),
            v == version,
            out@ == head + file_linter_lines(all, file@, r.take(i as int), v),
        decreases n - i,
    {
        assert(r.take(i + 1).drop_last() == r.take(i as int));
        assert(r.take(i + 1).last() == r[i as int]);
        let linter = ranking[i].0.as_str();
        out.append("    ");
        out.append(linter);
        out.append(" (");
        out.append(number::decimal(ranking[i].1).as_str());
        out.append(")\n");
        append_source(out, issues, file, linter, version);
        assert(out@ == head + file_linter_lines(all, file@, r.take(i + 1), v));
        i += 1;
    }
    assert(out@ == before + file_lines(all, file@, count as nat, v));
}

fn append_files(
    out: &mut String,
    issues: &Vec<Issue>,
    ranking: &Vec<(String, usize)>,
    version: u32,
)
    ensures
        final(out)@ == old(out)@ + files_lines(
            issues_of(issues@),
            top(tally::entries(ranking@), 10),
            version as nat,
        ),
{
    let ghost r = tally::entries(ranking@);
    let ghost all = issues_of(issues@);
    let ghost v = version as nat;
    let ghost before = out@;
    let n: usize = shown_entries(ranking, 10);
    let mut i: usize = 0;
    assert(r.take(0).len() == 0);
    assert(before + Seq::<char>::empty() == before);
    while i < n
        invariant
            i <= n <= ranking@.len(),
            r == tally::entries(ranking@),
            all == issues_of(issues@),
            v == version,
            out@ == before + files_lines(all, r.take(i as int), v),
        decreases n - i,
    {
        assert(r.take(i + 1).drop_last() == r.take(i as int));
        assert(r.take(i + 1).last() == r[i as int]);
        append_file(out, issues, ranking[i].0.as_str(), ranking[i].1, version);
        assert(out@ == before + files_lines(all, r.take(i + 1), v));
        i += 1;
    }
}

/// Reports on issues: how many there are, and the linters and files that have most. Of equal ones
/// those come first that occur first.
pub fn report_issues(found: &GolangciOutput, version: u32) -> (r: String)
    ensures
        r@ == report(found@, version as nat),
{
    let issues = &found.issues;
    let ghost all = issues_of(issues@);
    assert(all.len() == issues@.len());
    if issues.len() == 0 {
        return "golangci-lint: No issues found".to_string();
    }
    let by_linter = tally::rank_names(names_of_linters(issues).as_slice());
    let by_file = tally::rank_names(names_of_files(issues).as_slice());
    assert(tally::entries(by_file@).len() == by_file@.len());
    let mut out = "golangci-lint: ".to_string();
    out.append(number::decimal(issues.len()).as_str());
    out.append(" issues in ");
    out.append(number::decimal(by_file.len()).as_str());
    out.append(" files\n");
    out.append("═══════════════════════════════════════\n");
    out.append("Top linters:\n");
    append_linters(&mut out, &by_linter);
    out.append("\n");
    out.append("Top files:\n");
    append_files(&mut out, issues, &by_file, version);
    let ghost before = out@;
    if by_file.len() > 10 {
        out.append("\n... +");
        out.append(number::decimal(by_file.len() - 10).as_str());
        out.append(" more files\n");
    }
    assert(out@ == before + more_files(by_file@.len()));
    let text = chars::to_chars(out.as_str());
    chars::string_of(chars::trim(text.as_slice()))
}

/// The report on an output of golangci-lint: `parsed` is what it was parsed into, or why it could
/// not be. Then the output itself is shown, cut to `max_chars` characters.
pub fn filter_golangci_json(
    parsed: Result<GolangciOutput, String>,
    output: &str,
    version: u32,
    max_chars: usize,
) -> (r: String)
    ensures
        r@ == filtered(parsed, output@, version as nat, max_chars as nat),
{
    match parsed {
        Ok(found) => report_issues(&found, version),
        Err(reason) => {
            let mut out = "golangci-lint (JSON parse failed: ".to_string();
            out.append(reason.as_str());
            out.append(")\n");
            out.append(utils::truncate(output, max_chars).as_str());
            out
        },
    }
}

/// Versions before the second have no source lines in their reports.
pub proof fn law_no_source_before_v2(
    issues: Seq<IssueView>,
    file: Seq<char>,
    linter: Seq<char>,
    version: nat,
)
    ensures
        version < 2 ==> source_note(issues, file, linter, version).len() == 0,
        version >= 2 && first_source(issues, file, linter) is None ==> source_note(
            issues,
            file,
            linter,
            version,
        ).len() == 0,
{
}

/// A source line is shown with at most 80 characters.
pub proof fn law_source_width(line: Seq<char>)
    ensures
        shown_source(line).len() <= 80,
        chars::trimmed(line).len() <= 80 ==> shown_source(line) == chars::trimmed(line),
{
}

/// A shortened path has slashes only.
pub proof fn law_short_path_has_slashes(raw: Seq<char>)
    ensures
        !short_path(raw).contains('\\'),
{
    reveal_strlit("pkg/");
    reveal_strlit("cmd/");
    reveal_strlit("internal/");
    reveal_strlit("/pkg/");
    reveal_strlit("/cmd/");
    reveal_strlit("/internal/");
    reveal_strlit("/");
    let path = slashed(raw);
    assert forall|i: int| 0 <= i < path.len() implies path[i] != '\\' by {}
    search::lemma_last_at(path, "/pkg/"@);
    search::lemma_last_at(path, "/cmd/"@);
    search::lemma_last_at(path, "/internal/"@);
    search::lemma_last_at(path, "/"@);
    let short = short_path(raw);
    assert forall|i: int| 0 <= i < short.len() implies short[i] != '\\' by {}
}

/// Whether the issue at `i` is the first that `linter` found in `file`.
pub open spec fn is_first_of(
    issues: Seq<IssueView>,
    file: Seq<char>,
    linter: Seq<char>,
    i: int,
) -> bool {
    &&& 0 <= i < issues.len()
    &&& issues[i].file == file
    &&& issues[i].linter == linter
    &&& forall|j: int|
        0 <= j < i ==> !((#[trigger] issues[j]).file == file && issues[j].linter == linter)
}

/// The source line of a linter in a file is the first one of the first issue that the linter found in
/// that very file; where that issue has none, there is none.
pub proof fn law_first_source(
    issues: Seq<IssueView>,
    file: Seq<char>,
    linter: Seq<char>,
    i: int,
)
    requires
        is_first_of(issues, file, linter, i),
    ensures
        first_source(issues, file, linter) == if issues[i].source.len() > 0 {
            Some(issues[i].source[0])
        } else {
            None
        },
    decreases issues.len(),
{
    if i > 0 {
        let rest = issues.drop_first();
        assert(!(issues[0].file == file && issues[0].linter == linter));
        assert forall|j: int| 0 <= j < i - 1 implies !((#[trigger] rest[j]).file == file
            && rest[j].linter == linter) by {
            assert(rest[j] == issues[j + 1]);
        }
        law_first_source(rest, file, linter, i - 1);
    }
}

/// A source line is that of an issue which the linter found in that very file, and no issue before it
/// is one of them.
pub proof fn law_source_belongs_to_file(
    issues: Seq<IssueView>,
    file: Seq<char>,
    linter: Seq<char>,
)
    requires
        first_source(issues, file, linter) is Some,
    ensures
        exists|i: int| #[trigger]
            is_first_of(issues, file, linter, i) && issues[i].source.len() > 0
                && issues[i].source[0] == first_source(issues, file, linter)->0,
    decreases issues.len(),
{
    if issues.len() > 0 {
        if issues[0].file == file && issues[0].linter == linter {
            assert(is_first_of(issues, file, linter, 0));
        } else {
            let rest = issues.drop_first();
            law_source_belongs_to_file(rest, file, linter);
            let i = choose|i: int| #[trigger]
                is_first_of(rest, file, linter, i) && rest[i].source.len() > 0
                    && rest[i].source[0] == first_source(rest, file, linter)->0;
            assert(issues[i + 1] == rest[i]);
            assert forall|j: int| 0 <= j < i + 1 implies !((#[trigger] issues[j]).file == file
                && issues[j].linter == linter) by {
                if j > 0 {
                    assert(issues[j] == rest[j - 1]);
                }
            }
            assert(is_first_of(issues, file, linter, i + 1));
        }
    }
}

/// The linters of a file are those of all issues in it, in order.
pub proof fn law_linters_in(issues: Seq<IssueView>, file: Seq<char>)
    ensures
        linters_in(issues, file) == issues.filter(|i: IssueView| i.file == file).map_values(
            |i: IssueView| i.linter,
        ),
    decreases issues.len(),
{
    let p = |i: IssueView| i.file == file;
    let f = |i: IssueView| i.linter;
    if issues.len() == 0 {
        assert(issues == Seq::<IssueView>::empty());
        select::lemma_filter_empty(p);
        assert(Seq::<IssueView>::empty().map_values(f) == Seq::<Seq<char>>::empty());
    } else {
        let front = issues.drop_last();
        let last = issues.last();
        law_linters_in(front, file);
        select::lemma_front_and_last(issues);
        select::lemma_filter_push(front, last, p);
        assert(front.filter(p).push(last).map_values(f) == front.filter(p).map_values(f).push(
            f(last),
        ));
    }
}

/// The lines on linters are those of each, one after another.
pub proof fn law_linter_lines(
    a: Seq<(Seq<char>, nat)>,
    b: Seq<(Seq<char>, nat)>,
    name: Seq<char>,
    n: nat,
)
    ensures
        linter_lines(a + b) == linter_lines(a) + linter_lines(b),
        linter_lines(seq![(name, n)]) == "  "@ + name + " ("@ + number::dec(n) + "x)\n"@,
    decreases b.len(),
{
    let one = seq![(name, n)];
    assert(one.drop_last() == Seq::<(Seq<char>, nat)>::empty());
    assert(linter_lines(one.drop_last()) == Seq::<char>::empty());
    assert(one.last() == (name, n));
    assert(linter_lines(one) == "  "@ + name + " ("@ + number::dec(n) + "x)\n"@);
    if b.len() == 0 {
        assert(a + b == a);
        assert(linter_lines(a) + linter_lines(b) == linter_lines(a));
    } else {
        assert((a + b).drop_last() == a + b.drop_last());
        law_linter_lines(a, b.drop_last(), name, n);
        assert(linter_lines(a + b) == linter_lines(a) + linter_lines(b));
    }
}

/// The lines on the linters of a file are those of each, one after another.
pub proof fn law_file_linter_lines(
    issues: Seq<IssueView>,
    file: Seq<char>,
    a: Seq<(Seq<char>, nat)>,
    b: Seq<(Seq<char>, nat)>,
    version: nat,
)
    ensures
        file_linter_lines(issues, file, a + b, version) == file_linter_lines(
            issues,
            file,
            a,
            version,
        ) + file_linter_lines(issues, file, b, version),
    decreases b.len(),
{
    if b.len() == 0 {
        assert(a + b == a);
        let text = file_linter_lines(issues, file, a, version);
        assert(text + file_linter_lines(issues, file, b, version) == text);
    } else {
        assert((a + b).drop_last() == a + b.drop_last());
        law_file_linter_lines(issues, file, a, b.drop_last(), version);
        assert(file_linter_lines(issues, file, a + b, version) == file_linter_lines(
            issues,
            file,
            a,
            version,
        ) + file_linter_lines(issues, file, b, version));
    }
}

/// A linter of a file has a line with its count. From the second version on the first source line of
/// its first issue in that file follows, where it has one.
pub proof fn law_file_linter(
    issues: Seq<IssueView>,
    file: Seq<char>,
    linter: Seq<char>,
    n: nat,
    version: nat,
    i: int,
)
    requires
        is_first_of(issues, file, linter, i),
    ensures
        file_linter_lines(issues, file, seq![(linter, n)], version) == "    "@ + linter + " ("@
            + number::dec(n) + ")\n"@ + if version >= 2 && issues[i].source.len() > 0 {
            "      → "@ + shown_source(issues[i].source[0]) + "\n"@
        } else {
            Seq::empty()
        },
{
    law_first_source(issues, file, linter, i);
    let one = seq![(linter, n)];
    assert(one.drop_last() == Seq::<(Seq<char>, nat)>::empty());
    assert(one.last() == (linter, n));
    assert(file_linter_lines(issues, file, one.drop_last(), version) == Seq::<char>::empty());
    assert(file_linter_lines(issues, file, one, version) == "    "@ + linter + " ("@ + number::dec(n)
        + ")\n"@ + source_note(issues, file, linter, version));
}

/// The lines on files are those of each, one after another.
pub proof fn law_files_lines(
    issues: Seq<IssueView>,
    a: Seq<(Seq<char>, nat)>,
    b: Seq<(Seq<char>, nat)>,
    version: nat,
)
    ensures
        files_lines(issues, a + b, version) == files_lines(issues, a, version) + files_lines(
            issues,
            b,
            version,
        ),
    decreases b.len(),
{
    if b.len() == 0 {
        assert(a + b == a);
        let text = files_lines(issues, a, version);
        assert(text + files_lines(issues, b, version) == text);
    } else {
        assert((a + b).drop_last() == a + b.drop_last());
        law_files_lines(issues, a, b.drop_last(), version);
        assert(files_lines(issues, a + b, version) == files_lines(issues, a, version)
            + files_lines(issues, b, version));
    }
}

/// A file has a line with the number of its issues, and below it its three linters that found most.
pub proof fn law_file_lines(
    issues: Seq<IssueView>,
    file: Seq<char>,
    n: nat,
    version: nat,
)
    ensures
        ({
            let found = tally::ranking(
                issues.filter(|i: IssueView| i.file == file).map_values(|i: IssueView| i.linter),
            );
            files_lines(issues, seq![(file, n)], version) == "  "@ + short_path(file) + " ("@
                + number::dec(n) + " issues)\n"@ + file_linter_lines(
                issues,
                file,
                if found.len() > 3 {
                    found.take(3)
                } else {
                    found
                },
                version,
            )
        }),
{
    law_linters_in(issues, file);
    let one = seq![(file, n)];
    assert(one.drop_last() == Seq::<(Seq<char>, nat)>::empty());
    assert(one.last() == (file, n));
    assert(files_lines(issues, one.drop_last(), version) == Seq::<char>::empty());
    let text = file_lines(issues, file, n, version);
    assert(Seq::<char>::empty() + text == text);
}

/// A path is cut to what stands behind the last `pkg`, else `cmd`, else `internal`, with that name in
/// front; without any of them, to the name of the file.
pub proof fn law_short_path(dir: Seq<char>, rest: Seq<char>, name: Seq<char>)
    requires
        !dir.contains('\\'),
        !rest.contains('\\'),
        !name.contains('\\'),
        !name.contains('/'),
    ensures
        !search::occurs("/"@ + rest, "/pkg/"@) ==> short_path(dir + "/pkg/"@ + rest) == "pkg/"@
            + rest,
        !search::occurs("/"@ + rest, "/cmd/"@) && !search::occurs(
            dir + "/cmd/"@ + rest,
            "/pkg/"@,
        ) ==> short_path(dir + "/cmd/"@ + rest) == "cmd/"@ + rest,
        !search::occurs("/"@ + rest, "/internal/"@) && !search::occurs(
            dir + "/internal/"@ + rest,
            "/pkg/"@,
        ) && !search::occurs(dir + "/internal/"@ + rest, "/cmd/"@) ==> short_path(
            dir + "/internal/"@ + rest,
        ) == "internal/"@ + rest,
        !search::occurs(dir + "/"@ + name, "/pkg/"@) && !search::occurs(dir + "/"@ + name, "/cmd/"@)
            && !search::occurs(dir + "/"@ + name, "/internal/"@) ==> short_path(dir + "/"@ + name)
            == name,
        short_path(name) == name,
{
    reveal_strlit("/pkg/");
    reveal_strlit("/cmd/");
    reveal_strlit("/internal/");
    reveal_strlit("/");
    let a = dir + "/pkg/"@ + rest;
    let b = dir + "/cmd/"@ + rest;
    let c = dir + "/internal/"@ + rest;
    let d = dir + "/"@ + name;
    lemma_slashed(a);
    lemma_slashed(b);
    lemma_slashed(c);
    lemma_slashed(d);
    lemma_slashed(name);
    let k: int = dir.len() as int;
    if !search::occurs("/"@ + rest, "/pkg/"@) {
        lemma_last_directory(dir, "/pkg/"@, rest);
        assert(a.skip(k + 5) == rest);
    }
    search::lemma_last_at(b, "/pkg/"@);
    if !search::occurs("/"@ + rest, "/cmd/"@) {
        lemma_last_directory(dir, "/cmd/"@, rest);
        assert(b.skip(k + 5) == rest);
    }
    search::lemma_last_at(c, "/pkg/"@);
    search::lemma_last_at(c, "/cmd/"@);
    if !search::occurs("/"@ + rest, "/internal/"@) {
        lemma_last_directory(dir, "/internal/"@, rest);
        assert(c.skip(k + 10) == rest);
    }
    search::lemma_last_at(d, "/pkg/"@);
    search::lemma_last_at(d, "/cmd/"@);
    search::lemma_last_at(d, "/internal/"@);
    search::lemma_last_char(dir + "/"@, name, "/"@);
    assert(d.skip(k + 1) == name);
    search::lemma_last_char(Seq::empty(), name, "/"@);
    assert(Seq::<char>::empty() + name == name);
    lemma_no_directory(name, "/pkg/"@);
    lemma_no_directory(name, "/cmd/"@);
    lemma_no_directory(name, "/internal/"@);
    search::lemma_last_at(name, "/pkg/"@);
    search::lemma_last_at(name, "/cmd/"@);
    search::lemma_last_at(name, "/internal/"@);
}

proof fn lemma_slashed(path: Seq<char>)
    ensures
        !path.contains('\\') ==> slashed(path) == path,
{
    if !path.contains('\\') {
        assert forall|i: int| 0 <= i < path.len() implies slashed(path)[i] == path[i] by {
            assert(path.contains(path[i]));
        }
        assert(slashed(path) == path);
    }
}

proof fn lemma_no_directory(name: Seq<char>, p: Seq<char>)
    requires
        !name.contains('/'),
        p.len() > 0,
        p[0] == '/',
    ensures
        !search::occurs(name, p),
{
    if search::occurs(name, p) {
        let k = choose|k: int| search::occurs_at(name, p, k);
        assert(name.subrange(k, k + p.len())[0] == name[k]);
        assert(name.contains(name[k]));
    }
}

proof fn lemma_last_directory(dir: Seq<char>, p: Seq<char>, rest: Seq<char>)
    requires
        p.len() >= 2,
        p[0] == '/',
        p.last() == '/',
        forall|i: int| 0 < i < p.len() - 1 ==> p[i] != '/',
        !search::occurs("/"@ + rest, p),
    ensures
        search::last_at(dir + p + rest, p) == Some(dir.len() as int),
{
    reveal_strlit("/");
    let s = dir + p + rest;
    let k: int = dir.len() as int;
    let m: int = p.len() as int;
    search::lemma_last_at(s, p);
    assert(s.subrange(k, k + m) == p);
    assert(search::occurs_at(s, p, k));
    assert forall|j: int| k < j implies !search::occurs_at(s, p, j) by {
        if search::occurs_at(s, p, j) {
            assert(s.subrange(j, j + m)[0] == s[j]);
            if j < k + m - 1 {
                assert(s[j] == p[j - k]);
            } else {
                let tail = "/"@ + rest;
                let i = j - (k + m - 1);
                assert(s.skip(k + m - 1) == tail);
                assert(tail.subrange(i, i + m) == s.subrange(j, j + m));
                assert(search::occurs_at(tail, p, i));
            }
        }
    }
    let found = search::last_at(s, p)->0;
    assert(search::occurs_at(s, p, found));
}

/// A version is read from the first word that begins with a number and a dot.
pub proof fn law_major_version(
    before: Seq<Seq<char>>,
    n: nat,
    minor: Seq<char>,
    after: Seq<Seq<char>>,
)
    requires
        n <= u32::MAX,
        forall|i: int| 0 <= i < before.len() ==> major_in(#[trigger] before[i]) is None,
    ensures
        major_version(before + seq![number::dec(n) + "."@ + minor] + after) == n,
    decreases before.len(),
{
    reveal_strlit(".");
    let word = number::dec(n) + "."@ + minor;
    let all = before + seq![word] + after;
    if before.len() == 0 {
        assert(all[0] == word);
        let k: int = number::dec(n).len() as int;
        assert(word[k] == '.');
        assert(word.take(k) == number::dec(n));
        number::lemma_dec_digits(n);
        assert forall|j: int| 0 <= j < k implies number::dec(n)[j] != '.' by {
            assert(chars::is_digit(number::dec(n)[j]));
        }
        search::lemma_first_char(word, "."@, k);
        assert(split::pieces(word, "."@)[0] == number::dec(n));
        number::law_dec_parses(n, u32::MAX as nat);
    } else {
        let rest = before.drop_first();
        assert forall|i: int| 0 <= i < rest.len() implies major_in(#[trigger] rest[i]) is None by {
            assert(rest[i] == before[i + 1]);
        }
        assert(major_in(before[0]) is None);
        law_major_version(rest, n, minor, after);
        assert(all[0] == before[0]);
        assert(all.drop_first() == rest + seq![word] + after);
    }
}

/// Where no word tells a version, it is taken to be the first.
pub proof fn law_no_version(words: Seq<Seq<char>>)
    requires
        forall|i: int| 0 <= i < words.len() ==> major_in(#[trigger] words[i]) is None,
    ensures
        major_version(words) == 1,
        detected_version(None) == 1,
    decreases words.len(),
{
    if words.len() > 0 {
        let rest = words.drop_first();
        assert forall|i: int| 0 <= i < rest.len() implies major_in(#[trigger] rest[i]) is None by {
            assert(rest[i] == words[i + 1]);
        }
        assert(major_in(words[0]) is None);
        law_no_version(rest);
    }
}

/// An output that could not be parsed is shown with the reason, and what could be is reported.
pub proof fn law_filtered(
    found: GolangciOutput,
    reason: String,
    output: Seq<char>,
    version: nat,
    max: nat,
)
    ensures
        filtered(Ok(found), output, version, max) == report(issues_of(found.issues@), version),
        filtered(Err(reason), output, version, max) == "golangci-lint (JSON parse failed: "@
            + reason@ + ")\n"@ + utils::truncated(output, max),
        report(Seq::empty(), version) == "golangci-lint: No issues found"@,
{
}

/// A source line that is too long keeps its first 80 characters.
pub proof fn law_long_source_cut(line: Seq<char>)
    requires
        chars::trimmed(line).len() > 80,
    ensures
        shown_source(line) == chars::trimmed(line).take(80),
{
}

/// A report has its totals, the ten linters that found most, the ten files that have most issues, and
/// how many files are left out, in this order.
pub proof fn law_report(issues: Seq<IssueView>, version: nat)
    requires
        issues.len() > 0,
    ensures
        ({
            let by_linter = tally::ranking(issues.map_values(|i: IssueView| i.linter));
            let by_file = tally::ranking(issues.map_values(|i: IssueView| i.file));
            let few = |r: Seq<(Seq<char>, nat)>| if r.len() > 10 {
                r.take(10)
            } else {
                r
            };
            report(issues, version) == chars::trimmed(
                "golangci-lint: "@ + number::dec(issues.len()) + " issues in "@ + number::dec(
                    by_file.len(),
                ) + " files\n"@ + "═══════════════════════════════════════\n"@ + "Top linters:\n"@
                    + linter_lines(few(by_linter)) + "\n"@ + "Top files:\n"@ + files_lines(
                    issues,
                    few(by_file),
                    version,
                ) + if by_file.len() > 10 {
                    "\n... +"@ + number::dec((by_file.len() - 10) as nat) + " more files\n"@
                } else {
                    Seq::empty()
                },
            )
        }),
{
    let names = files(issues);
    tally::lemma_ranked_len(tally::tally(names));
    assert(tally::ranking(names).len() == tally::distinct(names).len());
}

} // verus!
