//! One-line summaries of `git add`, `git commit`, `git pull` and `git fetch`.
use crate::text::chars;
use crate::text::compose;
use crate::text::number;
use crate::text::search;
use crate::text::select;
use crate::text::split;
use vstd::prelude::*;
use vstd::slice::slice_subrange;

verus! {

/// What is printed of staged changes: nothing where there are none.
pub open spec fn staged_summary(stat: Seq<char>) -> Seq<char> {
    let lines = split::lines_of(stat);
    if chars::is_blank(stat) {
        Seq::empty()
    } else if lines.len() == 0 || chars::is_blank(lines.last()) {
        "ok"@
    } else {
        "ok "@ + chars::trimmed(lines.last())
    }
}

/// The summary of `git add`, given the short statistics of what is staged.
///
/// Nothing staged gives no summary: an "ok" would not tell it from something staged.
pub fn summarize_add(stat: &str) -> (r: String)
    ensures
        r@ == staged_summary(stat@),
{
    let text = chars::to_chars(stat);
    if chars::blank(text.as_slice()) {
        return String::new();
    }
    let lines = split::lines(text.as_slice());
    let ghost all = split::views(lines@);
    assert(all.len() == lines@.len());
    if lines.len() == 0 {
        return "ok".to_string();
    }
    assert(all.last() == lines@[lines@.len() - 1]@);
    let short = chars::trim(lines[lines.len() - 1]);
    if short.len() == 0 {
        return "ok".to_string();
    }
    let mut out = "ok ".to_string();
    out.append(chars::string_of(short).as_str());
    out
}

/// The text behind the last blank of `s`.
pub open spec fn last_word(s: Seq<char>) -> Seq<char> {
    match search::last_at(s, " "@) {
        Some(p) => s.skip(p + 1),
        None => s,
    }
}

/// The hash that the first line of a commit's output tells, as in `[main abc1234] message`: the last
/// word before the closing bracket. The branch before it holds no blank, but may hold a bracket.
pub open spec fn commit_hash(line: Seq<char>) -> Option<Seq<char>> {
    if chars::has_prefix(line, "["@) {
        match search::first_at(line, " "@) {
            Some(p) => match search::first_at(line.skip(p + 1), "]"@) {
                Some(q) => Some(last_word(line.skip(p + 1).take(q))),
                None => None,
            },
            None => None,
        }
    } else {
        None
    }
}

/// The summary of a commit that succeeded: its hash, cut to seven characters, where one is told.
pub open spec fn commit_summary(stdout: Seq<char>) -> Seq<char> {
    let lines = split::lines_of(stdout);
    if lines.len() == 0 {
        "ok"@
    } else {
        match commit_hash(lines[0]) {
            Some(hash) => if hash.len() >= 7 {
                "ok "@ + hash.take(7)
            } else {
                "ok"@
            },
            None => "ok"@,
        }
    }
}

fn read_last_word(s: &[char]) -> (r: &[char])
    ensures
        r@ == last_word(s@),
{
    proof {
        reveal_strlit(" ");
        search::lemma_last_at(s@, " "@);
    }
    let n: usize = s.len();
    match search::rfind(s, " ") {
        Some(p) => {
            let word = slice_subrange(s, p + 1, n);
            assert(word@ == s@.skip(p + 1));
            word
        },
        None => s,
    }
}

fn read_hash(line: &[char]) -> (r: Option<&[char]>)
    ensures
        match r {
            Some(hash) => commit_hash(line@) == Some(hash@),
            None => commit_hash(line@) is None,
        },
{
    proof {
        reveal_strlit(" ");
        reveal_strlit("]");
        search::lemma_first_at(line@, " "@);
    }
    if !chars::starts_with(line, "[") {
        return None;
    }
    let n: usize = line.len();
    match search::find(line, " ") {
        Some(p) => {
            let rest = slice_subrange(line, p + 1, n);
            assert(rest@ == line@.skip(p + 1));
            proof {
                search::lemma_first_at(rest@, "]"@);
            }
            match search::find(rest, "]") {
                Some(q) => {
                    let inner = slice_subrange(rest, 0, q);
                    assert(inner@ == rest@.take(q as int));
                    Some(read_last_word(inner))
                },
                None => None,
            }
        },
        None => None,
    }
}

/// The summary of a commit that succeeded.
pub fn summarize_commit(stdout: &str) -> (r: String)
    ensures
        r@ == commit_summary(stdout@),
{
    let text = chars::to_chars(stdout);
    let lines = split::lines(text.as_slice());
    let ghost all = split::views(lines@);
    assert(all.len() == lines@.len());
    if lines.len() == 0 {
        return "ok".to_string();
    }
    assert(all[0] == lines@[0]@);
    match read_hash(lines[0]) {
        Some(hash) => {
            if hash.len() < 7 {
                return "ok".to_string();
            }
            let short = slice_subrange(hash, 0, 7);
            assert(short@ == hash@.take(7));
            compose::prefixed("ok ", short)
        },
        None => "ok".to_string(),
    }
}

/// A commit is summed up by its hash, whatever the branch and the message are. What stands between
/// the branch and the hash, such as `(root-commit)`, does no harm.
pub proof fn law_commit_hash_is_told(
    stdout: Seq<char>,
    branch: Seq<char>,
    between: Seq<char>,
    hash: Seq<char>,
    message: Seq<char>,
)
    requires
        split::lines_of(stdout).len() > 0,
        split::lines_of(stdout)[0] == "["@ + branch + " "@ + between + hash + "]"@ + message,
        !branch.contains(' '),
        between.len() > 0 ==> between.last() == ' ',
        !between.contains(']'),
        !hash.contains(' '),
        !hash.contains(']'),
        hash.len() >= 7,
    ensures
        commit_summary(stdout) == "ok "@ + hash.take(7),
{
    let line = split::lines_of(stdout)[0];
    lemma_hash_in(line, branch, between, hash, message);
}

proof fn lemma_hash_in(
    line: Seq<char>,
    branch: Seq<char>,
    between: Seq<char>,
    hash: Seq<char>,
    message: Seq<char>,
)
    requires
        line == "["@ + branch + " "@ + between + hash + "]"@ + message,
        !branch.contains(' '),
        between.len() > 0 ==> between.last() == ' ',
        !between.contains(']'),
        !hash.contains(' '),
        !hash.contains(']'),
    ensures
        commit_hash(line) == Some(hash),
{
    reveal_strlit("[");
    reveal_strlit(" ");
    reveal_strlit("]");
    let start = "["@ + branch;
    let inner = between + hash;
    let rest = inner + "]"@ + message;
    let p: int = start.len() as int;
    let q: int = inner.len() as int;
    assert(line == start + " "@ + rest);
    assert(line.take(1) == "["@);
    assert(line[p] == ' ');
    assert(line.take(p) == start);
    assert forall|j: int| 0 <= j < p implies start[j] != ' ' by {
        if j > 0 {
            assert(start[j] == branch[j - 1]);
        }
    }
    search::lemma_first_char(line, " "@, p);
    assert(line.skip(p + 1) == rest);
    assert(rest[q] == ']');
    assert(rest.take(q) == inner);
    assert forall|j: int| 0 <= j < q implies inner[j] != ']' by {
        if j < between.len() {
            assert(inner[j] == between[j]);
        } else {
            assert(inner[j] == hash[j - between.len()]);
        }
    }
    search::lemma_first_char(rest, "]"@, q);
    search::lemma_last_char(between, hash, " "@);
    assert(inner.skip(between.len() as int) == hash);
    if between.len() == 0 {
        assert(inner == hash);
    }
}

/// The counts of a pull.
pub struct Changes {
    /// Files changed.
    pub files: i32,
    /// Lines inserted.
    pub insertions: i32,
    /// Lines deleted.
    pub deletions: i32,
}

/// The number that a part of a statistics line begins with, zero where it begins with none.
pub open spec fn leading_count(part: Seq<char>) -> int {
    let words = split::words_of(part);
    if words.len() == 0 {
        0
    } else {
        match number::parsed_i32(words[0]) {
            Some(n) => n,
            None => 0,
        }
    }
}

/// The counts `(files, insertions, deletions)` after one more part of a statistics line.
pub open spec fn with_part(c: (int, int, int), raw: Seq<char>) -> (int, int, int) {
    let part = chars::trimmed(raw);
    if search::occurs(part, "file"@) {
        (leading_count(part), c.1, c.2)
    } else if search::occurs(part, "insertion"@) {
        (c.0, leading_count(part), c.2)
    } else if search::occurs(part, "deletion"@) {
        (c.0, c.1, leading_count(part))
    } else {
        c
    }
}

/// The counts after all of the parts.
pub open spec fn with_parts(c: (int, int, int), parts: Seq<Seq<char>>) -> (int, int, int)
    decreases parts.len(),
{
    if parts.len() == 0 {
        c
    } else {
        with_part(with_parts(c, parts.drop_last()), parts.last())
    }
}

/// The counts after one more line.
pub open spec fn with_line(c: (int, int, int), line: Seq<char>) -> (int, int, int) {
    if search::occurs(line, "file"@) && search::occurs(line, "changed"@) {
        with_parts(c, split::pieces(line, ","@))
    } else {
        c
    }
}

/// The counts that the lines report.
pub open spec fn counted(lines: Seq<Seq<char>>) -> (int, int, int)
    decreases lines.len(),
{
    if lines.len() == 0 {
        (0, 0, 0)
    } else {
        with_line(counted(lines.drop_last()), lines.last())
    }
}

/// The summary of a pull that succeeded.
pub open spec fn pull_summary(stdout: Seq<char>) -> Seq<char> {
    if search::occurs(stdout, "Already up to date"@) || search::occurs(
        stdout,
        "Already up-to-date"@,
    ) {
        "ok (up-to-date)"@
    } else {
        let c = counted(split::lines_of(stdout));
        if c.0 > 0 {
            "ok "@ + number::dec_int(c.0) + " files +"@ + number::dec_int(c.1) + " -"@
                + number::dec_int(c.2)
        } else {
            "ok"@
        }
    }
}

/// The counts as a triple.
pub open spec fn triple(c: Changes) -> (int, int, int) {
    (c.files as int, c.insertions as int, c.deletions as int)
}

fn count_in(part: &[char]) -> (r: i32)
    ensures
        r == leading_count(part@),
{
    let words = split::words(part);
    assert(split::views(words@).len() == words@.len());
    if words.len() == 0 {
        return 0;
    }
    assert(split::views(words@)[0] == words@[0]@);
    match number::parse_i32(words[0]) {
        Some(n) => n,
        None => 0,
    }
}

fn take_part(c: &mut Changes, raw: &[char])
    ensures
        triple(*final(c)) == with_part(triple(*old(c)), raw@),
{
    let part = chars::trim(raw);
    if search::contains(part, "file") {
        c.files = count_in(part);
    } else if search::contains(part, "insertion") {
        c.insertions = count_in(part);
    } else if search::contains(part, "deletion") {
        c.deletions = count_in(part);
    }
}

fn take_line(c: &mut Changes, line: &[char])
    ensures
        triple(*final(c)) == with_line(triple(*old(c)), line@),
{
    if search::contains(line, "file") && search::contains(line, "changed") {
        proof {
            reveal_strlit(",");
        }
        let parts = split::split(line, ",");
        let ghost all = split::views(parts@);
        let mut i: usize = 0;
        assert(with_parts(triple(*c), all.take(0)) == triple(*c));
        while i < parts.len()
            invariant
                i <= parts@.len(),
                all == split::views(parts@),
                triple(*c) == with_parts(triple(*old(c)), all.take(i as int)),
            decreases parts@.len() - i,
        {
            assert(all.take(i + 1).drop_last() == all.take(i as int));
            assert(all.take(i + 1).last() == parts@[i as int]@);
            take_part(c, parts[i]);
            i += 1;
        }
        assert(all.take(all.len() as int) == all);
    }
}

/// The summary of a pull that succeeded: how much it changed.
pub fn summarize_pull(stdout: &str) -> (r: String)
    ensures
        r@ == pull_summary(stdout@),
{
    let text = chars::to_chars(stdout);
    if search::contains(text.as_slice(), "Already up to date") || search::contains(
        text.as_slice(),
        "Already up-to-date",
    ) {
        return "ok (up-to-date)".to_string();
    }
    let lines = split::lines(text.as_slice());
    let ghost all = split::views(lines@);
    let mut c = Changes { files: 0, insertions: 0, deletions: 0 };
    let mut i: usize = 0;
    assert(counted(all.take(0)) == (0int, 0int, 0int));
    while i < lines.len()
        invariant
            i <= lines@.len(),
            all == split::views(lines@),
            triple(c) == counted(all.take(i as int)),
        decreases lines@.len() - i,
    {
        assert(all.take(i + 1).drop_last() == all.take(i as int));
        assert(all.take(i + 1).last() == lines@[i as int]@);
        take_line(&mut c, lines[i]);
        i += 1;
    }
    assert(all.take(all.len() as int) == all);
    if c.files > 0 {
        let mut out = "ok ".to_string();
        out.append(number::decimal_i32(c.files).as_str());
        out.append(" files +");
        out.append(number::decimal_i32(c.insertions).as_str());
        out.append(" -");
        out.append(number::decimal_i32(c.deletions).as_str());
        out
    } else {
        "ok".to_string()
    }
}

/// A line of `git fetch` that reports a ref.
pub open spec fn reports_ref(line: Seq<char>) -> bool {
    search::occurs(line, "->"@) || search::occurs(line, "[new"@)
}

/// How many lines report a ref.
pub open spec fn ref_count(lines: Seq<Seq<char>>) -> nat
    decreases lines.len(),
{
    if lines.len() == 0 {
        0
    } else if reports_ref(lines.last()) {
        ref_count(lines.drop_last()) + 1
    } else {
        ref_count(lines.drop_last())
    }
}

/// The summary of a fetch that succeeded.
pub open spec fn fetch_summary(stderr: Seq<char>) -> Seq<char> {
    let n = ref_count(split::lines_of(stderr));
    if n > 0 {
        "ok fetched ("@ + number::dec(n) + " new refs)"@
    } else {
        "ok fetched"@
    }
}

/// The summary of a fetch that succeeded: how many refs it reports on standard error.
pub fn summarize_fetch(stderr: &str) -> (r: String)
    ensures
        r@ == fetch_summary(stderr@),
{
    let text = chars::to_chars(stderr);
    let lines = split::lines(text.as_slice());
    let ghost all = split::views(lines@);
    let mut new_refs: usize = 0;
    let mut i: usize = 0;
    while i < lines.len()
        invariant
            i <= lines@.len(),
            all == split::views(lines@),
            new_refs == ref_count(all.take(i as int)),
            new_refs <= i,
        decreases lines@.len() - i,
    {
        assert(all.take(i + 1).drop_last() == all.take(i as int));
        assert(all.take(i + 1).last() == lines@[i as int]@);
        if search::contains(lines[i], "->") || search::contains(lines[i], "[new") {
            new_refs += 1;
        }
        i += 1;
    }
    assert(all.take(all.len() as int) == all);
    if new_refs > 0 {
        let mut out = "ok fetched (".to_string();
        out.append(number::decimal(new_refs).as_str());
        out.append(" new refs)");
        out
    } else {
        "ok fetched".to_string()
    }
}

/// `git add` says something exactly where something is staged.
pub proof fn law_silent_when_nothing_staged(stat: Seq<char>)
    ensures
        staged_summary(stat).len() == 0 <==> chars::is_blank(stat),
{
    reveal_strlit("ok");
    reveal_strlit("ok ");
}

/// What is staged is told by the last line of the statistics.
pub proof fn law_staged_told(before: Seq<char>, line: Seq<char>)
    requires
        split::ends_line(before),
        !line.contains('\n'),
        !chars::is_blank(line),
        line.last() != '\r',
    ensures
        staged_summary(before + line) == "ok "@ + chars::trimmed(line),
        staged_summary(before + line + "\n"@) == "ok "@ + chars::trimmed(line),
{
    reveal_strlit("\n");
    let k = lemma_visible(line);
    assert(line.len() > 0);
    split::lemma_one_line(line);
    split::lemma_lines_concat(before, line);
    let a = before + line;
    assert(a[before.len() as int + k] == line[k]);
    chars::lemma_not_blank(a, before.len() as int + k);
    let b = before + line + "\n"@;
    assert(b == before + line.push('\n'));
    assert(b[before.len() as int + k] == line[k]);
    chars::lemma_not_blank(b, before.len() as int + k);
    split::lemma_lines_concat(before, line.push('\n'));
}

proof fn lemma_visible(s: Seq<char>) -> (k: int)
    requires
        !chars::is_blank(s),
    ensures
        0 <= k < s.len(),
        !chars::is_space(s[k]),
    decreases s.len(),
{
    if chars::is_space(s[0]) {
        1 + lemma_visible(s.drop_first())
    } else {
        0
    }
}

/// The number of files is that of the last part which speaks of files.
pub proof fn law_files_counted(
    c: (int, int, int),
    before: Seq<Seq<char>>,
    part: Seq<char>,
    after: Seq<Seq<char>>,
)
    requires
        search::occurs(chars::trimmed(part), "file"@),
        forall|i: int|
            0 <= i < after.len() ==> !search::occurs(chars::trimmed(#[trigger] after[i]), "file"@),
    ensures
        with_parts(c, before.push(part) + after).0 == leading_count(chars::trimmed(part)),
    decreases after.len(),
{
    let all = before.push(part) + after;
    if after.len() == 0 {
        assert(all == before.push(part));
        assert(all.drop_last() == before);
    } else {
        let front = after.drop_last();
        assert forall|i: int| 0 <= i < front.len() implies !search::occurs(
            chars::trimmed(#[trigger] front[i]),
            "file"@,
        ) by {
            assert(front[i] == after[i]);
        }
        law_files_counted(c, before, part, front);
        assert(all.drop_last() == before.push(part) + front);
        assert(!search::occurs(chars::trimmed(after[after.len() - 1]), "file"@));
    }
}

/// A part that speaks of insertions and not of files.
pub open spec fn tells_insertions(part: Seq<char>) -> bool {
    search::occurs(chars::trimmed(part), "insertion"@) && !search::occurs(
        chars::trimmed(part),
        "file"@,
    )
}

/// A part that speaks of deletions, and neither of files nor of insertions.
pub open spec fn tells_deletions(part: Seq<char>) -> bool {
    search::occurs(chars::trimmed(part), "deletion"@) && !search::occurs(
        chars::trimmed(part),
        "file"@,
    ) && !search::occurs(chars::trimmed(part), "insertion"@)
}

/// The number of insertions is that of the last part which speaks of them.
pub proof fn law_insertions_counted(
    c: (int, int, int),
    before: Seq<Seq<char>>,
    part: Seq<char>,
    after: Seq<Seq<char>>,
)
    requires
        tells_insertions(part),
        forall|i: int| 0 <= i < after.len() ==> !tells_insertions(#[trigger] after[i]),
    ensures
        with_parts(c, before.push(part) + after).1 == leading_count(chars::trimmed(part)),
    decreases after.len(),
{
    let all = before.push(part) + after;
    if after.len() == 0 {
        assert(all == before.push(part));
        assert(all.drop_last() == before);
    } else {
        let front = after.drop_last();
        assert forall|i: int| 0 <= i < front.len() implies !tells_insertions(#[trigger] front[i]) by {
            assert(front[i] == after[i]);
        }
        law_insertions_counted(c, before, part, front);
        assert(all.drop_last() == before.push(part) + front);
        assert(!tells_insertions(after[after.len() - 1]));
    }
}

/// The number of deletions is that of the last part which speaks of them.
pub proof fn law_deletions_counted(
    c: (int, int, int),
    before: Seq<Seq<char>>,
    part: Seq<char>,
    after: Seq<Seq<char>>,
)
    requires
        tells_deletions(part),
        forall|i: int| 0 <= i < after.len() ==> !tells_deletions(#[trigger] after[i]),
    ensures
        with_parts(c, before.push(part) + after).2 == leading_count(chars::trimmed(part)),
    decreases after.len(),
{
    let all = before.push(part) + after;
    if after.len() == 0 {
        assert(all == before.push(part));
        assert(all.drop_last() == before);
    } else {
        let front = after.drop_last();
        assert forall|i: int| 0 <= i < front.len() implies !tells_deletions(#[trigger] front[i]) by {
            assert(front[i] == after[i]);
        }
        law_deletions_counted(c, before, part, front);
        assert(all.drop_last() == before.push(part) + front);
        assert(!tells_deletions(after[after.len() - 1]));
    }
}

/// What no part speaks of stays as it was counted before.
pub proof fn law_uncounted_stays(c: (int, int, int), parts: Seq<Seq<char>>)
    ensures
        (forall|i: int|
            0 <= i < parts.len() ==> !search::occurs(chars::trimmed(#[trigger] parts[i]), "file"@))
            ==> with_parts(c, parts).0 == c.0,
        (forall|i: int| 0 <= i < parts.len() ==> !tells_insertions(#[trigger] parts[i]))
            ==> with_parts(c, parts).1 == c.1,
        (forall|i: int| 0 <= i < parts.len() ==> !tells_deletions(#[trigger] parts[i]))
            ==> with_parts(c, parts).2 == c.2,
    decreases parts.len(),
{
    if parts.len() > 0 {
        let front = parts.drop_last();
        law_uncounted_stays(c, front);
        let last = parts[parts.len() - 1];
        assert(forall|i: int| 0 <= i < front.len() ==> front[i] == parts[i]);
        if forall|i: int|
            0 <= i < parts.len() ==> !search::occurs(chars::trimmed(#[trigger] parts[i]), "file"@) {
            assert(!search::occurs(chars::trimmed(last), "file"@));
        }
        if forall|i: int| 0 <= i < parts.len() ==> !tells_insertions(#[trigger] parts[i]) {
            assert(!tells_insertions(last));
        }
        if forall|i: int| 0 <= i < parts.len() ==> !tells_deletions(#[trigger] parts[i]) {
            assert(!tells_deletions(last));
        }
    }
}

/// A line of statistics.
pub open spec fn is_statistics(line: Seq<char>) -> bool {
    search::occurs(line, "file"@) && search::occurs(line, "changed"@)
}

/// The last statistics count: lines behind them that are none have no part in the counts, and what
/// the statistics do not speak of stays as the lines before them told it.
pub proof fn law_statistics_found(
    before: Seq<Seq<char>>,
    line: Seq<char>,
    after: Seq<Seq<char>>,
)
    requires
        is_statistics(line),
        forall|i: int| 0 <= i < after.len() ==> !is_statistics(#[trigger] after[i]),
    ensures
        counted(before.push(line) + after) == with_parts(
            counted(before),
            split::pieces(line, ","@),
        ),
    decreases after.len(),
{
    let all = before.push(line) + after;
    if after.len() > 0 {
        let front = after.drop_last();
        assert forall|i: int| 0 <= i < front.len() implies !is_statistics(#[trigger] front[i]) by {
            assert(front[i] == after[i]);
        }
        law_statistics_found(before, line, front);
        assert(all.drop_last() == before.push(line) + front);
        assert(!is_statistics(after[after.len() - 1]));
    } else {
        assert(all == before.push(line));
        assert(all.drop_last() == before);
    }
}

/// Without statistics nothing is counted.
pub proof fn law_no_statistics(lines: Seq<Seq<char>>)
    requires
        forall|i: int| 0 <= i < lines.len() ==> !is_statistics(#[trigger] lines[i]),
    ensures
        counted(lines) == (0int, 0int, 0int),
    decreases lines.len(),
{
    if lines.len() > 0 {
        let front = lines.drop_last();
        assert forall|i: int| 0 <= i < front.len() implies !is_statistics(#[trigger] front[i]) by {
            assert(front[i] == lines[i]);
        }
        law_no_statistics(front);
        assert(!is_statistics(lines[lines.len() - 1]));
    }
}

/// A pull is told to be up to date where git says so, else by what it changed.
pub proof fn law_pull_summary(a: Seq<char>, b: Seq<char>, stdout: Seq<char>)
    ensures
        pull_summary(a + "Already up to date"@ + b) == "ok (up-to-date)"@,
        pull_summary(a + "Already up-to-date"@ + b) == "ok (up-to-date)"@,
        !search::occurs(stdout, "Already up to date"@) && !search::occurs(
            stdout,
            "Already up-to-date"@,
        ) ==> ({
            let (files, insertions, deletions) = counted(split::lines_of(stdout));
            &&& files > 0 ==> pull_summary(stdout) == "ok "@ + number::dec_int(files) + " files +"@
                + number::dec_int(insertions) + " -"@ + number::dec_int(deletions)
            &&& files <= 0 ==> pull_summary(stdout) == "ok"@
        }),
{
    search::lemma_occurs_between(a, "Already up to date"@, b);
    search::lemma_occurs_between(a, "Already up-to-date"@, b);
}

/// A fetch is summed up by how many of its lines report a ref.
pub proof fn law_refs_counted(lines: Seq<Seq<char>>)
    ensures
        ref_count(lines) == lines.filter(
            |l: Seq<char>| search::occurs(l, "->"@) || search::occurs(l, "[new"@),
        ).len(),
    decreases lines.len(),
{
    let p = |l: Seq<char>| search::occurs(l, "->"@) || search::occurs(l, "[new"@);
    if lines.len() == 0 {
        assert(lines == Seq::<Seq<char>>::empty());
        select::lemma_filter_empty(p);
    } else {
        law_refs_counted(lines.drop_last());
        select::lemma_front_and_last(lines);
        select::lemma_filter_push(lines.drop_last(), lines.last(), p);
    }
}

/// A fetch that brought refs says how many, and another says that it fetched.
pub proof fn law_fetch_summary(stderr: Seq<char>)
    ensures
        ref_count(split::lines_of(stderr)) > 0 ==> fetch_summary(stderr) == "ok fetched ("@
            + number::dec(ref_count(split::lines_of(stderr))) + " new refs)"@,
        ref_count(split::lines_of(stderr)) == 0 ==> fetch_summary(stderr) == "ok fetched"@,
{
}

/// A commit whose first line tells no hash is confirmed without one.
pub proof fn law_no_hash_no_claim(stdout: Seq<char>)
    requires
        split::lines_of(stdout).len() == 0 || !split::lines_of(stdout)[0].contains(']')
            || !chars::has_prefix(split::lines_of(stdout)[0], "["@),
    ensures
        commit_summary(stdout) == "ok"@,
{
    reveal_strlit("]");
    if split::lines_of(stdout).len() > 0 {
        let line = split::lines_of(stdout)[0];
        match search::first_at(line, " "@) {
            Some(p) => {
                reveal_strlit(" ");
                search::lemma_first_parts(line, " "@);
                let rest = line.skip(p + 1);
                search::lemma_first_parts(rest, "]"@);
                match search::first_at(rest, "]"@) {
                    Some(q) => {
                        assert(rest[q] == ']');
                        assert(line[p + 1 + q] == ']');
                    },
                    None => {},
                }
            },
            None => {},
        }
    }
}

/// The number that a part begins with is counted.
pub proof fn law_leading_count(n: nat, rest: Seq<char>)
    requires
        n <= i32::MAX,
        rest.len() > 0 ==> chars::is_space(rest[0]),
    ensures
        leading_count(number::dec(n) + rest) == n,
{
    let d = number::dec(n);
    let part = d + rest;
    number::lemma_dec_digits(n);
    number::lemma_dec_value(n);
    assert forall|i: int| 0 <= i < d.len() implies !chars::is_space(#[trigger] d[i]) by {
        assert(chars::is_digit(d[i]));
    }
    assert(chars::is_digit(d[0]));
    split::lemma_first_word(d, rest);
    assert(split::words_of(part)[0] == d);
}

/// A part that begins with no number counts nothing.
pub proof fn law_no_count(word: Seq<char>, rest: Seq<char>, blank: Seq<char>)
    requires
        word.len() > 0,
        forall|i: int| 0 <= i < word.len() ==> !chars::is_space(#[trigger] word[i]),
        number::parsed_i32(word) is None,
        rest.len() > 0 ==> chars::is_space(rest[0]),
        forall|i: int| 0 <= i < blank.len() ==> chars::is_space(#[trigger] blank[i]),
    ensures
        leading_count(word + rest) == 0,
        leading_count(blank) == 0,
{
    split::lemma_first_word(word, rest);
    assert(split::words_of(word + rest)[0] == word);
    split::law_words(blank, Seq::empty(), Seq::empty());
}

} // verus!
