//! `git push`: the line filter and its summary.
use crate::text::chars;
use crate::text::compose;
use crate::text::search;
use crate::text::split;
use vstd::prelude::*;
use vstd::slice::slice_subrange;

verus! {

/// The prefixes of the lines that only report progress.
pub open spec fn noise() -> Seq<Seq<char>> {
    seq![
        "Enumerating objects:"@,
        "Counting objects:"@,
        "Compressing objects:"@,
        "Writing objects:"@,
        "Delta compression using"@,
        "Total "@,
    ]
}

/// The prefixes of the lines that only report progress.
pub fn noise_prefixes() -> (r: Vec<String>)
    ensures
        r.deep_view() == noise(),
{
    let mut list: Vec<String> = Vec::new();
    compose::push_str(&mut list, "Enumerating objects:");
    compose::push_str(&mut list, "Counting objects:");
    compose::push_str(&mut list, "Compressing objects:");
    compose::push_str(&mut list, "Writing objects:");
    compose::push_str(&mut list, "Delta compression using");
    compose::push_str(&mut list, "Total ");
    assert(list.deep_view() == noise());
    list
}

/// A line that only reports progress.
pub open spec fn is_progress(line: Seq<char>) -> bool {
    exists|i: int|
        0 <= i < noise().len() && chars::has_prefix(
            chars::trimmed_start(line),
            #[trigger] noise()[i],
        )
}

/// A line that is dropped.
pub open spec fn is_skipped(line: Seq<char>) -> bool {
    line.len() == 0 || is_progress(line)
}

/// The ref that a line says was pushed: the word behind the arrow.
pub open spec fn ref_of(line: Seq<char>) -> Option<Seq<char>> {
    match search::first_at(line, " -> "@) {
        Some(p) => {
            let words = split::words_of(line.skip(p + 4));
            if words.len() > 0 {
                Some(words[0])
            } else {
                None
            }
        },
        None => None,
    }
}

/// What has been observed of a push.
#[verifier::ext_equal]
pub struct PushView {
    /// Whether git said that everything was up to date.
    pub up_to_date: bool,
    /// The first ref that was pushed.
    pub pushed_ref: Option<Seq<char>>,
}

/// Nothing observed yet.
pub open spec fn fresh() -> PushView {
    PushView { up_to_date: false, pushed_ref: None }
}

/// What has been observed after one more line.
pub open spec fn observed(p: PushView, line: Seq<char>) -> PushView {
    PushView {
        up_to_date: p.up_to_date || search::occurs(line, "Everything up-to-date"@),
        pushed_ref: if p.pushed_ref is Some {
            p.pushed_ref
        } else {
            ref_of(line)
        },
    }
}

/// The line that a push ends with.
pub open spec fn push_summary(p: PushView, exit_code: int) -> Option<Seq<char>> {
    if exit_code != 0 {
        None
    } else if p.up_to_date {
        Some("ok (up-to-date)"@ + "\n"@)
    } else if p.pushed_ref is Some {
        Some("ok "@ + p.pushed_ref->0 + "\n"@)
    } else {
        Some("ok"@ + "\n"@)
    }
}

/// Watches the lines of a push.
#[derive(Debug)]
pub struct GitPushLineHandler {
    up_to_date: bool,
    pushed_ref: Option<String>,
}

impl View for GitPushLineHandler {
    type V = PushView;

    closed spec fn view(&self) -> PushView {
        PushView { up_to_date: self.up_to_date, pushed_ref: compose::optional(self.pushed_ref) }
    }
}

impl Default for GitPushLineHandler {
    /// Nothing observed yet.
    fn default() -> (r: Self)
        ensures
            r@ == fresh(),
    {
        GitPushLineHandler { up_to_date: false, pushed_ref: None }
    }
}

impl GitPushLineHandler {
    /// Whether a line is dropped.
    pub fn should_skip(&mut self, line: &str) -> (r: bool)
        ensures
            r == is_skipped(line@),
            final(self)@ == old(self)@,
    {
        let text = chars::to_chars(line);
        if text.len() == 0 {
            return true;
        }
        let trimmed = chars::trim_start(text.as_slice());
        let prefixes = noise_prefixes();
        let mut i: usize = 0;
        while i < prefixes.len()
            invariant
                i <= prefixes@.len(),
                prefixes.deep_view() == noise(),
                trimmed@ == chars::trimmed_start(line@),
                forall|j: int|
                    0 <= j < i ==> !chars::has_prefix(trimmed@, #[trigger] noise()[j]),
            decreases prefixes@.len() - i,
        {
            assert(prefixes.deep_view()[i as int] == prefixes@[i as int]@);
            if chars::starts_with(trimmed, prefixes[i].as_str()) {
                assert(chars::has_prefix(trimmed@, noise()[i as int]));
                return true;
            }
            i += 1;
        }
        assert(prefixes.deep_view().len() == prefixes@.len());
        false
    }

    /// Takes in a line that is shown.
    pub fn observe_line(&mut self, line: &str)
        ensures
            final(self)@ == observed(old(self)@, line@),
    {
        let text = chars::to_chars(line);
        let n: usize = text.len();
        if search::contains(text.as_slice(), "Everything up-to-date") {
            self.up_to_date = true;
        }
        if self.pushed_ref.is_none() {
            proof {
                reveal_strlit(" -> ");
                search::lemma_first_at(line@, " -> "@);
            }
            match search::find(text.as_slice(), " -> ") {
                Some(p) => {
                    let after = slice_subrange(text.as_slice(), p + 4, n);
                    assert(after@ == line@.skip(p + 4));
                    let words = split::words(after);
                    assert(split::views(words@).len() == words@.len());
                    if words.len() > 0 {
                        assert(split::views(words@)[0] == words@[0]@);
                        self.pushed_ref = Some(chars::string_of(words[0]));
                    }
                },
                None => {},
            }
        }
    }

    /// The line that the push ends with: none where it failed.
    pub fn format_summary(&self, exit_code: i32, _raw: &str) -> (r: Option<String>)
        ensures
            compose::optional(r) == push_summary(self@, exit_code as int),
    {
        if exit_code != 0 {
            return None;
        }
        let mut summary = if self.up_to_date {
            "ok (up-to-date)".to_string()
        } else {
            match &self.pushed_ref {
                Some(dest) => {
                    let mut s = "ok ".to_string();
                    s.append(dest.as_str());
                    s
                },
                None => "ok".to_string(),
            }
        };
        summary.append("\n");
        Some(summary)
    }
}

/// Passes a push through line by line.
#[derive(Debug)]
pub struct LineStreamFilter {
    handler: GitPushLineHandler,
}

impl View for LineStreamFilter {
    type V = PushView;

    closed spec fn view(&self) -> PushView {
        self.handler@
    }
}

/// What has been observed after one more line of the stream.
pub open spec fn fed(p: PushView, line: Seq<char>) -> PushView {
    if is_skipped(line) {
        p
    } else {
        observed(p, line)
    }
}

/// What is let through of a line of the stream.
pub open spec fn let_through(line: Seq<char>) -> Option<Seq<char>> {
    if is_skipped(line) {
        None
    } else {
        Some(line + "\n"@)
    }
}

impl LineStreamFilter {
    /// A filter around `handler`.
    pub fn new(handler: GitPushLineHandler) -> (r: Self)
        ensures
            r@ == handler@,
    {
        LineStreamFilter { handler }
    }

    /// Takes in a line; returns what is let through of it.
    pub fn feed_line(&mut self, line: &str) -> (r: Option<String>)
        ensures
            compose::optional(r) == let_through(line@),
            final(self)@ == fed(old(self)@, line@),
    {
        if self.handler.should_skip(line) {
            return None;
        }
        self.handler.observe_line(line);
        let mut out = line.to_string();
        out.append("\n");
        Some(out)
    }

    /// What is still to be written when the stream ends: nothing is ever held back.
    pub fn flush(&mut self) -> (r: String)
        ensures
            r@ == Seq::<char>::empty(),
            final(self)@ == old(self)@,
    {
        String::new()
    }

    /// What is written once the command has ended.
    pub fn on_exit(&mut self, exit_code: i32, raw: &str) -> (r: Option<String>)
        ensures
            compose::optional(r) == push_summary(old(self)@, exit_code as int),
            final(self)@ == old(self)@,
    {
        self.handler.format_summary(exit_code, raw)
    }
}

/// What has been observed after all of the lines.
pub open spec fn fed_all(lines: Seq<Seq<char>>) -> PushView
    decreases lines.len(),
{
    if lines.len() == 0 {
        fresh()
    } else {
        fed(fed_all(lines.drop_last()), lines.last())
    }
}

/// The first ref that a shown line names.
pub open spec fn first_ref(lines: Seq<Seq<char>>) -> Option<Seq<char>>
    decreases lines.len(),
{
    if lines.len() == 0 {
        None
    } else if !is_skipped(lines[0]) && ref_of(lines[0]) is Some {
        ref_of(lines[0])
    } else {
        first_ref(lines.drop_first())
    }
}

/// The first ref that is pushed is the one that the summary names.
pub proof fn law_first_ref_wins(lines: Seq<Seq<char>>)
    ensures
        fed_all(lines).pushed_ref == first_ref(lines),
    decreases lines.len(),
{
    if lines.len() > 0 {
        law_first_ref_wins(lines.drop_last());
        lemma_first_ref(lines.drop_last(), lines.last());
        assert(lines.drop_last().push(lines.last()) == lines);
    }
}

proof fn lemma_first_ref(lines: Seq<Seq<char>>, line: Seq<char>)
    ensures
        first_ref(lines.push(line)) == if first_ref(lines) is Some {
            first_ref(lines)
        } else if is_skipped(line) {
            None
        } else {
            ref_of(line)
        },
    decreases lines.len(),
{
    let all = lines.push(line);
    if lines.len() == 0 {
        assert(all[0] == line);
        assert(all.drop_first() == Seq::<Seq<char>>::empty());
        assert(first_ref(all.drop_first()) is None);
    } else {
        assert(all[0] == lines[0]);
        assert(all.drop_first() == lines.drop_first().push(line));
        lemma_first_ref(lines.drop_first(), line);
    }
}

/// A push that failed has no summary, whatever was observed; one that succeeded has one.
pub proof fn law_no_summary_on_failure(p: PushView, exit_code: int)
    ensures
        push_summary(p, exit_code) is Some <==> exit_code == 0,
{
}

/// Nothing but progress and empty lines is dropped, and what is let through is the line itself.
pub proof fn law_only_progress_dropped(line: Seq<char>)
    ensures
        let_through(line) is None <==> line.len() == 0 || is_progress(line),
        let_through(line) is Some ==> let_through(line)->0 == line + "\n"@,
{
}

/// A push is up to date exactly where one of its lines that are shown says so.
pub proof fn law_up_to_date(lines: Seq<Seq<char>>)
    ensures
        fed_all(lines).up_to_date <==> exists|i: int|
            0 <= i < lines.len() && !is_skipped(#[trigger] lines[i]) && search::occurs(
                lines[i],
                "Everything up-to-date"@,
            ),
    decreases lines.len(),
{
    if lines.len() > 0 {
        let front = lines.drop_last();
        law_up_to_date(front);
        if fed_all(front).up_to_date {
            let i = choose|i: int|
                0 <= i < front.len() && !is_skipped(#[trigger] front[i]) && search::occurs(
                    front[i],
                    "Everything up-to-date"@,
                );
            assert(!is_skipped(lines[i]));
        }
        if exists|i: int|
            0 <= i < lines.len() && !is_skipped(#[trigger] lines[i]) && search::occurs(
                lines[i],
                "Everything up-to-date"@,
            ) {
            let i = choose|i: int|
                0 <= i < lines.len() && !is_skipped(#[trigger] lines[i]) && search::occurs(
                    lines[i],
                    "Everything up-to-date"@,
                );
            if i < front.len() {
                assert(!is_skipped(front[i]));
            }
        }
        if !is_skipped(lines.last()) && search::occurs(lines.last(), "Everything up-to-date"@) {
            assert(!is_skipped(lines[lines.len() - 1]));
        }
    }
}

/// The ref that a line names is the word behind its first arrow.
pub proof fn law_ref_of(before: Seq<char>, name: Seq<char>, after: Seq<char>)
    requires
        !search::occurs(before + " -> "@.take(3), " -> "@),
        name.len() > 0,
        forall|i: int| 0 <= i < name.len() ==> !chars::is_space(#[trigger] name[i]),
        after.len() > 0 ==> chars::is_space(after[0]),
    ensures
        ref_of(before + " -> "@ + name + after) == Some(name),
{
    reveal_strlit(" -> ");
    let p = " -> "@;
    let line = before + p + name + after;
    let k: int = before.len() as int;
    let head = before + p.take(3);
    search::lemma_first_at(line, p);
    assert(line.subrange(k, k + 4) == p);
    assert(search::occurs_at(line, p, k));
    assert forall|j: int| 0 <= j < k implies !search::occurs_at(line, p, j) by {
        if search::occurs_at(line, p, j) {
            assert(head.subrange(j, j + 4) == line.subrange(j, j + 4));
            assert(search::occurs_at(head, p, j));
        }
    }
    assert(search::first_at(line, p) == Some(k));
    let rest = line.skip(k + 4);
    assert(rest == name + after);
    split::lemma_first_word(name, after);
    assert(split::words_of(rest)[0] == name);
}

/// A push that succeeded is summed up by whether it was up to date, else by the ref.
pub proof fn law_push_summary(name: Seq<char>, up_to_date: bool)
    ensures
        push_summary(PushView { up_to_date: true, pushed_ref: None }, 0) == Some(
            "ok (up-to-date)"@ + "\n"@,
        ),
        push_summary(PushView { up_to_date: true, pushed_ref: Some(name) }, 0) == Some(
            "ok (up-to-date)"@ + "\n"@,
        ),
        push_summary(PushView { up_to_date: false, pushed_ref: Some(name) }, 0) == Some(
            "ok "@ + name + "\n"@,
        ),
        push_summary(PushView { up_to_date: false, pushed_ref: None }, 0) == Some("ok"@ + "\n"@),
{
}

/// What progress looks like, indented or not.
pub proof fn law_progress(rest: Seq<char>)
    ensures
        is_progress("Enumerating objects:"@ + rest),
        is_progress("Counting objects:"@ + rest),
        is_progress("Compressing objects:"@ + rest),
        is_progress("Writing objects:"@ + rest),
        is_progress("Delta compression using"@ + rest),
        is_progress("Total "@ + rest),
        is_progress(" "@ + rest) == is_progress(rest),
{
    reveal_strlit("Enumerating objects:");
    reveal_strlit("Counting objects:");
    reveal_strlit("Compressing objects:");
    reveal_strlit("Writing objects:");
    reveal_strlit("Delta compression using");
    reveal_strlit("Total ");
    reveal_strlit(" ");
    lemma_noise(0, "Enumerating objects:"@, rest);
    lemma_noise(1, "Counting objects:"@, rest);
    lemma_noise(2, "Compressing objects:"@, rest);
    lemma_noise(3, "Writing objects:"@, rest);
    lemma_noise(4, "Delta compression using"@, rest);
    lemma_noise(5, "Total "@, rest);
    assert(chars::is_space(' '));
    assert((" "@ + rest).drop_first() == rest);
    assert(chars::trimmed_start(" "@ + rest) == chars::trimmed_start(rest));
}

proof fn lemma_noise(i: int, p: Seq<char>, rest: Seq<char>)
    requires
        0 <= i < 6,
        noise()[i] == p,
        p.len() > 0,
        !chars::is_space(p[0]),
    ensures
        is_progress(p + rest),
{
    let line = p + rest;
    assert(line[0] == p[0]);
    assert(chars::trimmed_start(line) == line);
    chars::lemma_prefix(p, rest);
    assert(chars::has_prefix(chars::trimmed_start(line), noise()[i]));
}

/// A line that is not empty and does not begin, behind its indentation, like a report of progress is
/// let through whole, with its line feed; an empty line is not.
pub proof fn law_other_lines_pass(line: Seq<char>)
    requires
        line.len() > 0,
        ({
            let start = chars::trimmed_start(line);
            &&& !chars::has_prefix(start, "Enumerating objects:"@)
            &&& !chars::has_prefix(start, "Counting objects:"@)
            &&& !chars::has_prefix(start, "Compressing objects:"@)
            &&& !chars::has_prefix(start, "Writing objects:"@)
            &&& !chars::has_prefix(start, "Delta compression using"@)
            &&& !chars::has_prefix(start, "Total "@)
        }),
    ensures
        let_through(line) == Some(line.push('\n')),
        let_through(Seq::empty()) is None,
{
    reveal_strlit("\n");
    assert(line + "\n"@ == line.push('\n'));
    if is_progress(line) {
        let i = choose|i: int|
            0 <= i < noise().len() && chars::has_prefix(
                chars::trimmed_start(line),
                #[trigger] noise()[i],
            );
        assert(i == 0 || i == 1 || i == 2 || i == 3 || i == 4 || i == 5);
    }
}

} // verus!
