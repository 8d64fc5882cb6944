//! Compact rendering of unified diffs.
use crate::text::chars;
use crate::text::compose;
use crate::text::number;
use crate::text::split;
use vstd::prelude::*;

verus! {

/// How many lines of one hunk are shown.
pub const MAX_HUNK_LINES: usize = 100;

/// What a line of a diff is.
pub enum LineKind {
    /// The header of a file.
    File,
    /// The header of a hunk.
    Hunk,
    /// A line that the hunk adds.
    Added,
    /// A line that the hunk removes.
    Removed,
    /// A line that the hunk leaves alone.
    Context,
    /// Anything else.
    Other,
}

/// The kind of a line, given whether it stands in a hunk.
pub open spec fn kind(line: Seq<char>, in_hunk: bool) -> LineKind {
    if chars::has_prefix(line, "diff --git"@) {
        LineKind::File
    } else if chars::has_prefix(line, "@@"@) {
        LineKind::Hunk
    } else if !in_hunk {
        LineKind::Other
    } else if line.len() > 0 && line[0] == '+' && !chars::has_prefix(line, "+++"@) {
        LineKind::Added
    } else if line.len() > 0 && line[0] == '-' && !chars::has_prefix(line, "---"@) {
        LineKind::Removed
    } else if !chars::has_prefix(line, "\\"@) {
        LineKind::Context
    } else {
        LineKind::Other
    }
}

/// The path that a file header names: what follows the first ` b/`, up to a second one.
pub open spec fn header_path(line: Seq<char>) -> Seq<char> {
    let parts = split::pieces(line, " b/"@);
    if parts.len() > 1 {
        parts[1]
    } else {
        "unknown"@
    }
}

/// The state of a compaction after some lines of the diff.
#[verifier::ext_equal]
pub struct Compact {
    /// The entries written so far.
    pub out: Seq<Seq<char>>,
    /// The path of the current file, empty before the first one.
    pub file: Seq<char>,
    /// Lines added in the current file.
    pub added: nat,
    /// Lines removed in the current file.
    pub removed: nat,
    /// Whether a hunk header was seen in the current file.
    pub in_hunk: bool,
    /// Lines of the current hunk that were written.
    pub shown: nat,
    /// Changed lines of the current hunk that were left out and not yet reported.
    pub skipped: nat,
    /// Whether anything was left out so far and reported.
    pub truncated: bool,
}

/// The state before the first line.
pub open spec fn start() -> Compact {
    Compact {
        out: Seq::empty(),
        file: Seq::empty(),
        added: 0,
        removed: 0,
        in_hunk: false,
        shown: 0,
        skipped: 0,
        truncated: false,
    }
}

/// The entry that reports `n` lines left out.
pub open spec fn skip_note(n: nat) -> Seq<char> {
    "  ... ("@ + number::dec(n) + " lines truncated)"@
}

/// The entry with the totals of a file.
pub open spec fn totals_note(added: nat, removed: nat) -> Seq<char> {
    "  +"@ + number::dec(added) + " -"@ + number::dec(removed)
}

/// The entry written where the whole output is cut.
pub open spec fn cut_note() -> Seq<char> {
    "\n... (more changes truncated)"@
}

/// The last entry of an output that left something out.
pub open spec fn recovery_hint() -> Seq<char> {
    "[full diff: rtk git diff --no-compact]"@
}

/// Reports the lines left out of the current hunk.
pub open spec fn flushed(st: Compact) -> Compact {
    if st.skipped > 0 {
        Compact { out: st.out.push(skip_note(st.skipped)), skipped: 0, truncated: true, ..st }
    } else {
        st
    }
}

/// Writes the totals of the current file, if there are any.
pub open spec fn totalled(st: Compact) -> Compact {
    if st.file.len() > 0 && (st.added > 0 || st.removed > 0) {
        Compact { out: st.out.push(totals_note(st.added, st.removed)), ..st }
    } else {
        st
    }
}

/// Writes a line of a hunk, indented.
pub open spec fn shown(st: Compact, line: Seq<char>) -> Compact {
    Compact { out: st.out.push("  "@ + line), shown: st.shown + 1, ..st }
}

/// Writes a changed line while the hunk has room, and counts it as left out afterwards.
pub open spec fn changed(st: Compact, line: Seq<char>) -> Compact {
    if st.shown < MAX_HUNK_LINES {
        shown(st, line)
    } else {
        Compact { skipped: st.skipped + 1, ..st }
    }
}

/// The state after one more line.
pub open spec fn advance(st: Compact, line: Seq<char>) -> Compact {
    match kind(line, st.in_hunk) {
        LineKind::File => {
            let t = totalled(flushed(st));
            Compact {
                out: t.out.push("\n"@ + header_path(line)),
                file: header_path(line),
                added: 0,
                removed: 0,
                in_hunk: false,
                shown: 0,
                ..t
            }
        },
        LineKind::Hunk => {
            let t = flushed(st);
            Compact { out: t.out.push("  "@ + line), in_hunk: true, shown: 0, ..t }
        },
        LineKind::Added => changed(Compact { added: st.added + 1, ..st }, line),
        LineKind::Removed => changed(Compact { removed: st.removed + 1, ..st }, line),
        LineKind::Context => if 0 < st.shown < MAX_HUNK_LINES {
            shown(st, line)
        } else {
            st
        },
        LineKind::Other => st,
    }
}

/// The state after all lines, or after the line with which the output reaches `max` entries.
pub open spec fn scan(st: Compact, lines: Seq<Seq<char>>, max: nat) -> Compact
    decreases lines.len(),
{
    if lines.len() == 0 {
        st
    } else {
        let next = advance(st, lines[0]);
        if next.out.len() >= max {
            Compact { out: next.out.push(cut_note()), truncated: true, ..next }
        } else {
            scan(next, lines.drop_first(), max)
        }
    }
}

/// The entries of a finished compaction.
pub open spec fn finished(st: Compact) -> Seq<Seq<char>> {
    let t = totalled(flushed(st));
    if t.truncated {
        t.out.push(recovery_hint())
    } else {
        t.out
    }
}

/// The entries that a diff is reduced to.
pub open spec fn compact_entries(diff: Seq<char>, max: nat) -> Seq<Seq<char>> {
    finished(scan(start(), split::lines_of(diff), max))
}

/// A compaction at work.
struct Compaction {
    out: Vec<String>,
    file: String,
    added: usize,
    removed: usize,
    in_hunk: bool,
    shown: usize,
    skipped: usize,
    truncated: bool,
}

impl View for Compaction {
    type V = Compact;

    closed spec fn view(&self) -> Compact {
        Compact {
            out: self.out.deep_view(),
            file: self.file@,
            added: self.added as nat,
            removed: self.removed as nat,
            in_hunk: self.in_hunk,
            shown: self.shown as nat,
            skipped: self.skipped as nat,
            truncated: self.truncated,
        }
    }
}

impl Compaction {
    fn flush(&mut self)
        ensures
            final(self)@ == flushed(old(self)@),
    {
        if self.skipped > 0 {
            let mut note = "  ... (".to_string();
            note.append(number::decimal(self.skipped).as_str());
            note.append(" lines truncated)");
            compose::push(&mut self.out, note);
            self.truncated = true;
            self.skipped = 0;
        }
    }

    fn total(&mut self)
        ensures
            final(self)@ == totalled(old(self)@),
    {
        if !self.file.as_str().is_empty() && (self.added > 0 || self.removed > 0) {
            let mut note = "  +".to_string();
            note.append(number::decimal(self.added).as_str());
            note.append(" -");
            note.append(number::decimal(self.removed).as_str());
            compose::push(&mut self.out, note);
        }
    }

    fn show(&mut self, line: &[char])
        requires
            old(self)@.shown < MAX_HUNK_LINES,
        ensures
            final(self)@ == shown(old(self)@, line@),
    {
        compose::push(&mut self.out, compose::prefixed("  ", line));
        self.shown += 1;
    }

    fn change(&mut self, line: &[char])
        requires
            old(self)@.skipped < usize::MAX,
        ensures
            final(self)@ == changed(old(self)@, line@),
    {
        if self.shown < MAX_HUNK_LINES {
            self.show(line);
        } else {
            self.skipped += 1;
        }
    }

    fn feed(&mut self, line: &[char])
        requires
            old(self)@.added < usize::MAX,
            old(self)@.removed < usize::MAX,
            old(self)@.skipped < usize::MAX,
        ensures
            final(self)@ == advance(old(self)@, line@),
    {
        if chars::starts_with(line, "diff --git") {
            self.flush();
            self.total();
            let path = named_path(line);
            let mut entry = "\n".to_string();
            entry.append(path.as_str());
            compose::push(&mut self.out, entry);
            self.file = path;
            self.added = 0;
            self.removed = 0;
            self.in_hunk = false;
            self.shown = 0;
        } else if chars::starts_with(line, "@@") {
            self.flush();
            self.in_hunk = true;
            self.shown = 0;
            compose::push(&mut self.out, compose::prefixed("  ", line));
        } else if self.in_hunk {
            if chars::starts_with_char(line, '+') && !chars::starts_with(line, "+++") {
                self.added += 1;
                self.change(line);
            } else if chars::starts_with_char(line, '-') && !chars::starts_with(line, "---") {
                self.removed += 1;
                self.change(line);
            } else if !chars::starts_with(line, "\\") && self.shown > 0 && self.shown
                < MAX_HUNK_LINES {
                self.show(line);
            }
        }
    }
}

fn named_path(line: &[char]) -> (r: String)
    ensures
        r@ == header_path(line@),
{
    proof {
        reveal_strlit(" b/");
    }
    let parts = split::split(line, " b/");
    if parts.len() > 1 {
        assert(split::views(parts@)[1] == parts@[1]@);
        chars::string_of(parts[1])
    } else {
        "unknown".to_string()
    }
}

/// The compact form of a diff, cut after about `max` entries.
pub open spec fn compacted(diff: Seq<char>, max: nat) -> Seq<char> {
    compose::joined(compact_entries(diff, max), "\n"@)
}

/// Reduces a unified diff to file names, hunk headers, changed lines and totals.
///
/// Each hunk shows at most `MAX_HUNK_LINES` lines, and the output is cut once it holds
/// `max_lines` entries. Whatever is left out is reported, and a last line then says how to get
/// the full diff.
pub fn compact_diff(diff: &str, max_lines: usize) -> (r: String)
    ensures
        r@ == compacted(diff@, max_lines as nat),
{
    let text = chars::to_chars(diff);
    let lines = split::lines(text.as_slice());
    let ghost all = split::lines_of(diff@);
    let mut work = Compaction {
        out: Vec::new(),
        file: String::new(),
        added: 0,
        removed: 0,
        in_hunk: false,
        shown: 0,
        skipped: 0,
        truncated: false,
    };
    assert(work@ == start());
    assert(all.skip(0) == all);
    let mut i: usize = 0;
    let mut cut = false;
    while i < lines.len() && !cut
        invariant
            i <= lines@.len(),
            all == split::views(lines@),
            work@.added <= i,
            work@.removed <= i,
            work@.skipped <= i,
            if cut {
                scan(start(), all, max_lines as nat) == work@
            } else {
                scan(start(), all, max_lines as nat) == scan(
                    work@,
                    all.skip(i as int),
                    max_lines as nat,
                )
            },
        decreases lines@.len() - i,
    {
        let ghost before = work@;
        let line = lines[i];
        assert(all.skip(i as int)[0] == line@);
        assert(all.skip(i as int).drop_first() == all.skip(i + 1));
        work.feed(line);
        assert(work@ == advance(before, line@));
        if work.out.len() >= max_lines {
            compose::push_str(&mut work.out, "\n... (more changes truncated)");
            work.truncated = true;
            cut = true;
        }
        i += 1;
    }
    work.flush();
    work.total();
    if work.truncated {
        compose::push_str(&mut work.out, "[full diff: rtk git diff --no-compact]");
    }
    compose::join(work.out.as_slice(), "\n")
}

/// The changed lines among `lines`, in order: those that some hunk adds or removes.
pub open spec fn changed_lines(lines: Seq<Seq<char>>, in_hunk: bool) -> Seq<Seq<char>>
    decreases lines.len(),
{
    if lines.len() == 0 {
        Seq::empty()
    } else {
        let rest = lines.drop_first();
        match kind(lines[0], in_hunk) {
            LineKind::File => changed_lines(rest, false),
            LineKind::Hunk => changed_lines(rest, true),
            LineKind::Added | LineKind::Removed => seq![lines[0]] + changed_lines(rest, in_hunk),
            _ => changed_lines(rest, in_hunk),
        }
    }
}

/// Whether the compaction of a diff leaves anything out that it has to report.
pub open spec fn leaves_out(diff: Seq<char>, max: nat) -> bool {
    flushed(scan(start(), split::lines_of(diff), max)).truncated
}

/// One line keeps what was written and never forgets that something was left out.
proof fn lemma_advance(st: Compact, line: Seq<char>)
    ensures
        st.out.len() <= advance(st, line).out.len() <= st.out.len() + 3,
        advance(st, line).out.take(st.out.len() as int) == st.out,
        flushed(st).truncated ==> flushed(advance(st, line)).truncated,
{
}

proof fn lemma_scan(st: Compact, lines: Seq<Seq<char>>, max: nat)
    ensures
        st.out.len() <= scan(st, lines, max).out.len(),
        scan(st, lines, max).out.take(st.out.len() as int) == st.out,
        flushed(st).truncated ==> flushed(scan(st, lines, max)).truncated,
    decreases lines.len(),
{
    if lines.len() > 0 {
        let next = advance(st, lines[0]);
        lemma_advance(st, lines[0]);
        if next.out.len() < max {
            lemma_scan(next, lines.drop_first(), max);
            let end = scan(next, lines.drop_first(), max).out;
            assert(end.take(st.out.len() as int) == end.take(next.out.len() as int).take(
                st.out.len() as int,
            ));
        } else {
            assert(next.out.push(cut_note()).take(st.out.len() as int) == next.out.take(
                st.out.len() as int,
            ));
        }
    }
}

proof fn lemma_nothing_lost(st: Compact, lines: Seq<Seq<char>>, max: nat, line: Seq<char>)
    requires
        !flushed(scan(st, lines, max)).truncated,
        changed_lines(lines, st.in_hunk).contains(line),
    ensures
        scan(st, lines, max).out.contains("  "@ + line),
    decreases lines.len(),
{
    let first = lines[0];
    let next = advance(st, first);
    let rest = lines.drop_first();
    let tail = changed_lines(rest, next.in_hunk);
    assert(next.out.len() < max);
    lemma_scan(next, rest, max);
    let end = scan(next, rest, max).out;
    if kind(first, st.in_hunk) is Added || kind(first, st.in_hunk) is Removed {
        assert(changed_lines(lines, st.in_hunk) == seq![first] + tail);
        if line == first {
            assert(next.skipped == 0);
            let k = st.out.len() as int;
            assert(next.out[k] == "  "@ + line);
            assert(end[k] == end.take(next.out.len() as int)[k]);
        } else {
            let j = choose|j: int|
                0 <= j < changed_lines(lines, st.in_hunk).len() && changed_lines(
                    lines,
                    st.in_hunk,
                )[j] == line;
            assert(tail[j - 1] == line);
            lemma_nothing_lost(next, rest, max, line);
        }
    } else {
        lemma_nothing_lost(next, rest, max, line);
    }
}

/// Nothing is dropped silently: where the compaction has nothing to report as left out, every
/// changed line of the diff is one of its entries.
pub proof fn law_no_silent_loss(diff: Seq<char>, max: nat, line: Seq<char>)
    requires
        !leaves_out(diff, max),
        changed_lines(split::lines_of(diff), false).contains(line),
    ensures
        compact_entries(diff, max).contains("  "@ + line),
{
    let lines = split::lines_of(diff);
    let end = scan(start(), lines, max);
    lemma_nothing_lost(start(), lines, max, line);
    let j = choose|j: int| 0 <= j < end.out.len() && end.out[j] == "  "@ + line;
    assert(compact_entries(diff, max)[j] == end.out[j]);
}

/// Entries other than the hint begin with a space or a line feed.
spec fn indented(out: Seq<Seq<char>>) -> bool {
    forall|i: int|
        0 <= i < out.len() ==> (#[trigger] out[i]).len() > 0 && (out[i][0] == ' ' || out[i][0]
            == '\n')
}

proof fn lemma_indented_push(out: Seq<Seq<char>>, head: Seq<char>, tail: Seq<char>)
    requires
        indented(out),
        head.len() > 0,
        head[0] == ' ' || head[0] == '\n',
    ensures
        indented(out.push(head + tail)),
{
    assert((head + tail)[0] == head[0]);
}

proof fn lemma_indented(st: Compact)
    requires
        indented(st.out),
    ensures
        indented(flushed(st).out),
        indented(totalled(st).out),
        forall|line: Seq<char>| indented(#[trigger] advance(st, line).out),
        indented(st.out.push(cut_note())),
{
    reveal_strlit("  ... (");
    reveal_strlit("  +");
    reveal_strlit("  ");
    reveal_strlit("\n");
    reveal_strlit("\n... (more changes truncated)");
    lemma_indented_push(st.out, "  ... ("@, number::dec(st.skipped) + " lines truncated)"@);
    assert(skip_note(st.skipped) == "  ... ("@ + (number::dec(st.skipped) + " lines truncated)"@));
    let tail = |t: Compact| number::dec(t.added) + (" -"@ + number::dec(t.removed));
    assert forall|t: Compact| indented(t.out) implies indented(#[trigger] totalled(t).out) by {
        lemma_indented_push(t.out, "  +"@, tail(t));
        assert(totals_note(t.added, t.removed) == "  +"@ + tail(t));
    }
    assert forall|line: Seq<char>| indented(#[trigger] advance(st, line).out) by {
        let f = flushed(st);
        let t = totalled(f);
        lemma_indented_push(t.out, "\n"@, header_path(line));
        lemma_indented_push(f.out, "  "@, line);
        lemma_indented_push(st.out, "  "@, line);
    }
}

proof fn lemma_indented_scan(st: Compact, lines: Seq<Seq<char>>, max: nat)
    requires
        indented(st.out),
    ensures
        indented(scan(st, lines, max).out),
    decreases lines.len(),
{
    if lines.len() > 0 {
        let next = advance(st, lines[0]);
        lemma_indented(st);
        lemma_indented(next);
        if next.out.len() < max {
            lemma_indented_scan(next, lines.drop_first(), max);
        }
    }
}

/// The recovery hint is in the output exactly when something was left out, and is then its last
/// entry.
pub proof fn law_recovery_hint(diff: Seq<char>, max: nat)
    ensures
        compact_entries(diff, max).contains(recovery_hint()) <==> leaves_out(diff, max),
        leaves_out(diff, max) ==> compact_entries(diff, max).last() == recovery_hint(),
{
    let end = scan(start(), split::lines_of(diff), max);
    let entries = compact_entries(diff, max);
    lemma_indented_scan(start(), split::lines_of(diff), max);
    lemma_indented(end);
    lemma_indented(flushed(end));
    reveal_strlit("[full diff: rtk git diff --no-compact]");
    if leaves_out(diff, max) {
        assert(entries[entries.len() - 1] == recovery_hint());
    } else {
        assert(indented(entries));
        assert forall|i: int| 0 <= i < entries.len() implies entries[i] != recovery_hint() by {
            assert(entries[i][0] == ' ' || entries[i][0] == '\n');
            assert(recovery_hint()[0] == '[');
        }
    }
}

/// In a run of changed lines a hunk shows the first `MAX_HUNK_LINES` and counts every further
/// one as left out.
pub proof fn law_hunk_count(st: Compact, lines: Seq<Seq<char>>, max: nat)
    requires
        st.in_hunk,
        st.shown <= MAX_HUNK_LINES,
        st.skipped > 0 ==> st.shown == MAX_HUNK_LINES,
        forall|i: int|
            0 <= i < lines.len() ==> kind(#[trigger] lines[i], true) is Added || kind(
                lines[i],
                true,
            ) is Removed,
        st.out.len() + lines.len() < max,
    ensures
        ({
            let room = (MAX_HUNK_LINES - st.shown) as nat;
            let n = if lines.len() < room {
                lines.len()
            } else {
                room
            };
            let end = scan(st, lines, max);
            &&& end.out == st.out + Seq::new(n, |i: int| "  "@ + lines[i])
            &&& end.shown == st.shown + n
            &&& end.skipped == st.skipped + lines.len() - n
            &&& end.added + end.removed == st.added + st.removed + lines.len()
            &&& end.truncated == st.truncated
        }),
    decreases lines.len(),
{
    let room = (MAX_HUNK_LINES - st.shown) as nat;
    let n = if lines.len() < room {
        lines.len()
    } else {
        room
    };
    if lines.len() == 0 {
        assert(st.out == st.out + Seq::new(n, |i: int| "  "@ + lines[i]));
    } else {
        let next = advance(st, lines[0]);
        let rest = lines.drop_first();
        assert forall|i: int| 0 <= i < rest.len() implies kind(#[trigger] rest[i], true) is Added
            || kind(rest[i], true) is Removed by {
            assert(rest[i] == lines[i + 1]);
        }
        law_hunk_count(next, rest, max);
        let m = if st.shown < MAX_HUNK_LINES {
            (n - 1) as nat
        } else {
            n
        };
        assert(next.out + Seq::new(m, |i: int| "  "@ + rest[i]) == st.out + Seq::new(
            n,
            |i: int| "  "@ + lines[i],
        ));
    }
}

proof fn lemma_scan_len(st: Compact, lines: Seq<Seq<char>>, max: nat)
    requires
        st.out.len() <= max,
    ensures
        scan(st, lines, max).out.len() <= max + 4,
    decreases lines.len(),
{
    if lines.len() > 0 {
        let next = advance(st, lines[0]);
        lemma_advance(st, lines[0]);
        if next.out.len() < max {
            lemma_scan_len(next, lines.drop_first(), max);
        }
    }
}

/// The output stays within a few entries of the limit, however long the diff is.
pub proof fn law_entry_limit(diff: Seq<char>, max: nat)
    ensures
        compact_entries(diff, max).len() <= max + 7,
{
    lemma_scan_len(start(), split::lines_of(diff), max);
}

/// How many of the lines add something.
pub open spec fn added_in(lines: Seq<Seq<char>>) -> nat
    decreases lines.len(),
{
    if lines.len() == 0 {
        0
    } else if kind(lines[0], true) is Added {
        1 + added_in(lines.drop_first())
    } else {
        added_in(lines.drop_first())
    }
}

proof fn lemma_added(st: Compact, lines: Seq<Seq<char>>, max: nat)
    requires
        st.in_hunk,
        forall|i: int|
            0 <= i < lines.len() ==> kind(#[trigger] lines[i], true) is Added || kind(
                lines[i],
                true,
            ) is Removed,
        st.out.len() + lines.len() < max,
    ensures
        scan(st, lines, max).added == st.added + added_in(lines),
        scan(st, lines, max).file == st.file,
        added_in(lines) <= lines.len(),
    decreases lines.len(),
{
    if lines.len() > 0 {
        let rest = lines.drop_first();
        assert forall|i: int| 0 <= i < rest.len() implies kind(#[trigger] rest[i], true) is Added
            || kind(rest[i], true) is Removed by {
            assert(rest[i] == lines[i + 1]);
        }
        lemma_added(advance(st, lines[0]), rest, max);
    }
}

/// A diff of one hunk is shown up to `MAX_HUNK_LINES` lines. What is left out is counted exactly,
/// the totals count every changed line, shown or not, and the hint follows.
pub proof fn law_one_hunk(
    diff: Seq<char>,
    file: Seq<char>,
    hunk: Seq<char>,
    lines: Seq<Seq<char>>,
    max: nat,
)
    requires
        split::lines_of(diff) == seq![file, hunk] + lines,
        kind(file, false) is File,
        kind(hunk, false) is Hunk,
        header_path(file).len() > 0,
        lines.len() > 0,
        forall|i: int|
            0 <= i < lines.len() ==> kind(#[trigger] lines[i], true) is Added || kind(
                lines[i],
                true,
            ) is Removed,
        lines.len() + 2 < max,
    ensures
        ({
            let a = added_in(lines);
            let head = seq!["\n"@ + header_path(file), "  "@ + hunk];
            let totals = totals_note(a, (lines.len() - a) as nat);
            compact_entries(diff, max) == if lines.len() > MAX_HUNK_LINES {
                head + compose::indented("  "@, lines.take(MAX_HUNK_LINES as int)) + seq![
                    skip_note((lines.len() - MAX_HUNK_LINES) as nat),
                    totals,
                    recovery_hint(),
                ]
            } else {
                head + compose::indented("  "@, lines) + seq![totals]
            }
        }),
{
    let all = split::lines_of(diff);
    let one = advance(start(), file);
    let two = advance(one, hunk);
    assert(all[0] == file);
    assert(all.drop_first()[0] == hunk);
    assert(all.drop_first().drop_first() == lines);
    assert(two.out == seq!["\n"@ + header_path(file), "  "@ + hunk]);
    assert(scan(start(), all, max) == scan(one, all.drop_first(), max));
    assert(scan(one, all.drop_first(), max) == scan(two, lines, max));
    law_hunk_count(two, lines, max);
    lemma_added(two, lines, max);
    let end = scan(two, lines, max);
    if lines.len() > MAX_HUNK_LINES {
        assert(Seq::new(MAX_HUNK_LINES as nat, |i: int| "  "@ + lines[i]) == compose::indented(
            "  "@,
            lines.take(MAX_HUNK_LINES as int),
        ));
    } else {
        assert(Seq::new(lines.len(), |i: int| "  "@ + lines[i]) == compose::indented("  "@, lines));
    }
}

} // verus!
