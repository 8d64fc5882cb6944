//! Cutting text into lines, words and pieces.
use crate::text::chars;
use crate::text::search;
use vstd::prelude::*;
use vstd::slice::slice_subrange;

verus! {

/// The texts of a sequence of slices.
pub open spec fn views(v: Seq<&[char]>) -> Seq<Seq<char>> {
    v.map_values(|s: &[char]| s@)
}

/// The pieces of `s` between successive occurrences of `p`, from left to right.
pub open spec fn pieces(s: Seq<char>, p: Seq<char>) -> Seq<Seq<char>>
    decreases s.len(),
{
    proof {
        search::lemma_first_at(s, p);
    }
    match search::first_at(s, p) {
        Some(i) if p.len() > 0 => seq![s.take(i)] + pieces(s.skip(i + p.len()), p),
        _ => seq![s],
    }
}

/// Cuts `s` at every occurrence of `p`.
pub fn split_chars<'a>(s: &'a [char], p: &[char]) -> (r: Vec<&'a [char]>)
    requires
        p@.len() > 0,
    ensures
        views(r@) == pieces(s@, p@),
        r@.len() > 0,
{
    let mut out: Vec<&'a [char]> = Vec::new();
    let mut rest = s;
    loop
        invariant
            p@.len() > 0,
            views(out@) + pieces(rest@, p@) == pieces(s@, p@),
        decreases rest@.len(),
    {
        proof {
            search::lemma_first_at(rest@, p@);
        }
        match search::find_chars(rest, p) {
            Some(i) => {
                let ghost before = out@;
                let n: usize = rest.len();
                let piece = slice_subrange(rest, 0, i);
                let next = slice_subrange(rest, i + p.len(), n);
                assert(rest@.take(i as int) == piece@);
                assert(rest@.skip(i + p@.len()) == next@);
                out.push(piece);
                assert(views(out@) == views(before).push(piece@));
                assert(views(before) + (seq![piece@] + pieces(next@, p@)) == views(out@) + pieces(
                    next@,
                    p@,
                ));
                rest = next;
            },
            None => {
                let ghost before = out@;
                out.push(rest);
                assert(views(out@) == views(before) + seq![rest@]);
                return out;
            },
        }
    }
}

/// Cuts `s` at every occurrence of `p`.
pub fn split<'a>(s: &'a [char], p: &str) -> (r: Vec<&'a [char]>)
    requires
        p@.len() > 0,
    ensures
        views(r@) == pieces(s@, p@),
        r@.len() > 0,
{
    let pc = chars::to_chars(p);
    split_chars(s, pc.as_slice())
}

/// A line without the carriage return of its line ending.
pub open spec fn without_cr(s: Seq<char>) -> Seq<char> {
    if s.len() > 0 && s.last() == '\r' {
        s.drop_last()
    } else {
        s
    }
}

/// The lines of `s`. A line ends at a line feed, or at a carriage return and a line feed; the
/// ending is not part of the line, and the last line needs none.
pub open spec fn lines_of(s: Seq<char>) -> Seq<Seq<char>>
    decreases s.len(),
{
    proof {
        search::lemma_first_at(s, seq!['\n']);
    }
    if s.len() == 0 {
        Seq::empty()
    } else {
        match search::first_at(s, seq!['\n']) {
            Some(i) => seq![without_cr(s.take(i))] + lines_of(s.skip(i + 1)),
            None => seq![s],
        }
    }
}

/// Cuts `s` into its lines.
pub fn lines<'a>(s: &'a [char]) -> (r: Vec<&'a [char]>)
    ensures
        views(r@) == lines_of(s@),
{
    let mut out: Vec<&'a [char]> = Vec::new();
    let newline: Vec<char> = vec!['\n'];
    let mut rest = s;
    assert(newline@ == seq!['\n']);
    assert(views(out@) == Seq::<Seq<char>>::empty());
    while rest.len() > 0
        invariant
            newline@ == seq!['\n'],
            views(out@) + lines_of(rest@) == lines_of(s@),
        decreases rest@.len(),
    {
        proof {
            search::lemma_first_at(rest@, newline@);
        }
        let ghost before = out@;
        match search::find_chars(rest, newline.as_slice()) {
            Some(i) => {
                let whole = slice_subrange(rest, 0, i);
                let line = if i > 0 && rest[i - 1] == '\r' {
                    slice_subrange(rest, 0, i - 1)
                } else {
                    whole
                };
                let next = slice_subrange(rest, i + 1, rest.len());
                assert(rest@.take(i as int) == whole@);
                assert(line@ == without_cr(whole@));
                assert(rest@.skip(i + 1) == next@);
                out.push(line);
                assert(views(out@) == views(before).push(line@));
                assert(views(before) + (seq![line@] + lines_of(next@)) == views(out@) + lines_of(
                    next@,
                ));
                rest = next;
            },
            None => {
                out.push(rest);
                assert(views(out@) == views(before) + seq![rest@]);
                return out;
            },
        }
    }
    assert(views(out@) + lines_of(rest@) == views(out@));
    out
}

/// An empty text, or one that ends with a line feed.
pub open spec fn ends_line(s: Seq<char>) -> bool {
    s.len() == 0 || s.last() == '\n'
}

proof fn lemma_first_newline(s: Seq<char>)
    ensures
        match search::first_at(s, seq!['\n']) {
            Some(i) => 0 <= i < s.len() && s[i] == '\n' && !s.take(i).contains('\n'),
            None => !s.contains('\n'),
        },
{
    let p = seq!['\n'];
    search::lemma_first_at(s, p);
    assert forall|j: int| 0 <= j < s.len() && s[j] == '\n' implies search::occurs_at(s, p, j) by {
        assert(s.subrange(j, j + 1) == p);
    }
    match search::first_at(s, p) {
        Some(i) => {
            assert(s.subrange(i, i + 1)[0] == s[i]);
        },
        None => {},
    }
}

/// The lines of a text behind the end of a line stand behind the lines before it.
pub proof fn lemma_lines_concat(a: Seq<char>, b: Seq<char>)
    requires
        ends_line(a),
    ensures
        lines_of(a + b) == lines_of(a) + lines_of(b),
    decreases a.len(),
{
    if a.len() == 0 {
        assert(a + b == b);
        assert(lines_of(a) + lines_of(b) == lines_of(b));
    } else {
        lemma_first_newline(a);
        assert(a[a.len() - 1] == '\n');
        let i = search::first_at(a, seq!['\n'])->0;
        assert((a + b).take(i) == a.take(i));
        search::lemma_first_char(a + b, seq!['\n'], i);
        assert((a + b).skip(i + 1) == a.skip(i + 1) + b);
        lemma_lines_concat(a.skip(i + 1), b);
        let line = seq![without_cr(a.take(i))];
        assert(line + (lines_of(a.skip(i + 1)) + lines_of(b)) == (line + lines_of(a.skip(i + 1)))
            + lines_of(b));
    }
}

/// A line feed behind a last line that is not empty changes no line, unless a carriage return stands
/// before it.
pub proof fn lemma_lines_last(s: Seq<char>)
    requires
        s.len() > 0,
        s.last() != '\n',
        s.last() != '\r',
    ensures
        lines_of(s.push('\n')) == lines_of(s),
    decreases s.len(),
{
    let t = s.push('\n');
    lemma_first_newline(s);
    match search::first_at(s, seq!['\n']) {
        Some(i) => {
            assert(t.take(i) == s.take(i));
            search::lemma_first_char(t, seq!['\n'], i);
            assert(t.skip(i + 1) == s.skip(i + 1).push('\n'));
            lemma_lines_last(s.skip(i + 1));
        },
        None => {
            assert(t.take(s.len() as int) == s);
            search::lemma_first_char(t, seq!['\n'], s.len() as int);
            assert(t.skip(s.len() as int + 1) == Seq::<char>::empty());
            assert(lines_of(Seq::<char>::empty()) == Seq::<Seq<char>>::empty());
            assert(lines_of(t) == seq![s]);
        },
    }
}

/// A text without a line feed is one line, with a line feed behind it or not.
pub proof fn lemma_one_line(s: Seq<char>)
    requires
        s.len() > 0,
        !s.contains('\n'),
    ensures
        lines_of(s) == seq![s],
        lines_of(s.push('\n')) == seq![without_cr(s)],
{
    lemma_first_newline(s);
    let t = s.push('\n');
    assert(t.take(s.len() as int) == s);
    search::lemma_first_char(t, seq!['\n'], s.len() as int);
    assert(t.skip(s.len() as int + 1) == Seq::<char>::empty());
    assert(lines_of(Seq::<char>::empty()) == Seq::<Seq<char>>::empty());
    assert(lines_of(t) == seq![without_cr(s)]);
}

/// A character of a line is one of the text.
pub proof fn lemma_lines_within(s: Seq<char>, k: int, c: char)
    requires
        0 <= k < lines_of(s).len(),
        lines_of(s)[k].contains(c),
    ensures
        s.contains(c),
    decreases s.len(),
{
    lemma_first_newline(s);
    match search::first_at(s, seq!['\n']) {
        Some(i) => {
            if k == 0 {
                let j = choose|j: int| 0 <= j < lines_of(s)[0].len() && lines_of(s)[0][j] == c;
                assert(s[j] == c);
            } else {
                let rest = s.skip(i + 1);
                assert(lines_of(s)[k] == lines_of(rest)[k - 1]);
                lemma_lines_within(rest, k - 1, c);
                let j = choose|j: int| 0 <= j < rest.len() && rest[j] == c;
                assert(s[i + 1 + j] == c);
            }
        },
        None => {},
    }
}

/// How many characters stand before the first white space.
pub open spec fn word_len(s: Seq<char>) -> nat
    decreases s.len(),
{
    if s.len() > 0 && !chars::is_space(s[0]) {
        1 + word_len(s.drop_first())
    } else {
        0
    }
}

/// The word length stays within the text and is positive where a word begins.
pub proof fn lemma_word_len(s: Seq<char>)
    ensures
        word_len(s) <= s.len(),
        s.len() > 0 && !chars::is_space(s[0]) ==> word_len(s) > 0,
    decreases s.len(),
{
    if s.len() > 0 && !chars::is_space(s[0]) {
        lemma_word_len(s.drop_first());
    }
}

/// The maximal runs of characters that are not white space.
pub open spec fn words_of(s: Seq<char>) -> Seq<Seq<char>>
    decreases s.len(),
{
    let t = chars::trimmed_start(s);
    proof {
        chars::lemma_trimmed_start(s);
        lemma_word_len(t);
    }
    if t.len() == 0 {
        Seq::empty()
    } else {
        let n = word_len(t) as int;
        seq![t.take(n)] + words_of(t.skip(n))
    }
}

/// A run of characters that are no white space, with white space or nothing behind it, is a word.
pub proof fn lemma_word_len_is(word: Seq<char>, after: Seq<char>)
    requires
        forall|i: int| 0 <= i < word.len() ==> !chars::is_space(#[trigger] word[i]),
        after.len() > 0 ==> chars::is_space(after[0]),
    ensures
        word_len(word + after) == word.len(),
    decreases word.len(),
{
    let s = word + after;
    if word.len() == 0 {
        assert(s == after);
    } else {
        assert(s[0] == word[0]);
        let rest = word.drop_first();
        assert(s.drop_first() == rest + after);
        assert forall|i: int| 0 <= i < rest.len() implies !chars::is_space(#[trigger] rest[i]) by {
            assert(rest[i] == word[i + 1]);
        }
        lemma_word_len_is(rest, after);
    }
}

/// The word that a text begins with is the first of its words.
pub proof fn lemma_first_word(word: Seq<char>, after: Seq<char>)
    requires
        word.len() > 0,
        forall|i: int| 0 <= i < word.len() ==> !chars::is_space(#[trigger] word[i]),
        after.len() > 0 ==> chars::is_space(after[0]),
    ensures
        words_of(word + after) == seq![word] + words_of(after),
{
    let s = word + after;
    lemma_word_len_is(word, after);
    assert(s[0] == word[0]);
    assert(chars::trimmed_start(s) == s);
    assert(s.take(word.len() as int) == word);
    assert(s.skip(word.len() as int) == after);
}

/// How many characters stand before the first white space.
pub fn word_length(s: &[char]) -> (r: usize)
    ensures
        r == word_len(s@),
        r <= s@.len(),
{
    let mut i: usize = 0;
    assert(s@.skip(0) == s@);
    while i < s.len() && !chars::is_whitespace(s[i])
        invariant
            i <= s@.len(),
            i + word_len(s@.skip(i as int)) == word_len(s@),
        decreases s@.len() - i,
    {
        assert(s@.skip(i as int).drop_first() == s@.skip(i + 1));
        i += 1;
    }
    i
}

/// Cuts `s` into its words.
pub fn words<'a>(s: &'a [char]) -> (r: Vec<&'a [char]>)
    ensures
        views(r@) == words_of(s@),
{
    let mut out: Vec<&'a [char]> = Vec::new();
    let mut rest = s;
    assert(views(out@) == Seq::<Seq<char>>::empty());
    loop
        invariant
            views(out@) + words_of(rest@) == words_of(s@),
        decreases rest@.len(),
    {
        let ghost before = out@;
        let t = chars::trim_start(rest);
        proof {
            chars::lemma_trimmed_start(rest@);
            lemma_word_len(t@);
        }
        if t.len() == 0 {
            assert(views(out@) + words_of(rest@) == views(out@));
            return out;
        }
        let n: usize = word_length(t);
        let word = slice_subrange(t, 0, n);
        let next = slice_subrange(t, n, t.len());
        assert(t@.take(n as int) == word@);
        assert(t@.skip(n as int) == next@);
        out.push(word);
        assert(views(out@) == views(before).push(word@));
        assert(views(before) + (seq![word@] + words_of(next@)) == views(out@) + words_of(next@));
        rest = next;
    }
}

/// A line goes up to the first line feed; neither that nor one carriage return before it is part of
/// it. What follows is cut in the same way, and an empty text has no line.
pub proof fn law_first_line(line: Seq<char>, rest: Seq<char>)
    requires
        !line.contains('\n'),
        line.len() > 0 ==> line.last() != '\r',
    ensures
        lines_of(line + seq!['\n'] + rest) == seq![line] + lines_of(rest),
        lines_of(line + seq!['\r', '\n'] + rest) == seq![line] + lines_of(rest),
        line.len() > 0 ==> lines_of(line) == seq![line],
        lines_of(Seq::empty()).len() == 0,
{
    if line.len() > 0 {
        lemma_one_line(line);
    }
    lemma_cut_line(line, rest);
    let with_cr = line.push('\r');
    assert forall|i: int| 0 <= i < with_cr.len() implies with_cr[i] != '\n' by {
        if i < line.len() {
            assert(line.contains(line[i]));
        }
    }
    lemma_cut_line(with_cr, rest);
    assert(with_cr.drop_last() == line);
    assert(with_cr + seq!['\n'] + rest == line + seq!['\r', '\n'] + rest);
}

proof fn lemma_cut_line(line: Seq<char>, rest: Seq<char>)
    requires
        !line.contains('\n'),
    ensures
        lines_of(line + seq!['\n'] + rest) == seq![without_cr(line)] + lines_of(rest),
{
    let s = line + seq!['\n'] + rest;
    assert forall|i: int| 0 <= i < line.len() implies s[i] != '\n' by {
        assert(line.contains(line[i]));
    }
    search::lemma_first_char(s, seq!['\n'], line.len() as int);
    assert(s.take(line.len() as int) == line);
    assert(s.skip(line.len() as int + 1) == rest);
}

/// The first piece ends where the separator first stands, and the rest is cut in the same way; a
/// text without the separator is one piece.
pub proof fn law_first_piece(s: Seq<char>, p: Seq<char>, i: int)
    requires
        p.len() > 0,
        search::occurs_at(s, p, i),
        forall|j: int| 0 <= j < i ==> !search::occurs_at(s, p, j),
    ensures
        pieces(s, p) == seq![s.take(i)] + pieces(s.skip(i + p.len()), p),
{
    search::lemma_first_at(s, p);
}

/// A text in which the separator does not stand is one piece.
pub proof fn law_one_piece(s: Seq<char>, p: Seq<char>)
    requires
        !search::occurs(s, p),
    ensures
        pieces(s, p) == seq![s],
{
    search::lemma_first_at(s, p);
}

/// White space before a word is passed over; the word goes up to the next white space, and the words
/// behind it follow.
pub proof fn law_words(space: Seq<char>, word: Seq<char>, after: Seq<char>)
    requires
        forall|i: int| 0 <= i < space.len() ==> chars::is_space(#[trigger] space[i]),
        forall|i: int| 0 <= i < word.len() ==> !chars::is_space(#[trigger] word[i]),
        after.len() > 0 ==> chars::is_space(after[0]),
    ensures
        word.len() > 0 ==> words_of(space + word + after) == seq![word] + words_of(after),
        words_of(space).len() == 0,
    decreases space.len(),
{
    if space.len() > 0 {
        let s = space + word + after;
        let rest = space.drop_first();
        assert(s[0] == space[0]);
        assert(s.drop_first() == rest + word + after);
        assert forall|i: int| 0 <= i < rest.len() implies chars::is_space(#[trigger] rest[i]) by {
            assert(rest[i] == space[i + 1]);
        }
        law_words(rest, word, after);
        assert(chars::trimmed_start(s) == chars::trimmed_start(s.drop_first()));
        assert(chars::trimmed_start(space) == chars::trimmed_start(rest));
    } else {
        assert(space + word + after == word + after);
        if word.len() > 0 {
            lemma_first_word(word, after);
        }
    }
}

} // verus!
