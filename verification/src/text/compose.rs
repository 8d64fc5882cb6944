//! Putting text together.
use crate::text::chars;
use vstd::prelude::*;

verus! {

/// The parts one after another, with `sep` between neighbours.
pub open spec fn joined(parts: Seq<Seq<char>>, sep: Seq<char>) -> Seq<char>
    decreases parts.len(),
{
    if parts.len() == 0 {
        Seq::empty()
    } else if parts.len() == 1 {
        parts[0]
    } else {
        joined(parts.drop_last(), sep) + sep + parts.last()
    }
}

/// Joining two lists is joining each, with the separator between them.
pub proof fn lemma_joined_front(a: Seq<Seq<char>>, b: Seq<Seq<char>>, sep: Seq<char>)
    requires
        a.len() > 0,
        b.len() > 0,
    ensures
        joined(a + b, sep) == joined(a, sep) + sep + joined(b, sep),
    decreases b.len(),
{
    let all = a + b;
    assert(all.drop_last() == a + b.drop_last());
    assert(all.last() == b.last());
    if b.len() == 1 {
        assert(a + b.drop_last() == a);
    } else {
        lemma_joined_front(a, b.drop_last(), sep);
        assert(joined(a, sep) + sep + joined(b.drop_last(), sep) + sep + b.last() == joined(a, sep)
            + sep + (joined(b.drop_last(), sep) + sep + b.last()));
    }
}

/// The text of an optional string.
pub open spec fn optional(s: Option<String>) -> Option<Seq<char>> {
    match s {
        Some(t) => Some(t@),
        None => None,
    }
}

/// The text of an optional text.
pub open spec fn optional_str(s: Option<&str>) -> Option<Seq<char>> {
    match s {
        Some(t) => Some(t@),
        None => None,
    }
}

/// A text, or none at all.
pub open spec fn text_or_empty(s: Option<Seq<char>>) -> Seq<char> {
    match s {
        Some(t) => t,
        None => Seq::empty(),
    }
}

/// A string, or an empty one where there is none.
pub fn or_empty(s: Option<String>) -> (r: String)
    ensures
        r@ == text_or_empty(optional(s)),
{
    match s {
        Some(t) => t,
        None => String::new(),
    }
}

/// Joins the parts with `sep` between neighbours.
pub fn join(parts: &[String], sep: &str) -> (r: String)
    ensures
        r@ == joined(parts.deep_view(), sep@),
{
    let mut out = String::new();
    let mut i: usize = 0;
    let ghost all = parts.deep_view();
    while i < parts.len()
        invariant
            i <= parts@.len(),
            all == parts.deep_view(),
            out@ == joined(all.take(i as int), sep@),
        decreases parts@.len() - i,
    {
        assert(all.take(i + 1).drop_last() == all.take(i as int));
        if i > 0 {
            out.append(sep);
        }
        out.append(parts[i].as_str());
        assert(out@ == joined(all.take(i + 1), sep@));
        i += 1;
    }
    assert(all.take(all.len() as int) == all);
    out
}

/// Appends a string to a list.
pub fn push(list: &mut Vec<String>, s: String)
    ensures
        final(list).deep_view() == old(list).deep_view().push(s@),
{
    list.push(s);
    assert(list.deep_view() == old(list).deep_view().push(s@));
}

/// Appends a copy of `s` to a list.
pub fn push_str(list: &mut Vec<String>, s: &str)
    ensures
        final(list).deep_view() == old(list).deep_view().push(s@),
{
    push(list, s.to_string());
}

/// Appends a text to a list.
pub fn push_chars(list: &mut Vec<String>, s: &[char])
    ensures
        final(list).deep_view() == old(list).deep_view().push(s@),
{
    push(list, chars::string_of(s));
}

/// The strings of the list, each behind `prefix`.
pub open spec fn indented(prefix: Seq<char>, list: Seq<Seq<char>>) -> Seq<Seq<char>> {
    list.map_values(|s: Seq<char>| prefix + s)
}

/// Appends the first `n` of `more`, each behind `prefix`.
pub fn push_indented(list: &mut Vec<String>, prefix: &str, more: &[String], n: usize)
    requires
        n <= more@.len(),
    ensures
        final(list).deep_view() == old(list).deep_view() + indented(
            prefix@,
            more.deep_view().take(n as int),
        ),
{
    let ghost all = more.deep_view();
    let mut i: usize = 0;
    assert(list.deep_view() == old(list).deep_view() + indented(prefix@, all.take(0)));
    while i < n
        invariant
            i <= n <= more@.len(),
            all == more.deep_view(),
            list.deep_view() == old(list).deep_view() + indented(prefix@, all.take(i as int)),
        decreases n - i,
    {
        let mut s = prefix.to_string();
        s.append(more[i].as_str());
        push(list, s);
        assert(all.take(i + 1) == all.take(i as int).push(all[i as int]));
        assert(list.deep_view() == old(list).deep_view() + indented(prefix@, all.take(i + 1)));
        i += 1;
    }
}

/// Appends copies of the items of `more` from `from` on, up to `to`.
pub fn push_range(list: &mut Vec<String>, more: &[String], from: usize, to: usize)
    requires
        from <= to <= more@.len(),
    ensures
        final(list).deep_view() == old(list).deep_view() + more.deep_view().subrange(
            from as int,
            to as int,
        ),
{
    let mut i: usize = from;
    let ghost all = more.deep_view();
    assert(list.deep_view() == old(list).deep_view() + all.subrange(from as int, from as int));
    while i < to
        invariant
            from <= i <= to <= more@.len(),
            all == more.deep_view(),
            list.deep_view() == old(list).deep_view() + all.subrange(from as int, i as int),
        decreases to - i,
    {
        push_str(list, more[i].as_str());
        assert(list.deep_view() == old(list).deep_view() + all.subrange(from as int, i + 1));
        i += 1;
    }
}

/// Appends copies of all of `more`.
pub fn extend(list: &mut Vec<String>, more: &[String])
    ensures
        final(list).deep_view() == old(list).deep_view() + more.deep_view(),
{
    push_range(list, more, 0, more.len());
    assert(more.deep_view().subrange(0, more@.len() as int) == more.deep_view());
}

/// A copy of a list.
pub fn copied(list: &[String]) -> (r: Vec<String>)
    ensures
        r.deep_view() == list.deep_view(),
{
    let mut out: Vec<String> = Vec::new();
    extend(&mut out, list);
    assert(out.deep_view() == list.deep_view());
    out
}

/// `prefix` followed by `s`.
pub fn prefixed(prefix: &str, s: &[char]) -> (r: String)
    ensures
        r@ == prefix@ + s@,
{
    let mut out = prefix.to_string();
    out.append(chars::string_of(s).as_str());
    out
}

/// Whether `s` is one of the strings of the list.
pub fn has(list: &[String], s: &str) -> (r: bool)
    ensures
        r == list.deep_view().contains(s@),
{
    let mut i: usize = 0;
    while i < list.len()
        invariant
            i <= list@.len(),
            forall|j: int| 0 <= j < i ==> list@[j]@ != s@,
        decreases list@.len() - i,
    {
        if chars::same_str(list[i].as_str(), s) {
            assert(list.deep_view()[i as int] == s@);
            return true;
        }
        i += 1;
    }
    assert(forall|j: int| 0 <= j < list.deep_view().len() ==> list.deep_view()[j] == list@[j]@);
    false
}

/// Whether some string of the list satisfies `p`.
pub(crate) fn any<F: Fn(&str) -> bool>(
    list: &[String],
    f: F,
    Ghost(p): Ghost<spec_fn(Seq<char>) -> bool>,
) -> (r: bool)
    requires
        forall|s: &str| call_requires(f, (s,)),
        forall|s: &str, b: bool| call_ensures(f, (s,), b) ==> b == p(s@),
    ensures
        r == (exists|i: int| 0 <= i < list.deep_view().len() && p(#[trigger] list.deep_view()[i])),
{
    let mut i: usize = 0;
    while i < list.len()
        invariant
            i <= list@.len(),
            forall|s: &str| call_requires(f, (s,)),
            forall|s: &str, b: bool| call_ensures(f, (s,), b) ==> b == p(s@),
            forall|j: int| 0 <= j < i ==> !p(#[trigger] list.deep_view()[j]),
        decreases list@.len() - i,
    {
        let found = f(list[i].as_str());
        assert(list.deep_view()[i as int] == list@[i as int]@);
        if found {
            return true;
        }
        i += 1;
    }
    false
}

} // verus!
