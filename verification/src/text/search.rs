//! Where one text occurs in another.
use crate::text::chars;
use vstd::prelude::*;

verus! {

/// `p` stands at position `i` of `s`.
pub open spec fn occurs_at(s: Seq<char>, p: Seq<char>, i: int) -> bool {
    0 <= i && i + p.len() <= s.len() && s.subrange(i, i + p.len()) == p
}

/// `p` stands somewhere in `s`.
pub open spec fn occurs(s: Seq<char>, p: Seq<char>) -> bool {
    exists|i: int| occurs_at(s, p, i)
}

/// The first position at or after `from` where `p` stands in `s`.
pub open spec fn first_from(s: Seq<char>, p: Seq<char>, from: int) -> Option<int>
    decreases s.len() - from + 1,
{
    if from < 0 || from + p.len() > s.len() {
        None
    } else if occurs_at(s, p, from) {
        Some(from)
    } else {
        first_from(s, p, from + 1)
    }
}

/// The first position where `p` stands in `s`.
pub open spec fn first_at(s: Seq<char>, p: Seq<char>) -> Option<int> {
    first_from(s, p, 0)
}

/// The last position at or before `upto` where `p` stands in `s`.
pub open spec fn last_upto(s: Seq<char>, p: Seq<char>, upto: int) -> Option<int>
    decreases upto + 1,
{
    if upto < 0 {
        None
    } else if occurs_at(s, p, upto) {
        Some(upto)
    } else {
        last_upto(s, p, upto - 1)
    }
}

/// The last position where `p` stands in `s`.
pub open spec fn last_at(s: Seq<char>, p: Seq<char>) -> Option<int> {
    last_upto(s, p, s.len() - p.len())
}

/// A position as a mathematical integer.
pub open spec fn position(r: Option<usize>) -> Option<int> {
    match r {
        Some(i) => Some(i as int),
        None => None,
    }
}

/// `first_from` is the least position from `from` on where `p` stands.
pub proof fn lemma_first_from(s: Seq<char>, p: Seq<char>, from: int)
    requires
        0 <= from,
    ensures
        match first_from(s, p, from) {
            Some(i) => from <= i && occurs_at(s, p, i) && forall|j: int|
                from <= j < i ==> !occurs_at(s, p, j),
            None => forall|j: int| from <= j ==> !occurs_at(s, p, j),
        },
    decreases s.len() - from + 1,
{
    if from + p.len() <= s.len() && !occurs_at(s, p, from) {
        lemma_first_from(s, p, from + 1);
    }
}

/// `first_at` is the least position where `p` stands, and is there exactly when `p` occurs.
pub proof fn lemma_first_at(s: Seq<char>, p: Seq<char>)
    ensures
        match first_at(s, p) {
            Some(i) => occurs_at(s, p, i) && forall|j: int| 0 <= j < i ==> !occurs_at(s, p, j),
            None => forall|j: int| !occurs_at(s, p, j),
        },
        first_at(s, p) is Some <==> occurs(s, p),
{
    lemma_first_from(s, p, 0);
}

/// `last_upto` is the greatest position up to `upto` where `p` stands.
pub proof fn lemma_last_upto(s: Seq<char>, p: Seq<char>, upto: int)
    ensures
        match last_upto(s, p, upto) {
            Some(i) => i <= upto && occurs_at(s, p, i) && forall|j: int|
                i < j <= upto ==> !occurs_at(s, p, j),
            None => forall|j: int| j <= upto ==> !occurs_at(s, p, j),
        },
    decreases upto + 1,
{
    if upto >= 0 && !occurs_at(s, p, upto) {
        lemma_last_upto(s, p, upto - 1);
    }
}

/// `last_at` is the greatest position where `p` stands, and is there exactly when `p` occurs.
pub proof fn lemma_last_at(s: Seq<char>, p: Seq<char>)
    ensures
        match last_at(s, p) {
            Some(i) => occurs_at(s, p, i) && forall|j: int| i < j ==> !occurs_at(s, p, j),
            None => forall|j: int| !occurs_at(s, p, j),
        },
        last_at(s, p) is Some <==> occurs(s, p),
{
    lemma_last_upto(s, p, s.len() - p.len());
}

/// A single character stands where it is.
proof fn lemma_char_at(s: Seq<char>, p: Seq<char>)
    requires
        p.len() == 1,
    ensures
        forall|j: int| #[trigger] occurs_at(s, p, j) <==> 0 <= j < s.len() && s[j] == p[0],
{
    assert forall|j: int| #[trigger] occurs_at(s, p, j) <==> 0 <= j < s.len() && s[j] == p[0] by {
        if 0 <= j < s.len() {
            assert(s.subrange(j, j + 1)[0] == s[j]);
            if s[j] == p[0] {
                assert(s.subrange(j, j + 1) == p);
            }
        }
    }
}

/// A single character is found where it stands first.
pub proof fn lemma_first_char(s: Seq<char>, p: Seq<char>, i: int)
    requires
        p.len() == 1,
        0 <= i < s.len(),
        s[i] == p[0],
        !s.take(i).contains(p[0]),
    ensures
        first_at(s, p) == Some(i),
{
    lemma_char_at(s, p);
    lemma_first_at(s, p);
    assert(occurs_at(s, p, i));
    let k = first_at(s, p)->0;
    if k < i {
        assert(s.take(i)[k] == p[0]);
    }
}

/// A single character is found from the end where it stands last, and nowhere in a text that lacks
/// it.
pub proof fn lemma_last_char(a: Seq<char>, b: Seq<char>, p: Seq<char>)
    requires
        p.len() == 1,
        a.len() > 0 ==> a.last() == p[0],
        !b.contains(p[0]),
    ensures
        last_at(a + b, p) == if a.len() > 0 {
            Some(a.len() - 1)
        } else {
            None
        },
{
    let s = a + b;
    lemma_char_at(s, p);
    lemma_last_at(s, p);
    assert forall|j: int| a.len() <= j < s.len() implies s[j] != p[0] by {
        assert(s[j] == b[j - a.len()]);
    }
    if a.len() > 0 {
        assert(s[a.len() - 1] == p[0]);
        assert(occurs_at(s, p, a.len() - 1));
    }
}

/// Where a single character is found from the end, it parts the text, and does not stand behind.
pub proof fn lemma_last_parts(s: Seq<char>, p: Seq<char>)
    requires
        p.len() == 1,
    ensures
        last_at(s, p) matches Some(i) ==> 0 <= i < s.len() && s == s.take(i) + p + s.skip(i + 1)
            && !s.skip(i + 1).contains(p[0]),
{
    lemma_char_at(s, p);
    lemma_last_at(s, p);
    match last_at(s, p) {
        Some(i) => {
            assert(s[i] == p[0]);
            assert(s == s.take(i) + p + s.skip(i + 1));
            let rest = s.skip(i + 1);
            assert forall|j: int| 0 <= j < rest.len() implies rest[j] != p[0] by {
                assert(!occurs_at(s, p, i + 1 + j));
            }
        },
        None => {},
    }
}

/// Where a single character is found, it parts the text, and does not stand before.
pub proof fn lemma_first_parts(s: Seq<char>, p: Seq<char>)
    requires
        p.len() == 1,
    ensures
        match first_at(s, p) {
            Some(i) => 0 <= i < s.len() && s == s.take(i) + p + s.skip(i + 1) && !s.take(
                i,
            ).contains(p[0]),
            None => !s.contains(p[0]),
        },
{
    lemma_char_at(s, p);
    lemma_first_at(s, p);
    match first_at(s, p) {
        Some(i) => {
            assert(s[i] == p[0]);
            assert(s == s.take(i) + p + s.skip(i + 1));
            let head = s.take(i);
            assert forall|j: int| 0 <= j < head.len() implies head[j] != p[0] by {
                assert(!occurs_at(s, p, j));
            }
        },
        None => {
            assert forall|j: int| 0 <= j < s.len() implies s[j] != p[0] by {
                assert(!occurs_at(s, p, j));
            }
        },
    }
}

/// A text occurs where it was put.
pub proof fn lemma_occurs_between(a: Seq<char>, p: Seq<char>, b: Seq<char>)
    ensures
        occurs(a + p + b, p),
{
    let i: int = a.len() as int;
    assert((a + p + b).subrange(i, i + p.len()) == p);
    assert(occurs_at(a + p + b, p, i));
}

/// Whether `p` stands at position `i` of `s`.
pub fn stands_at(s: &[char], p: &[char], i: usize) -> (r: bool)
    requires
        i + p@.len() <= s@.len(),
    ensures
        r == occurs_at(s@, p@, i as int),
{
    let n: usize = s.len();
    let mut k: usize = 0;
    while k < p.len()
        invariant
            k <= p@.len(),
            i + p@.len() <= s@.len() == n,
            forall|j: int| 0 <= j < k ==> s@[i + j] == p@[j],
        decreases p@.len() - k,
    {
        if s[i + k] != p[k] {
            assert(s@.subrange(i as int, i + p@.len())[k as int] != p@[k as int]);
            return false;
        }
        k += 1;
    }
    assert(s@.subrange(i as int, i + p@.len()) =~= p@);
    true
}

/// The first position of `p` in `s`.
pub fn find_chars(s: &[char], p: &[char]) -> (r: Option<usize>)
    ensures
        position(r) == first_at(s@, p@),
{
    if p.len() > s.len() {
        return None;
    }
    let last: usize = s.len() - p.len();
    let mut i: usize = 0;
    while i <= last
        invariant
            last == s@.len() - p@.len(),
            i <= last + 1,
            first_from(s@, p@, i as int) == first_at(s@, p@),
        decreases last + 1 - i,
    {
        if stands_at(s, p, i) {
            return Some(i);
        }
        if i == last {
            assert(first_from(s@, p@, i + 1) is None);
            return None;
        }
        i += 1;
    }
    None
}

/// The first position of `p` in `s`.
pub fn find(s: &[char], p: &str) -> (r: Option<usize>)
    ensures
        position(r) == first_at(s@, p@),
{
    let pc = chars::to_chars(p);
    find_chars(s, pc.as_slice())
}

/// The last position of `p` in `s`.
pub fn rfind(s: &[char], p: &str) -> (r: Option<usize>)
    ensures
        position(r) == last_at(s@, p@),
{
    let pc = chars::to_chars(p);
    if pc.len() > s.len() {
        return None;
    }
    let mut i: usize = s.len() - pc.len();
    loop
        invariant
            pc@ == p@,
            i + pc@.len() <= s@.len(),
            last_upto(s@, p@, i as int) == last_at(s@, p@),
        decreases i,
    {
        if stands_at(s, pc.as_slice(), i) {
            return Some(i);
        }
        if i == 0 {
            assert(last_upto(s@, p@, -1) is None);
            return None;
        }
        i -= 1;
    }
}

/// Whether `p` stands somewhere in `s`.
pub fn contains(s: &[char], p: &str) -> (r: bool)
    ensures
        r == occurs(s@, p@),
{
    proof {
        lemma_first_at(s@, p@);
    }
    find(s, p).is_some()
}

/// Whether the character `c` stands somewhere in `s`.
pub fn contains_char(s: &[char], c: char) -> (r: bool)
    ensures
        r == s@.contains(c),
{
    let mut i: usize = 0;
    while i < s.len()
        invariant
            i <= s@.len(),
            forall|j: int| 0 <= j < i ==> s@[j] != c,
        decreases s@.len() - i,
    {
        if s[i] == c {
            return true;
        }
        i += 1;
    }
    false
}

/// Whether `p` stands somewhere in the string `s`.
pub fn str_contains(s: &str, p: &str) -> (r: bool)
    ensures
        r == occurs(s@, p@),
{
    let sc = chars::to_chars(s);
    contains(sc.as_slice(), p)
}

} // verus!
