//! Byte positions in text.
use crate::text::chars;
use vstd::prelude::*;
use vstd::string::StrSliceExecFns;

verus! {

/// How many bytes a character takes.
pub open spec fn width(c: char) -> nat {
    if (c as u32) < 0x80 {
        1
    } else if (c as u32) < 0x800 {
        2
    } else if (c as u32) < 0x10000 {
        3
    } else {
        4
    }
}

/// How many bytes a text takes.
pub open spec fn size(s: Seq<char>) -> nat
    decreases s.len(),
{
    if s.len() == 0 {
        0
    } else {
        size(s.drop_last()) + width(s.last())
    }
}

/// How many leading characters of `s` fit in `n` bytes.
pub open spec fn fitting(s: Seq<char>, n: nat) -> nat
    decreases s.len(),
{
    if s.len() == 0 || width(s[0]) > n {
        0
    } else {
        1 + fitting(s.drop_first(), (n - width(s[0])) as nat)
    }
}

/// The longest start of `s` that takes no more than `n` bytes.
pub open spec fn head(s: Seq<char>, n: nat) -> Seq<char> {
    s.take(fitting(s, n) as int)
}

/// Whether a character of `s` ends at byte `n`, or `n` is zero.
pub open spec fn boundary(s: Seq<char>, n: nat) -> bool {
    size(head(s, n)) == n
}

/// How many bytes a character takes.
pub fn char_width(c: char) -> (r: usize)
    ensures
        r == width(c),
{
    let code: u32 = c as u32;
    if code < 0x80 {
        1
    } else if code < 0x800 {
        2
    } else if code < 0x10000 {
        3
    } else {
        4
    }
}

proof fn lemma_size_front(s: Seq<char>)
    requires
        s.len() > 0,
    ensures
        size(s) == width(s[0]) + size(s.drop_first()),
    decreases s.len(),
{
    if s.len() == 1 {
        assert(s.drop_last() == s.drop_first());
    } else {
        lemma_size_front(s.drop_last());
        assert(s.drop_first().drop_last() == s.drop_last().drop_first());
    }
}

/// The fitting start takes no more than `n` bytes, and one more character would take more.
pub proof fn lemma_fitting(s: Seq<char>, n: nat)
    ensures
        fitting(s, n) <= s.len(),
        size(head(s, n)) <= n,
        size(s) <= n <==> fitting(s, n) == s.len(),
    decreases s.len(),
{
    if s.len() == 0 {
        assert(head(s, n) == Seq::<char>::empty());
    } else {
        lemma_size_front(s);
        if width(s[0]) > n {
            assert(head(s, n) == Seq::<char>::empty());
        } else {
            let m = (n - width(s[0])) as nat;
            lemma_fitting(s.drop_first(), m);
            let h = head(s, n);
            assert(h.drop_first() == head(s.drop_first(), m));
            lemma_size_front(h);
        }
    }
}

/// How many leading characters fit in `n` bytes, and how many bytes they take.
fn fit(s: &[char], n: usize) -> (r: (usize, usize))
    ensures
        r.0 == fitting(s@, n as nat),
        r.0 <= s@.len(),
        r.1 == size(head(s@, n as nat)),
        r.1 <= n,
{
    let mut i: usize = 0;
    let mut used: usize = 0;
    assert(s@.take(0) == Seq::<char>::empty());
    assert(s@.skip(0) == s@);
    while i < s.len() && char_width(s[i]) <= n - used
        invariant
            i <= s@.len(),
            used <= n,
            used == size(s@.take(i as int)),
            fitting(s@, n as nat) == i + fitting(s@.skip(i as int), (n - used) as nat),
        decreases s@.len() - i,
    {
        assert(s@.skip(i as int).drop_first() == s@.skip(i + 1));
        assert(s@.take(i + 1).drop_last() == s@.take(i as int));
        used += char_width(s[i]);
        i += 1;
    }
    assert(fitting(s@.skip(i as int), (n - used) as nat) == 0);
    (i, used)
}

/// Whether a text takes fewer than `n` bytes.
pub fn shorter_than(s: &[char], n: usize) -> (r: bool)
    requires
        n > 0,
    ensures
        r == (size(s@) < n),
{
    let fitted = fit(s, n - 1);
    proof {
        lemma_fitting(s@, (n - 1) as nat);
    }
    fitted.0 == s.len()
}

/// Whether a character ends at byte `n`, so that a string can be cut there.
pub fn is_boundary(s: &[char], n: usize) -> (r: bool)
    ensures
        r == boundary(s@, n as nat),
{
    fit(s, n).1 == n
}

/// The longest start that takes no more than `n` bytes, of a string.
pub fn head_str(s: &str, n: usize) -> (r: &str)
    ensures
        r@ == head(s@, n as nat),
{
    let text = chars::to_chars(s);
    let count: usize = fit(text.as_slice(), n).0;
    let r = s.substring_char(0, count);
    assert(r@ == s@.take(count as int));
    r
}

/// The number of bytes is that of the UTF-8 encoding.
pub proof fn law_size_is_encoded_length(s: Seq<char>)
    ensures
        size(s) == vstd::utf8::encode_utf8(s).len(),
    decreases s.len(),
{
    if s.len() > 0 {
        lemma_size_front(s);
        law_size_is_encoded_length(s.drop_first());
        vstd::utf8::char_is_scalar(s[0]);
    }
}

/// Of ASCII text, bytes are characters.
pub proof fn lemma_ascii(s: Seq<char>, n: nat)
    requires
        forall|i: int| 0 <= i < s.len() ==> (#[trigger] s[i] as u32) < 0x80,
    ensures
        size(s) == s.len(),
        n <= s.len() ==> fitting(s, n) == n && boundary(s, n),
    decreases s.len(),
{
    if s.len() > 0 {
        let rest = s.drop_first();
        assert forall|i: int| 0 <= i < rest.len() implies (#[trigger] rest[i] as u32) < 0x80 by {
            assert(rest[i] == s[i + 1]);
        }
        lemma_size_front(s);
        if n > 0 {
            lemma_ascii(rest, (n - 1) as nat);
            if n <= s.len() {
                assert(head(s, n).drop_first() == head(rest, (n - 1) as nat));
                lemma_size_front(head(s, n));
            }
        } else {
            lemma_ascii(rest, 0);
        }
    }
}

} // verus!
