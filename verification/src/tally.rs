//! Counting names and ranking them by how often they occur.
use crate::text::chars;
use crate::text::select;
use vstd::prelude::*;

verus! {

/// How often `x` occurs.
pub open spec fn occurrences(names: Seq<Seq<char>>, x: Seq<char>) -> nat
    decreases names.len(),
{
    if names.len() == 0 {
        0
    } else if names.last() == x {
        occurrences(names.drop_last(), x) + 1
    } else {
        occurrences(names.drop_last(), x)
    }
}

/// The names, each once, in the order in which they first occur.
pub open spec fn distinct(names: Seq<Seq<char>>) -> Seq<Seq<char>>
    decreases names.len(),
{
    if names.len() == 0 {
        Seq::empty()
    } else {
        let prev = distinct(names.drop_last());
        if prev.contains(names.last()) {
            prev
        } else {
            prev.push(names.last())
        }
    }
}

/// The names, each once, with how often they occur.
pub open spec fn tally(names: Seq<Seq<char>>) -> Seq<(Seq<char>, nat)> {
    distinct(names).map_values(|x: Seq<char>| (x, occurrences(names, x)))
}

/// Where an entry with count `n` goes in a ranking: behind all that count as much.
pub open spec fn place(r: Seq<(Seq<char>, nat)>, n: nat) -> nat
    decreases r.len(),
{
    if r.len() == 0 || r[0].1 < n {
        0
    } else {
        1 + place(r.drop_first(), n)
    }
}

/// The entries by falling count; of equal ones, those that come first stay first.
pub open spec fn ranked(t: Seq<(Seq<char>, nat)>) -> Seq<(Seq<char>, nat)>
    decreases t.len(),
{
    if t.len() == 0 {
        Seq::empty()
    } else {
        let r = ranked(t.drop_last());
        r.insert(place(r, t.last().1) as int, t.last())
    }
}

/// The names by how often they occur.
pub open spec fn ranking(names: Seq<Seq<char>>) -> Seq<(Seq<char>, nat)> {
    ranked(tally(names))
}

/// The model of counted names.
pub open spec fn entries(v: Seq<(String, usize)>) -> Seq<(Seq<char>, nat)> {
    v.map_values(|e: (String, usize)| (e.0@, e.1 as nat))
}

/// A name is listed exactly where it occurs.
pub proof fn lemma_distinct(names: Seq<Seq<char>>, x: Seq<char>)
    ensures
        distinct(names).contains(x) <==> occurrences(names, x) > 0,
        occurrences(names, x) <= names.len(),
    decreases names.len(),
{
    if names.len() > 0 {
        lemma_distinct(names.drop_last(), x);
        let prev = distinct(names.drop_last());
        let d = distinct(names);
        if !prev.contains(names.last()) {
            assert(d == prev.push(names.last()));
            assert(d[prev.len() as int] == names.last());
            if prev.contains(x) {
                let k = choose|k: int| 0 <= k < prev.len() && prev[k] == x;
                assert(d[k] == x);
            }
            if d.contains(x) {
                let k = choose|k: int| 0 <= k < d.len() && d[k] == x;
                if k < prev.len() {
                    assert(prev[k] == x);
                }
            }
        }
    }
}

/// Every name that occurs is counted once.
pub proof fn law_distinct(names: Seq<Seq<char>>)
    ensures
        distinct(names).no_duplicates(),
        distinct(names).len() <= names.len(),
        forall|x: Seq<char>| #[trigger] distinct(names).contains(x) <==> names.contains(x),
    decreases names.len(),
{
    if names.len() > 0 {
        let front = names.drop_last();
        let prev = distinct(front);
        let d = distinct(names);
        law_distinct(front);
        assert forall|x: Seq<char>| #[trigger] d.contains(x) <==> names.contains(x) by {
            assert(prev.contains(x) <==> front.contains(x));
            if names.contains(x) {
                let k = choose|k: int| 0 <= k < names.len() && names[k] == x;
                if k < front.len() {
                    assert(front[k] == x);
                }
            }
            if front.contains(x) {
                let k = choose|k: int| 0 <= k < front.len() && front[k] == x;
                assert(names[k] == x);
            }
            assert(names[names.len() - 1] == names.last());
            if !prev.contains(names.last()) {
                assert(d[prev.len() as int] == names.last());
                if prev.contains(x) {
                    let k = choose|k: int| 0 <= k < prev.len() && prev[k] == x;
                    assert(d[k] == x);
                }
                if d.contains(x) {
                    let k = choose|k: int| 0 <= k < d.len() && d[k] == x;
                    if k < prev.len() {
                        assert(prev[k] == x);
                    }
                }
            }
        }
    }
}

proof fn lemma_tally_step(names: Seq<Seq<char>>, x: Seq<char>, k: int)
    requires
        0 <= k <= distinct(names).len(),
        k < distinct(names).len() ==> distinct(names)[k] == x,
        k == distinct(names).len() ==> !distinct(names).contains(x),
    ensures
        tally(names.push(x)) == if k < distinct(names).len() {
            tally(names).update(k, (x, tally(names)[k].1 + 1))
        } else {
            tally(names).push((x, 1))
        },
        k < distinct(names).len() ==> tally(names)[k].1 <= names.len(),
{
    let after = names.push(x);
    assert(after.drop_last() == names);
    let d = distinct(names);
    lemma_distinct(names, x);
    law_distinct(names);
    assert forall|j: int| 0 <= j < d.len() implies occurrences(after, #[trigger] d[j]) == if j
        == k {
        occurrences(names, d[j]) + 1
    } else {
        occurrences(names, d[j])
    } by {
        if j != k && d[j] == x {
            if k < d.len() {
                assert(d[j] == d[k]);
            }
        }
    }
    if k < d.len() {
        assert(d.contains(x));
        assert(distinct(after) == d);
        assert(tally(after) =~= tally(names).update(k, (x, tally(names)[k].1 + 1)));
    } else {
        assert(distinct(after) == d.push(x));
        assert(tally(after) =~= tally(names).push((x, 1)));
    }
}

/// Counts names.
pub fn count_names(names: &[String]) -> (r: Vec<(String, usize)>)
    ensures
        entries(r@) == tally(names.deep_view()),
{
    let ghost all = names.deep_view();
    let mut out: Vec<(String, usize)> = Vec::new();
    let mut i: usize = 0;
    assert(entries(out@) == tally(all.take(0)));
    while i < names.len()
        invariant
            i <= names@.len(),
            all == names.deep_view(),
            entries(out@) == tally(all.take(i as int)),
        decreases names@.len() - i,
    {
        let name = names[i].as_str();
        let ghost seen = all.take(i as int);
        let ghost d = distinct(seen);
        assert(all.take(i + 1) == seen.push(name@));
        let mut k: usize = 0;
        assert(out@.len() == entries(out@).len());
        assert(tally(seen).len() == d.len());
        while k < out.len() && !chars::same_str(out[k].0.as_str(), name)
            invariant
                k <= out@.len(),
                entries(out@) == tally(seen),
                d == distinct(seen),
                out@.len() == d.len(),
                forall|j: int| 0 <= j < k ==> d[j] != name@,
            decreases out@.len() - k,
        {
            assert(entries(out@)[k as int] == tally(seen)[k as int]);
            k += 1;
        }
        proof {
            if k < d.len() {
                assert(entries(out@)[k as int] == tally(seen)[k as int]);
                assert(d[k as int] == name@);
            } else {
                assert(!d.contains(name@));
            }
            lemma_tally_step(seen, name@, k as int);
        }
        let ghost before = out@;
        if k < out.len() {
            let n: usize = out[k].1;
            assert(entries(out@)[k as int].1 == n);
            let entry = (name.to_string(), n + 1);
            out.set(k, entry);
            assert(entries(out@) =~= entries(before).update(k as int, (name@, (n + 1) as nat)));
        } else {
            out.push((name.to_string(), 1));
            assert(entries(out@) =~= entries(before).push((name@, 1)));
        }
        i += 1;
    }
    assert(all.take(all.len() as int) == all);
    out
}

/// Ranks counted names by falling count.
pub fn rank(counts: Vec<(String, usize)>) -> (r: Vec<(String, usize)>)
    ensures
        entries(r@) == ranked(entries(counts@)),
{
    let ghost all = entries(counts@);
    let mut out: Vec<(String, usize)> = Vec::new();
    let mut i: usize = 0;
    assert(entries(out@) == ranked(all.take(0)));
    while i < counts.len()
        invariant
            i <= counts@.len(),
            all == entries(counts@),
            entries(out@) == ranked(all.take(i as int)),
        decreases counts@.len() - i,
    {
        let name = counts[i].0.as_str();
        let n: usize = counts[i].1;
        let ghost r = entries(out@);
        assert(all.take(i + 1).drop_last() == all.take(i as int));
        assert(all.take(i + 1).last() == (name@, n as nat));
        let mut k: usize = 0;
        assert(r.skip(0) == r);
        while k < out.len() && out[k].1 >= n
            invariant
                k <= out@.len(),
                r == entries(out@),
                place(r, n as nat) == k + place(r.skip(k as int), n as nat),
            decreases out@.len() - k,
        {
            assert(r.skip(k as int)[0] == r[k as int]);
            assert(r.skip(k as int).drop_first() == r.skip(k + 1));
            k += 1;
        }
        proof {
            if k < out@.len() {
                assert(r.skip(k as int)[0] == r[k as int]);
            }
        }
        assert(place(r, n as nat) == k);
        let ghost before = out@;
        out.insert(k, (name.to_string(), n));
        assert(entries(out@) =~= r.insert(k as int, (name@, n as nat)));
        i += 1;
    }
    assert(all.take(all.len() as int) == all);
    out
}

/// Counts names and ranks them by how often they occur.
pub fn rank_names(names: &[String]) -> (r: Vec<(String, usize)>)
    ensures
        entries(r@) == ranking(names.deep_view()),
        r@.len() == distinct(names.deep_view()).len(),
{
    let counts = count_names(names);
    let out = rank(counts);
    proof {
        lemma_ranked_len(tally(names.deep_view()));
        assert(entries(out@).len() == out@.len());
    }
    out
}

proof fn lemma_place(r: Seq<(Seq<char>, nat)>, n: nat)
    ensures
        place(r, n) <= r.len(),
        forall|k: int| 0 <= k < place(r, n) ==> (#[trigger] r[k]).1 >= n,
        place(r, n) < r.len() ==> r[place(r, n) as int].1 < n,
    decreases r.len(),
{
    if r.len() > 0 && r[0].1 >= n {
        lemma_place(r.drop_first(), n);
        let rest = r.drop_first();
        assert forall|k: int| 0 <= k < place(r, n) implies (#[trigger] r[k]).1 >= n by {
            if k > 0 {
                assert(rest[k - 1] == r[k]);
            }
        }
        if place(r, n) < r.len() {
            assert(rest[place(rest, n) as int] == r[place(r, n) as int]);
        }
    }
}

/// A ranking is as long as what it ranks.
pub proof fn lemma_ranked_len(t: Seq<(Seq<char>, nat)>)
    ensures
        ranked(t).len() == t.len(),
    decreases t.len(),
{
    if t.len() > 0 {
        lemma_ranked_len(t.drop_last());
        lemma_place(ranked(t.drop_last()), t.last().1);
    }
}

/// Every name of a ranking is one of those that were counted.
pub proof fn lemma_ranking_names(names: Seq<Seq<char>>, i: int)
    requires
        0 <= i < ranking(names).len(),
    ensures
        names.contains(ranking(names)[i].0),
{
    lemma_ranked_entries(tally(names), i);
    law_distinct(names);
    let k = choose|k: int| 0 <= k < tally(names).len() && tally(names)[k] == ranking(names)[i];
    assert(distinct(names).contains(distinct(names)[k]));
}

proof fn lemma_ranked_entries(t: Seq<(Seq<char>, nat)>, i: int)
    requires
        0 <= i < ranked(t).len(),
    ensures
        t.contains(ranked(t)[i]),
    decreases t.len(),
{
    let r = ranked(t.drop_last());
    let p = place(r, t.last().1) as int;
    lemma_place(r, t.last().1);
    if i == p {
        assert(t[t.len() - 1] == ranked(t)[i]);
    } else {
        let j = if i < p {
            i
        } else {
            i - 1
        };
        lemma_ranked_entries(t.drop_last(), j);
        let k = choose|k: int| 0 <= k < t.drop_last().len() && t.drop_last()[k] == r[j];
        assert(t[k] == ranked(t)[i]);
    }
}

/// A ranking holds the same entries, by falling count.
pub proof fn law_ranked(t: Seq<(Seq<char>, nat)>)
    ensures
        ranked(t).to_multiset() == t.to_multiset(),
        forall|i: int, j: int| 0 <= i < j < ranked(t).len() ==> ranked(t)[i].1 >= ranked(t)[j].1,
    decreases t.len(),
{
    broadcast use vstd::seq_lib::group_to_multiset_ensures;

    if t.len() > 0 {
        let front = t.drop_last();
        let r = ranked(front);
        let p = place(r, t.last().1) as int;
        law_ranked(front);
        lemma_place(r, t.last().1);
        assert(t == front.push(t.last()));
        let after = r.insert(p, t.last());
        assert(after.remove(p) == r);
        assert(after.to_multiset() == r.to_multiset().insert(t.last())) by {
            vstd::seq_lib::to_multiset_insert(r, p, t.last());
        }
        assert forall|i: int, j: int| 0 <= i < j < after.len() implies after[i].1
            >= after[j].1 by {
            if i < p && j > p {
                assert(after[i] == r[i] && after[j] == r[j - 1]);
            } else if i < p && j < p {
                assert(after[i] == r[i] && after[j] == r[j]);
            } else if i > p {
                assert(after[i] == r[i - 1] && after[j] == r[j - 1]);
            } else if i == p {
                assert(after[j] == r[j - 1]);
                if j - 1 > p {
                    assert(r[p].1 >= r[j - 1].1);
                }
            } else {
                assert(after[i] == r[i]);
            }
        }
    }
}

/// The entries that count `n`, in order.
pub open spec fn counting(t: Seq<(Seq<char>, nat)>, n: nat) -> Seq<(Seq<char>, nat)>
    decreases t.len(),
{
    if t.len() == 0 {
        Seq::empty()
    } else if t.last().1 == n {
        counting(t.drop_last(), n).push(t.last())
    } else {
        counting(t.drop_last(), n)
    }
}

proof fn lemma_counting_concat(a: Seq<(Seq<char>, nat)>, b: Seq<(Seq<char>, nat)>, n: nat)
    ensures
        counting(a + b, n) == counting(a, n) + counting(b, n),
    decreases b.len(),
{
    if b.len() == 0 {
        assert(a + b == a);
        assert(counting(a, n) + counting(b, n) == counting(a, n));
    } else {
        lemma_counting_concat(a, b.drop_last(), n);
        assert((a + b).drop_last() == a + b.drop_last());
        assert((a + b).last() == b.last());
        if b.last().1 == n {
            assert(counting(a, n) + counting(b.drop_last(), n).push(b.last()) == (counting(a, n)
                + counting(b.drop_last(), n)).push(b.last()));
        }
    }
}

proof fn lemma_counting_none(t: Seq<(Seq<char>, nat)>, n: nat)
    requires
        forall|k: int| 0 <= k < t.len() ==> (#[trigger] t[k]).1 != n,
    ensures
        counting(t, n) == Seq::<(Seq<char>, nat)>::empty(),
    decreases t.len(),
{
    if t.len() > 0 {
        lemma_counting_none(t.drop_last(), n);
    }
}

/// Names that occur equally often stay in the order in which they first occur.
pub proof fn law_ranked_is_stable(t: Seq<(Seq<char>, nat)>, n: nat)
    ensures
        counting(ranked(t), n) == counting(t, n),
    decreases t.len(),
{
    if t.len() > 0 {
        let front = t.drop_last();
        let r = ranked(front);
        let e = t.last();
        let p = place(r, e.1) as int;
        law_ranked_is_stable(front, n);
        law_ranked(front);
        lemma_place(r, e.1);
        let head = r.take(p);
        let tail = r.skip(p);
        assert(r == head + tail);
        assert(r.insert(p, e) == head.push(e) + tail);
        lemma_counting_concat(head, tail, n);
        lemma_counting_concat(head.push(e), tail, n);
        assert(head.push(e).drop_last() == head);
        if e.1 == n {
            assert forall|k: int| 0 <= k < tail.len() implies (#[trigger] tail[k]).1 != n by {
                assert(tail[k] == r[p + k]);
                assert(k > 0 ==> r[p].1 >= r[p + k].1);
            }
            lemma_counting_none(tail, n);
            assert(counting(head, n) + counting(tail, n) == counting(head, n));
            assert(counting(head, n).push(e) + counting(tail, n) == counting(head, n).push(e));
        }
    }
}

/// The sum of the counts.
pub open spec fn total(t: Seq<(Seq<char>, nat)>) -> nat
    decreases t.len(),
{
    if t.len() == 0 {
        0
    } else {
        total(t.drop_last()) + t.last().1
    }
}

proof fn lemma_total_update(t: Seq<(Seq<char>, nat)>, k: int, x: Seq<char>)
    requires
        0 <= k < t.len(),
    ensures
        total(t.update(k, (x, t[k].1 + 1))) == total(t) + 1,
    decreases t.len(),
{
    let u = t.update(k, (x, t[k].1 + 1));
    if k == t.len() - 1 {
        assert(u.drop_last() == t.drop_last());
    } else {
        lemma_total_update(t.drop_last(), k, x);
        assert(u.drop_last() == t.drop_last().update(k, (x, t[k].1 + 1)));
    }
}

/// The counts add up to the number of names.
pub proof fn law_counts_add_up(names: Seq<Seq<char>>)
    ensures
        total(tally(names)) == names.len(),
    decreases names.len(),
{
    if names.len() > 0 {
        let front = names.drop_last();
        let x = names.last();
        law_counts_add_up(front);
        let d = distinct(front);
        assert(names == front.push(x));
        if d.contains(x) {
            let k = choose|k: int| 0 <= k < d.len() && d[k] == x;
            lemma_tally_step(front, x, k);
            lemma_total_update(tally(front), k, x);
        } else {
            lemma_tally_step(front, x, d.len() as int);
            assert(tally(front).push((x, 1)).drop_last() == tally(front));
        }
    }
}

/// A name is counted as often as it occurs.
pub proof fn law_occurrences(names: Seq<Seq<char>>, x: Seq<char>)
    ensures
        occurrences(names, x) == names.filter(|n: Seq<char>| n == x).len(),
    decreases names.len(),
{
    let p = |n: Seq<char>| n == x;
    if names.len() == 0 {
        assert(names == Seq::<Seq<char>>::empty());
        select::lemma_filter_empty(p);
    } else {
        law_occurrences(names.drop_last(), x);
        select::lemma_front_and_last(names);
        select::lemma_filter_push(names.drop_last(), names.last(), p);
    }
}

/// A ranking has each of the names, once, with how often it occurs.
pub proof fn law_ranking(names: Seq<Seq<char>>, i: int)
    requires
        0 <= i < ranking(names).len(),
    ensures
        names.contains(ranking(names)[i].0),
        ranking(names)[i].1 == occurrences(names, ranking(names)[i].0),
        ranking(names).len() == distinct(names).len(),
{
    let t = tally(names);
    lemma_ranking_names(names, i);
    lemma_ranked_entries(t, i);
    lemma_ranked_len(t);
    let k = choose|k: int| 0 <= k < t.len() && t[k] == ranking(names)[i];
    assert(t[k] == (distinct(names)[k], occurrences(names, distinct(names)[k])));
}

/// Every name is in the ranking.
pub proof fn law_every_name_ranked(names: Seq<Seq<char>>, x: Seq<char>)
    requires
        names.contains(x),
    ensures
        exists|i: int| 0 <= i < ranking(names).len() && (#[trigger] ranking(names)[i]).0 == x,
{
    let t = tally(names);
    law_distinct(names);
    assert(distinct(names).contains(x));
    let k = choose|k: int| 0 <= k < distinct(names).len() && distinct(names)[k] == x;
    assert(t[k].0 == x);
    law_ranked(t);
    broadcast use vstd::seq_lib::group_to_multiset_ensures;

    assert(t.contains(t[k]));
    assert(t.to_multiset().count(t[k]) > 0);
    assert(ranked(t).contains(t[k]));
    let i = choose|i: int| 0 <= i < ranked(t).len() && ranked(t)[i] == t[k];
    assert(ranking(names)[i].0 == x);
}

/// Names stand in the order in which they first occur: further ones come behind.
pub proof fn law_distinct_grows(a: Seq<Seq<char>>, b: Seq<Seq<char>>)
    ensures
        distinct(a).len() <= distinct(a + b).len(),
        distinct(a + b).take(distinct(a).len() as int) == distinct(a),
    decreases b.len(),
{
    let n = distinct(a).len() as int;
    if b.len() == 0 {
        assert(a + b == a);
    } else {
        assert((a + b).drop_last() == a + b.drop_last());
        law_distinct_grows(a, b.drop_last());
        assert(distinct(a + b).take(n) == distinct(a + b.drop_last()).take(n));
    }
}

} // verus!
