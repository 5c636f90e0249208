//! Facts about filtered sequences that the loops of the tables rest on.

use vstd::prelude::*;

verus! {

/// Filtering an empty prefix leaves nothing.
pub proof fn lemma_filter_none<A>(s: Seq<A>, p: spec_fn(A) -> bool)
    ensures
        s.take(0).filter(p) == Seq::<A>::empty(),
{
    reveal(Seq::filter);
    assert(s.take(0).len() == 0);
    assert(s.take(0).filter(p) =~= Seq::<A>::empty());
}

/// Filtering one more element of a sequence either keeps it or passes it over.
pub proof fn lemma_filter_next<A>(s: Seq<A>, p: spec_fn(A) -> bool, i: int)
    requires
        0 <= i < s.len(),
    ensures
        s.take(i + 1).filter(p) == (if p(s[i]) {
            s.take(i).filter(p).push(s[i])
        } else {
            s.take(i).filter(p)
        }),
{
    assert(s.take(i + 1) =~= s.take(i).push(s[i]));
    s.take(i).lemma_filter_push(s[i], p);
}

/// The whole sequence is its own longest prefix.
pub proof fn lemma_take_all<A>(s: Seq<A>)
    ensures
        s.take(s.len() as int) == s,
{
    assert(s.take(s.len() as int) =~= s);
}

/// Whether `places` lists, in rising order, the places of `s` whose elements
/// make up `sub`.
pub open spec fn picks<A>(sub: Seq<A>, s: Seq<A>, places: Seq<int>) -> bool {
    &&& places.len() == sub.len()
    &&& forall|k: int|
        0 <= k < places.len() ==> 0 <= #[trigger] places[k] < s.len() && sub[k] == s[places[k]]
    &&& forall|k: int, l: int| 0 <= k < l < places.len() ==> places[k] < places[l]
}

/// A filtered sequence keeps exactly the elements that pass the test, in their
/// order: the lemma returns the places they come from.
pub proof fn lemma_filter_picks<A>(s: Seq<A>, p: spec_fn(A) -> bool) -> (places: Seq<int>)
    ensures
        picks(s.filter(p), s, places),
        forall|k: int| 0 <= k < places.len() ==> p(s[#[trigger] places[k]]),
        forall|i: int|
            0 <= i < s.len() && p(#[trigger] s[i]) ==> exists|k: int|
                0 <= k < places.len() && places[k] == i,
    decreases s.len(),
{
    reveal(Seq::filter);
    if s.len() == 0 {
        Seq::empty()
    } else {
        let head = s.drop_last();
        let m = lemma_filter_picks(head, p);
        let last = s.len() - 1;
        if p(s.last()) {
            let places = m.push(last);
            assert(s.filter(p) == head.filter(p).push(s.last()));
            assert forall|i: int| 0 <= i < s.len() && p(#[trigger] s[i]) implies exists|k: int|
                0 <= k < places.len() && places[k] == i by {
                if i == last {
                    assert(places[places.len() - 1] == i);
                } else {
                    assert(p(head[i]));
                    let k = choose|k: int| 0 <= k < m.len() && m[k] == i;
                    assert(places[k] == i);
                }
            }
            places
        } else {
            assert(s.filter(p) == head.filter(p));
            assert forall|i: int| 0 <= i < s.len() && p(#[trigger] s[i]) implies exists|k: int|
                0 <= k < m.len() && m[k] == i by {
                assert(p(head[i]));
            }
            m
        }
    }
}

/// Where exactly one element passes the test, the filtered sequence holds it
/// and nothing else.
pub proof fn lemma_single_match<A>(s: Seq<A>, p: spec_fn(A) -> bool, i: int)
    requires
        0 <= i < s.len(),
        p(s[i]),
        forall|j: int| 0 <= j < s.len() && j != i ==> !p(#[trigger] s[j]),
    ensures
        s.filter(p).len() == 1,
        s.filter(p)[0] == s[i],
{
    let places = lemma_filter_picks(s, p);
    let k = choose|k: int| 0 <= k < places.len() && places[k] == i;
    assert forall|l: int| 0 <= l < places.len() implies places[l] == i by {
        assert(p(s[places[l]]));
    }
    if places.len() >= 2 {
        assert(places[0] < places[1]);
    }
}

/// Where no element passes the test, the filtered sequence is empty.
pub proof fn lemma_no_match<A>(s: Seq<A>, p: spec_fn(A) -> bool)
    requires
        forall|j: int| 0 <= j < s.len() ==> !p(#[trigger] s[j]),
    ensures
        s.filter(p).len() == 0,
{
    let places = lemma_filter_picks(s, p);
    if places.len() > 0 {
        assert(p(s[places[0]]));
    }
}

/// Whether no pair of numbers occurs twice.
pub open spec fn distinct(keys: Seq<(i64, i64)>) -> bool {
    forall|i: int, j: int| 0 <= i < j < keys.len() ==> #[trigger] keys[i] != #[trigger] keys[j]
}

/// Whether no pair of numbers occurs twice.
pub fn all_distinct(keys: &Vec<(i64, i64)>) -> (b: bool)
    ensures
        b == distinct(keys@),
{
    let n = keys.len();
    let mut j: usize = 0;
    while j < n
        invariant
            0 <= j <= n,
            n == keys@.len(),
            forall|a: int, b: int| 0 <= a < b < j ==> #[trigger] keys@[a] != #[trigger] keys@[b],
        decreases n - j,
    {
        let mut i: usize = 0;
        while i < j
            invariant
                0 <= i <= j,
                j < n,
                n == keys@.len(),
                forall|a: int| 0 <= a < i ==> #[trigger] keys@[a] != keys@[j as int],
            decreases j - i,
        {
            if keys[i].0 == keys[j].0 && keys[i].1 == keys[j].1 {
                assert(keys@[i as int] == keys@[j as int]);
                return false;
            }
            i += 1;
        }
        j += 1;
    }
    true
}

/// Where one element of a sequence comes to pass a test that it failed, and
/// the others stay, one more element passes.
pub proof fn lemma_one_more_passes<A>(s: Seq<A>, t: Seq<A>, p: spec_fn(A) -> bool, at: int)
    requires
        s.len() == t.len(),
        0 <= at < s.len(),
        forall|i: int| 0 <= i < s.len() && i != at ==> t[i] == s[i],
        !p(s[at]),
        p(t[at]),
    ensures
        t.filter(p).len() == s.filter(p).len() + 1,
    decreases s.len(),
{
    reveal(Seq::filter);
    let last = s.len() - 1;
    if at == last {
        assert(s.drop_last() =~= t.drop_last());
    } else {
        assert(s.last() == t.last());
        lemma_one_more_passes(s.drop_last(), t.drop_last(), p, at);
    }
}

} // verus!
