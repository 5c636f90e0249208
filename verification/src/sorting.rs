//! Putting rows in the order of their keys.
//!
//! A key is a number followed by three texts. Keys are ordered by the number,
//! then by the first text, the second and the third; texts are ordered byte by
//! byte in their UTF-8 form. Rows with equal keys keep the order they had.

use vstd::prelude::*;

verus! {

/// What rows are ordered by.
pub struct Key {
    pub number: int,
    pub first: Seq<u8>,
    pub second: Seq<u8>,
    pub third: Seq<u8>,
}

/// What rows are ordered by, as the sorting routine holds it.
pub struct SortKey {
    pub number: i64,
    pub first: Vec<u8>,
    pub second: Vec<u8>,
    pub third: Vec<u8>,
}

impl View for SortKey {
    type V = Key;

    open spec fn view(&self) -> Key {
        Key {
            number: self.number as int,
            first: self.first@,
            second: self.second@,
            third: self.third@,
        }
    }
}

/// The form in which a text is ordered: its UTF-8 bytes.
pub open spec fn text_key(text: Seq<char>) -> Seq<u8> {
    vstd::utf8::encode_utf8(text)
}

/// The keys of a sequence of sort keys.
pub open spec fn keys_of(keys: Seq<SortKey>) -> Seq<Key> {
    keys.map_values(|k: SortKey| k@)
}

/// How two byte strings compare from place `from` on, given that they agree
/// before it: negative where `a` comes first, positive where `b` does, zero
/// where they are equal. The first place where they differ decides; a string
/// comes before each of its extensions.
pub open spec fn bytes_order_from(a: Seq<u8>, b: Seq<u8>, from: int) -> int
    decreases a.len() - from,
{
    if from >= a.len() {
        if from >= b.len() {
            0
        } else {
            -1
        }
    } else if from >= b.len() {
        1
    } else if a[from] < b[from] {
        -1
    } else if a[from] > b[from] {
        1
    } else {
        bytes_order_from(a, b, from + 1)
    }
}

/// How two byte strings compare.
pub open spec fn bytes_order(a: Seq<u8>, b: Seq<u8>) -> int {
    bytes_order_from(a, b, 0)
}

/// How two keys compare: by number, then by the first text that differs.
pub open spec fn key_order(a: Key, b: Key) -> int {
    if a.number < b.number {
        -1
    } else if a.number > b.number {
        1
    } else if bytes_order(a.first, b.first) != 0 {
        bytes_order(a.first, b.first)
    } else if bytes_order(a.second, b.second) != 0 {
        bytes_order(a.second, b.second)
    } else {
        bytes_order(a.third, b.third)
    }
}

/// Whether row `i` stands before row `j` in the order of the keys: its key is
/// smaller, or the keys are equal and `i` came first.
pub open spec fn precedes(keys: Seq<Key>, i: int, j: int) -> bool {
    key_order(keys[i], keys[j]) < 0 || (key_order(keys[i], keys[j]) == 0 && i < j)
}

/// Whether `places` names row `x`.
pub open spec fn names(places: Seq<usize>, x: int) -> bool {
    exists|k: int| 0 <= k < places.len() && #[trigger] places[k] == x
}

/// Whether `places` lists every row once, each before the rows that it
/// precedes.
pub open spec fn sorted_places(keys: Seq<Key>, places: Seq<usize>) -> bool {
    &&& places.len() == keys.len()
    &&& forall|k: int| 0 <= k < places.len() ==> (#[trigger] places[k]) < keys.len()
    &&& forall|a: int, b: int|
        0 <= a < b < places.len() ==> precedes(keys, #[trigger] places[a] as int, #[trigger] places[b] as int)
    &&& forall|x: int| 0 <= x < keys.len() ==> #[trigger] names(places, x)
}

/// The rows in the order that `places` gives.
pub open spec fn arranged<T>(rows: Seq<T>, places: Seq<usize>) -> Seq<T> {
    Seq::new(places.len(), |k: int| rows[places[k] as int])
}

/// Whether `listed` holds the rows in the order of their keys, rows with equal
/// keys in the order they had.
pub open spec fn is_listing<T>(rows: Seq<T>, keys: Seq<Key>, listed: Seq<T>) -> bool {
    &&& keys.len() == rows.len()
    &&& exists|places: Seq<usize>| sorted_places(keys, places) && listed == arranged(rows, places)
}

/// Byte strings that compare as equal from a place on have the same length
/// and the same bytes from there on.
pub proof fn lemma_bytes_equal_from(a: Seq<u8>, b: Seq<u8>, from: int)
    requires
        0 <= from <= a.len(),
        from <= b.len(),
        bytes_order_from(a, b, from) == 0,
    ensures
        a.len() == b.len(),
        forall|j: int| from <= j < a.len() ==> a[j] == b[j],
    decreases a.len() - from,
{
    if from < a.len() && from < b.len() {
        lemma_bytes_equal_from(a, b, from + 1);
    }
}

/// Byte strings that compare as equal are equal, and a byte string compares as
/// equal to itself.
pub proof fn lemma_bytes_equal(a: Seq<u8>, b: Seq<u8>)
    ensures
        bytes_order(a, b) == 0 <==> a == b,
{
    if bytes_order(a, b) == 0 {
        lemma_bytes_equal_from(a, b, 0);
        assert(a =~= b);
    }
    if a == b {
        lemma_bytes_same_from(a, 0);
    }
}

/// A byte string compares as equal to itself from any place on.
pub proof fn lemma_bytes_same_from(a: Seq<u8>, from: int)
    requires
        0 <= from,
    ensures
        bytes_order_from(a, a, from) == 0,
    decreases a.len() - from,
{
    if from < a.len() {
        lemma_bytes_same_from(a, from + 1);
    }
}

/// Comparing the other way round gives the opposite.
pub proof fn lemma_bytes_opposite_from(a: Seq<u8>, b: Seq<u8>, from: int)
    requires
        0 <= from,
    ensures
        bytes_order_from(a, b, from) == -bytes_order_from(b, a, from),
    decreases a.len() - from,
{
    if from < a.len() && from < b.len() && a[from] == b[from] {
        lemma_bytes_opposite_from(a, b, from + 1);
    }
}

/// What comes no later than something that comes no later than a third comes
/// no later than the third, and as early only if all three are equal from the
/// place on.
pub proof fn lemma_bytes_chain_from(a: Seq<u8>, b: Seq<u8>, c: Seq<u8>, from: int)
    requires
        0 <= from,
        bytes_order_from(a, b, from) <= 0,
        bytes_order_from(b, c, from) <= 0,
    ensures
        bytes_order_from(a, c, from) <= 0,
        bytes_order_from(a, c, from) == 0 ==> bytes_order_from(a, b, from) == 0
            && bytes_order_from(b, c, from) == 0,
    decreases a.len() - from,
{
    if from < a.len() && from < b.len() && from < c.len() && a[from] == b[from] && b[from]
        == c[from] {
        lemma_bytes_chain_from(a, b, c, from + 1);
    }
}

/// The order of keys is an order: comparing the other way round gives the
/// opposite, keys that compare as equal are equal, and what comes no later
/// than something that comes no later than a third comes no later than the
/// third.
pub proof fn lemma_key_order(a: Key, b: Key, c: Key)
    ensures
        key_order(a, b) == -key_order(b, a),
        key_order(a, b) == 0 ==> a == b,
        key_order(a, a) == 0,
        key_order(a, b) <= 0 && key_order(b, c) <= 0 ==> key_order(a, c) <= 0,
        key_order(a, b) <= 0 && key_order(b, c) < 0 ==> key_order(a, c) < 0,
{
    lemma_bytes_opposite_from(a.first, b.first, 0);
    lemma_bytes_opposite_from(a.second, b.second, 0);
    lemma_bytes_opposite_from(a.third, b.third, 0);
    lemma_bytes_equal(a.first, b.first);
    lemma_bytes_equal(a.second, b.second);
    lemma_bytes_equal(a.third, b.third);
    lemma_bytes_equal(b.first, c.first);
    lemma_bytes_equal(b.second, c.second);
    lemma_bytes_equal(b.third, c.third);
    lemma_bytes_equal(a.first, a.first);
    lemma_bytes_equal(a.second, a.second);
    lemma_bytes_equal(a.third, a.third);
    if bytes_order(a.first, b.first) <= 0 && bytes_order(b.first, c.first) <= 0 {
        lemma_bytes_chain_from(a.first, b.first, c.first, 0);
    }
    if bytes_order(a.second, b.second) <= 0 && bytes_order(b.second, c.second) <= 0 {
        lemma_bytes_chain_from(a.second, b.second, c.second, 0);
    }
    if bytes_order(a.third, b.third) <= 0 && bytes_order(b.third, c.third) <= 0 {
        lemma_bytes_chain_from(a.third, b.third, c.third, 0);
    }
}

/// How two byte strings compare: -1, 0 or 1.
pub fn order_bytes(a: &Vec<u8>, b: &Vec<u8>) -> (r: i8)
    ensures
        r == bytes_order(a@, b@),
{
    let na = a.len();
    let nb = b.len();
    let mut i: usize = 0;
    while i < na && i < nb
        invariant
            0 <= i <= na,
            i <= nb,
            na == a@.len(),
            nb == b@.len(),
            bytes_order(a@, b@) == bytes_order_from(a@, b@, i as int),
        decreases na - i,
    {
        if a[i] < b[i] {
            return -1;
        }
        if a[i] > b[i] {
            return 1;
        }
        i += 1;
    }
    if i < nb {
        -1
    } else if i < na {
        1
    } else {
        0
    }
}

/// Whether key `a` comes before key `b`.
pub fn key_before(a: &SortKey, b: &SortKey) -> (r: bool)
    ensures
        r == (key_order(a@, b@) < 0),
{
    if a.number < b.number {
        return true;
    }
    if a.number > b.number {
        return false;
    }
    let first = order_bytes(&a.first, &b.first);
    if first != 0 {
        return first < 0;
    }
    let second = order_bytes(&a.second, &b.second);
    if second != 0 {
        return second < 0;
    }
    order_bytes(&a.third, &b.third) < 0
}

/// The form in which a text is ordered.
pub fn key_of_text(text: &str) -> (key: Vec<u8>)
    ensures
        key@ == text_key(text@),
{
    text.as_bytes_vec()
}

/// A key that is a number only.
pub fn number_key(number: i64) -> (key: SortKey)
    ensures
        key@ == (Key { number: number as int, first: Seq::empty(), second: Seq::empty(), third: Seq::empty() }),
{
    SortKey { number, first: Vec::new(), second: Vec::new(), third: Vec::new() }
}

/// Puts rows in the order of their keys; rows with equal keys keep the order
/// they had.
pub fn sort_rows<T>(rows: Vec<T>, keys: &Vec<SortKey>) -> (listed: Vec<T>)
    requires
        rows@.len() == keys@.len(),
    ensures
        is_listing(rows@, keys_of(keys@), listed@),
{
    let ghost all = rows@;
    let ghost ks = keys_of(keys@);
    let mut places: Vec<usize> = Vec::new();
    let mut listed: Vec<T> = Vec::new();
    for row in it: rows.into_iter()
        invariant
            it.seq() == all,
            all.len() == keys@.len(),
            ks == keys_of(keys@),
            places@.len() == it.index(),
            listed@.len() == it.index(),
            forall|k: int| 0 <= k < places@.len() ==> (#[trigger] places@[k]) < it.index(),
            forall|a: int, b: int|
                0 <= a < b < places@.len() ==> precedes(
                    ks,
                    #[trigger] places@[a] as int,
                    #[trigger] places@[b] as int,
                ),
            forall|x: int| 0 <= x < it.index() ==> #[trigger] names(places@, x),
            forall|k: int| 0 <= k < listed@.len() ==> listed@[k] == all[(#[trigger] places@[k]) as int],
    {
        let i: usize = places.len();
        assert(i == it.index());
        let mut p: usize = places.len();
        while p > 0 && key_before(&keys[i], &keys[places[p - 1]])
            invariant
                0 <= p <= places@.len(),
                i == places@.len(),
                i < keys@.len(),
                ks == keys_of(keys@),
                forall|k: int| 0 <= k < places@.len() ==> (#[trigger] places@[k]) < i,
                forall|b: int|
                    p <= b < places@.len() ==> key_order(ks[i as int], ks[(#[trigger] places@[b]) as int])
                        < 0,
            decreases p,
        {
            p -= 1;
        }
        let ghost old_places = places@;
        let ghost old_listed = listed@;
        proof {
            assert forall|a: int| 0 <= a < p implies precedes(
                ks,
                (#[trigger] old_places[a]) as int,
                i as int,
            ) by {
                let last = old_places[p - 1] as int;
                let e = old_places[a] as int;
                lemma_key_order(ks[i as int], ks[last], ks[last]);
                lemma_key_order(ks[e], ks[last], ks[i as int]);
                if a < p - 1 {
                    assert(precedes(ks, e, last));
                } else {
                    lemma_key_order(ks[e], ks[e], ks[e]);
                }
            }
        }
        places.insert(p, i);
        listed.insert(p, row);
        proof {
            assert forall|a: int, b: int| 0 <= a < b < places@.len() implies precedes(
                ks,
                #[trigger] places@[a] as int,
                #[trigger] places@[b] as int,
            ) by {
                if b < p {
                    assert(places@[a] == old_places[a] && places@[b] == old_places[b]);
                } else if b == p {
                    assert(places@[a] == old_places[a]);
                } else if a < p {
                    assert(places@[a] == old_places[a] && places@[b] == old_places[b - 1]);
                } else if a == p {
                    assert(places@[b] == old_places[b - 1]);
                } else {
                    assert(places@[a] == old_places[a - 1] && places@[b] == old_places[b - 1]);
                }
            }
            assert forall|x: int| 0 <= x < i + 1 implies #[trigger] names(places@, x) by {
                if x == i {
                    assert(places@[p as int] == x);
                } else {
                    assert(names(old_places, x));
                    let k = choose|k: int| 0 <= k < old_places.len() && #[trigger] old_places[k] == x;
                    if k < p {
                        assert(places@[k] == x);
                    } else {
                        assert(places@[k + 1] == x);
                    }
                }
            }
            assert forall|k: int| 0 <= k < listed@.len() implies listed@[k] == all[(
            #[trigger] places@[k]) as int] by {
                if k < p {
                    assert(places@[k] == old_places[k] && listed@[k] == old_listed[k]);
                } else if k > p {
                    assert(places@[k] == old_places[k - 1] && listed@[k] == old_listed[k - 1]);
                }
            }
            assert forall|k: int| 0 <= k < places@.len() implies (#[trigger] places@[k]) < i + 1 by {
                if k < p {
                    assert(places@[k] == old_places[k]);
                } else if k > p {
                    assert(places@[k] == old_places[k - 1]);
                }
            }
        }
    }
    proof {
        assert(listed@ =~= arranged(all, places@));
        assert(sorted_places(ks, places@));
    }
    listed
}

/// Whether `places` stand in the order of the keys, each before the rows that
/// it precedes.
pub open spec fn in_order(keys: Seq<Key>, places: Seq<usize>) -> bool {
    &&& forall|k: int| 0 <= k < places.len() ==> (#[trigger] places[k]) < keys.len()
    &&& forall|a: int, b: int|
        0 <= a < b < places.len() ==> precedes(keys, #[trigger] places[a] as int, #[trigger] places[b] as int)
}

/// Two arrangements of the same rows in the order of the keys are the same
/// arrangement.
pub proof fn lemma_one_order(keys: Seq<Key>, p: Seq<usize>, q: Seq<usize>)
    requires
        in_order(keys, p),
        in_order(keys, q),
        forall|x: int| names(p, x) <==> names(q, x),
    ensures
        p == q,
    decreases p.len(),
{
    if p.len() == 0 {
        if q.len() > 0 {
            assert(names(q, q[0] as int));
            assert(names(p, q[0] as int));
        }
        assert(p =~= q);
    } else {
        assert(names(p, p[0] as int));
        assert(names(q, p[0] as int));
        let j = choose|j: int| 0 <= j < q.len() && #[trigger] q[j] == p[0] as int;
        assert(names(q, q[0] as int));
        assert(names(p, q[0] as int));
        let i = choose|i: int| 0 <= i < p.len() && #[trigger] p[i] == q[0] as int;
        lemma_key_order(keys[p[0] as int], keys[q[0] as int], keys[p[0] as int]);
        if j > 0 && i > 0 {
            assert(precedes(keys, q[0] as int, q[j] as int));
            assert(precedes(keys, p[0] as int, p[i] as int));
        } else if j > 0 {
            assert(precedes(keys, q[0] as int, q[j] as int));
        } else if i > 0 {
            assert(precedes(keys, p[0] as int, p[i] as int));
        }
        assert(p[0] == q[0]);
        let p1 = p.drop_first();
        let q1 = q.drop_first();
        assert forall|x: int| names(p1, x) <==> names(q1, x) by {
            lemma_key_order(keys[p[0] as int], keys[p[0] as int], keys[p[0] as int]);
            if names(p1, x) {
                let k = choose|k: int| 0 <= k < p1.len() && #[trigger] p1[k] == x;
                assert(p[k + 1] == x);
                assert(precedes(keys, p[0] as int, p[k + 1] as int));
                assert(names(p, x));
                assert(names(q, x));
                let l = choose|l: int| 0 <= l < q.len() && #[trigger] q[l] == x;
                assert(l != 0);
                assert(q1[l - 1] == x);
            }
            if names(q1, x) {
                let k = choose|k: int| 0 <= k < q1.len() && #[trigger] q1[k] == x;
                assert(q[k + 1] == x);
                assert(precedes(keys, q[0] as int, q[k + 1] as int));
                assert(names(q, x));
                assert(names(p, x));
                let l = choose|l: int| 0 <= l < p.len() && #[trigger] p[l] == x;
                assert(l != 0);
                assert(p1[l - 1] == x);
            }
        }
        assert forall|a: int, b: int| 0 <= a < b < p1.len() implies precedes(
            keys,
            #[trigger] p1[a] as int,
            #[trigger] p1[b] as int,
        ) by {
            assert(p1[a] == p[a + 1] && p1[b] == p[b + 1]);
        }
        assert forall|a: int, b: int| 0 <= a < b < q1.len() implies precedes(
            keys,
            #[trigger] q1[a] as int,
            #[trigger] q1[b] as int,
        ) by {
            assert(q1[a] == q[a + 1] && q1[b] == q[b + 1]);
        }
        assert forall|k: int| 0 <= k < p1.len() implies (#[trigger] p1[k]) < keys.len() by {
            assert(p1[k] == p[k + 1]);
        }
        assert forall|k: int| 0 <= k < q1.len() implies (#[trigger] q1[k]) < keys.len() by {
            assert(q1[k] == q[k + 1]);
        }
        lemma_one_order(keys, p1, q1);
        assert(p =~= seq![p[0]] + p1);
        assert(q =~= seq![q[0]] + q1);
    }
}

/// Rows have one listing: the order of the keys, with rows of equal keys in
/// the order they had, leaves no choice.
pub proof fn law_listing_is_unique<T>(rows: Seq<T>, keys: Seq<Key>, a: Seq<T>, b: Seq<T>)
    requires
        is_listing(rows, keys, a),
        is_listing(rows, keys, b),
    ensures
        a == b,
{
    let p = choose|places: Seq<usize>| sorted_places(keys, places) && a == arranged(rows, places);
    let q = choose|places: Seq<usize>| sorted_places(keys, places) && b == arranged(rows, places);
    assert forall|x: int| names(p, x) <==> names(q, x) by {
        if names(p, x) {
            let k = choose|k: int| 0 <= k < p.len() && #[trigger] p[k] == x;
            assert(0 <= x < keys.len());
        }
        if names(q, x) {
            let k = choose|k: int| 0 <= k < q.len() && #[trigger] q[k] == x;
            assert(0 <= x < keys.len());
        }
    }
    lemma_one_order(keys, p, q);
}

/// A listing holds every row once: each row stands at one place of the
/// listing, and each place of the listing holds one row.
pub proof fn law_listing_holds_every_row<T>(rows: Seq<T>, keys: Seq<Key>, listed: Seq<T>)
    requires
        is_listing(rows, keys, listed),
    ensures
        listed.len() == rows.len(),
        forall|i: int| 0 <= i < rows.len() ==> listed.contains(#[trigger] rows[i]),
        forall|k: int| 0 <= k < listed.len() ==> rows.contains(#[trigger] listed[k]),
{
    let p = choose|places: Seq<usize>| sorted_places(keys, places) && listed == arranged(rows, places);
    assert forall|i: int| 0 <= i < rows.len() implies listed.contains(#[trigger] rows[i]) by {
        assert(names(p, i));
        let k = choose|k: int| 0 <= k < p.len() && #[trigger] p[k] == i;
        assert(listed[k] == rows[i]);
    }
    assert forall|k: int| 0 <= k < listed.len() implies rows.contains(#[trigger] listed[k]) by {
        assert(listed[k] == rows[p[k] as int]);
    }
}

} // verus!
