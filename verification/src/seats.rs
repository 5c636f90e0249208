//! The seat table.

use vstd::prelude::*;
use crate::models::Seat;
use crate::seqs::{
    all_distinct, lemma_filter_next, lemma_filter_none, lemma_filter_picks, lemma_take_all,
};
use crate::text::{clone_opt_text, same_text};

verus! {

/// Whether a seat carries the id.
pub open spec fn has_seat(seats: Seq<Seat>, id: i64) -> bool {
    exists|i: int| 0 <= i < seats.len() && (#[trigger] seats[i]).id == id
}

/// The ids of seats, in the order of the seats.
pub open spec fn seat_ids(seats: Seq<Seat>) -> Seq<i64> {
    seats.map_values(|s: Seat| s.id)
}

/// The ids of seats, in the order of the seats.
pub fn ids_of_seats(seats: &Vec<Seat>) -> (ids: Vec<i64>)
    ensures
        ids@ == seat_ids(seats@),
{
    let n = seats.len();
    let mut ids: Vec<i64> = Vec::new();
    let mut i: usize = 0;
    while i < n
        invariant
            0 <= i <= n,
            n == seats@.len(),
            ids@.len() == i,
            forall|j: int| 0 <= j < i ==> ids@[j] == seats@[j].id,
        decreases n - i,
    {
        ids.push(seats[i].id);
        i += 1;
    }
    assert(ids@ =~= seat_ids(seats@));
    ids
}

/// Whether the seat names its section, its row and its place in the row.
pub open spec fn labelled(s: Seat) -> bool {
    s.section@.len() > 0 && s.row@.len() > 0 && s.seat@.len() > 0
}

/// Every seat but `id`.
pub open spec fn other_than(id: i64) -> spec_fn(Seat) -> bool {
    |s: Seat| s.id != id
}

/// The seats of one row of one section.
pub open spec fn in_group(section: Seq<char>, row: Seq<char>) -> spec_fn(Seat) -> bool {
    |s: Seat| s.section@ == section && s.row@ == row
}

/// The seats after the notes of a whole row are replaced.
pub open spec fn regroup_rows(
    seats: Seq<Seat>,
    section: Seq<char>,
    row: Seq<char>,
    notes: Option<String>,
) -> Seq<Seat> {
    seats.map_values(
        |s: Seat|
            if in_group(section, row)(s) {
                Seat { notes, ..s }
            } else {
                s
            },
    )
}

/// What the table requires of its rows: ids are positive, below `next` and
/// unique, and every seat is labelled.
pub open spec fn seats_ok(seats: Seq<Seat>, next: int) -> bool {
    &&& forall|i: int| 0 <= i < seats.len() ==> 1 <= (#[trigger] seats[i]).id < next
    &&& forall|i: int, j: int|
        0 <= i < j < seats.len() ==> (#[trigger] seats[i]).id != (#[trigger] seats[j]).id
    &&& forall|i: int| 0 <= i < seats.len() ==> labelled(#[trigger] seats[i])
}

/// Whether a seat carries the id.
pub fn seat_exists(seats: &Vec<Seat>, id: i64) -> (b: bool)
    ensures
        b == has_seat(seats@, id),
{
    let n = seats.len();
    let mut i: usize = 0;
    while i < n
        invariant
            0 <= i <= n,
            n == seats@.len(),
            forall|j: int| 0 <= j < i ==> seats@[j].id != id,
        decreases n - i,
    {
        if seats[i].id == id {
            return true;
        }
        i += 1;
    }
    false
}

/// The place of the seat with the id, if there is one.
pub fn find_seat(seats: &Vec<Seat>, id: i64) -> (r: Option<usize>)
    ensures
        r is Some == has_seat(seats@, id),
        r is Some ==> r->0 < seats@.len() && seats@[r->0 as int].id == id,
{
    let n = seats.len();
    let mut i: usize = 0;
    while i < n
        invariant
            0 <= i <= n,
            n == seats@.len(),
            forall|j: int| 0 <= j < i ==> seats@[j].id != id,
        decreases n - i,
    {
        if seats[i].id == id {
            return Some(i);
        }
        i += 1;
    }
    None
}

/// The place of the seat with the id.
pub open spec fn seat_place(seats: Seq<Seat>, id: i64) -> int {
    choose|i: int| 0 <= i < seats.len() && (#[trigger] seats[i]).id == id
}

/// The seat with the id.
pub open spec fn seat_of(seats: Seq<Seat>, id: i64) -> Seat {
    seats[seat_place(seats, id)]
}

/// In a table in order, a seat is found by its id.
pub proof fn lemma_seat_of(seats: Seq<Seat>, next: int, at: int)
    requires
        seats_ok(seats, next),
        0 <= at < seats.len(),
    ensures
        seat_of(seats, seats[at].id) == seats[at],
{
    let k = seat_place(seats, seats[at].id);
    assert(seats[at].id == seats[at].id);
    if k < at {
        assert(seats[k].id != seats[at].id);
    } else if k > at {
        assert(seats[at].id != seats[k].id);
    }
}

/// Removes seat `id`, and says whether it was there.
pub fn remove_seat_in(seats: &mut Vec<Seat>, id: i64) -> (found: bool)
    ensures
        final(seats)@ == old(seats)@.filter(other_than(id)),
        found == has_seat(old(seats)@, id),
{
    let n = seats.len();
    let mut kept: Vec<Seat> = Vec::new();
    let mut found = false;
    let mut i: usize = 0;
    proof {
        lemma_filter_none(seats@, other_than(id));
    }
    while i < n
        invariant
            0 <= i <= n,
            n == seats@.len(),
            seats@ == old(seats)@,
            kept@ == seats@.take(i as int).filter(other_than(id)),
            found == has_seat(seats@.take(i as int), id),
        decreases n - i,
    {
        proof {
            lemma_filter_next(seats@, other_than(id), i as int);
        }
        let ghost before = seats@.take(i as int);
        let ghost after = seats@.take(i as int + 1);
        assert(forall|j: int| 0 <= j < i ==> before[j] == after[j]);
        if seats[i].id != id {
            kept.push(seats[i].clone());
        } else {
            found = true;
            assert(after[i as int].id == id);
        }
        i += 1;
    }
    proof {
        lemma_take_all(seats@);
    }
    *seats = kept;
    found
}

/// Replaces the notes of every seat of one row, and counts those seats.
pub fn regroup_in(seats: &mut Vec<Seat>, section: &str, row: &str, notes: &Option<String>) -> (count:
    u64)
    ensures
        final(seats)@ == regroup_rows(old(seats)@, section@, row@, *notes),
        count == old(seats)@.filter(in_group(section@, row@)).len(),
{
    let n = seats.len();
    let mut count: u64 = 0;
    let mut i: usize = 0;
    proof {
        lemma_filter_none(old(seats)@, in_group(section@, row@));
    }
    while i < n
        invariant
            0 <= i <= n,
            n == old(seats)@.len(),
            seats@.len() == n,
            forall|j: int|
                0 <= j < i ==> seats@[j] == regroup_rows(old(seats)@, section@, row@, *notes)[j],
            forall|j: int| i <= j < n ==> seats@[j] == old(seats)@[j],
            count == old(seats)@.take(i as int).filter(in_group(section@, row@)).len(),
            count <= i,
        decreases n - i,
    {
        proof {
            lemma_filter_next(old(seats)@, in_group(section@, row@), i as int);
        }
        if same_text(seats[i].section.as_str(), section) && same_text(seats[i].row.as_str(), row) {
            let s = &mut seats[i];
            s.notes = clone_opt_text(notes);
            count += 1;
        }
        i += 1;
    }
    proof {
        lemma_take_all(old(seats)@);
    }
    assert(seats@ =~= regroup_rows(old(seats)@, section@, row@, *notes));
    count
}

/// A new seat with the next id keeps the table in order.
pub proof fn lemma_seat_added_ok(seats: Seq<Seat>, next: int, s: Seat)
    requires
        seats_ok(seats, next),
        1 <= next,
        s.id == next,
        labelled(s),
    ensures
        seats_ok(seats.push(s), next + 1),
        has_seat(seats.push(s), s.id),
        forall|id: i64| has_seat(seats, id) ==> has_seat(seats.push(s), id),
{
    let after = seats.push(s);
    assert(after[seats.len() as int].id == s.id);
    assert forall|id: i64| has_seat(seats, id) implies has_seat(after, id) by {
        let i = choose|i: int| 0 <= i < seats.len() && (#[trigger] seats[i]).id == id;
        assert(after[i].id == id);
    }
}

/// Removing seats keeps the table in order.
pub proof fn lemma_fewer_seats_ok(seats: Seq<Seat>, next: int, p: spec_fn(Seat) -> bool)
    requires
        seats_ok(seats, next),
    ensures
        seats_ok(seats.filter(p), next),
        forall|id: i64|
            has_seat(seats.filter(p), id) <==> exists|i: int|
                0 <= i < seats.len() && (#[trigger] seats[i]).id == id && p(seats[i]),
{
    let places = lemma_filter_picks(seats, p);
    let after = seats.filter(p);
    assert forall|i: int| 0 <= i < after.len() implies 1 <= (#[trigger] after[i]).id < next
        && labelled(after[i]) by {
        assert(after[i] == seats[places[i]]);
    }
    assert forall|i: int, j: int| 0 <= i < j < after.len() implies (#[trigger] after[i]).id != (
    #[trigger] after[j]).id by {
        assert(after[i] == seats[places[i]] && after[j] == seats[places[j]]);
        assert(places[i] < places[j]);
    }
    assert forall|id: i64|
        has_seat(after, id) <==> exists|i: int|
            0 <= i < seats.len() && (#[trigger] seats[i]).id == id && p(seats[i]) by {
        if has_seat(after, id) {
            let k = choose|k: int| 0 <= k < after.len() && (#[trigger] after[k]).id == id;
            assert(after[k] == seats[places[k]]);
            assert(p(seats[places[k]]));
        }
        if exists|i: int| 0 <= i < seats.len() && (#[trigger] seats[i]).id == id && p(seats[i]) {
            let i = choose|i: int| 0 <= i < seats.len() && (#[trigger] seats[i]).id == id && p(seats[i]);
            let k = choose|k: int| 0 <= k < places.len() && places[k] == i;
            assert(after[k] == seats[i]);
        }
    }
}

/// New notes for a row of seats keep the table in order.
pub proof fn lemma_regroup_ok(
    seats: Seq<Seat>,
    next: int,
    section: Seq<char>,
    row: Seq<char>,
    notes: Option<String>,
)
    requires
        seats_ok(seats, next),
    ensures
        seats_ok(regroup_rows(seats, section, row, notes), next),
        forall|id: i64| has_seat(seats, id) ==> has_seat(regroup_rows(seats, section, row, notes), id),
{
    let after = regroup_rows(seats, section, row, notes);
    assert forall|i: int| 0 <= i < after.len() implies 1 <= (#[trigger] after[i]).id < next
        && labelled(after[i]) by {
        assert(after[i].id == seats[i].id);
    }
    assert forall|i: int, j: int| 0 <= i < j < after.len() implies (#[trigger] after[i]).id != (
    #[trigger] after[j]).id by {
        assert(after[i].id == seats[i].id && after[j].id == seats[j].id);
    }
    assert forall|id: i64| has_seat(seats, id) implies has_seat(after, id) by {
        let i = choose|i: int| 0 <= i < seats.len() && (#[trigger] seats[i]).id == id;
        assert(after[i].id == id);
    }
}

/// Whether the rows are in order.
pub fn check_seats(seats: &Vec<Seat>, next: i64) -> (b: bool)
    ensures
        b == seats_ok(seats@, next as int),
{
    let n = seats.len();
    let mut ids: Vec<(i64, i64)> = Vec::new();
    let mut i: usize = 0;
    while i < n
        invariant
            0 <= i <= n,
            n == seats@.len(),
            ids@.len() == i,
            forall|j: int| 0 <= j < i ==> #[trigger] ids@[j] == (seats@[j].id, 0i64),
            forall|j: int| 0 <= j < i ==> 1 <= (#[trigger] seats@[j]).id < next && labelled(seats@[j]),
        decreases n - i,
    {
        let s = &seats[i];
        if s.id < 1 || s.id >= next || s.section.as_str().is_empty() || s.row.as_str().is_empty()
            || s.seat.as_str().is_empty() {
            assert(!(1 <= seats@[i as int].id < next && labelled(seats@[i as int])));
            return false;
        }
        ids.push((s.id, 0));
        i += 1;
    }
    let unique = all_distinct(&ids);
    proof {
        if unique {
            assert forall|a: int, b: int| 0 <= a < b < seats@.len() implies (#[trigger] seats@[a]).id != (
            #[trigger] seats@[b]).id by {
                assert(ids@[a] != ids@[b]);
            }
        } else {
            let (a, b) = choose|a: int, b: int|
                0 <= a < b < ids@.len() && #[trigger] ids@[a] == #[trigger] ids@[b];
            assert(seats@[a].id == seats@[b].id);
        }
    }
    unique
}

} // verus!
