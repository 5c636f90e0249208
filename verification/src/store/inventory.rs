//! The pool of seats and the tickets that the seats give rise to.

use vstd::prelude::*;
use crate::error::{EngineError, StorageError, ValidationError};
use crate::games::has_home_game;
use crate::models::{Game, GameTicket, Seat, TicketStatus};
use crate::seats::{
    has_seat, ids_of_seats, in_group, labelled, lemma_fewer_seats_ok, lemma_regroup_ok,
    lemma_seat_added_ok, other_than, regroup_in, regroup_rows, remove_seat_in, seat_exists,
    seat_ids,
};
use crate::seqs::lemma_filter_picks;
use crate::store::{Store, StoreView};
use crate::text::{clone_opt_text, decimal, decimal_text, lemma_decimal_not_empty};
use crate::tickets::{
    annotate_in, annotate_rows, drop_seat_in, find_ticket, has_ticket, issue_for_seat_in,
    issue_for_seats_in, lemma_annotate_ok, lemma_fewer_tickets_ok, lemma_issue_all, off_seat,
    owed_to_seat, owed_to_seats, run_of_ids,
};

verus! {

/// Why a seat with these labels cannot be added, if it cannot.
pub open spec fn add_seat_refusal(
    v: StoreView,
    section: Seq<char>,
    row: Seq<char>,
    seat: Seq<char>,
) -> Option<EngineError> {
    if section.len() == 0 || row.len() == 0 || seat.len() == 0 {
        Some(EngineError::Validation(ValidationError::EmptySeatField))
    } else if v.next_seat_id >= i64::MAX {
        Some(EngineError::Storage(StorageError::IdsExhausted))
    } else {
        None
    }
}

/// Adds a seat to the pool.
///
/// The seat gets the next id and goes to the end of the table. A seat without
/// a section, a row or a seat label is refused, and nothing changes.
pub fn add_seat(store: &mut Store, section: String, row: String, seat: String, notes: Option<String>) -> (r:
    Result<Seat, EngineError>)
    requires
        old(store).wf(),
    ensures
        final(store).wf(),
        match r {
            Ok(s) => {
                &&& add_seat_refusal(old(store)@, section@, row@, seat@) is None
                &&& s == (Seat { id: old(store)@.next_seat_id as i64, section, row, seat, notes })
                &&& final(store)@ == (StoreView {
                    seats: old(store)@.seats.push(s),
                    next_seat_id: old(store)@.next_seat_id + 1,
                    ..old(store)@
                })
            },
            Err(e) => {
                &&& add_seat_refusal(old(store)@, section@, row@, seat@) == Some(e)
                &&& final(store)@ == old(store)@
            },
        },
{
    if section.as_str().is_empty() || row.as_str().is_empty() || seat.as_str().is_empty() {
        return Err(EngineError::Validation(ValidationError::EmptySeatField));
    }
    if store.next_seat_id >= i64::MAX {
        return Err(EngineError::Storage(StorageError::IdsExhausted));
    }
    let s = Seat { id: store.next_seat_id, section, row, seat, notes };
    proof {
        lemma_seat_added_ok(store@.seats, store@.next_seat_id, s);
    }
    store.seats.push(s.clone());
    store.next_seat_id = store.next_seat_id + 1;
    Ok(s)
}

/// Removes a seat and, with it, every ticket of the seat, whoever holds one.
///
/// Returns whether the seat existed.
pub fn delete_seat(store: &mut Store, seat_id: i64) -> (found: bool)
    requires
        old(store).wf(),
    ensures
        final(store).wf(),
        found == has_seat(old(store)@.seats, seat_id),
        final(store)@ == (StoreView {
            seats: old(store)@.seats.filter(other_than(seat_id)),
            tickets: old(store)@.tickets.filter(off_seat(seat_id)),
            ..old(store)@
        }),
{
    proof {
        let v = store@;
        lemma_fewer_seats_ok(v.seats, v.next_seat_id, other_than(seat_id));
        lemma_fewer_tickets_ok(v.tickets, v.next_ticket_id, off_seat(seat_id));
        let places = lemma_filter_picks(v.tickets, off_seat(seat_id));
        let kept = v.tickets.filter(off_seat(seat_id));
        assert forall|i: int| 0 <= i < kept.len() implies has_seat(
            v.seats.filter(other_than(seat_id)),
            (#[trigger] kept[i]).seat_id,
        ) && has_home_game(v.games, kept[i].game_pk) by {
            let t = v.tickets[places[i]];
            assert(kept[i] == t);
            assert(off_seat(seat_id)(t));
            assert(has_seat(v.seats, t.seat_id));
            let w = choose|w: int| 0 <= w < v.seats.len() && (#[trigger] v.seats[w]).id == t.seat_id;
            assert(other_than(seat_id)(v.seats[w]));
        }
    }
    drop_seat_in(&mut store.tickets, seat_id);
    remove_seat_in(&mut store.seats, seat_id)
}

/// Replaces the notes of every seat in one row of one section.
///
/// Returns how many seats the row has.
pub fn update_seat_group_notes(store: &mut Store, section: &str, row: &str, notes: Option<String>) -> (count:
    u64)
    requires
        old(store).wf(),
    ensures
        final(store).wf(),
        count == old(store)@.seats.filter(in_group(section@, row@)).len(),
        final(store)@ == (StoreView {
            seats: regroup_rows(old(store)@.seats, section@, row@, notes),
            ..old(store)@
        }),
{
    proof {
        lemma_regroup_ok(store@.seats, store@.next_seat_id, section@, row@, notes);
    }
    regroup_in(&mut store.seats, section, row, &notes)
}

/// Why the tickets of a seat cannot be generated, if they cannot: the seat is
/// not known, or the ticket ids do not suffice for the tickets that the seat is
/// owed.
pub open spec fn generate_refusal(v: StoreView, seat_id: i64) -> Option<EngineError> {
    if !has_seat(v.seats, seat_id) {
        Some(EngineError::Validation(ValidationError::UnknownSeat { seat_id }))
    } else if v.next_ticket_id + owed_to_seat(v.tickets, v.games, seat_id, v.next_ticket_id).len()
        > i64::MAX {
        Some(EngineError::Storage(StorageError::IdsExhausted))
    } else {
        None
    }
}

/// The store after the tickets that `owed` holds were issued.
pub open spec fn with_tickets(v: StoreView, owed: Seq<GameTicket>) -> StoreView {
    StoreView {
        tickets: v.tickets + owed,
        next_ticket_id: v.next_ticket_id + owed.len(),
        ..v
    }
}

/// The store after the tickets that seat `seat_id` is owed were issued.
pub open spec fn after_generation(v: StoreView, seat_id: i64) -> StoreView {
    with_tickets(v, owed_to_seat(v.tickets, v.games, seat_id, v.next_ticket_id))
}

/// Issuing the tickets that known seats are owed keeps the store valid.
pub proof fn lemma_issued_is_valid(v: StoreView, ids: Seq<i64>)
    requires
        v.valid(),
        forall|k: int| 0 <= k < ids.len() ==> has_seat(v.seats, #[trigger] ids[k]),
        v.next_ticket_id + owed_to_seats(v.tickets, v.games, ids, v.next_ticket_id).len()
            <= i64::MAX,
    ensures
        with_tickets(v, owed_to_seats(v.tickets, v.games, ids, v.next_ticket_id)).valid(),
{
    lemma_issue_all(v.tickets, v.games, ids, v.next_ticket_id);
    let owed = owed_to_seats(v.tickets, v.games, ids, v.next_ticket_id);
    let after = v.tickets + owed;
    assert forall|i: int| 0 <= i < after.len() implies has_seat(
        v.seats,
        (#[trigger] after[i]).seat_id,
    ) && has_home_game(v.games, after[i].game_pk) by {
        if i < v.tickets.len() {
            assert(after[i] == v.tickets[i]);
        } else {
            let t = owed[i - v.tickets.len()];
            assert(after[i] == t);
            let w = choose|w: int| 0 <= w < ids.len() && ids[w] == t.seat_id;
            assert(has_seat(v.seats, ids[w]));
        }
    }
}

/// The tickets owed to one seat are those owed to the run of that seat alone.
pub proof fn lemma_run_of_one(rows: Seq<GameTicket>, games: Seq<Game>, seat_id: i64, next: int)
    ensures
        owed_to_seats(rows, games, seq![seat_id], next) == owed_to_seat(rows, games, seat_id, next),
{
    let ids = seq![seat_id];
    assert(ids.drop_last() =~= Seq::<i64>::empty());
    assert(owed_to_seats(rows, games, ids.drop_last(), next) =~= Seq::<GameTicket>::empty());
    assert(rows + Seq::<GameTicket>::empty() =~= rows);
    assert(ids.last() == seat_id);
    assert(owed_to_seats(rows, games, ids, next) =~= owed_to_seat(rows, games, seat_id, next));
}

/// Issues, for one seat, a ticket for every home game that has none for it yet.
///
/// Returns how many tickets were issued. Tickets that exist are not touched,
/// so a second call issues nothing. The call is refused, and nothing changes,
/// if the seat does not exist, or if the ticket ids do not suffice for the
/// tickets that are owed.
pub fn generate_tickets_for_seat(store: &mut Store, seat_id: i64) -> (r: Result<u64, EngineError>)
    requires
        old(store).wf(),
    ensures
        final(store).wf(),
        match r {
            Ok(count) => {
                &&& generate_refusal(old(store)@, seat_id) is None
                &&& count == owed_to_seat(
                    old(store)@.tickets,
                    old(store)@.games,
                    seat_id,
                    old(store)@.next_ticket_id,
                ).len()
                &&& final(store)@ == after_generation(old(store)@, seat_id)
            },
            Err(e) => {
                &&& generate_refusal(old(store)@, seat_id) == Some(e)
                &&& final(store)@ == old(store)@
            },
        },
{
    if !seat_exists(&store.seats, seat_id) {
        return Err(EngineError::Validation(ValidationError::UnknownSeat { seat_id }));
    }
    proof {
        let v = store@;
        lemma_run_of_one(v.tickets, v.games, seat_id, v.next_ticket_id);
        if v.next_ticket_id + owed_to_seat(v.tickets, v.games, seat_id, v.next_ticket_id).len()
            <= i64::MAX {
            lemma_issued_is_valid(v, seq![seat_id]);
        }
    }
    match issue_for_seat_in(&mut store.tickets, &store.games, seat_id, store.next_ticket_id) {
        Some(count) => {
            store.next_ticket_id = store.next_ticket_id + count as i64;
            Ok(count)
        },
        None => Err(EngineError::Storage(StorageError::IdsExhausted)),
    }
}

/// Why a seat cannot be added together with its tickets, if it cannot: it
/// cannot be added, or the ticket ids do not suffice for its tickets.
pub open spec fn add_with_tickets_refusal(
    v: StoreView,
    section: Seq<char>,
    row: Seq<char>,
    seat: Seq<char>,
) -> Option<EngineError> {
    if add_seat_refusal(v, section, row, seat) is Some {
        add_seat_refusal(v, section, row, seat)
    } else if v.next_ticket_id + owed_to_seat(
        v.tickets,
        v.games,
        v.next_seat_id as i64,
        v.next_ticket_id,
    ).len() > i64::MAX {
        Some(EngineError::Storage(StorageError::IdsExhausted))
    } else {
        None
    }
}

/// Adds a seat to the pool and issues its ticket for every home game.
///
/// Returns the seat and the number of its tickets. The call is refused, and
/// nothing changes, if the seat cannot be added, or if the ticket ids do not
/// suffice for its tickets.
pub fn add_seat_with_tickets(
    store: &mut Store,
    section: String,
    row: String,
    seat: String,
    notes: Option<String>,
) -> (r: Result<(Seat, u64), EngineError>)
    requires
        old(store).wf(),
    ensures
        final(store).wf(),
        match r {
            Ok((s, count)) => {
                let owed = owed_to_seat(
                    old(store)@.tickets,
                    old(store)@.games,
                    s.id,
                    old(store)@.next_ticket_id,
                );
                &&& add_with_tickets_refusal(old(store)@, section@, row@, seat@) is None
                &&& s == (Seat { id: old(store)@.next_seat_id as i64, section, row, seat, notes })
                &&& count == owed.len()
                &&& final(store)@ == (StoreView {
                    seats: old(store)@.seats.push(s),
                    next_seat_id: old(store)@.next_seat_id + 1,
                    tickets: old(store)@.tickets + owed,
                    next_ticket_id: old(store)@.next_ticket_id + owed.len(),
                    ..old(store)@
                })
            },
            Err(e) => {
                &&& add_with_tickets_refusal(old(store)@, section@, row@, seat@) == Some(e)
                &&& final(store)@ == old(store)@
            },
        },
{
    if section.as_str().is_empty() || row.as_str().is_empty() || seat.as_str().is_empty() {
        return Err(EngineError::Validation(ValidationError::EmptySeatField));
    }
    if store.next_seat_id >= i64::MAX {
        return Err(EngineError::Storage(StorageError::IdsExhausted));
    }
    let ghost v = store@;
    let s = Seat { id: store.next_seat_id, section, row, seat, notes };
    match issue_for_seat_in(&mut store.tickets, &store.games, s.id, store.next_ticket_id) {
        Some(count) => {
            proof {
                lemma_seat_added_ok(v.seats, v.next_seat_id, s);
                let with_seat = StoreView {
                    seats: v.seats.push(s),
                    next_seat_id: v.next_seat_id + 1,
                    ..v
                };
                assert(with_seat.valid());
                lemma_run_of_one(v.tickets, v.games, s.id, v.next_ticket_id);
                lemma_issued_is_valid(with_seat, seq![s.id]);
            }
            store.seats.push(s.clone());
            store.next_seat_id = store.next_seat_id + 1;
            store.next_ticket_id = store.next_ticket_id + count as i64;
            Ok((s, count))
        },
        None => Err(EngineError::Storage(StorageError::IdsExhausted)),
    }
}

/// Why the tickets of all seats cannot be generated, if they cannot: the
/// ticket ids do not suffice for the tickets that the seats are owed.
pub open spec fn generate_all_refusal(v: StoreView) -> Option<EngineError> {
    if v.next_ticket_id + owed_to_seats(v.tickets, v.games, seat_ids(v.seats), v.next_ticket_id).len()
        > i64::MAX {
        Some(EngineError::Storage(StorageError::IdsExhausted))
    } else {
        None
    }
}

/// The store after the tickets that the seats are owed were issued.
pub open spec fn after_generation_for_all(v: StoreView) -> StoreView {
    with_tickets(v, owed_to_seats(v.tickets, v.games, seat_ids(v.seats), v.next_ticket_id))
}

/// Issues, for every seat, a ticket for every home game that has none for it
/// yet.
///
/// Returns how many tickets were issued. The call is refused, and nothing
/// changes, if the ticket ids do not suffice for the tickets that are owed.
pub fn generate_tickets_for_all_seats(store: &mut Store) -> (r: Result<u64, EngineError>)
    requires
        old(store).wf(),
    ensures
        final(store).wf(),
        match r {
            Ok(count) => {
                &&& generate_all_refusal(old(store)@) is None
                &&& count == owed_to_seats(
                    old(store)@.tickets,
                    old(store)@.games,
                    seat_ids(old(store)@.seats),
                    old(store)@.next_ticket_id,
                ).len()
                &&& final(store)@ == after_generation_for_all(old(store)@)
            },
            Err(e) => {
                &&& generate_all_refusal(old(store)@) == Some(e)
                &&& final(store)@ == old(store)@
            },
        },
{
    let ids = ids_of_seats(&store.seats);
    proof {
        let v = store@;
        assert forall|k: int| 0 <= k < ids@.len() implies has_seat(v.seats, #[trigger] ids@[k]) by {
            assert(v.seats[k].id == ids@[k]);
        }
        if generate_all_refusal(v) is None {
            lemma_issued_is_valid(v, ids@);
        }
    }
    match issue_for_seats_in(&mut store.tickets, &store.games, &ids, store.next_ticket_id) {
        Some(count) => {
            store.next_ticket_id = store.next_ticket_id + count as i64;
            Ok(count)
        },
        None => Err(EngineError::Storage(StorageError::IdsExhausted)),
    }
}

/// Why a run of seats cannot be added, if it cannot: its first number is
/// above its last; it has fifty numbers or more; its section or row is not
/// named; or the ids do not suffice for the seats and their tickets.
pub open spec fn add_batch_refusal(
    v: StoreView,
    section: Seq<char>,
    row: Seq<char>,
    seat_start: u32,
    seat_end: u32,
) -> Option<EngineError> {
    let count = seat_end - seat_start + 1;
    if seat_start > seat_end {
        Some(EngineError::Validation(ValidationError::SeatRangeInverted))
    } else if count >= 50 {
        Some(EngineError::Validation(ValidationError::SeatRangeTooLarge))
    } else if section.len() == 0 || row.len() == 0 {
        Some(EngineError::Validation(ValidationError::EmptySeatField))
    } else if v.next_seat_id + count > i64::MAX || v.next_ticket_id + owed_to_seats(
        v.tickets,
        v.games,
        run_of_ids(v.next_seat_id, count as nat),
        v.next_ticket_id,
    ).len() > i64::MAX {
        Some(EngineError::Storage(StorageError::IdsExhausted))
    } else {
        None
    }
}

/// Adds the seats numbered `seat_start` to `seat_end` of one row, and issues
/// the tickets of each for every home game.
///
/// Everything is checked before anything changes: the run may not be
/// inverted, it may have at most 49 seats, the section and the row must be
/// named, and the ids must suffice for the seats and for their tickets.
/// Returns the new seats in the order of their numbers.
pub fn add_seat_batch(
    store: &mut Store,
    section: String,
    row: String,
    seat_start: u32,
    seat_end: u32,
    notes: Option<String>,
) -> (r: Result<Vec<Seat>, EngineError>)
    requires
        old(store).wf(),
    ensures
        final(store).wf(),
        match r {
            Ok(added) => {
                let owed = owed_to_seats(
                    old(store)@.tickets,
                    old(store)@.games,
                    seat_ids(added@),
                    old(store)@.next_ticket_id,
                );
                &&& add_batch_refusal(old(store)@, section@, row@, seat_start, seat_end) is None
                &&& added@.len() == seat_end - seat_start + 1
                &&& forall|k: int|
                    0 <= k < added@.len() ==> {
                        &&& (#[trigger] added@[k]).id == old(store)@.next_seat_id + k
                        &&& added@[k].section == section
                        &&& added@[k].row == row
                        &&& added@[k].seat@ == decimal((seat_start + k) as nat)
                        &&& added@[k].notes == notes
                    }
                &&& final(store)@ == (StoreView {
                    seats: old(store)@.seats + added@,
                    next_seat_id: old(store)@.next_seat_id + added@.len(),
                    tickets: old(store)@.tickets + owed,
                    next_ticket_id: old(store)@.next_ticket_id + owed.len(),
                    ..old(store)@
                })
            },
            Err(e) => {
                &&& add_batch_refusal(old(store)@, section@, row@, seat_start, seat_end) == Some(e)
                &&& final(store)@ == old(store)@
            },
        },
{
    if seat_start > seat_end {
        return Err(EngineError::Validation(ValidationError::SeatRangeInverted));
    }
    if seat_end - seat_start >= 49 {
        return Err(EngineError::Validation(ValidationError::SeatRangeTooLarge));
    }
    if section.as_str().is_empty() || row.as_str().is_empty() {
        return Err(EngineError::Validation(ValidationError::EmptySeatField));
    }
    let count: u32 = seat_end - seat_start + 1;
    if count as i64 > i64::MAX - store.next_seat_id {
        return Err(EngineError::Storage(StorageError::IdsExhausted));
    }
    let ghost v0 = store@;
    let ghost run = run_of_ids(v0.next_seat_id, count as nat);
    let mut ids: Vec<i64> = Vec::new();
    let mut j: u32 = 0;
    while j < count
        invariant
            0 <= j <= count,
            count <= 49,
            store@ == v0,
            v0.valid(),
            v0.next_seat_id + count <= i64::MAX,
            ids@.len() == j,
            forall|k: int| 0 <= k < j ==> ids@[k] == v0.next_seat_id + k,
        decreases count - j,
    {
        ids.push(store.next_seat_id + j as i64);
        j += 1;
    }
    assert(ids@ =~= run);
    let issued = match issue_for_seats_in(
        &mut store.tickets,
        &store.games,
        &ids,
        store.next_ticket_id,
    ) {
        Some(issued) => issued,
        None => {
            return Err(EngineError::Storage(StorageError::IdsExhausted));
        },
    };
    store.next_ticket_id = store.next_ticket_id + issued as i64;
    let ghost owed = owed_to_seats(v0.tickets, v0.games, run, v0.next_ticket_id);
    let mut added: Vec<Seat> = Vec::new();
    let mut k: u32 = 0;
    assert(store@.seats =~= v0.seats + added@);
    while k < count
        invariant
            0 <= k <= count,
            count == seat_end - seat_start + 1,
            count <= 49,
            v0.next_seat_id + count <= i64::MAX,
            1 <= v0.next_seat_id,
            section@.len() > 0,
            row@.len() > 0,
            added@.len() == k,
            forall|j: int|
                0 <= j < added@.len() ==> {
                    &&& (#[trigger] added@[j]).id == v0.next_seat_id + j
                    &&& added@[j].section == section
                    &&& added@[j].row == row
                    &&& added@[j].seat@ == decimal((seat_start + j) as nat)
                    &&& added@[j].notes == notes
                },
            store@ == (StoreView {
                seats: v0.seats + added@,
                next_seat_id: v0.next_seat_id + k,
                tickets: v0.tickets + owed,
                next_ticket_id: v0.next_ticket_id + owed.len(),
                ..v0
            }),
        decreases count - k,
    {
        let s = Seat {
            id: store.next_seat_id,
            section: section.clone(),
            row: row.clone(),
            seat: decimal_text((seat_start + k) as u64),
            notes: clone_opt_text(&notes),
        };
        store.seats.push(s.clone());
        store.next_seat_id = store.next_seat_id + 1;
        added.push(s);
        assert(store@.seats =~= v0.seats + added@);
        k += 1;
    }
    proof {
        assert(seat_ids(added@) =~= run);
        lemma_issue_all(v0.tickets, v0.games, run, v0.next_ticket_id);
        let seats = v0.seats + added@;
        let n = v0.seats.len() as int;
        assert forall|i: int| 0 <= i < seats.len() implies 1 <= (#[trigger] seats[i]).id
            < v0.next_seat_id + count && labelled(seats[i]) by {
            if i < n {
                assert(seats[i] == v0.seats[i]);
            } else {
                assert(seats[i] == added@[i - n]);
                lemma_decimal_not_empty((seat_start + (i - n)) as nat);
            }
        }
        assert forall|i: int, j: int| 0 <= i < j < seats.len() implies (#[trigger] seats[i]).id != (
        #[trigger] seats[j]).id by {
            if j < n {
                assert(seats[i] == v0.seats[i] && seats[j] == v0.seats[j]);
            } else if i < n {
                assert(seats[i] == v0.seats[i] && seats[j] == added@[j - n]);
            } else {
                assert(seats[i] == added@[i - n] && seats[j] == added@[j - n]);
            }
        }
        let tickets = v0.tickets + owed;
        assert forall|i: int| 0 <= i < tickets.len() implies has_seat(
            seats,
            (#[trigger] tickets[i]).seat_id,
        ) && has_home_game(v0.games, tickets[i].game_pk) by {
            if i < v0.tickets.len() {
                assert(tickets[i] == v0.tickets[i]);
                let w = choose|w: int|
                    0 <= w < v0.seats.len() && (#[trigger] v0.seats[w]).id == tickets[i].seat_id;
                assert(seats[w] == v0.seats[w]);
            } else {
                let t = owed[i - v0.tickets.len()];
                assert(tickets[i] == t);
                let w = choose|w: int| 0 <= w < run.len() && run[w] == t.seat_id;
                assert(seats[n + w] == added@[w]);
            }
        }
    }
    Ok(added)
}

/// What becomes of a request to change the notes of ticket `ticket_id` while
/// confirming its status: `Ok(false)` where the ticket does not exist, a refusal
/// where `status` is not the status the ticket has, `Ok(true)` otherwise.
pub open spec fn update_ticket_outcome(v: StoreView, ticket_id: i64, status: TicketStatus) -> Result<
    bool,
    EngineError,
> {
    if !has_ticket(v.tickets, ticket_id) {
        Ok(false)
    } else if exists|i: int|
        0 <= i < v.tickets.len() && (#[trigger] v.tickets[i]).id == ticket_id && v.tickets[i].status
            != status {
        Err(EngineError::Validation(ValidationError::StatusMismatch { ticket_id }))
    } else {
        Ok(true)
    }
}

/// Replaces the notes of a ticket.
///
/// Who holds a ticket changes only by assigning and revoking: `status` must be
/// the status that the ticket has, or the call is refused.
pub fn update_ticket_status(
    store: &mut Store,
    ticket_id: i64,
    status: TicketStatus,
    notes: Option<String>,
) -> (r: Result<bool, EngineError>)
    requires
        old(store).wf(),
    ensures
        final(store).wf(),
        r == update_ticket_outcome(old(store)@, ticket_id, status),
        r == Ok::<bool, EngineError>(true) ==> final(store)@ == (StoreView {
            tickets: annotate_rows(old(store)@.tickets, ticket_id, notes),
            ..old(store)@
        }),
        r != Ok::<bool, EngineError>(true) ==> final(store)@ == old(store)@,
{
    match find_ticket(&store.tickets, ticket_id) {
        None => Ok(false),
        Some(at) => {
            if store.tickets[at].status != status {
                Err(EngineError::Validation(ValidationError::StatusMismatch { ticket_id }))
            } else {
                proof {
                    let v = store@;
                    lemma_annotate_ok(v.tickets, v.next_ticket_id, ticket_id, notes);
                    assert forall|i: int|
                        0 <= i < v.tickets.len() && (#[trigger] v.tickets[i]).id
                            == ticket_id implies v.tickets[i].status == status by {
                        if i != at as int {
                            if i < at as int {
                                assert(v.tickets[i].id != v.tickets[at as int].id);
                            } else {
                                assert(v.tickets[at as int].id != v.tickets[i].id);
                            }
                        }
                    }
                    let after = annotate_rows(v.tickets, ticket_id, notes);
                    assert forall|i: int| 0 <= i < after.len() implies has_seat(
                        v.seats,
                        (#[trigger] after[i]).seat_id,
                    ) && has_home_game(v.games, after[i].game_pk) by {
                        assert(after[i].seat_id == v.tickets[i].seat_id);
                    }
                }
                annotate_in(&mut store.tickets, ticket_id, &notes);
                Ok(true)
            }
        },
    }
}

} // verus!
