//! What holds of the engine whatever the store and the inputs are.

use vstd::prelude::*;
use crate::models::{Game, GameTicket, RequestStatus, TicketRequest, TicketStatus};
use crate::requests::{
    approve_rows, ask_rows, has_request_for, requests_ok, resize_rows, seats_in_range,
    withdraw_rows,
};
use crate::seats::{has_seat, seat_ids};
use crate::seqs::{lemma_filter_picks, lemma_one_more_passes, lemma_single_match};
use crate::store::allocation::{
    carries, credit_rows, granted_to, grants, lemma_assign_idle, tickets_after, Assignment,
};
use crate::store::inventory::{
    after_generation, after_generation_for_all, generate_all_refusal, generate_refusal,
    lemma_issued_is_valid, lemma_run_of_one,
};
use crate::store::StoreView;
use crate::tickets::{
    assign_rows, has_pair, held_by, lemma_assign_ok, lemma_issue_all, lemma_nothing_owed,
    lemma_nothing_owed_to_run, off_seat, open_with_id, owed_to_seat, owed_to_seats,
    release_rows, revoke_rows, some_ticket, taken_with_id, tickets_ok,
};

verus! {

/// The tickets of one seat for one game.
pub open spec fn for_pair(seat_id: i64, game_pk: i64) -> spec_fn(GameTicket) -> bool {
    |t: GameTicket| t.seat_id == seat_id && t.game_pk == game_pk
}

/// The requests of one user for one game.
pub open spec fn by_user_for_game(user: i64, game_pk: i64) -> spec_fn(TicketRequest) -> bool {
    |r: TicketRequest| r.user_id == user && r.game_pk == game_pk
}

/// Whether the table holds exactly one ticket for the seat and each home
/// game.
pub open spec fn one_ticket_per_home_game(tickets: Seq<GameTicket>, games: Seq<Game>, seat_id: i64) -> bool {
    forall|g: int|
        0 <= g < games.len() && (#[trigger] games[g]).is_home() ==> tickets.filter(
            for_pair(seat_id, games[g].game_pk),
        ).len() == 1
}

/// In a table in order, a pair of seat and game that has a ticket has one.
pub proof fn lemma_one_ticket(tickets: Seq<GameTicket>, next: int, seat_id: i64, game_pk: i64)
    requires
        tickets_ok(tickets, next),
        has_pair(tickets, seat_id, game_pk),
    ensures
        tickets.filter(for_pair(seat_id, game_pk)).len() == 1,
{
    let i = choose|i: int|
        0 <= i < tickets.len() && (#[trigger] tickets[i]).seat_id == seat_id && tickets[i].game_pk
            == game_pk;
    assert forall|j: int| 0 <= j < tickets.len() && j != i implies !(for_pair(seat_id, game_pk))(
        #[trigger] tickets[j],
    ) by {
        if j < i {
            assert(!(tickets[j].seat_id == tickets[i].seat_id && tickets[j].game_pk
                == tickets[i].game_pk));
        } else {
            assert(!(tickets[i].seat_id == tickets[j].seat_id && tickets[i].game_pk
                == tickets[j].game_pk));
        }
    }
    lemma_single_match(tickets, for_pair(seat_id, game_pk), i);
}

/// Once the tickets of a seat were generated, the seat has exactly one ticket
/// for every home game, and generating them again is accepted, issues nothing
/// and leaves the store as it is.
pub proof fn law_generation_is_idempotent(v: StoreView, seat_id: i64)
    requires
        v.valid(),
        generate_refusal(v, seat_id) is None,
    ensures
        ({
            let once = after_generation(v, seat_id);
            &&& once.valid()
            &&& one_ticket_per_home_game(once.tickets, once.games, seat_id)
            &&& generate_refusal(once, seat_id) is None
            &&& owed_to_seat(once.tickets, once.games, seat_id, once.next_ticket_id).len() == 0
            &&& after_generation(once, seat_id) == once
        }),
{
    let once = after_generation(v, seat_id);
    let ids = seq![seat_id];
    lemma_run_of_one(v.tickets, v.games, seat_id, v.next_ticket_id);
    lemma_issued_is_valid(v, ids);
    lemma_issue_all(v.tickets, v.games, ids, v.next_ticket_id);
    assert forall|g: int| 0 <= g < v.games.len() && (#[trigger] v.games[g]).is_home() implies has_pair(
        once.tickets,
        seat_id,
        v.games[g].game_pk,
    ) by {
        assert(ids[0] == seat_id);
    }
    lemma_nothing_owed(once.tickets, v.games, seat_id, once.next_ticket_id);
    assert(once.tickets + owed_to_seat(once.tickets, once.games, seat_id, once.next_ticket_id)
        =~= once.tickets);
    assert forall|g: int| 0 <= g < v.games.len() && (#[trigger] v.games[g]).is_home() implies once.tickets.filter(
        for_pair(seat_id, v.games[g].game_pk),
    ).len() == 1 by {
        lemma_one_ticket(once.tickets, once.next_ticket_id, seat_id, v.games[g].game_pk);
    }
}

/// Of two attempts to assign the same ticket, at most one succeeds: once a
/// ticket has been tried, it is not available, and a further attempt changes
/// nothing.
pub proof fn law_second_assignment_fails(rows: Seq<GameTicket>, id: i64, first: i64, second: i64)
    ensures
        !some_ticket(assign_rows(rows, id, first), open_with_id(id)),
        assign_rows(assign_rows(rows, id, first), id, second) == assign_rows(rows, id, first),
{
    let once = assign_rows(rows, id, first);
    assert forall|i: int| 0 <= i < once.len() implies !open_with_id(id)(#[trigger] once[i]) by {}
    assert(assign_rows(once, id, second) =~= once);
}

/// Of two attempts to assign an available ticket, exactly one succeeds, the
/// first: afterwards the ticket is assigned to the user of the first attempt,
/// whoever made the second.
pub proof fn law_one_assignment_wins(
    rows: Seq<GameTicket>,
    next: int,
    id: i64,
    first: i64,
    second: i64,
    at: int,
)
    requires
        tickets_ok(rows, next),
        0 <= at < rows.len(),
        rows[at].id == id,
        rows[at].status == TicketStatus::Available,
    ensures
        some_ticket(rows, open_with_id(id)),
        !some_ticket(assign_rows(rows, id, first), open_with_id(id)),
        ({
            let after = assign_rows(assign_rows(rows, id, first), id, second);
            &&& after[at].status == TicketStatus::Assigned
            &&& after[at].assigned_to == Some(first)
            &&& forall|i: int| 0 <= i < rows.len() && i != at ==> after[i] == rows[i]
        }),
{
    assert(open_with_id(id)(rows[at]));
    law_second_assignment_fails(rows, id, first, second);
    let after = assign_rows(rows, id, first);
    assert forall|i: int| 0 <= i < rows.len() && i != at implies after[i] == rows[i] by {
        if i < at {
            assert(rows[i].id != rows[at].id);
        } else {
            assert(rows[at].id != rows[i].id);
        }
    }
}

/// Revoking a ticket that is available finds nothing to do, and leaves every
/// row, the holder of each included, as it was.
pub proof fn law_revoke_needs_a_holder(rows: Seq<GameTicket>, next: int, id: i64, at: int)
    requires
        tickets_ok(rows, next),
        0 <= at < rows.len(),
        rows[at].id == id,
        rows[at].status == TicketStatus::Available,
    ensures
        !some_ticket(rows, taken_with_id(id)),
        revoke_rows(rows, id) == rows,
{
    assert forall|i: int| 0 <= i < rows.len() implies !taken_with_id(id)(#[trigger] rows[i]) by {
        if i < at {
            assert(rows[i].id != rows[at].id);
        } else if i > at {
            assert(rows[at].id != rows[i].id);
        }
    }
    assert(revoke_rows(rows, id) =~= rows);
}

/// A release by one user leaves every ticket alone that the user does not
/// hold for the game: the tickets of other users, those of other games, and
/// those that nobody holds.
pub proof fn law_release_spares_others(rows: Seq<GameTicket>, game_pk: i64, user: i64, i: int)
    requires
        0 <= i < rows.len(),
        rows[i].assigned_to != Some(user) || rows[i].game_pk != game_pk,
    ensures
        release_rows(rows, game_pk, user)[i] == rows[i],
{
    assert(!held_by(game_pk, user)(rows[i]));
}

/// After a release the user holds no ticket of the game, and every ticket
/// that was given back is available.
pub proof fn law_release_frees(rows: Seq<GameTicket>, game_pk: i64, user: i64, i: int)
    requires
        0 <= i < rows.len(),
    ensures
        !held_by(game_pk, user)(release_rows(rows, game_pk, user)[i]),
        held_by(game_pk, user)(rows[i]) ==> release_rows(rows, game_pk, user)[i].status
            == TicketStatus::Available && release_rows(rows, game_pk, user)[i].assigned_to is None,
{
}

/// However often a user asks for seats to a game, the user has one row for
/// that game: asking again rewrites the row and adds none.
pub proof fn law_one_request_per_user_and_game(
    rows: Seq<TicketRequest>,
    next: int,
    user: i64,
    game_pk: i64,
    seats: i64,
    notes: Option<String>,
)
    requires
        requests_ok(rows, next),
        1 <= next <= i64::MAX,
        seats_in_range(seats),
    ensures
        ask_rows(rows, next, user, game_pk, seats, notes).filter(
            by_user_for_game(user, game_pk),
        ).len() == 1,
        has_request_for(rows, user, game_pk) ==> ask_rows(
            rows,
            next,
            user,
            game_pk,
            seats,
            notes,
        ).len() == rows.len(),
        ({
            let once = ask_rows(rows, next, user, game_pk, seats, notes);
            ask_rows(once, next + 1, user, game_pk, seats, notes).len() == once.len()
        }),
{
    let once = ask_rows(rows, next, user, game_pk, seats, notes);
    let at = if has_request_for(rows, user, game_pk) {
        choose|i: int|
            0 <= i < rows.len() && (#[trigger] rows[i]).user_id == user && rows[i].game_pk == game_pk
    } else {
        rows.len() as int
    };
    assert(once[at].user_id == user && once[at].game_pk == game_pk);
    assert forall|j: int| 0 <= j < once.len() && j != at implies !(by_user_for_game(user, game_pk))(
        #[trigger] once[j],
    ) by {
        if has_request_for(rows, user, game_pk) {
            assert(once[j].user_id == rows[j].user_id && once[j].game_pk == rows[j].game_pk);
            if j < at {
                assert(!(rows[j].user_id == rows[at].user_id && rows[j].game_pk == rows[at].game_pk));
            } else {
                assert(!(rows[at].user_id == rows[j].user_id && rows[at].game_pk == rows[j].game_pk));
            }
        } else {
            assert(once[j] == rows[j]);
        }
    }
    lemma_single_match(once, by_user_for_game(user, game_pk), at);
    assert(has_request_for(once, user, game_pk));
}

/// A request that its owner withdraws and then makes again is pending again,
/// under its old id and with the seats that had been approved for it.
pub proof fn law_withdrawn_request_comes_back(
    rows: Seq<TicketRequest>,
    next: int,
    at: int,
    seats: i64,
    notes: Option<String>,
)
    requires
        requests_ok(rows, next),
        0 <= at < rows.len(),
        rows[at].status == RequestStatus::Pending,
    ensures
        ({
            let r = rows[at];
            let withdrawn = withdraw_rows(rows, r.id, r.user_id);
            let again = ask_rows(withdrawn, next, r.user_id, r.game_pk, seats, notes);
            &&& withdrawn[at].status == RequestStatus::Withdrawn
            &&& withdrawn[at].seats_approved == r.seats_approved
            &&& again.len() == rows.len()
            &&& again[at].id == r.id
            &&& again[at].status == RequestStatus::Pending
            &&& again[at].seats_approved == r.seats_approved
            &&& again[at].seats_requested == seats
        }),
{
    let r = rows[at];
    let withdrawn = withdraw_rows(rows, r.id, r.user_id);
    assert(withdrawn[at].user_id == r.user_id && withdrawn[at].game_pk == r.game_pk);
    assert(has_request_for(withdrawn, r.user_id, r.game_pk));
}

/// Once a seat is deleted, no ticket of the seat is left, whoever held one;
/// the tickets of the other seats stay, in their order.
pub proof fn law_deleted_seat_leaves_no_ticket(rows: Seq<GameTicket>, seat_id: i64)
    ensures
        forall|i: int|
            0 <= i < rows.filter(off_seat(seat_id)).len() ==> (#[trigger] rows.filter(
                off_seat(seat_id),
            )[i]).seat_id != seat_id,
        !exists|g: i64| has_pair(rows.filter(off_seat(seat_id)), seat_id, g),
        forall|i: int|
            0 <= i < rows.len() && (#[trigger] rows[i]).seat_id != seat_id ==> rows.filter(
                off_seat(seat_id),
            ).contains(rows[i]),
{
    let kept = rows.filter(off_seat(seat_id));
    let places = lemma_filter_picks(rows, off_seat(seat_id));
    assert forall|i: int| 0 <= i < kept.len() implies (#[trigger] kept[i]).seat_id != seat_id by {
        assert(kept[i] == rows[places[i]]);
        assert(off_seat(seat_id)(rows[places[i]]));
    }
    assert forall|i: int| 0 <= i < rows.len() && (#[trigger] rows[i]).seat_id
        != seat_id implies kept.contains(rows[i]) by {
        assert(off_seat(seat_id)(rows[i]));
        let k = choose|k: int| 0 <= k < places.len() && places[k] == i;
        assert(kept[k] == rows[i]);
    }
}

/// Once the tickets of all seats were generated, there is exactly one ticket
/// for every pair of a seat and a home game, and generating them again is
/// accepted, issues nothing and leaves the store as it is.
pub proof fn law_generation_for_all_is_idempotent(v: StoreView)
    requires
        v.valid(),
        generate_all_refusal(v) is None,
    ensures
        ({
            let once = after_generation_for_all(v);
            &&& once.valid()
            &&& forall|s: int|
                0 <= s < v.seats.len() ==> one_ticket_per_home_game(
                    once.tickets,
                    once.games,
                    (#[trigger] v.seats[s]).id,
                )
            &&& generate_all_refusal(once) is None
            &&& owed_to_seats(
                once.tickets,
                once.games,
                seat_ids(once.seats),
                once.next_ticket_id,
            ).len() == 0
            &&& after_generation_for_all(once) == once
        }),
{
    let once = after_generation_for_all(v);
    let ids = seat_ids(v.seats);
    assert forall|k: int| 0 <= k < ids.len() implies has_seat(v.seats, #[trigger] ids[k]) by {
        assert(v.seats[k].id == ids[k]);
    }
    lemma_issued_is_valid(v, ids);
    lemma_issue_all(v.tickets, v.games, ids, v.next_ticket_id);
    lemma_nothing_owed_to_run(once.tickets, v.games, ids, once.next_ticket_id);
    assert(once.tickets + owed_to_seats(once.tickets, once.games, ids, once.next_ticket_id)
        =~= once.tickets);
    assert forall|s: int| 0 <= s < v.seats.len() implies one_ticket_per_home_game(
        once.tickets,
        once.games,
        (#[trigger] v.seats[s]).id,
    ) by {
        let seat_id = v.seats[s].id;
        assert(ids[s] == seat_id);
        assert forall|g: int| 0 <= g < v.games.len() && (#[trigger] v.games[g]).is_home() implies once.tickets.filter(
            for_pair(seat_id, v.games[g].game_pk),
        ).len() == 1 by {
            assert(has_pair(once.tickets, ids[s], v.games[g].game_pk));
            lemma_one_ticket(once.tickets, once.next_ticket_id, seat_id, v.games[g].game_pk);
        }
    }
}

/// Nothing that happens to a request lowers what was approved for it: asking
/// again, a new count and a withdrawal leave it, an approval adds to it.
pub proof fn law_approved_seats_never_shrink(
    rows: Seq<TicketRequest>,
    next: int,
    id: i64,
    user: i64,
    game_pk: i64,
    seats: i64,
    notes: Option<String>,
    granted: int,
    status: RequestStatus,
    i: int,
)
    requires
        requests_ok(rows, next),
        0 <= i < rows.len(),
        0 <= granted,
        rows[i].seats_approved + granted <= i64::MAX,
    ensures
        ask_rows(rows, next, user, game_pk, seats, notes)[i].seats_approved
            == rows[i].seats_approved,
        resize_rows(rows, id, user, seats)[i].seats_approved == rows[i].seats_approved,
        withdraw_rows(rows, id, user)[i].seats_approved == rows[i].seats_approved,
        approve_rows(rows, id, granted, status)[i].seats_approved >= rows[i].seats_approved,
{
}

/// What a batch credits to a request is one approval of that request: as many
/// seats as lines of the batch succeeded in its name, and the status approved.
/// A request in whose name no line succeeded stays as it was.
pub proof fn law_batch_credits_once_per_request(
    rows: Seq<TicketRequest>,
    grants: Seq<Option<i64>>,
    i: int,
)
    requires
        0 <= i < rows.len(),
    ensures
        granted_to(grants, rows[i].id) > 0 ==> credit_rows(rows, grants)[i] == approve_rows(
            rows,
            rows[i].id,
            granted_to(grants, rows[i].id) as int,
            RequestStatus::Approved,
        )[i],
        granted_to(grants, rows[i].id) == 0 ==> credit_rows(rows, grants)[i] == rows[i],
{
}

/// Whichever of two callers comes first to an available ticket gets it, and
/// the other is turned away: in either order exactly one attempt succeeds, the
/// ticket ends up assigned to the caller who came first, and no other ticket
/// changes.
pub proof fn law_racing_assignments(
    rows: Seq<GameTicket>,
    next: int,
    id: i64,
    one: i64,
    other: i64,
    at: int,
)
    requires
        tickets_ok(rows, next),
        0 <= at < rows.len(),
        rows[at].id == id,
        rows[at].status == TicketStatus::Available,
    ensures
        some_ticket(rows, open_with_id(id)),
        !some_ticket(assign_rows(rows, id, one), open_with_id(id)),
        !some_ticket(assign_rows(rows, id, other), open_with_id(id)),
        assign_rows(assign_rows(rows, id, one), id, other)[at].assigned_to == Some(one),
        assign_rows(assign_rows(rows, id, other), id, one)[at].assigned_to == Some(other),
        forall|i: int|
            0 <= i < rows.len() && i != at ==> assign_rows(assign_rows(rows, id, one), id, other)[i]
                == rows[i] && assign_rows(assign_rows(rows, id, other), id, one)[i] == rows[i],
{
    law_one_assignment_wins(rows, next, id, one, other, at);
    law_one_assignment_wins(rows, next, id, other, one, at);
}

/// The assigned tickets.
pub open spec fn is_assigned() -> spec_fn(GameTicket) -> bool {
    |t: GameTicket| t.status == TicketStatus::Assigned
}

/// A batch assigns as many tickets as it counts: every line that succeeds
/// makes one more ticket assigned, and no line takes a ticket away. The
/// tickets stay in order throughout.
pub proof fn law_batch_assigns_what_it_counts(
    rows: Seq<GameTicket>,
    next: int,
    batch: Seq<Assignment>,
)
    requires
        tickets_ok(rows, next),
    ensures
        tickets_ok(tickets_after(rows, batch), next),
        tickets_after(rows, batch).len() == rows.len(),
        tickets_after(rows, batch).filter(is_assigned()).len() == rows.filter(is_assigned()).len()
            + grants(rows, batch).len(),
    decreases batch.len(),
{
    if batch.len() > 0 {
        let line = batch.last();
        let before = tickets_after(rows, batch.drop_last());
        let after = tickets_after(rows, batch);
        law_batch_assigns_what_it_counts(rows, next, batch.drop_last());
        lemma_assign_ok(before, next, line.game_ticket_id, line.user_id);
        lemma_assign_idle(before, line.game_ticket_id, line.user_id);
        if some_ticket(before, open_with_id(line.game_ticket_id)) {
            let at = choose|i: int|
                0 <= i < before.len() && #[trigger] open_with_id(line.game_ticket_id)(before[i]);
            assert forall|i: int| 0 <= i < before.len() && i != at implies after[i] == before[i] by {
                if i < at {
                    assert(before[i].id != before[at].id);
                } else {
                    assert(before[at].id != before[i].id);
                }
            }
            lemma_one_more_passes(before, after, is_assigned(), at);
        }
    }
}

/// What a batch credits to the requests it names is covered by the tickets it
/// assigned: no request is credited with more seats than lines succeeded.
pub proof fn law_credit_is_covered(rows: Seq<GameTicket>, batch: Seq<Assignment>, request: i64)
    ensures
        granted_to(grants(rows, batch), request) <= grants(rows, batch).len(),
        grants(rows, batch).len() <= batch.len(),
    decreases batch.len(),
{
    grants(rows, batch).lemma_filter_len(carries(request));
    if batch.len() > 0 {
        law_credit_is_covered(rows, batch.drop_last(), request);
    }
}

} // verus!
