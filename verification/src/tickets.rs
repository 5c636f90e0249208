//! The ticket table: one row per seat and home game.
//!
//! Every change is stated as a function from the rows before to the rows after:
//! a conditional rewrite of each row, a filter, or rows added at the end.

use vstd::prelude::*;
use crate::models::{Game, GameTicket, TicketStatus};
use crate::games::{games_ok, has_home_game};
use crate::seqs::{
    all_distinct, lemma_filter_next, lemma_filter_none, lemma_filter_picks, lemma_no_match,
    lemma_take_all,
};
use crate::text::clone_opt_text;

verus! {

/// The row `t` once it is held by `user`.
pub open spec fn held(t: GameTicket, user: i64) -> GameTicket {
    GameTicket { status: TicketStatus::Assigned, assigned_to: Some(user), ..t }
}

/// The row `t` once nobody holds it.
pub open spec fn freed(t: GameTicket) -> GameTicket {
    GameTicket { status: TicketStatus::Available, assigned_to: None, ..t }
}

/// The row `t` with other notes.
pub open spec fn annotated(t: GameTicket, notes: Option<String>) -> GameTicket {
    GameTicket { notes, ..t }
}

/// A new, unheld ticket.
pub open spec fn fresh_ticket(id: int, game_pk: i64, seat_id: i64) -> GameTicket {
    GameTicket {
        id: id as i64,
        game_pk,
        seat_id,
        status: TicketStatus::Available,
        notes: None,
        assigned_to: None,
    }
}

/// Ticket `id`, while it is available.
pub open spec fn open_with_id(id: i64) -> spec_fn(GameTicket) -> bool {
    |t: GameTicket| t.id == id && t.status == TicketStatus::Available
}

/// Ticket `id`, while it is assigned.
pub open spec fn taken_with_id(id: i64) -> spec_fn(GameTicket) -> bool {
    |t: GameTicket| t.id == id && t.status == TicketStatus::Assigned
}

/// The tickets of game `game_pk` that `user` holds.
pub open spec fn held_by(game_pk: i64, user: i64) -> spec_fn(GameTicket) -> bool {
    |t: GameTicket| t.game_pk == game_pk && t.assigned_to == Some(user)
}

/// The tickets of every seat but `seat_id`.
pub open spec fn off_seat(seat_id: i64) -> spec_fn(GameTicket) -> bool {
    |t: GameTicket| t.seat_id != seat_id
}

/// The tickets of game `game_pk`.
pub open spec fn of_game(game_pk: i64) -> spec_fn(GameTicket) -> bool {
    |t: GameTicket| t.game_pk == game_pk
}

/// The tickets that `user` holds.
pub open spec fn of_holder(user: i64) -> spec_fn(GameTicket) -> bool {
    |t: GameTicket| t.assigned_to == Some(user)
}

/// Whether some row satisfies `p`.
pub open spec fn some_ticket(rows: Seq<GameTicket>, p: spec_fn(GameTicket) -> bool) -> bool {
    exists|i: int| 0 <= i < rows.len() && #[trigger] p(rows[i])
}

/// Whether a ticket exists for the pair of seat and game.
pub open spec fn has_pair(rows: Seq<GameTicket>, seat_id: i64, game_pk: i64) -> bool {
    exists|i: int|
        0 <= i < rows.len() && (#[trigger] rows[i]).seat_id == seat_id && rows[i].game_pk
            == game_pk
}

/// Whether a row carries the id.
pub open spec fn has_ticket(rows: Seq<GameTicket>, id: i64) -> bool {
    exists|i: int| 0 <= i < rows.len() && (#[trigger] rows[i]).id == id
}

/// The rows after ticket `id` is given to `user`, if it was available.
pub open spec fn assign_rows(rows: Seq<GameTicket>, id: i64, user: i64) -> Seq<GameTicket> {
    rows.map_values(
        |t: GameTicket|
            if open_with_id(id)(t) {
                held(t, user)
            } else {
                t
            },
    )
}

/// The rows after ticket `id` is taken back, if it was assigned.
pub open spec fn revoke_rows(rows: Seq<GameTicket>, id: i64) -> Seq<GameTicket> {
    rows.map_values(
        |t: GameTicket|
            if taken_with_id(id)(t) {
                freed(t)
            } else {
                t
            },
    )
}

/// The rows after `user` gives back every ticket held for game `game_pk`.
pub open spec fn release_rows(rows: Seq<GameTicket>, game_pk: i64, user: i64) -> Seq<
    GameTicket,
> {
    rows.map_values(
        |t: GameTicket|
            if held_by(game_pk, user)(t) {
                freed(t)
            } else {
                t
            },
    )
}

/// The rows after the notes of ticket `id` are replaced.
pub open spec fn annotate_rows(rows: Seq<GameTicket>, id: i64, notes: Option<String>) -> Seq<
    GameTicket,
> {
    rows.map_values(
        |t: GameTicket|
            if t.id == id {
                annotated(t, notes)
            } else {
                t
            },
    )
}

/// The home games for which seat `seat_id` has no ticket yet.
pub open spec fn lacks_ticket(rows: Seq<GameTicket>, seat_id: i64) -> spec_fn(Game) -> bool {
    |g: Game| g.is_home() && !has_pair(rows, seat_id, g.game_pk)
}

/// The tickets that seat `seat_id` is still owed: one per home game without a
/// ticket for it, in the order of the games, numbered from `first_id`.
pub open spec fn owed_to_seat(
    rows: Seq<GameTicket>,
    games: Seq<Game>,
    seat_id: i64,
    first_id: int,
) -> Seq<GameTicket> {
    let missing = games.filter(lacks_ticket(rows, seat_id));
    Seq::new(missing.len(), |k: int| fresh_ticket(first_id + k, missing[k].game_pk, seat_id))
}

/// The tickets that the seats with the ids `seat_ids` are still owed: those of
/// the first seat, then those of the second once the first has its own, and so
/// on.
pub open spec fn owed_to_seats(
    rows: Seq<GameTicket>,
    games: Seq<Game>,
    seat_ids: Seq<i64>,
    first_id: int,
) -> Seq<GameTicket>
    decreases seat_ids.len(),
{
    if seat_ids.len() == 0 {
        Seq::empty()
    } else {
        let before = owed_to_seats(rows, games, seat_ids.drop_last(), first_id);
        before + owed_to_seat(rows + before, games, seat_ids.last(), first_id + before.len())
    }
}

/// The ids `first`, `first + 1`, and so on, `count` of them.
pub open spec fn run_of_ids(first: int, count: nat) -> Seq<i64> {
    Seq::new(count, |k: int| (first + k) as i64)
}

/// What one more seat adds to the tickets owed to a run of seats.
pub proof fn lemma_owed_to_seats_next(
    rows: Seq<GameTicket>,
    games: Seq<Game>,
    seat_ids: Seq<i64>,
    first_id: int,
    i: int,
)
    requires
        0 <= i < seat_ids.len(),
    ensures
        owed_to_seats(rows, games, seat_ids.take(i + 1), first_id) == ({
            let before = owed_to_seats(rows, games, seat_ids.take(i), first_id);
            before + owed_to_seat(rows + before, games, seat_ids[i], first_id + before.len())
        }),
{
    assert(seat_ids.take(i + 1).drop_last() =~= seat_ids.take(i));
    assert(seat_ids.take(i + 1).last() == seat_ids[i]);
}

/// The seats that come first are owed no more tickets than all seats.
pub proof fn lemma_owed_grows(
    rows: Seq<GameTicket>,
    games: Seq<Game>,
    seat_ids: Seq<i64>,
    first_id: int,
    i: int,
)
    requires
        0 <= i <= seat_ids.len(),
    ensures
        owed_to_seats(rows, games, seat_ids.take(i), first_id).len() <= owed_to_seats(
            rows,
            games,
            seat_ids,
            first_id,
        ).len(),
    decreases seat_ids.len(),
{
    if i == seat_ids.len() {
        assert(seat_ids.take(i) =~= seat_ids);
    } else {
        assert(seat_ids.drop_last().take(i) =~= seat_ids.take(i));
        lemma_owed_grows(rows, games, seat_ids.drop_last(), first_id, i);
    }
}

/// What the table requires of its rows: ids are positive, below `next` and unique; no pair of
/// seat and game occurs twice; a ticket names a holder exactly when it is
/// assigned.
pub open spec fn tickets_ok(rows: Seq<GameTicket>, next: int) -> bool {
    &&& forall|i: int| 0 <= i < rows.len() ==> 1 <= (#[trigger] rows[i]).id < next
    &&& forall|i: int, j: int|
        0 <= i < j < rows.len() ==> (#[trigger] rows[i]).id != (#[trigger] rows[j]).id
    &&& forall|i: int, j: int|
        0 <= i < j < rows.len() ==> !((#[trigger] rows[i]).seat_id == (#[trigger] rows[j]).seat_id
            && rows[i].game_pk == rows[j].game_pk)
    &&& forall|i: int|
        0 <= i < rows.len() ==> ((#[trigger] rows[i]).status == TicketStatus::Assigned)
            == rows[i].assigned_to.is_some()
}

/// Gives ticket `id` to `user` if it is available.
pub fn assign_in(rows: &mut Vec<GameTicket>, id: i64, user: i64) -> (ok: bool)
    ensures
        final(rows)@ == assign_rows(old(rows)@, id, user),
        ok == some_ticket(old(rows)@, open_with_id(id)),
{
    let n = rows.len();
    let mut ok = false;
    let mut i: usize = 0;
    while i < n
        invariant
            0 <= i <= n,
            n == old(rows)@.len(),
            rows@.len() == n,
            forall|j: int| 0 <= j < i ==> rows@[j] == assign_rows(old(rows)@, id, user)[j],
            forall|j: int| i <= j < n ==> rows@[j] == old(rows)@[j],
            ok == some_ticket(old(rows)@.take(i as int), open_with_id(id)),
        decreases n - i,
    {
        let ghost before = old(rows)@.take(i as int);
        let ghost after = old(rows)@.take(i as int + 1);
        assert(forall|j: int| 0 <= j < i ==> before[j] == after[j]);
        if rows[i].id == id && rows[i].status == TicketStatus::Available {
            let t = &mut rows[i];
            t.status = TicketStatus::Assigned;
            t.assigned_to = Some(user);
            ok = true;
            assert(open_with_id(id)(after[i as int]));
        } else {
            assert(!open_with_id(id)(after[i as int]));
        }
        i += 1;
    }
    assert(old(rows)@.take(n as int) =~= old(rows)@);
    assert(rows@ =~= assign_rows(old(rows)@, id, user));
    ok
}

/// Takes ticket `id` back if it is assigned.
pub fn revoke_in(rows: &mut Vec<GameTicket>, id: i64) -> (ok: bool)
    ensures
        final(rows)@ == revoke_rows(old(rows)@, id),
        ok == some_ticket(old(rows)@, taken_with_id(id)),
{
    let n = rows.len();
    let mut ok = false;
    let mut i: usize = 0;
    while i < n
        invariant
            0 <= i <= n,
            n == old(rows)@.len(),
            rows@.len() == n,
            forall|j: int| 0 <= j < i ==> rows@[j] == revoke_rows(old(rows)@, id)[j],
            forall|j: int| i <= j < n ==> rows@[j] == old(rows)@[j],
            ok == some_ticket(old(rows)@.take(i as int), taken_with_id(id)),
        decreases n - i,
    {
        let ghost before = old(rows)@.take(i as int);
        let ghost after = old(rows)@.take(i as int + 1);
        assert(forall|j: int| 0 <= j < i ==> before[j] == after[j]);
        if rows[i].id == id && rows[i].status == TicketStatus::Assigned {
            let t = &mut rows[i];
            t.status = TicketStatus::Available;
            t.assigned_to = None;
            ok = true;
            assert(taken_with_id(id)(after[i as int]));
        } else {
            assert(!taken_with_id(id)(after[i as int]));
        }
        i += 1;
    }
    assert(old(rows)@.take(n as int) =~= old(rows)@);
    assert(rows@ =~= revoke_rows(old(rows)@, id));
    ok
}

/// Gives back every ticket of game `game_pk` that `user` holds, and counts them.
pub fn release_in(rows: &mut Vec<GameTicket>, game_pk: i64, user: i64) -> (count: u64)
    ensures
        final(rows)@ == release_rows(old(rows)@, game_pk, user),
        count == old(rows)@.filter(held_by(game_pk, user)).len(),
{
    let n = rows.len();
    let mut count: u64 = 0;
    let mut i: usize = 0;
    proof {
        lemma_filter_none(old(rows)@, held_by(game_pk, user));
    }
    while i < n
        invariant
            0 <= i <= n,
            n == old(rows)@.len(),
            rows@.len() == n,
            forall|j: int| 0 <= j < i ==> rows@[j] == release_rows(old(rows)@, game_pk, user)[j],
            forall|j: int| i <= j < n ==> rows@[j] == old(rows)@[j],
            count == old(rows)@.take(i as int).filter(held_by(game_pk, user)).len(),
            count <= i,
        decreases n - i,
    {
        proof {
            lemma_filter_next(old(rows)@, held_by(game_pk, user), i as int);
        }
        let hit = match rows[i].assigned_to {
            Some(u) => u == user && rows[i].game_pk == game_pk,
            None => false,
        };
        if hit {
            let t = &mut rows[i];
            t.status = TicketStatus::Available;
            t.assigned_to = None;
            count += 1;
        }
        i += 1;
    }
    assert(old(rows)@.take(n as int) =~= old(rows)@);
    assert(rows@ =~= release_rows(old(rows)@, game_pk, user));
    count
}

/// Removes every ticket of seat `seat_id`.
pub fn drop_seat_in(rows: &mut Vec<GameTicket>, seat_id: i64)
    ensures
        final(rows)@ == old(rows)@.filter(off_seat(seat_id)),
{
    let n = rows.len();
    let mut kept: Vec<GameTicket> = Vec::new();
    let mut i: usize = 0;
    proof {
        lemma_filter_none(rows@, off_seat(seat_id));
    }
    while i < n
        invariant
            0 <= i <= n,
            n == rows@.len(),
            rows@ == old(rows)@,
            kept@ == rows@.take(i as int).filter(off_seat(seat_id)),
        decreases n - i,
    {
        proof {
            lemma_filter_next(rows@, off_seat(seat_id), i as int);
        }
        if rows[i].seat_id != seat_id {
            kept.push(rows[i].clone());
        }
        i += 1;
    }
    assert(rows@.take(n as int) =~= rows@);
    *rows = kept;
}

/// Replaces the notes of ticket `id`.
pub fn annotate_in(rows: &mut Vec<GameTicket>, id: i64, notes: &Option<String>) -> (ok: bool)
    ensures
        final(rows)@ == annotate_rows(old(rows)@, id, *notes),
        ok == has_ticket(old(rows)@, id),
{
    let n = rows.len();
    let mut ok = false;
    let mut i: usize = 0;
    while i < n
        invariant
            0 <= i <= n,
            n == old(rows)@.len(),
            rows@.len() == n,
            forall|j: int| 0 <= j < i ==> rows@[j] == annotate_rows(old(rows)@, id, *notes)[j],
            forall|j: int| i <= j < n ==> rows@[j] == old(rows)@[j],
            ok == has_ticket(old(rows)@.take(i as int), id),
        decreases n - i,
    {
        let ghost before = old(rows)@.take(i as int);
        let ghost after = old(rows)@.take(i as int + 1);
        assert(forall|j: int| 0 <= j < i ==> before[j] == after[j]);
        if rows[i].id == id {
            let t = &mut rows[i];
            t.notes = clone_opt_text(notes);
            ok = true;
            assert(after[i as int].id == id);
        }
        i += 1;
    }
    assert(old(rows)@.take(n as int) =~= old(rows)@);
    assert(rows@ =~= annotate_rows(old(rows)@, id, *notes));
    ok
}

/// Whether a ticket exists for the pair of seat and game.
pub fn pair_exists(rows: &Vec<GameTicket>, seat_id: i64, game_pk: i64) -> (b: bool)
    ensures
        b == has_pair(rows@, seat_id, game_pk),
{
    let n = rows.len();
    let mut i: usize = 0;
    while i < n
        invariant
            0 <= i <= n,
            n == rows@.len(),
            forall|j: int| 0 <= j < i ==> !(rows@[j].seat_id == seat_id && rows@[j].game_pk == game_pk),
        decreases n - i,
    {
        if rows[i].seat_id == seat_id && rows[i].game_pk == game_pk {
            return true;
        }
        i += 1;
    }
    false
}

/// The place of the ticket with the id, if there is one.
pub fn find_ticket(rows: &Vec<GameTicket>, id: i64) -> (r: Option<usize>)
    ensures
        r is Some == has_ticket(rows@, id),
        r is Some ==> r->0 < rows@.len() && rows@[r->0 as int].id == id,
{
    let n = rows.len();
    let mut i: usize = 0;
    while i < n
        invariant
            0 <= i <= n,
            n == rows@.len(),
            forall|j: int| 0 <= j < i ==> rows@[j].id != id,
        decreases n - i,
    {
        if rows[i].id == id {
            return Some(i);
        }
        i += 1;
    }
    None
}

/// Adds the tickets that seat `seat_id` is still owed, numbered from
/// `first_id`, and counts them. Where the ids up to the largest do not suffice
/// for them, nothing is added.
pub fn issue_for_seat_in(
    rows: &mut Vec<GameTicket>,
    games: &Vec<Game>,
    seat_id: i64,
    first_id: i64,
) -> (r: Option<u64>)
    requires
        0 <= first_id,
    ensures
        ({
            let owed = owed_to_seat(old(rows)@, games@, seat_id, first_id as int);
            match r {
                Some(count) => {
                    &&& first_id + owed.len() <= i64::MAX
                    &&& count == owed.len()
                    &&& final(rows)@ == old(rows)@ + owed
                },
                None => {
                    &&& first_id + owed.len() > i64::MAX
                    &&& final(rows)@ == old(rows)@
                },
            }
        }),
{
    let n = games.len();
    let ghost base = old(rows)@;
    let ghost p = lacks_ticket(base, seat_id);
    let mut missing: Vec<i64> = Vec::new();
    let mut i: usize = 0;
    proof {
        lemma_filter_none(games@, p);
    }
    while i < n
        invariant
            0 <= i <= n,
            n == games@.len(),
            rows@ == base,
            p == lacks_ticket(base, seat_id),
            missing@.len() == games@.take(i as int).filter(p).len(),
            forall|j: int|
                0 <= j < missing@.len() ==> missing@[j] == (#[trigger] games@.take(i as int).filter(
                    p,
                )[j]).game_pk,
        decreases n - i,
    {
        proof {
            lemma_filter_next(games@, p, i as int);
        }
        if games[i].plays_at_home() && !pair_exists(rows, seat_id, games[i].game_pk) {
            missing.push(games[i].game_pk);
        }
        i += 1;
    }
    proof {
        lemma_take_all(games@);
    }
    let m = missing.len();
    if m as u64 > (i64::MAX - first_id) as u64 {
        return None;
    }
    let ghost owed = owed_to_seat(base, games@, seat_id, first_id as int);
    let mut added: Vec<GameTicket> = Vec::new();
    let mut k: usize = 0;
    while k < m
        invariant
            0 <= k <= m,
            m == missing@.len(),
            0 <= first_id,
            first_id + m <= i64::MAX,
            owed == owed_to_seat(base, games@, seat_id, first_id as int),
            owed.len() == m,
            forall|j: int|
                0 <= j < m ==> missing@[j] == (#[trigger] games@.filter(
                    lacks_ticket(base, seat_id),
                )[j]).game_pk,
            added@.len() == k,
            forall|j: int| 0 <= j < k ==> added@[j] == owed[j],
        decreases m - k,
    {
        added.push(
            GameTicket {
                id: first_id + k as i64,
                game_pk: missing[k],
                seat_id,
                status: TicketStatus::Available,
                notes: None,
                assigned_to: None,
            },
        );
        k += 1;
    }
    assert(added@ =~= owed);
    rows.append(&mut added);
    Some(m as u64)
}

/// Adds the tickets that the seats with the ids `seat_ids` are still owed,
/// numbered from `first_id`, and counts them. Where the ids up to the largest
/// do not suffice for them, nothing is added.
pub fn issue_for_seats_in(
    rows: &mut Vec<GameTicket>,
    games: &Vec<Game>,
    seat_ids: &Vec<i64>,
    first_id: i64,
) -> (r: Option<u64>)
    requires
        0 <= first_id,
    ensures
        ({
            let owed = owed_to_seats(old(rows)@, games@, seat_ids@, first_id as int);
            match r {
                Some(count) => {
                    &&& first_id + owed.len() <= i64::MAX
                    &&& count == owed.len()
                    &&& final(rows)@ == old(rows)@ + owed
                },
                None => {
                    &&& first_id + owed.len() > i64::MAX
                    &&& final(rows)@ == old(rows)@
                },
            }
        }),
{
    let n = seat_ids.len();
    let before = rows.len();
    let ghost base = old(rows)@;
    let mut total: u64 = 0;
    let mut i: usize = 0;
    assert(rows@ =~= base + owed_to_seats(base, games@, seat_ids@.take(0), first_id as int));
    while i < n
        invariant
            0 <= i <= n,
            n == seat_ids@.len(),
            base == old(rows)@,
            before == base.len(),
            0 <= first_id,
            first_id + total <= i64::MAX,
            total == owed_to_seats(base, games@, seat_ids@.take(i as int), first_id as int).len(),
            rows@ == base + owed_to_seats(base, games@, seat_ids@.take(i as int), first_id as int),
        decreases n - i,
    {
        proof {
            lemma_owed_to_seats_next(base, games@, seat_ids@, first_id as int, i as int);
            lemma_owed_grows(base, games@, seat_ids@, first_id as int, i as int + 1);
        }
        let ghost sofar = owed_to_seats(base, games@, seat_ids@.take(i as int), first_id as int);
        match issue_for_seat_in(rows, games, seat_ids[i], first_id + total as i64) {
            Some(count) => {
                assert(rows@ =~= base + owed_to_seats(
                    base,
                    games@,
                    seat_ids@.take(i as int + 1),
                    first_id as int,
                ));
                total = total + count;
            },
            None => {
                proof {
                    let step = owed_to_seat(
                        base + sofar,
                        games@,
                        seat_ids@[i as int],
                        first_id + sofar.len(),
                    );
                    assert(first_id + total + step.len() > i64::MAX);
                    assert(owed_to_seats(base, games@, seat_ids@.take(i as int + 1), first_id as int)
                        == sofar + step);
                }
                rows.truncate(before);
                assert(rows@ =~= base);
                return None;
            },
        }
        i += 1;
    }
    proof {
        lemma_take_all(seat_ids@);
    }
    Some(total)
}

/// Giving a ticket to a user keeps the table in order.
pub proof fn lemma_assign_ok(rows: Seq<GameTicket>, next: int, id: i64, user: i64)
    requires
        tickets_ok(rows, next),
    ensures
        tickets_ok(assign_rows(rows, id, user), next),
{
    let after = assign_rows(rows, id, user);
    assert forall|i: int| 0 <= i < after.len() implies 1 <= (#[trigger] after[i]).id < next && ((
    after[i]).status == TicketStatus::Assigned) == after[i].assigned_to.is_some() by {
        assert(after[i].id == rows[i].id);
    }
    assert forall|i: int, j: int| 0 <= i < j < after.len() implies (#[trigger] after[i]).id != (
    #[trigger] after[j]).id && !(after[i].seat_id == after[j].seat_id && after[i].game_pk
        == after[j].game_pk) by {
        assert(after[i].id == rows[i].id && after[j].id == rows[j].id);
    }
}

/// Taking a ticket back keeps the table in order.
pub proof fn lemma_revoke_ok(rows: Seq<GameTicket>, next: int, id: i64)
    requires
        tickets_ok(rows, next),
    ensures
        tickets_ok(revoke_rows(rows, id), next),
{
    let after = revoke_rows(rows, id);
    assert forall|i: int| 0 <= i < after.len() implies 1 <= (#[trigger] after[i]).id < next && ((
    after[i]).status == TicketStatus::Assigned) == after[i].assigned_to.is_some() by {
        assert(after[i].id == rows[i].id);
    }
    assert forall|i: int, j: int| 0 <= i < j < after.len() implies (#[trigger] after[i]).id != (
    #[trigger] after[j]).id && !(after[i].seat_id == after[j].seat_id && after[i].game_pk
        == after[j].game_pk) by {
        assert(after[i].id == rows[i].id && after[j].id == rows[j].id);
    }
}

/// Giving tickets back keeps the table in order.
pub proof fn lemma_release_ok(rows: Seq<GameTicket>, next: int, game_pk: i64, user: i64)
    requires
        tickets_ok(rows, next),
    ensures
        tickets_ok(release_rows(rows, game_pk, user), next),
{
    let after = release_rows(rows, game_pk, user);
    assert forall|i: int| 0 <= i < after.len() implies 1 <= (#[trigger] after[i]).id < next && ((
    after[i]).status == TicketStatus::Assigned) == after[i].assigned_to.is_some() by {
        assert(after[i].id == rows[i].id);
    }
    assert forall|i: int, j: int| 0 <= i < j < after.len() implies (#[trigger] after[i]).id != (
    #[trigger] after[j]).id && !(after[i].seat_id == after[j].seat_id && after[i].game_pk
        == after[j].game_pk) by {
        assert(after[i].id == rows[i].id && after[j].id == rows[j].id);
    }
}

/// New notes keep the table in order.
pub proof fn lemma_annotate_ok(rows: Seq<GameTicket>, next: int, id: i64, notes: Option<String>)
    requires
        tickets_ok(rows, next),
    ensures
        tickets_ok(annotate_rows(rows, id, notes), next),
{
    let after = annotate_rows(rows, id, notes);
    assert forall|i: int| 0 <= i < after.len() implies 1 <= (#[trigger] after[i]).id < next && ((
    after[i]).status == TicketStatus::Assigned) == after[i].assigned_to.is_some() by {
        assert(after[i].id == rows[i].id);
    }
    assert forall|i: int, j: int| 0 <= i < j < after.len() implies (#[trigger] after[i]).id != (
    #[trigger] after[j]).id && !(after[i].seat_id == after[j].seat_id && after[i].game_pk
        == after[j].game_pk) by {
        assert(after[i].id == rows[i].id && after[j].id == rows[j].id);
    }
}

/// Removing rows keeps the table in order.
pub proof fn lemma_fewer_tickets_ok(
    rows: Seq<GameTicket>,
    next: int,
    p: spec_fn(GameTicket) -> bool,
)
    requires
        tickets_ok(rows, next),
    ensures
        tickets_ok(rows.filter(p), next),
{
    let places = lemma_filter_picks(rows, p);
    let after = rows.filter(p);
    assert forall|i: int| 0 <= i < after.len() implies 1 <= (#[trigger] after[i]).id < next && ((
    after[i]).status == TicketStatus::Assigned) == after[i].assigned_to.is_some() by {
        assert(after[i] == rows[places[i]]);
    }
    assert forall|i: int, j: int| 0 <= i < j < after.len() implies (#[trigger] after[i]).id != (
    #[trigger] after[j]).id && !(after[i].seat_id == after[j].seat_id && after[i].game_pk
        == after[j].game_pk) by {
        assert(after[i] == rows[places[i]] && after[j] == rows[places[j]]);
        assert(places[i] < places[j]);
    }
}

/// The tickets owed to a seat are one per missing home game: each is
/// available, belongs to the seat, and names a home game that had no ticket for
/// the seat; no game is named twice.
pub proof fn lemma_owed_shape(rows: Seq<GameTicket>, games: Seq<Game>, seat_id: i64, first_id: int)
    requires
        games_ok(games),
    ensures
        owed_to_seat(rows, games, seat_id, first_id).len() <= games.len(),
        forall|k: int|
            #![trigger owed_to_seat(rows, games, seat_id, first_id)[k]]
            0 <= k < owed_to_seat(rows, games, seat_id, first_id).len() ==> {
                let t = owed_to_seat(rows, games, seat_id, first_id)[k];
                &&& t.id == (first_id + k) as i64
                &&& t.seat_id == seat_id
                &&& t.status == TicketStatus::Available
                &&& t.assigned_to is None
                &&& !has_pair(rows, seat_id, t.game_pk)
                &&& exists|g: int|
                    0 <= g < games.len() && (#[trigger] games[g]).game_pk == t.game_pk
                        && games[g].is_home()
            },
        forall|k: int, l: int|
            #![trigger owed_to_seat(rows, games, seat_id, first_id)[k], owed_to_seat(rows, games, seat_id, first_id)[l]]
            0 <= k < l < owed_to_seat(rows, games, seat_id, first_id).len() ==> owed_to_seat(
                rows,
                games,
                seat_id,
                first_id,
            )[k].game_pk != owed_to_seat(rows, games, seat_id, first_id)[l].game_pk,
        forall|g: int|
            0 <= g < games.len() && (#[trigger] games[g]).is_home() && !has_pair(
                rows,
                seat_id,
                games[g].game_pk,
            ) ==> has_pair(owed_to_seat(rows, games, seat_id, first_id), seat_id, games[g].game_pk),
{
    let p = lacks_ticket(rows, seat_id);
    let places = lemma_filter_picks(games, p);
    let missing = games.filter(p);
    let owed = owed_to_seat(rows, games, seat_id, first_id);
    games.lemma_filter_len(p);
    assert forall|k: int| 0 <= k < owed.len() implies {
        let t = #[trigger] owed[k];
        &&& !has_pair(rows, seat_id, t.game_pk)
        &&& exists|g: int|
            0 <= g < games.len() && (#[trigger] games[g]).game_pk == t.game_pk && games[g].is_home()
    } by {
        assert(missing[k] == games[places[k]]);
        assert(p(games[places[k]]));
    }
    assert forall|k: int, l: int| 0 <= k < l < owed.len() implies (#[trigger] owed[k]).game_pk != (
    #[trigger] owed[l]).game_pk by {
        assert(missing[k] == games[places[k]] && missing[l] == games[places[l]]);
        assert(places[k] < places[l]);
    }
    assert forall|g: int|
        0 <= g < games.len() && (#[trigger] games[g]).is_home() && !has_pair(
            rows,
            seat_id,
            games[g].game_pk,
        ) implies has_pair(owed, seat_id, games[g].game_pk) by {
        assert(p(games[g]));
        let k = choose|k: int| 0 <= k < places.len() && places[k] == g;
        assert(missing[k] == games[g]);
        assert(owed[k].seat_id == seat_id && owed[k].game_pk == games[g].game_pk);
    }
}

/// Issuing the tickets owed to a seat keeps the table in order.
pub proof fn lemma_issue_ok(
    rows: Seq<GameTicket>,
    games: Seq<Game>,
    seat_id: i64,
    next: int,
)
    requires
        tickets_ok(rows, next),
        games_ok(games),
        1 <= next,
        next + owed_to_seat(rows, games, seat_id, next).len() <= i64::MAX,
    ensures
        tickets_ok(
            rows + owed_to_seat(rows, games, seat_id, next),
            next + owed_to_seat(rows, games, seat_id, next).len(),
        ),
{
    lemma_owed_shape(rows, games, seat_id, next);
    let owed = owed_to_seat(rows, games, seat_id, next);
    let after = rows + owed;
    let n = rows.len() as int;
    assert forall|i: int| 0 <= i < after.len() implies 1 <= (#[trigger] after[i]).id < next
        + owed.len() && ((after[i]).status == TicketStatus::Assigned)
        == after[i].assigned_to.is_some() by {
        if i < n {
            assert(after[i] == rows[i]);
        } else {
            assert(after[i] == owed[i - n]);
        }
    }
    assert forall|i: int, j: int| 0 <= i < j < after.len() implies (#[trigger] after[i]).id != (
    #[trigger] after[j]).id && !(after[i].seat_id == after[j].seat_id && after[i].game_pk
        == after[j].game_pk) by {
        if j < n {
            assert(after[i] == rows[i] && after[j] == rows[j]);
        } else if i < n {
            assert(after[i] == rows[i] && after[j] == owed[j - n]);
            assert(!has_pair(rows, seat_id, owed[j - n].game_pk));
        } else {
            assert(after[i] == owed[i - n] && after[j] == owed[j - n]);
        }
    }
}

/// Whether every seat with an id of `seat_ids` has a ticket for every home
/// game.
pub open spec fn fully_issued(tickets: Seq<GameTicket>, games: Seq<Game>, seat_ids: Seq<i64>) -> bool {
    forall|s: int, g: int|
        0 <= s < seat_ids.len() && 0 <= g < games.len() && (#[trigger] games[g]).is_home()
            ==> has_pair(tickets, #[trigger] seat_ids[s], games[g].game_pk)
}

/// More tickets never take a pair of seat and game away.
pub proof fn lemma_pairs_stay(
    tickets: Seq<GameTicket>,
    more: Seq<GameTicket>,
    seat_id: i64,
    game_pk: i64,
)
    requires
        has_pair(tickets, seat_id, game_pk),
    ensures
        has_pair(tickets + more, seat_id, game_pk),
{
    let i = choose|i: int|
        0 <= i < tickets.len() && (#[trigger] tickets[i]).seat_id == seat_id && tickets[i].game_pk
            == game_pk;
    assert((tickets + more)[i] == tickets[i]);
}

/// Issuing the tickets owed to a run of seats keeps the ticket table in
/// order, leaves every seat of the run with a ticket for every home game, and
/// issues tickets of those seats and of home games only.
pub proof fn lemma_issue_all(
    tickets: Seq<GameTicket>,
    games: Seq<Game>,
    seat_ids: Seq<i64>,
    next: int,
)
    requires
        tickets_ok(tickets, next),
        games_ok(games),
        1 <= next,
        next + owed_to_seats(tickets, games, seat_ids, next).len() <= i64::MAX,
    ensures
        ({
            let owed = owed_to_seats(tickets, games, seat_ids, next);
            &&& tickets_ok(tickets + owed, next + owed.len())
            &&& fully_issued(tickets + owed, games, seat_ids)
            &&& forall|k: int|
                0 <= k < owed.len() ==> seat_ids.contains((#[trigger] owed[k]).seat_id)
                    && has_home_game(games, owed[k].game_pk)
        }),
    decreases seat_ids.len(),
{
    if seat_ids.len() == 0 {
        assert(tickets + owed_to_seats(tickets, games, seat_ids, next) =~= tickets);
    } else {
        let head = seat_ids.drop_last();
        let last = seat_ids.last();
        let before = owed_to_seats(tickets, games, head, next);
        let mid = tickets + before;
        let step = owed_to_seat(mid, games, last, next + before.len());
        let owed = owed_to_seats(tickets, games, seat_ids, next);
        assert(owed == before + step);
        lemma_issue_all(tickets, games, head, next);
        lemma_issue_ok(mid, games, last, next + before.len());
        lemma_owed_shape(mid, games, last, next + before.len());
        assert(tickets + owed =~= mid + step);
        assert forall|k: int| 0 <= k < owed.len() implies seat_ids.contains(
            (#[trigger] owed[k]).seat_id,
        ) && has_home_game(games, owed[k].game_pk) by {
            if k < before.len() {
                assert(owed[k] == before[k]);
                let w = choose|w: int| 0 <= w < head.len() && head[w] == before[k].seat_id;
                assert(seat_ids[w] == head[w]);
            } else {
                assert(owed[k] == step[k - before.len()]);
                assert(seat_ids[seat_ids.len() - 1] == last);
            }
        }
        assert forall|s: int, g: int|
            0 <= s < seat_ids.len() && 0 <= g < games.len() && (#[trigger] games[g]).is_home() implies has_pair(
            tickets + owed,
            #[trigger] seat_ids[s],
            games[g].game_pk,
        ) by {
            let pk = games[g].game_pk;
            if s < seat_ids.len() - 1 {
                assert(seat_ids[s] == head[s]);
                assert(has_pair(mid, head[s], pk));
                lemma_pairs_stay(mid, step, seat_ids[s], pk);
            } else {
                if has_pair(mid, last, pk) {
                    lemma_pairs_stay(mid, step, last, pk);
                } else {
                    assert(has_pair(step, last, pk));
                    let k = choose|k: int|
                        0 <= k < step.len() && (#[trigger] step[k]).seat_id == last
                            && step[k].game_pk == pk;
                    assert((mid + step)[mid.len() + k] == step[k]);
                }
            }
        }
    }
}

/// A seat that has a ticket for every home game is owed nothing.
pub proof fn lemma_nothing_owed(tickets: Seq<GameTicket>, games: Seq<Game>, seat_id: i64, next: int)
    requires
        forall|g: int|
            0 <= g < games.len() && (#[trigger] games[g]).is_home() ==> has_pair(
                tickets,
                seat_id,
                games[g].game_pk,
            ),
    ensures
        owed_to_seat(tickets, games, seat_id, next).len() == 0,
{
    assert forall|g: int| 0 <= g < games.len() implies !(lacks_ticket(tickets, seat_id))(
        #[trigger] games[g],
    ) by {}
    lemma_no_match(games, lacks_ticket(tickets, seat_id));
}

/// Where every seat of a run has a ticket for every home game, the run is owed
/// nothing.
pub proof fn lemma_nothing_owed_to_run(
    tickets: Seq<GameTicket>,
    games: Seq<Game>,
    seat_ids: Seq<i64>,
    next: int,
)
    requires
        fully_issued(tickets, games, seat_ids),
    ensures
        owed_to_seats(tickets, games, seat_ids, next).len() == 0,
    decreases seat_ids.len(),
{
    if seat_ids.len() > 0 {
        let head = seat_ids.drop_last();
        assert forall|s: int, g: int|
            0 <= s < head.len() && 0 <= g < games.len() && (#[trigger] games[g]).is_home() implies has_pair(
            tickets,
            #[trigger] head[s],
            games[g].game_pk,
        ) by {
            assert(head[s] == seat_ids[s]);
        }
        lemma_nothing_owed_to_run(tickets, games, head, next);
        let before = owed_to_seats(tickets, games, head, next);
        assert(tickets + before =~= tickets);
        assert forall|g: int| 0 <= g < games.len() && (#[trigger] games[g]).is_home() implies has_pair(
            tickets,
            seat_ids.last(),
            games[g].game_pk,
        ) by {
            assert(seat_ids[seat_ids.len() - 1] == seat_ids.last());
        }
        lemma_nothing_owed(tickets, games, seat_ids.last(), next + before.len());
    }
}

/// Whether the rows are in order.
pub fn check_tickets(rows: &Vec<GameTicket>, next: i64) -> (b: bool)
    ensures
        b == tickets_ok(rows@, next as int),
{
    let n = rows.len();
    let mut ids: Vec<(i64, i64)> = Vec::new();
    let mut pairs: Vec<(i64, i64)> = Vec::new();
    let mut i: usize = 0;
    while i < n
        invariant
            0 <= i <= n,
            n == rows@.len(),
            ids@.len() == i,
            pairs@.len() == i,
            forall|j: int| 0 <= j < i ==> #[trigger] ids@[j] == (rows@[j].id, 0i64),
            forall|j: int| 0 <= j < i ==> #[trigger] pairs@[j] == (rows@[j].seat_id, rows@[j].game_pk),
            forall|j: int|
                0 <= j < i ==> 1 <= (#[trigger] rows@[j]).id < next && (rows@[j].status
                    == TicketStatus::Assigned) == rows@[j].assigned_to.is_some(),
        decreases n - i,
    {
        let t = &rows[i];
        let held = t.assigned_to.is_some();
        let marked = match t.status {
            TicketStatus::Assigned => true,
            TicketStatus::Available => false,
        };
        if t.id < 1 || t.id >= next || held != marked {
            assert(!(1 <= rows@[i as int].id < next && (rows@[i as int].status
                == TicketStatus::Assigned) == rows@[i as int].assigned_to.is_some()));
            return false;
        }
        ids.push((t.id, 0));
        pairs.push((t.seat_id, t.game_pk));
        i += 1;
    }
    let unique_ids = all_distinct(&ids);
    let unique_pairs = all_distinct(&pairs);
    proof {
        if unique_ids {
            assert forall|a: int, b: int| 0 <= a < b < rows@.len() implies (#[trigger] rows@[a]).id != (
            #[trigger] rows@[b]).id by {
                assert(ids@[a] != ids@[b]);
            }
        } else {
            let (a, b) = choose|a: int, b: int|
                0 <= a < b < ids@.len() && #[trigger] ids@[a] == #[trigger] ids@[b];
            assert(rows@[a].id == rows@[b].id);
        }
        if unique_pairs {
            assert forall|a: int, b: int| 0 <= a < b < rows@.len() implies !((
            #[trigger] rows@[a]).seat_id == (#[trigger] rows@[b]).seat_id && rows@[a].game_pk
                == rows@[b].game_pk) by {
                assert(pairs@[a] != pairs@[b]);
            }
        } else {
            let (a, b) = choose|a: int, b: int|
                0 <= a < b < pairs@.len() && #[trigger] pairs@[a] == #[trigger] pairs@[b];
            assert(rows@[a].seat_id == rows@[b].seat_id && rows@[a].game_pk == rows@[b].game_pk);
        }
    }
    unique_ids && unique_pairs
}

} // verus!
