//! The request table: at most one row per user and game.

use vstd::prelude::*;
use crate::models::{RequestStatus, TicketRequest};
use crate::seqs::all_distinct;
use crate::text::clone_opt_text;

verus! {

/// The fewest seats that one request may ask for.
pub const MIN_SEATS: i64 = 1;

/// The most seats that one request may ask for.
pub const MAX_SEATS: i64 = 4;

/// The bound below which request ids are issued. It leaves room for the sum of
/// the seats that any number of requests ask for.
pub const REQUEST_ID_LIMIT: i64 = 2305843009213693951;

/// Whether a request may ask for this many seats.
pub open spec fn seats_in_range(seats: i64) -> bool {
    MIN_SEATS <= seats <= MAX_SEATS
}

/// Whether `user` has a row for game `game_pk`.
pub open spec fn has_request_for(rows: Seq<TicketRequest>, user: i64, game_pk: i64) -> bool {
    exists|i: int|
        0 <= i < rows.len() && (#[trigger] rows[i]).user_id == user && rows[i].game_pk == game_pk
}

/// Whether a row carries the id.
pub open spec fn has_request(rows: Seq<TicketRequest>, id: i64) -> bool {
    exists|i: int| 0 <= i < rows.len() && (#[trigger] rows[i]).id == id
}

/// Request `id`, while `user` owns it and it is pending.
pub open spec fn editable(id: i64, user: i64) -> spec_fn(TicketRequest) -> bool {
    |r: TicketRequest| r.id == id && r.user_id == user && r.status == RequestStatus::Pending
}

/// Whether some row satisfies `p`.
pub open spec fn some_request(rows: Seq<TicketRequest>, p: spec_fn(TicketRequest) -> bool) -> bool {
    exists|i: int| 0 <= i < rows.len() && #[trigger] p(rows[i])
}

/// The row `r` after its owner asks again: the new count and notes, and
/// pending again if it had been withdrawn.
pub open spec fn asked_again(r: TicketRequest, seats: i64, notes: Option<String>) -> TicketRequest {
    TicketRequest {
        seats_requested: seats,
        notes,
        status: if r.status == RequestStatus::Withdrawn {
            RequestStatus::Pending
        } else {
            r.status
        },
        ..r
    }
}

/// A first request: pending, with nothing approved.
pub open spec fn first_request(
    id: int,
    user: i64,
    game_pk: i64,
    seats: i64,
    notes: Option<String>,
) -> TicketRequest {
    TicketRequest {
        id: id as i64,
        user_id: user,
        game_pk,
        seats_requested: seats,
        seats_approved: 0,
        status: RequestStatus::Pending,
        notes,
    }
}

/// The rows after `user` asks for `seats` seats to game `game_pk`: the row of
/// that user and game is rewritten in place, or a first request with id `next`
/// is added at the end.
pub open spec fn ask_rows(
    rows: Seq<TicketRequest>,
    next: int,
    user: i64,
    game_pk: i64,
    seats: i64,
    notes: Option<String>,
) -> Seq<TicketRequest> {
    if has_request_for(rows, user, game_pk) {
        rows.map_values(
            |r: TicketRequest|
                if r.user_id == user && r.game_pk == game_pk {
                    asked_again(r, seats, notes)
                } else {
                    r
                },
        )
    } else {
        rows.push(first_request(next, user, game_pk, seats, notes))
    }
}

/// The rows after `user` changes the count of request `id`, if it is theirs
/// and pending.
pub open spec fn resize_rows(rows: Seq<TicketRequest>, id: i64, user: i64, seats: i64) -> Seq<
    TicketRequest,
> {
    rows.map_values(
        |r: TicketRequest|
            if editable(id, user)(r) {
                TicketRequest { seats_requested: seats, ..r }
            } else {
                r
            },
    )
}

/// The rows after `user` withdraws request `id`, if it is theirs and pending.
pub open spec fn withdraw_rows(rows: Seq<TicketRequest>, id: i64, user: i64) -> Seq<
    TicketRequest,
> {
    rows.map_values(
        |r: TicketRequest|
            if editable(id, user)(r) {
                TicketRequest { status: RequestStatus::Withdrawn, ..r }
            } else {
                r
            },
    )
}

/// The row `r` after `granted` more seats are approved for it.
pub open spec fn approved_more(r: TicketRequest, granted: int, status: RequestStatus) -> TicketRequest {
    TicketRequest { seats_approved: (r.seats_approved + granted) as i64, status, ..r }
}

/// The rows after `granted` more seats are approved for request `id`.
pub open spec fn approve_rows(
    rows: Seq<TicketRequest>,
    id: i64,
    granted: int,
    status: RequestStatus,
) -> Seq<TicketRequest> {
    rows.map_values(
        |r: TicketRequest|
            if r.id == id {
                approved_more(r, granted, status)
            } else {
                r
            },
    )
}

/// What the table requires of its rows: ids are positive, below `next` and
/// unique; no pair of user and game occurs twice; between one and four seats
/// are asked for; the approved count is not negative.
pub open spec fn requests_ok(rows: Seq<TicketRequest>, next: int) -> bool {
    &&& forall|i: int| 0 <= i < rows.len() ==> 1 <= (#[trigger] rows[i]).id < next
    &&& forall|i: int, j: int|
        0 <= i < j < rows.len() ==> (#[trigger] rows[i]).id != (#[trigger] rows[j]).id
    &&& forall|i: int, j: int|
        0 <= i < j < rows.len() ==> !((#[trigger] rows[i]).user_id == (#[trigger] rows[j]).user_id
            && rows[i].game_pk == rows[j].game_pk)
    &&& forall|i: int| 0 <= i < rows.len() ==> seats_in_range((#[trigger] rows[i]).seats_requested)
    &&& forall|i: int| 0 <= i < rows.len() ==> 0 <= (#[trigger] rows[i]).seats_approved
}

/// Whether a request may ask for this many seats.
pub fn seats_allowed(seats: i64) -> (b: bool)
    ensures
        b == seats_in_range(seats),
{
    MIN_SEATS <= seats && seats <= MAX_SEATS
}

/// The place of the request with the id, if there is one.
pub fn find_request(rows: &Vec<TicketRequest>, id: i64) -> (r: Option<usize>)
    ensures
        r is Some == has_request(rows@, id),
        r is Some ==> r->0 < rows@.len() && rows@[r->0 as int].id == id,
{
    let n = rows.len();
    let mut i: usize = 0;
    while i < n
        invariant
            0 <= i <= n,
            n == rows@.len(),
            forall|j: int| 0 <= j < i ==> rows@[j].id != id,
        decreases n - i,
    {
        if rows[i].id == id {
            return Some(i);
        }
        i += 1;
    }
    None
}

/// Whether `user` has a row for game `game_pk`.
pub fn pair_known(rows: &Vec<TicketRequest>, user: i64, game_pk: i64) -> (b: bool)
    ensures
        b == has_request_for(rows@, user, game_pk),
{
    let n = rows.len();
    let mut i: usize = 0;
    while i < n
        invariant
            0 <= i <= n,
            n == rows@.len(),
            forall|j: int| 0 <= j < i ==> !(rows@[j].user_id == user && rows@[j].game_pk == game_pk),
        decreases n - i,
    {
        if rows[i].user_id == user && rows[i].game_pk == game_pk {
            return true;
        }
        i += 1;
    }
    false
}

/// Records that `user` asks for `seats` seats to game `game_pk`, and returns
/// the place of the row.
pub fn ask_in(
    rows: &mut Vec<TicketRequest>,
    next: i64,
    user: i64,
    game_pk: i64,
    seats: i64,
    notes: Option<String>,
) -> (at: usize)
    ensures
        final(rows)@ == ask_rows(old(rows)@, next as int, user, game_pk, seats, notes),
        at < final(rows)@.len(),
        final(rows)@[at as int].user_id == user,
        final(rows)@[at as int].game_pk == game_pk,
        has_request_for(old(rows)@, user, game_pk) ==> at < old(rows)@.len() && old(rows)@[at as int].user_id
            == user && old(rows)@[at as int].game_pk == game_pk,
        !has_request_for(old(rows)@, user, game_pk) ==> at == old(rows)@.len(),
{
    let n = rows.len();
    let mut at: Option<usize> = None;
    let mut i: usize = 0;
    let ghost goal = old(rows)@.map_values(
        |r: TicketRequest|
            if r.user_id == user && r.game_pk == game_pk {
                asked_again(r, seats, notes)
            } else {
                r
            },
    );
    while i < n
        invariant
            0 <= i <= n,
            n == old(rows)@.len(),
            rows@.len() == n,
            forall|j: int|
                0 <= j < i ==> rows@[j] == (if old(rows)@[j].user_id == user && old(rows)@[j].game_pk
                    == game_pk {
                    asked_again(old(rows)@[j], seats, notes)
                } else {
                    old(rows)@[j]
                }),
            forall|j: int| i <= j < n ==> rows@[j] == old(rows)@[j],
            at is Some == has_request_for(old(rows)@.take(i as int), user, game_pk),
            at is Some ==> at->0 < i && old(rows)@[at->0 as int].user_id == user && old(
                rows,
            )@[at->0 as int].game_pk == game_pk,
        decreases n - i,
    {
        let ghost before = old(rows)@.take(i as int);
        let ghost after = old(rows)@.take(i as int + 1);
        assert(forall|j: int| 0 <= j < i ==> before[j] == after[j]);
        if rows[i].user_id == user && rows[i].game_pk == game_pk {
            let r = &mut rows[i];
            r.seats_requested = seats;
            r.notes = clone_opt_text(&notes);
            if r.status == RequestStatus::Withdrawn {
                r.status = RequestStatus::Pending;
            }
            at = Some(i);
            assert(after[i as int].user_id == user);
        }
        i += 1;
    }
    assert(old(rows)@.take(n as int) =~= old(rows)@);
    match at {
        Some(k) => {
            assert(rows@ =~= goal);
            k
        },
        None => {
            assert(rows@ =~= old(rows)@);
            rows.push(
                TicketRequest {
                    id: next,
                    user_id: user,
                    game_pk,
                    seats_requested: seats,
                    seats_approved: 0,
                    status: RequestStatus::Pending,
                    notes,
                },
            );
            n
        },
    }
}

/// Changes the count of request `id` if `user` owns it and it is pending.
pub fn resize_in(rows: &mut Vec<TicketRequest>, id: i64, user: i64, seats: i64) -> (ok: bool)
    ensures
        final(rows)@ == resize_rows(old(rows)@, id, user, seats),
        ok == some_request(old(rows)@, editable(id, user)),
{
    let n = rows.len();
    let mut ok = false;
    let mut i: usize = 0;
    while i < n
        invariant
            0 <= i <= n,
            n == old(rows)@.len(),
            rows@.len() == n,
            forall|j: int| 0 <= j < i ==> rows@[j] == resize_rows(old(rows)@, id, user, seats)[j],
            forall|j: int| i <= j < n ==> rows@[j] == old(rows)@[j],
            ok == some_request(old(rows)@.take(i as int), editable(id, user)),
        decreases n - i,
    {
        let ghost before = old(rows)@.take(i as int);
        let ghost after = old(rows)@.take(i as int + 1);
        assert(forall|j: int| 0 <= j < i ==> before[j] == after[j]);
        if rows[i].id == id && rows[i].user_id == user && rows[i].status == RequestStatus::Pending {
            let r = &mut rows[i];
            r.seats_requested = seats;
            ok = true;
            assert(editable(id, user)(after[i as int]));
        } else {
            assert(!editable(id, user)(after[i as int]));
        }
        i += 1;
    }
    assert(old(rows)@.take(n as int) =~= old(rows)@);
    assert(rows@ =~= resize_rows(old(rows)@, id, user, seats));
    ok
}

/// Withdraws request `id` if `user` owns it and it is pending.
pub fn withdraw_in(rows: &mut Vec<TicketRequest>, id: i64, user: i64) -> (ok: bool)
    ensures
        final(rows)@ == withdraw_rows(old(rows)@, id, user),
        ok == some_request(old(rows)@, editable(id, user)),
{
    let n = rows.len();
    let mut ok = false;
    let mut i: usize = 0;
    while i < n
        invariant
            0 <= i <= n,
            n == old(rows)@.len(),
            rows@.len() == n,
            forall|j: int| 0 <= j < i ==> rows@[j] == withdraw_rows(old(rows)@, id, user)[j],
            forall|j: int| i <= j < n ==> rows@[j] == old(rows)@[j],
            ok == some_request(old(rows)@.take(i as int), editable(id, user)),
        decreases n - i,
    {
        let ghost before = old(rows)@.take(i as int);
        let ghost after = old(rows)@.take(i as int + 1);
        assert(forall|j: int| 0 <= j < i ==> before[j] == after[j]);
        if rows[i].id == id && rows[i].user_id == user && rows[i].status == RequestStatus::Pending {
            let r = &mut rows[i];
            r.status = RequestStatus::Withdrawn;
            ok = true;
            assert(editable(id, user)(after[i as int]));
        } else {
            assert(!editable(id, user)(after[i as int]));
        }
        i += 1;
    }
    assert(old(rows)@.take(n as int) =~= old(rows)@);
    assert(rows@ =~= withdraw_rows(old(rows)@, id, user));
    ok
}

/// Approves `granted` more seats for request `id`.
pub fn approve_in(rows: &mut Vec<TicketRequest>, id: i64, granted: i64, status: RequestStatus) -> (ok:
    bool)
    requires
        0 <= granted,
        forall|i: int|
            0 <= i < old(rows)@.len() && (#[trigger] old(rows)@[i]).id == id ==> 0 <= old(
                rows,
            )@[i].seats_approved && old(rows)@[i].seats_approved + granted <= i64::MAX,
    ensures
        final(rows)@ == approve_rows(old(rows)@, id, granted as int, status),
        ok == has_request(old(rows)@, id),
{
    let n = rows.len();
    let mut ok = false;
    let mut i: usize = 0;
    while i < n
        invariant
            0 <= i <= n,
            n == old(rows)@.len(),
            rows@.len() == n,
            0 <= granted,
            forall|k: int|
                0 <= k < old(rows)@.len() && (#[trigger] old(rows)@[k]).id == id ==> 0 <= old(
                    rows,
                )@[k].seats_approved && old(rows)@[k].seats_approved + granted <= i64::MAX,
            forall|j: int|
                0 <= j < i ==> rows@[j] == approve_rows(old(rows)@, id, granted as int, status)[j],
            forall|j: int| i <= j < n ==> rows@[j] == old(rows)@[j],
            ok == has_request(old(rows)@.take(i as int), id),
        decreases n - i,
    {
        let ghost before = old(rows)@.take(i as int);
        let ghost after = old(rows)@.take(i as int + 1);
        assert(forall|j: int| 0 <= j < i ==> before[j] == after[j]);
        if rows[i].id == id {
            assert(old(rows)@[i as int].id == id);
            let r = &mut rows[i];
            r.seats_approved = r.seats_approved + granted;
            r.status = status;
            ok = true;
            assert(after[i as int].id == id);
        }
        i += 1;
    }
    assert(old(rows)@.take(n as int) =~= old(rows)@);
    assert(rows@ =~= approve_rows(old(rows)@, id, granted as int, status));
    ok
}

/// Asking for seats keeps the table in order.
pub proof fn lemma_ask_ok(
    rows: Seq<TicketRequest>,
    next: int,
    user: i64,
    game_pk: i64,
    seats: i64,
    notes: Option<String>,
)
    requires
        requests_ok(rows, next),
        seats_in_range(seats),
        1 <= next <= i64::MAX,
    ensures
        has_request_for(rows, user, game_pk) ==> requests_ok(
            ask_rows(rows, next, user, game_pk, seats, notes),
            next,
        ),
        !has_request_for(rows, user, game_pk) ==> requests_ok(
            ask_rows(rows, next, user, game_pk, seats, notes),
            next + 1,
        ),
        forall|i: int|
            0 <= i < rows.len() ==> (#[trigger] ask_rows(
                rows,
                next,
                user,
                game_pk,
                seats,
                notes,
            )[i]).game_pk == rows[i].game_pk,
{
    let after = ask_rows(rows, next, user, game_pk, seats, notes);
    if has_request_for(rows, user, game_pk) {
        assert forall|i: int| 0 <= i < after.len() implies 1 <= (#[trigger] after[i]).id < next
            && seats_in_range(after[i].seats_requested) && 0 <= after[i].seats_approved by {
            assert(after[i].id == rows[i].id);
        }
        assert forall|i: int, j: int| 0 <= i < j < after.len() implies (#[trigger] after[i]).id != (
        #[trigger] after[j]).id && !(after[i].user_id == after[j].user_id && after[i].game_pk
            == after[j].game_pk) by {
            assert(after[i].id == rows[i].id && after[j].id == rows[j].id);
        }
    } else {
        let n = rows.len() as int;
        assert forall|i: int| 0 <= i < after.len() implies 1 <= (#[trigger] after[i]).id < next + 1
            && seats_in_range(after[i].seats_requested) && 0 <= after[i].seats_approved by {
            if i < n {
                assert(after[i] == rows[i]);
            }
        }
        assert forall|i: int, j: int| 0 <= i < j < after.len() implies (#[trigger] after[i]).id != (
        #[trigger] after[j]).id && !(after[i].user_id == after[j].user_id && after[i].game_pk
            == after[j].game_pk) by {
            assert(after[i] == rows[i]);
            if j < n {
                assert(after[j] == rows[j]);
            }
        }
    }
}

/// A new count keeps the table in order.
pub proof fn lemma_resize_ok(rows: Seq<TicketRequest>, next: int, id: i64, user: i64, seats: i64)
    requires
        requests_ok(rows, next),
        seats_in_range(seats),
    ensures
        requests_ok(resize_rows(rows, id, user, seats), next),
        forall|i: int|
            0 <= i < rows.len() ==> (#[trigger] resize_rows(rows, id, user, seats)[i]).game_pk
                == rows[i].game_pk,
{
    let after = resize_rows(rows, id, user, seats);
    assert forall|i: int| 0 <= i < after.len() implies 1 <= (#[trigger] after[i]).id < next
        && seats_in_range(after[i].seats_requested) && 0 <= after[i].seats_approved by {
        assert(after[i].id == rows[i].id);
    }
    assert forall|i: int, j: int| 0 <= i < j < after.len() implies (#[trigger] after[i]).id != (
    #[trigger] after[j]).id && !(after[i].user_id == after[j].user_id && after[i].game_pk
        == after[j].game_pk) by {
        assert(after[i].id == rows[i].id && after[j].id == rows[j].id);
    }
}

/// A withdrawal keeps the table in order.
pub proof fn lemma_withdraw_ok(rows: Seq<TicketRequest>, next: int, id: i64, user: i64)
    requires
        requests_ok(rows, next),
    ensures
        requests_ok(withdraw_rows(rows, id, user), next),
        forall|i: int|
            0 <= i < rows.len() ==> (#[trigger] withdraw_rows(rows, id, user)[i]).game_pk
                == rows[i].game_pk,
{
    let after = withdraw_rows(rows, id, user);
    assert forall|i: int| 0 <= i < after.len() implies 1 <= (#[trigger] after[i]).id < next
        && seats_in_range(after[i].seats_requested) && 0 <= after[i].seats_approved by {
        assert(after[i].id == rows[i].id);
    }
    assert forall|i: int, j: int| 0 <= i < j < after.len() implies (#[trigger] after[i]).id != (
    #[trigger] after[j]).id && !(after[i].user_id == after[j].user_id && after[i].game_pk
        == after[j].game_pk) by {
        assert(after[i].id == rows[i].id && after[j].id == rows[j].id);
    }
}

/// An approval that fits its column keeps the table in order.
pub proof fn lemma_approve_ok(
    rows: Seq<TicketRequest>,
    next: int,
    id: i64,
    granted: int,
    status: RequestStatus,
)
    requires
        requests_ok(rows, next),
        0 <= granted,
        forall|i: int|
            0 <= i < rows.len() && (#[trigger] rows[i]).id == id ==> rows[i].seats_approved
                + granted <= i64::MAX,
    ensures
        requests_ok(approve_rows(rows, id, granted, status), next),
        forall|i: int|
            0 <= i < rows.len() ==> (#[trigger] approve_rows(rows, id, granted, status)[i]).game_pk
                == rows[i].game_pk,
{
    let after = approve_rows(rows, id, granted, status);
    assert forall|i: int| 0 <= i < after.len() implies 1 <= (#[trigger] after[i]).id < next
        && seats_in_range(after[i].seats_requested) && 0 <= after[i].seats_approved by {
        assert(after[i].id == rows[i].id);
    }
    assert forall|i: int, j: int| 0 <= i < j < after.len() implies (#[trigger] after[i]).id != (
    #[trigger] after[j]).id && !(after[i].user_id == after[j].user_id && after[i].game_pk
        == after[j].game_pk) by {
        assert(after[i].id == rows[i].id && after[j].id == rows[j].id);
    }
}

/// Whether the rows are in order.
pub fn check_requests(rows: &Vec<TicketRequest>, next: i64) -> (b: bool)
    ensures
        b == requests_ok(rows@, next as int),
{
    let n = rows.len();
    let mut ids: Vec<(i64, i64)> = Vec::new();
    let mut pairs: Vec<(i64, i64)> = Vec::new();
    let mut i: usize = 0;
    while i < n
        invariant
            0 <= i <= n,
            n == rows@.len(),
            ids@.len() == i,
            pairs@.len() == i,
            forall|j: int| 0 <= j < i ==> #[trigger] ids@[j] == (rows@[j].id, 0i64),
            forall|j: int| 0 <= j < i ==> #[trigger] pairs@[j] == (rows@[j].user_id, rows@[j].game_pk),
            forall|j: int|
                0 <= j < i ==> 1 <= (#[trigger] rows@[j]).id < next && seats_in_range(
                    rows@[j].seats_requested,
                ) && 0 <= rows@[j].seats_approved,
        decreases n - i,
    {
        let r = &rows[i];
        if r.id < 1 || r.id >= next || !seats_allowed(r.seats_requested) || r.seats_approved < 0 {
            assert(!(1 <= rows@[i as int].id < next && seats_in_range(rows@[i as int].seats_requested)
                && 0 <= rows@[i as int].seats_approved));
            return false;
        }
        ids.push((r.id, 0));
        pairs.push((r.user_id, r.game_pk));
        i += 1;
    }
    let unique_ids = all_distinct(&ids);
    let unique_pairs = all_distinct(&pairs);
    proof {
        if unique_ids {
            assert forall|a: int, b: int| 0 <= a < b < rows@.len() implies (#[trigger] rows@[a]).id != (
            #[trigger] rows@[b]).id by {
                assert(ids@[a] != ids@[b]);
            }
        } else {
            let (a, b) = choose|a: int, b: int|
                0 <= a < b < ids@.len() && #[trigger] ids@[a] == #[trigger] ids@[b];
            assert(rows@[a].id == rows@[b].id);
        }
        if unique_pairs {
            assert forall|a: int, b: int| 0 <= a < b < rows@.len() implies !((
            #[trigger] rows@[a]).user_id == (#[trigger] rows@[b]).user_id && rows@[a].game_pk
                == rows@[b].game_pk) by {
                assert(pairs@[a] != pairs@[b]);
            }
        } else {
            let (a, b) = choose|a: int, b: int|
                0 <= a < b < pairs@.len() && #[trigger] pairs@[a] == #[trigger] pairs@[b];
            assert(rows@[a].user_id == rows@[b].user_id && rows@[a].game_pk == rows@[b].game_pk);
        }
    }
    unique_ids && unique_pairs
}

} // verus!
