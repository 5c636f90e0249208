//! Binding tickets to users and taking them back.
//!
//! Each transition is one conditional rewrite of the ticket table: it applies
//! to a row only while the row is in the state the transition starts from, so
//! a second attempt on the same ticket finds nothing to do.

use std::collections::HashMap;
use vstd::prelude::*;
use vstd::std_specs::hash::*;
use crate::error::{EngineError, StorageError, ValidationError};
use crate::games::has_game;
use crate::models::{GameTicket, RequestStatus, TicketRequest};
use crate::requests::{
    approve_in, approve_rows, approved_more, find_request, has_request, lemma_approve_ok,
    requests_ok,
};
use crate::seqs::lemma_take_all;
use crate::store::{Store, StoreView};
use crate::tickets::{
    assign_in, assign_rows, held_by, lemma_assign_ok, lemma_release_ok, lemma_revoke_ok,
    open_with_id, release_in, release_rows, revoke_in, revoke_rows, some_ticket, taken_with_id,
    tickets_ok,
};

verus! {

/// Gives ticket `game_ticket_id` to `user_id` if the ticket is available.
///
/// Returns whether it was; if not, nothing changes.
pub fn assign_ticket(store: &mut Store, game_ticket_id: i64, user_id: i64) -> (ok: bool)
    requires
        old(store).wf(),
    ensures
        final(store).wf(),
        ok == some_ticket(old(store)@.tickets, open_with_id(game_ticket_id)),
        final(store)@ == (StoreView {
            tickets: assign_rows(old(store)@.tickets, game_ticket_id, user_id),
            ..old(store)@
        }),
        !ok ==> final(store)@ == old(store)@,
{
    proof {
        lemma_assign_ok(store@.tickets, store@.next_ticket_id, game_ticket_id, user_id);
        lemma_assign_idle(store@.tickets, game_ticket_id, user_id);
    }
    let ok = assign_in(&mut store.tickets, game_ticket_id, user_id);
    assert forall|i: int| 0 <= i < store.tickets@.len() implies (#[trigger] store.tickets@[i]).seat_id
        == old(store)@.tickets[i].seat_id && store.tickets@[i].game_pk == old(
        store,
    )@.tickets[i].game_pk by {}
    ok
}

/// Takes ticket `game_ticket_id` back from its holder if it is assigned.
///
/// Returns whether it was; if not, nothing changes.
pub fn revoke_ticket(store: &mut Store, game_ticket_id: i64) -> (ok: bool)
    requires
        old(store).wf(),
    ensures
        final(store).wf(),
        ok == some_ticket(old(store)@.tickets, taken_with_id(game_ticket_id)),
        final(store)@ == (StoreView {
            tickets: revoke_rows(old(store)@.tickets, game_ticket_id),
            ..old(store)@
        }),
        !ok ==> final(store)@ == old(store)@,
{
    proof {
        lemma_revoke_ok(store@.tickets, store@.next_ticket_id, game_ticket_id);
        lemma_revoke_idle(store@.tickets, game_ticket_id);
    }
    let ok = revoke_in(&mut store.tickets, game_ticket_id);
    assert forall|i: int| 0 <= i < store.tickets@.len() implies (#[trigger] store.tickets@[i]).seat_id
        == old(store)@.tickets[i].seat_id && store.tickets@[i].game_pk == old(
        store,
    )@.tickets[i].game_pk by {}
    ok
}

/// Gives back every ticket of game `game_pk` that `user_id` holds.
///
/// Returns how many there were.
pub fn release_tickets_for_game(store: &mut Store, game_pk: i64, user_id: i64) -> (count: u64)
    requires
        old(store).wf(),
    ensures
        final(store).wf(),
        count == old(store)@.tickets.filter(held_by(game_pk, user_id)).len(),
        final(store)@ == (StoreView {
            tickets: release_rows(old(store)@.tickets, game_pk, user_id),
            ..old(store)@
        }),
{
    proof {
        lemma_release_ok(store@.tickets, store@.next_ticket_id, game_pk, user_id);
    }
    let count = release_in(&mut store.tickets, game_pk, user_id);
    assert forall|i: int| 0 <= i < store.tickets@.len() implies (#[trigger] store.tickets@[i]).seat_id
        == old(store)@.tickets[i].seat_id && store.tickets@[i].game_pk == old(
        store,
    )@.tickets[i].game_pk by {}
    count
}

/// Where no row is available under the id, assigning changes nothing.
pub proof fn lemma_assign_idle(rows: Seq<GameTicket>, id: i64, user: i64)
    ensures
        !some_ticket(rows, open_with_id(id)) ==> assign_rows(rows, id, user) == rows,
{
    if !some_ticket(rows, open_with_id(id)) {
        assert forall|i: int| 0 <= i < rows.len() implies assign_rows(rows, id, user)[i]
            == rows[i] by {
            assert(!open_with_id(id)(rows[i]));
        }
        assert(assign_rows(rows, id, user) =~= rows);
    }
}

/// Where no row is assigned under the id, revoking changes nothing.
pub proof fn lemma_revoke_idle(rows: Seq<GameTicket>, id: i64)
    ensures
        !some_ticket(rows, taken_with_id(id)) ==> revoke_rows(rows, id) == rows,
{
    if !some_ticket(rows, taken_with_id(id)) {
        assert forall|i: int| 0 <= i < rows.len() implies revoke_rows(rows, id)[i] == rows[i] by {
            assert(!taken_with_id(id)(rows[i]));
        }
        assert(revoke_rows(rows, id) =~= rows);
    }
}

/// What becomes of an approval: a refusal where it is negative or would
/// overflow the count, else whether the request exists.
pub open spec fn approval_outcome(v: StoreView, request_id: i64, granted: i64) -> Result<
    bool,
    EngineError,
> {
    if granted < 0 {
        Err(EngineError::Validation(ValidationError::NegativeApproval { request_id }))
    } else if exists|i: int|
        0 <= i < v.requests.len() && (#[trigger] v.requests[i]).id == request_id
            && v.requests[i].seats_approved + granted > i64::MAX {
        Err(EngineError::Storage(StorageError::CounterOverflow))
    } else {
        Ok(has_request(v.requests, request_id))
    }
}

/// Approves `seats_approved` more seats for request `request_id` and sets its
/// status.
///
/// The count of a request only grows: what is approved is added to what was
/// approved before. Returns whether the request exists.
pub fn update_request_approval(
    store: &mut Store,
    request_id: i64,
    seats_approved: i64,
    status: RequestStatus,
) -> (r: Result<bool, EngineError>)
    requires
        old(store).wf(),
    ensures
        final(store).wf(),
        r == approval_outcome(old(store)@, request_id, seats_approved),
        r is Ok ==> final(store)@ == (StoreView {
            requests: approve_rows(old(store)@.requests, request_id, seats_approved as int, status),
            ..old(store)@
        }),
        r is Err ==> final(store)@ == old(store)@,
{
    if seats_approved < 0 {
        return Err(EngineError::Validation(ValidationError::NegativeApproval { request_id }));
    }
    let ghost v = store@;
    match find_request(&store.requests, request_id) {
        None => {
            proof {
                assert forall|i: int| 0 <= i < v.requests.len() implies approve_rows(
                    v.requests,
                    request_id,
                    seats_approved as int,
                    status,
                )[i] == v.requests[i] by {
                    assert(v.requests[i].id != request_id);
                }
                assert(approve_rows(v.requests, request_id, seats_approved as int, status)
                    =~= v.requests);
            }
            Ok(false)
        },
        Some(at) => {
            proof {
                assert forall|i: int|
                    0 <= i < v.requests.len() && (#[trigger] v.requests[i]).id
                        == request_id implies i == at by {
                    if i < at as int {
                        assert(v.requests[i].id != v.requests[at as int].id);
                    } else if i > at as int {
                        assert(v.requests[at as int].id != v.requests[i].id);
                    }
                }
            }
            if store.requests[at].seats_approved > i64::MAX - seats_approved {
                return Err(EngineError::Storage(StorageError::CounterOverflow));
            }
            proof {
                lemma_approve_ok(
                    v.requests,
                    v.next_request_id,
                    request_id,
                    seats_approved as int,
                    status,
                );
                let after = approve_rows(v.requests, request_id, seats_approved as int, status);
                assert forall|i: int| 0 <= i < after.len() implies has_game(
                    v.games,
                    (#[trigger] after[i]).game_pk,
                ) by {
                    assert(after[i].game_pk == v.requests[i].game_pk);
                }
            }
            let ok = approve_in(&mut store.requests, request_id, seats_approved, status);
            Ok(ok)
        },
    }
}

/// One line of a batch: the ticket to give, the user to give it to, and the
/// request that it answers, if any.
#[derive(Clone, Copy, Debug)]
pub struct Assignment {
    pub game_ticket_id: i64,
    pub user_id: i64,
    pub request_id: Option<i64>,
}

/// The tickets after each line of a batch was tried in turn.
pub open spec fn tickets_after(rows: Seq<GameTicket>, batch: Seq<Assignment>) -> Seq<GameTicket>
    decreases batch.len(),
{
    if batch.len() == 0 {
        rows
    } else {
        assign_rows(
            tickets_after(rows, batch.drop_last()),
            batch.last().game_ticket_id,
            batch.last().user_id,
        )
    }
}

/// For each line of a batch that found its ticket available, in order, the
/// request that the line names.
pub open spec fn grants(rows: Seq<GameTicket>, batch: Seq<Assignment>) -> Seq<Option<i64>>
    decreases batch.len(),
{
    if batch.len() == 0 {
        Seq::empty()
    } else {
        let before = grants(rows, batch.drop_last());
        if some_ticket(
            tickets_after(rows, batch.drop_last()),
            open_with_id(batch.last().game_ticket_id),
        ) {
            before.push(batch.last().request_id)
        } else {
            before
        }
    }
}

/// The grants that name request `id`.
pub open spec fn carries(id: i64) -> spec_fn(Option<i64>) -> bool {
    |g: Option<i64>| g == Some(id)
}

/// How many grants name request `id`.
pub open spec fn granted_to(grants: Seq<Option<i64>>, id: i64) -> nat {
    grants.filter(carries(id)).len()
}

/// The requests after every grant was credited to the request it names: such
/// a request has that many more seats approved, and is approved.
pub open spec fn credit_rows(requests: Seq<TicketRequest>, grants: Seq<Option<i64>>) -> Seq<
    TicketRequest,
> {
    requests.map_values(
        |r: TicketRequest|
            if granted_to(grants, r.id) > 0 {
                approved_more(r, granted_to(grants, r.id) as int, RequestStatus::Approved)
            } else {
                r
            },
    )
}

/// Whether every request has room for the seats that the grants credit to
/// it.
pub open spec fn credit_fits(requests: Seq<TicketRequest>, grants: Seq<Option<i64>>) -> bool {
    forall|i: int|
        0 <= i < requests.len() ==> (#[trigger] requests[i]).seats_approved + granted_to(
            grants,
            requests[i].id,
        ) <= i64::MAX
}

/// How many seats a tally holds for request `id`.
pub open spec fn tallied(tally: Map<i64, usize>, id: i64) -> nat {
    if tally.contains_key(id) {
        tally[id] as nat
    } else {
        0
    }
}

/// Whether a tally holds, for every request, how many grants name it.
pub open spec fn tallies(tally: Map<i64, usize>, grants: Seq<Option<i64>>) -> bool {
    forall|id: i64| tallied(tally, id) == #[trigger] granted_to(grants, id)
}

/// One more grant counts for the request it names, and for no other.
pub proof fn lemma_granted_more(grants: Seq<Option<i64>>, grant: Option<i64>, id: i64)
    ensures
        granted_to(grants.push(grant), id) == granted_to(grants, id) + (if grant == Some(id) {
            1nat
        } else {
            0nat
        }),
        granted_to(grants, id) <= grants.len(),
{
    grants.lemma_filter_push(grant, carries(id));
    grants.lemma_filter_len(carries(id));
}

/// How many seats a tally holds for request `id`.
fn credited(tally: &HashMap<i64, usize>, id: i64) -> (count: usize)
    ensures
        count == tallied(tally@, id),
{
    broadcast use group_hash_axioms;

    match tally.get(&id) {
        Some(count) => *count,
        None => 0,
    }
}

/// Whether every request has room for the seats that a tally credits to it.
fn room_for(requests: &Vec<TicketRequest>, tally: &HashMap<i64, usize>, Ghost(granted): Ghost<
    Seq<Option<i64>>,
>) -> (b: bool)
    requires
        forall|i: int| 0 <= i < requests@.len() ==> 0 <= (#[trigger] requests@[i]).seats_approved,
        tallies(tally@, granted),
    ensures
        b == credit_fits(requests@, granted),
{
    let n = requests.len();
    let mut i: usize = 0;
    while i < n
        invariant
            0 <= i <= n,
            n == requests@.len(),
            tallies(tally@, granted),
            forall|j: int| 0 <= j < requests@.len() ==> 0 <= (#[trigger] requests@[j]).seats_approved,
            forall|j: int|
                0 <= j < i ==> (#[trigger] requests@[j]).seats_approved + granted_to(
                    granted,
                    requests@[j].id,
                ) <= i64::MAX,
        decreases n - i,
    {
        let credited = credited(tally, requests[i].id);
        if requests[i].seats_approved as u128 + credited as u128 > i64::MAX as u128 {
            return false;
        }
        i += 1;
    }
    true
}

/// Copies of the tickets, in their order.
fn copy_tickets(rows: &Vec<GameTicket>) -> (copies: Vec<GameTicket>)
    ensures
        copies@ == rows@,
{
    let n = rows.len();
    let mut copies: Vec<GameTicket> = Vec::new();
    let mut i: usize = 0;
    while i < n
        invariant
            0 <= i <= n,
            n == rows@.len(),
            copies@ == rows@.take(i as int),
        decreases n - i,
    {
        copies.push(rows[i].clone());
        assert(copies@ =~= rows@.take(i as int + 1));
        i += 1;
    }
    proof {
        lemma_take_all(rows@);
    }
    copies
}

/// Tries each line of a batch in turn, and credits the requests.
///
/// A line whose ticket is not available is passed over. Each line that
/// succeeds and names a request adds one approved seat to that request, and
/// the request becomes approved. Returns how many lines succeeded. The batch
/// is refused, and nothing changes, only if a request that it credits would
/// be left with more approved seats than its count can hold.
pub fn batch_assign(store: &mut Store, assignments: &Vec<Assignment>) -> (r: Result<u64, EngineError>)
    requires
        old(store).wf(),
    ensures
        final(store).wf(),
        ({
            let granted = grants(old(store)@.tickets, assignments@);
            match r {
                Ok(count) => {
                    &&& credit_fits(old(store)@.requests, granted)
                    &&& count == granted.len()
                    &&& final(store)@ == (StoreView {
                        tickets: tickets_after(old(store)@.tickets, assignments@),
                        requests: credit_rows(old(store)@.requests, granted),
                        ..old(store)@
                    })
                },
                Err(e) => {
                    &&& !credit_fits(old(store)@.requests, granted)
                    &&& e == EngineError::Storage(StorageError::CounterOverflow)
                    &&& final(store)@ == old(store)@
                },
            }
        }),
{
    let n = assignments.len();
    let ghost v0 = store@;
    let ghost batch = assignments@;
    let mut work = copy_tickets(&store.tickets);
    let mut tally: HashMap<i64, usize> = HashMap::new();
    let ghost mut granted: Seq<Option<i64>> = Seq::empty();
    let mut count: usize = 0;
    let mut k: usize = 0;
    proof {
        assert forall|id: i64| tallied(tally@, id) == #[trigger] granted_to(granted, id) by {
            granted.lemma_filter_len(carries(id));
        }
    }
    while k < n
        invariant
            0 <= k <= n,
            n == batch.len(),
            batch == assignments@,
            v0.valid(),
            store@ == v0,
            work@ == tickets_after(v0.tickets, batch.take(k as int)),
            granted == grants(v0.tickets, batch.take(k as int)),
            count == granted.len(),
            count <= k,
            tallies(tally@, granted),
            tickets_ok(work@, v0.next_ticket_id),
            work@.len() == v0.tickets.len(),
            forall|i: int|
                0 <= i < v0.tickets.len() ==> (#[trigger] work@[i]).seat_id == v0.tickets[i].seat_id
                    && work@[i].game_pk == v0.tickets[i].game_pk,
        decreases n - k,
    {
        broadcast use group_hash_axioms;

        proof {
            assert(batch.take(k as int + 1).drop_last() =~= batch.take(k as int));
            lemma_assign_ok(
                work@,
                v0.next_ticket_id,
                batch[k as int].game_ticket_id,
                batch[k as int].user_id,
            );
        }
        let ghost before = work@;
        let a = assignments[k];
        let ok = assign_in(&mut work, a.game_ticket_id, a.user_id);
        if ok {
            let ghost old_granted = granted;
            let ghost old_tally = tally@;
            if let Some(request_id) = a.request_id {
                let so_far = credited(&tally, request_id);
                proof {
                    lemma_granted_more(old_granted, a.request_id, request_id);
                }
                tally.insert(request_id, so_far + 1);
            }
            count += 1;
            proof {
                granted = granted.push(a.request_id);
                assert forall|id: i64| tallied(tally@, id) == #[trigger] granted_to(granted, id) by {
                    lemma_granted_more(old_granted, a.request_id, id);
                    assert(tallied(old_tally, id) == granted_to(old_granted, id));
                }
            }
        }
        assert forall|i: int| 0 <= i < v0.tickets.len() implies (#[trigger] work@[i]).seat_id
            == v0.tickets[i].seat_id && work@[i].game_pk == v0.tickets[i].game_pk by {
            assert(work@[i].seat_id == before[i].seat_id);
        }
        k += 1;
    }
    proof {
        lemma_take_all(batch);
    }
    if !room_for(&store.requests, &tally, Ghost(granted)) {
        return Err(EngineError::Storage(StorageError::CounterOverflow));
    }
    store.tickets = work;
    let m = store.requests.len();
    let ghost goal = credit_rows(v0.requests, granted);
    let mut i: usize = 0;
    while i < m
        invariant
            0 <= i <= m,
            m == v0.requests.len(),
            v0.valid(),
            credit_fits(v0.requests, granted),
            tallies(tally@, granted),
            goal == credit_rows(v0.requests, granted),
            store@ == (StoreView { tickets: store@.tickets, requests: store@.requests, ..v0 }),
            store@.tickets == tickets_after(v0.tickets, batch),
            store@.requests.len() == m,
            forall|j: int| 0 <= j < i ==> store@.requests[j] == goal[j],
            forall|j: int| i <= j < m ==> store@.requests[j] == v0.requests[j],
        decreases m - i,
    {
        let c = credited(&tally, store.requests[i].id);
        assert(store@.requests[i as int] == v0.requests[i as int]);
        assert(0 <= v0.requests[i as int].seats_approved);
        assert(v0.requests[i as int].seats_approved + granted_to(
            granted,
            v0.requests[i as int].id,
        ) <= i64::MAX);
        if c > 0 {
            let row = &mut store.requests[i];
            row.seats_approved = row.seats_approved + c as i64;
            row.status = RequestStatus::Approved;
        }
        i += 1;
    }
    proof {
        assert(store@.requests =~= goal);
        assert forall|j: int| 0 <= j < goal.len() implies (#[trigger] goal[j]).id == v0.requests[j].id
            && goal[j].user_id == v0.requests[j].user_id && goal[j].game_pk == v0.requests[j].game_pk
            && goal[j].seats_requested == v0.requests[j].seats_requested && 0
            <= goal[j].seats_approved by {
            assert(v0.requests[j].seats_approved + granted_to(granted, v0.requests[j].id)
                <= i64::MAX);
        }
        assert(requests_ok(goal, v0.next_request_id));
    }
    Ok(count as u64)
}

} // verus!
