//! The requests that members make for seats to a game.

use vstd::prelude::*;
use crate::error::{EngineError, StorageError, ValidationError};
use crate::games::{find_game, has_game};
use crate::models::TicketRequest;
use crate::requests::{
    ask_in, ask_rows, editable, has_request_for, lemma_ask_ok, lemma_resize_ok,
    lemma_withdraw_ok, pair_known, resize_in, resize_rows, seats_allowed, seats_in_range,
    some_request, withdraw_in, withdraw_rows, REQUEST_ID_LIMIT,
};
use crate::store::{Store, StoreView};
use crate::text::clone_opt_text;

verus! {

/// Why `user` cannot ask for `seats` seats to game `game_pk`, if they cannot.
pub open spec fn request_refusal(v: StoreView, user: i64, game_pk: i64, seats: i64) -> Option<
    EngineError,
> {
    if !seats_in_range(seats) {
        Some(
            EngineError::Validation(
                ValidationError::SeatsRequested { game_pk, seats_requested: seats },
            ),
        )
    } else if !has_game(v.games, game_pk) {
        Some(EngineError::Validation(ValidationError::UnknownGame { game_pk }))
    } else if !has_request_for(v.requests, user, game_pk) && v.next_request_id >= REQUEST_ID_LIMIT {
        Some(EngineError::Storage(StorageError::IdsExhausted))
    } else {
        None
    }
}

/// The store after `user` asks for `seats` seats to game `game_pk`.
pub open spec fn after_request(
    v: StoreView,
    user: i64,
    game_pk: i64,
    seats: i64,
    notes: Option<String>,
) -> StoreView {
    StoreView {
        requests: ask_rows(v.requests, v.next_request_id, user, game_pk, seats, notes),
        next_request_id: if has_request_for(v.requests, user, game_pk) {
            v.next_request_id
        } else {
            v.next_request_id + 1
        },
        ..v
    }
}

/// Records that `user_id` asks for `seats_requested` seats to game `game_pk`.
///
/// A user has one row per game. Asking again rewrites that row with the new
/// count and notes, and makes it pending again if it had been withdrawn; what
/// was approved stays. A first request is pending with nothing approved.
/// Returns the row as it stands afterwards.
pub fn create_ticket_request(
    store: &mut Store,
    user_id: i64,
    game_pk: i64,
    seats_requested: i64,
    notes: Option<String>,
) -> (r: Result<TicketRequest, EngineError>)
    requires
        old(store).wf(),
    ensures
        final(store).wf(),
        match r {
            Ok(row) => {
                &&& request_refusal(old(store)@, user_id, game_pk, seats_requested) is None
                &&& final(store)@ == after_request(
                    old(store)@,
                    user_id,
                    game_pk,
                    seats_requested,
                    notes,
                )
                &&& final(store)@.requests.contains(row)
                &&& row.user_id == user_id
                &&& row.game_pk == game_pk
            },
            Err(e) => {
                &&& request_refusal(old(store)@, user_id, game_pk, seats_requested) == Some(e)
                &&& final(store)@ == old(store)@
            },
        },
{
    if !seats_allowed(seats_requested) {
        return Err(
            EngineError::Validation(ValidationError::SeatsRequested { game_pk, seats_requested }),
        );
    }
    if find_game(&store.games, game_pk).is_none() {
        return Err(EngineError::Validation(ValidationError::UnknownGame { game_pk }));
    }
    let known = pair_known(&store.requests, user_id, game_pk);
    if !known && store.next_request_id >= REQUEST_ID_LIMIT {
        return Err(EngineError::Storage(StorageError::IdsExhausted));
    }
    proof {
        let v = store@;
        lemma_ask_ok(v.requests, v.next_request_id, user_id, game_pk, seats_requested, notes);
        let after = ask_rows(v.requests, v.next_request_id, user_id, game_pk, seats_requested, notes);
        assert forall|i: int| 0 <= i < after.len() implies has_game(
            v.games,
            (#[trigger] after[i]).game_pk,
        ) by {
            if i < v.requests.len() {
                assert(after[i].game_pk == v.requests[i].game_pk);
            }
        }
    }
    let at = ask_in(&mut store.requests, store.next_request_id, user_id, game_pk, seats_requested, notes);
    if !known {
        store.next_request_id = store.next_request_id + 1;
    }
    let row = store.requests[at].clone();
    assert(store.requests@[at as int] == row);
    Ok(row)
}

/// What becomes of a change of count: a refusal where the count is out of
/// range, else whether the request is the user's and pending.
pub open spec fn resize_outcome(v: StoreView, request_id: i64, user: i64, seats: i64) -> Result<
    bool,
    EngineError,
> {
    if !seats_in_range(seats) {
        Err(EngineError::Validation(ValidationError::SeatCount { seats_requested: seats }))
    } else {
        Ok(some_request(v.requests, editable(request_id, user)))
    }
}

/// Changes how many seats request `request_id` asks for, if `user_id` owns the
/// request and it is pending.
pub fn update_ticket_request(store: &mut Store, request_id: i64, user_id: i64, seats_requested: i64) -> (r:
    Result<bool, EngineError>)
    requires
        old(store).wf(),
    ensures
        final(store).wf(),
        r == resize_outcome(old(store)@, request_id, user_id, seats_requested),
        r is Ok ==> final(store)@ == (StoreView {
            requests: resize_rows(old(store)@.requests, request_id, user_id, seats_requested),
            ..old(store)@
        }),
        r != Ok::<bool, EngineError>(true) ==> final(store)@ == old(store)@,
{
    if !seats_allowed(seats_requested) {
        return Err(EngineError::Validation(ValidationError::SeatCount { seats_requested }));
    }
    proof {
        let v = store@;
        lemma_resize_ok(v.requests, v.next_request_id, request_id, user_id, seats_requested);
        lemma_resize_idle(v.requests, request_id, user_id, seats_requested);
    }
    let ok = resize_in(&mut store.requests, request_id, user_id, seats_requested);
    Ok(ok)
}

/// Withdraws request `request_id`, if `user_id` owns it and it is pending.
///
/// What was approved for the request, and the tickets assigned on its account,
/// stay as they are.
pub fn withdraw_ticket_request(store: &mut Store, request_id: i64, user_id: i64) -> (ok: bool)
    requires
        old(store).wf(),
    ensures
        final(store).wf(),
        ok == some_request(old(store)@.requests, editable(request_id, user_id)),
        final(store)@ == (StoreView {
            requests: withdraw_rows(old(store)@.requests, request_id, user_id),
            ..old(store)@
        }),
        !ok ==> final(store)@ == old(store)@,
{
    proof {
        let v = store@;
        lemma_withdraw_ok(v.requests, v.next_request_id, request_id, user_id);
        lemma_withdraw_idle(v.requests, request_id, user_id);
    }
    withdraw_in(&mut store.requests, request_id, user_id)
}

/// Where the user has no pending request under the id, a change of count
/// changes nothing.
pub proof fn lemma_resize_idle(rows: Seq<TicketRequest>, id: i64, user: i64, seats: i64)
    ensures
        !some_request(rows, editable(id, user)) ==> resize_rows(rows, id, user, seats) == rows,
{
    if !some_request(rows, editable(id, user)) {
        assert forall|i: int| 0 <= i < rows.len() implies resize_rows(rows, id, user, seats)[i]
            == rows[i] by {
            assert(!editable(id, user)(rows[i]));
        }
        assert(resize_rows(rows, id, user, seats) =~= rows);
    }
}

/// Where the user has no pending request under the id, a withdrawal changes
/// nothing.
pub proof fn lemma_withdraw_idle(rows: Seq<TicketRequest>, id: i64, user: i64)
    ensures
        !some_request(rows, editable(id, user)) ==> withdraw_rows(rows, id, user) == rows,
{
    if !some_request(rows, editable(id, user)) {
        assert forall|i: int| 0 <= i < rows.len() implies withdraw_rows(rows, id, user)[i]
            == rows[i] by {
            assert(!editable(id, user)(rows[i]));
        }
        assert(withdraw_rows(rows, id, user) =~= rows);
    }
}

/// One line of a batch of requests.
pub struct RequestEntry {
    pub game_pk: i64,
    pub seats_requested: i64,
    pub notes: Option<String>,
}

/// Whether every line asks for a number of seats in range.
pub open spec fn counts_in_range(entries: Seq<RequestEntry>) -> bool {
    forall|k: int| 0 <= k < entries.len() ==> seats_in_range((#[trigger] entries[k]).seats_requested)
}

/// Whether every line names a known game.
pub open spec fn games_known(v: StoreView, entries: Seq<RequestEntry>) -> bool {
    forall|k: int| 0 <= k < entries.len() ==> has_game(v.games, (#[trigger] entries[k]).game_pk)
}

/// Whether `e` is the refusal that a batch of requests is owed: that of its
/// first line out of range; if there is none, that of its first line with an
/// unknown game; if there is none either, that of a store without ids for as
/// many new requests as the batch has lines.
pub open spec fn is_batch_refusal(v: StoreView, entries: Seq<RequestEntry>, e: EngineError) -> bool {
    ||| exists|k: int|
        {
            &&& 0 <= k < entries.len()
            &&& !seats_in_range((#[trigger] entries[k]).seats_requested)
            &&& counts_in_range(entries.take(k))
            &&& e == EngineError::Validation(
                ValidationError::SeatsRequested {
                    game_pk: entries[k].game_pk,
                    seats_requested: entries[k].seats_requested,
                },
            )
        }
    ||| {
        &&& counts_in_range(entries)
        &&& exists|k: int|
            {
                &&& 0 <= k < entries.len()
                &&& !has_game(v.games, (#[trigger] entries[k]).game_pk)
                &&& games_known(v, entries.take(k))
                &&& e == EngineError::Validation(
                    ValidationError::UnknownGame { game_pk: entries[k].game_pk },
                )
            }
    }
    ||| {
        &&& counts_in_range(entries)
        &&& games_known(v, entries)
        &&& v.next_request_id + entries.len() > REQUEST_ID_LIMIT
        &&& e == EngineError::Storage(StorageError::IdsExhausted)
    }
}

/// Whether a batch of requests is accepted.
pub open spec fn batch_accepted(v: StoreView, entries: Seq<RequestEntry>) -> bool {
    &&& counts_in_range(entries)
    &&& games_known(v, entries)
    &&& v.next_request_id + entries.len() <= REQUEST_ID_LIMIT
}

/// The store after `user` made each request of a batch in turn.
pub open spec fn after_requests(v: StoreView, user: i64, entries: Seq<RequestEntry>) -> StoreView
    decreases entries.len(),
{
    if entries.len() == 0 {
        v
    } else {
        after_request(
            after_requests(v, user, entries.drop_last()),
            user,
            entries.last().game_pk,
            entries.last().seats_requested,
            entries.last().notes,
        )
    }
}

/// Records a batch of requests of one user.
///
/// Every line is checked before anything changes: the first line that asks for
/// fewer than one or more than four seats refuses the whole batch, and the
/// refusal names its game. Returns, for each line, the row as it stood after
/// that line.
pub fn create_ticket_requests(store: &mut Store, user_id: i64, entries: &Vec<RequestEntry>) -> (r:
    Result<Vec<TicketRequest>, EngineError>)
    requires
        old(store).wf(),
    ensures
        final(store).wf(),
        match r {
            Ok(rows) => {
                &&& batch_accepted(old(store)@, entries@)
                &&& final(store)@ == after_requests(old(store)@, user_id, entries@)
                &&& rows@.len() == entries@.len()
                &&& forall|k: int|
                    0 <= k < rows@.len() ==> {
                        &&& after_requests(
                            old(store)@,
                            user_id,
                            entries@.take(k + 1),
                        ).requests.contains(#[trigger] rows@[k])
                        &&& rows@[k].user_id == user_id
                        &&& rows@[k].game_pk == entries@[k].game_pk
                    }
            },
            Err(e) => {
                &&& is_batch_refusal(old(store)@, entries@, e)
                &&& final(store)@ == old(store)@
            },
        },
{
    let n = entries.len();
    let mut k: usize = 0;
    while k < n
        invariant
            0 <= k <= n,
            n == entries@.len(),
            store@ == old(store)@,
            store.wf(),
            counts_in_range(entries@.take(k as int)),
        decreases n - k,
    {
        if !seats_allowed(entries[k].seats_requested) {
            return Err(
                EngineError::Validation(
                    ValidationError::SeatsRequested {
                        game_pk: entries[k].game_pk,
                        seats_requested: entries[k].seats_requested,
                    },
                ),
            );
        }
        assert forall|j: int| 0 <= j < k + 1 implies seats_in_range(
            (#[trigger] entries@.take(k as int + 1)[j]).seats_requested,
        ) by {
            if j < k {
                assert(entries@.take(k as int)[j] == entries@[j]);
            }
        }
        k += 1;
    }
    assert(entries@.take(n as int) =~= entries@);
    k = 0;
    while k < n
        invariant
            0 <= k <= n,
            n == entries@.len(),
            store@ == old(store)@,
            store.wf(),
            counts_in_range(entries@),
            games_known(store@, entries@.take(k as int)),
        decreases n - k,
    {
        if find_game(&store.games, entries[k].game_pk).is_none() {
            return Err(
                EngineError::Validation(ValidationError::UnknownGame { game_pk: entries[k].game_pk }),
            );
        }
        assert forall|j: int| 0 <= j < k + 1 implies has_game(
            store@.games,
            (#[trigger] entries@.take(k as int + 1)[j]).game_pk,
        ) by {
            if j < k {
                assert(entries@.take(k as int)[j] == entries@[j]);
            }
        }
        k += 1;
    }
    assert(entries@.take(n as int) =~= entries@);
    if n as u64 > (REQUEST_ID_LIMIT - store.next_request_id) as u64 {
        return Err(EngineError::Storage(StorageError::IdsExhausted));
    }
    let ghost v0 = store@;
    let mut rows: Vec<TicketRequest> = Vec::new();
    k = 0;
    while k < n
        invariant
            0 <= k <= n,
            n == entries@.len(),
            v0 == old(store)@,
            batch_accepted(v0, entries@),
            store.wf(),
            store@ == after_requests(v0, user_id, entries@.take(k as int)),
            store@.games == v0.games,
            v0.next_request_id <= store@.next_request_id <= v0.next_request_id + k,
            rows@.len() == k,
            forall|j: int|
                0 <= j < rows@.len() ==> {
                    &&& after_requests(v0, user_id, entries@.take(j + 1)).requests.contains(
                        #[trigger] rows@[j],
                    )
                    &&& rows@[j].user_id == user_id
                    &&& rows@[j].game_pk == entries@[j].game_pk
                },
        decreases n - k,
    {
        assert(entries@.take(k as int + 1).drop_last() =~= entries@.take(k as int));
        assert(entries@.take(k as int + 1).last() == entries@[k as int]);
        let notes = clone_opt_text(&entries[k].notes);
        match create_ticket_request(
            store,
            user_id,
            entries[k].game_pk,
            entries[k].seats_requested,
            notes,
        ) {
            Ok(row) => {
                rows.push(row);
            },
            Err(e) => {
                assert(false);
                return Err(e);
            },
        }
        k += 1;
    }
    Ok(rows)
}

} // verus!
