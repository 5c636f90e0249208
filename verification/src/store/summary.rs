//! What an administrator sees of the allocation: counts per game, and one game
//! in detail.

use vstd::prelude::*;
use crate::games::{find_game, has_game};
use crate::models::{
    Game, GameTicket, GameTicketDetail, RequestStatus, TicketRequest, TicketStatus, User,
};
use crate::requests::{requests_ok, seats_in_range, REQUEST_ID_LIMIT};
use crate::seqs::{lemma_filter_next, lemma_filter_none, lemma_take_all};
use crate::sorting::{is_listing, key_of_text, keys_of, sort_rows, Key, SortKey};
use crate::store::reports::{
    details, game_key, game_keys, label_keys, list_requests_for_game, list_tickets_for_game,
    RequestFilter,
};
use crate::store::{Store, StoreView};
use crate::tickets::{of_game, some_ticket};
use crate::users::{index_users, indexes, name_of, user_name};

verus! {

/// The assigned tickets of game `game_pk`.
pub open spec fn taken_at(game_pk: i64) -> spec_fn(GameTicket) -> bool {
    |t: GameTicket| t.game_pk == game_pk && t.status == TicketStatus::Assigned
}

/// The available tickets of game `game_pk`.
pub open spec fn open_at(game_pk: i64) -> spec_fn(GameTicket) -> bool {
    |t: GameTicket| t.game_pk == game_pk && t.status == TicketStatus::Available
}

/// The pending requests for game `game_pk`.
pub open spec fn pending_for(game_pk: i64) -> spec_fn(TicketRequest) -> bool {
    |r: TicketRequest| r.game_pk == game_pk && r.status == RequestStatus::Pending
}

/// The seats that requests ask for, added up.
pub open spec fn seats_asked(rows: Seq<TicketRequest>) -> int
    decreases rows.len(),
{
    if rows.len() == 0 {
        0
    } else {
        seats_asked(rows.drop_last()) + rows.last().seats_requested
    }
}

/// The home games that have a ticket.
pub open spec fn allocated(tickets: Seq<GameTicket>) -> spec_fn(Game) -> bool {
    |g: Game| g.is_home() && some_ticket(tickets, of_game(g.game_pk))
}

/// The counts of one game.
#[derive(Debug)]
pub struct AllocationSummaryRow {
    pub game_pk: i64,
    pub official_date: String,
    pub away_team_name: String,
    /// The tickets of the game.
    pub total_seats: i64,
    /// Those that are assigned.
    pub assigned: i64,
    /// Those that are available.
    pub available: i64,
    /// The seats that the pending requests for the game ask for.
    pub total_requested: i64,
    /// Whether more seats are asked for than tickets are available.
    pub oversubscribed: bool,
}

/// The counts of game `g`.
pub open spec fn summary_row(v: StoreView, g: Game) -> AllocationSummaryRow {
    let total = v.tickets.filter(of_game(g.game_pk)).len();
    let assigned = v.tickets.filter(taken_at(g.game_pk)).len();
    let available = v.tickets.filter(open_at(g.game_pk)).len();
    let asked = seats_asked(v.requests.filter(pending_for(g.game_pk)));
    AllocationSummaryRow {
        game_pk: g.game_pk,
        official_date: g.official_date,
        away_team_name: g.away_team_name,
        total_seats: total as i64,
        assigned: assigned as i64,
        available: available as i64,
        total_requested: asked as i64,
        oversubscribed: asked > available,
    }
}

/// The counts of every home game that has a ticket, in the order of the game
/// table.
pub open spec fn summary_rows(v: StoreView) -> Seq<AllocationSummaryRow> {
    v.games.filter(allocated(v.tickets)).map_values(|g: Game| summary_row(v, g))
}

/// The keys by which the counts are ordered: the times at which the games
/// start.
pub open spec fn summary_keys(v: StoreView) -> Seq<Key> {
    game_keys(v.games.filter(allocated(v.tickets)))
}

/// The counts as five numbers: the game, its tickets, those assigned, those
/// available, and the seats asked for.
pub open spec fn as_numbers(row: AllocationSummaryRow) -> (i64, i64, i64, i64, i64) {
    (row.game_pk, row.total_seats, row.assigned, row.available, row.total_requested)
}

/// The counts of every home game that has a ticket, as numbers.
pub open spec fn summary_numbers(v: StoreView) -> Seq<(i64, i64, i64, i64, i64)> {
    summary_rows(v).map_values(|row: AllocationSummaryRow| as_numbers(row))
}

/// The game, its tickets and those available, for every game that has a
/// ticket, in the order of the game table.
pub open spec fn ticket_counts(v: StoreView) -> Seq<(i64, i64, i64)> {
    summary_rows(v).map_values(
        |row: AllocationSummaryRow| (row.game_pk, row.total_seats, row.available),
    )
}

/// One more request adds its seats to the sum.
pub proof fn lemma_seats_asked_push(rows: Seq<TicketRequest>, r: TicketRequest)
    ensures
        seats_asked(rows.push(r)) == seats_asked(rows) + r.seats_requested,
{
    assert(rows.push(r).drop_last() =~= rows);
}

/// The tickets of a game: all, the assigned and the available.
fn count_tickets(tickets: &Vec<GameTicket>, game_pk: i64) -> (r: (usize, usize, usize))
    ensures
        r.0 == tickets@.filter(of_game(game_pk)).len(),
        r.1 == tickets@.filter(taken_at(game_pk)).len(),
        r.2 == tickets@.filter(open_at(game_pk)).len(),
        r.0 <= tickets@.len(),
        r.1 <= tickets@.len(),
        r.2 <= tickets@.len(),
        (r.0 > 0) == some_ticket(tickets@, of_game(game_pk)),
{
    let n = tickets.len();
    let mut total: usize = 0;
    let mut taken: usize = 0;
    let mut open: usize = 0;
    let mut i: usize = 0;
    proof {
        lemma_filter_none(tickets@, of_game(game_pk));
        lemma_filter_none(tickets@, taken_at(game_pk));
        lemma_filter_none(tickets@, open_at(game_pk));
    }
    while i < n
        invariant
            0 <= i <= n,
            n == tickets@.len(),
            total == tickets@.take(i as int).filter(of_game(game_pk)).len(),
            taken == tickets@.take(i as int).filter(taken_at(game_pk)).len(),
            open == tickets@.take(i as int).filter(open_at(game_pk)).len(),
            total <= i,
            taken <= i,
            open <= i,
            (total > 0) == some_ticket(tickets@.take(i as int), of_game(game_pk)),
        decreases n - i,
    {
        proof {
            lemma_filter_next(tickets@, of_game(game_pk), i as int);
            lemma_filter_next(tickets@, taken_at(game_pk), i as int);
            lemma_filter_next(tickets@, open_at(game_pk), i as int);
        }
        let ghost before = tickets@.take(i as int);
        let ghost after = tickets@.take(i as int + 1);
        assert(forall|j: int| 0 <= j < i ==> before[j] == after[j]);
        if tickets[i].game_pk == game_pk {
            total += 1;
            assert(of_game(game_pk)(after[i as int]));
            match tickets[i].status {
                TicketStatus::Assigned => {
                    taken += 1;
                },
                TicketStatus::Available => {
                    open += 1;
                },
            }
        } else {
            assert(!of_game(game_pk)(after[i as int]));
        }
        i += 1;
    }
    proof {
        lemma_take_all(tickets@);
    }
    (total, taken, open)
}

/// The tickets of a game: all, the assigned and the available.
pub fn count_of_game(store: &Store, game_pk: i64) -> (r: (usize, usize, usize))
    ensures
        r.0 == store@.tickets.filter(of_game(game_pk)).len(),
        r.1 == store@.tickets.filter(taken_at(game_pk)).len(),
        r.2 == store@.tickets.filter(open_at(game_pk)).len(),
{
    count_tickets(&store.tickets, game_pk)
}

/// The seats that the pending requests for a game ask for.
fn sum_pending(requests: &Vec<TicketRequest>, game_pk: i64) -> (sum: i64)
    requires
        exists|next: int| requests_ok(requests@, next),
        requests@.len() < REQUEST_ID_LIMIT,
    ensures
        sum == seats_asked(requests@.filter(pending_for(game_pk))),
        0 <= sum,
{
    let n = requests.len();
    let mut sum: i64 = 0;
    let mut i: usize = 0;
    proof {
        lemma_filter_none(requests@, pending_for(game_pk));
    }
    while i < n
        invariant
            0 <= i <= n,
            n == requests@.len(),
            n < REQUEST_ID_LIMIT,
            exists|next: int| requests_ok(requests@, next),
            sum == seats_asked(requests@.take(i as int).filter(pending_for(game_pk))),
            0 <= sum <= 4 * i,
        decreases n - i,
    {
        proof {
            lemma_filter_next(requests@, pending_for(game_pk), i as int);
            lemma_seats_asked_push(
                requests@.take(i as int).filter(pending_for(game_pk)),
                requests@[i as int],
            );
            let next = choose|next: int| requests_ok(requests@, next);
            assert(seats_in_range(requests@[i as int].seats_requested));
        }
        if requests[i].game_pk == game_pk && requests[i].status == RequestStatus::Pending {
            sum = sum + requests[i].seats_requested;
        }
        i += 1;
    }
    proof {
        lemma_take_all(requests@);
    }
    sum
}

/// The counts of every home game that has a ticket, in the order of the game
/// table, with the keys by which they are ordered.
fn tally(store: &Store) -> (r: (Vec<AllocationSummaryRow>, Vec<SortKey>))
    requires
        store.wf(),
    ensures
        r.0@ == summary_rows(store@),
        keys_of(r.1@) == summary_keys(store@),
        r.1@.len() == r.0@.len(),
{
    let ghost v = store@;
    let ghost p = allocated(v.tickets);
    let n = store.games.len();
    let mut rows: Vec<AllocationSummaryRow> = Vec::new();
    let mut keys: Vec<SortKey> = Vec::new();
    let mut i: usize = 0;
    proof {
        lemma_filter_none(v.games, p);
    }
    while i < n
        invariant
            0 <= i <= n,
            n == v.games.len(),
            v == store@,
            store.wf(),
            p == allocated(v.tickets),
            rows@.len() == v.games.take(i as int).filter(p).len(),
            keys@.len() == rows@.len(),
            forall|j: int|
                0 <= j < rows@.len() ==> #[trigger] rows@[j] == summary_row(
                    v,
                    v.games.take(i as int).filter(p)[j],
                ),
            forall|j: int|
                0 <= j < keys@.len() ==> (#[trigger] keys@[j])@ == game_key(
                    v.games.take(i as int).filter(p)[j],
                ),
        decreases n - i,
    {
        proof {
            lemma_filter_next(v.games, p, i as int);
        }
        let g = &store.games[i];
        let counts = count_tickets(&store.tickets, g.game_pk);
        if g.plays_at_home() && counts.0 > 0 {
            let asked = sum_pending(&store.requests, g.game_pk);
            rows.push(
                AllocationSummaryRow {
                    game_pk: g.game_pk,
                    official_date: g.official_date.clone(),
                    away_team_name: g.away_team_name.clone(),
                    total_seats: counts.0 as i64,
                    assigned: counts.1 as i64,
                    available: counts.2 as i64,
                    total_requested: asked,
                    oversubscribed: asked > counts.2 as i64,
                },
            );
            keys.push(
                SortKey {
                    number: 0,
                    first: key_of_text(g.game_date.as_str()),
                    second: Vec::new(),
                    third: Vec::new(),
                },
            );
        }
        i += 1;
    }
    proof {
        lemma_take_all(v.games);
        assert(rows@ =~= summary_rows(v));
        assert(keys_of(keys@) =~= summary_keys(v));
    }
    (rows, keys)
}

/// The counts of every home game that has a ticket, by the time at which the
/// game starts.
///
/// A game is oversubscribed if its pending requests ask for more seats than it
/// has tickets available. Requests that are approved or withdrawn do not
/// count.
pub fn allocation_overview(store: &Store) -> (listed: Vec<AllocationSummaryRow>)
    requires
        store.wf(),
    ensures
        is_listing(summary_rows(store@), summary_keys(store@), listed@),
{
    let (rows, keys) = tally(store);
    assert(keys_of(keys@).len() == keys@.len());
    sort_rows(rows, &keys)
}

/// The counts of every home game that has a ticket, as numbers, by the time at
/// which the game starts: the game, its tickets, those assigned, those
/// available, and the seats that its pending requests ask for.
pub fn allocation_summary(store: &Store) -> (listed: Vec<(i64, i64, i64, i64, i64)>)
    requires
        store.wf(),
    ensures
        is_listing(summary_numbers(store@), summary_keys(store@), listed@),
{
    let (rows, keys) = tally(store);
    let n = rows.len();
    let mut numbers: Vec<(i64, i64, i64, i64, i64)> = Vec::new();
    let mut i: usize = 0;
    while i < n
        invariant
            0 <= i <= n,
            n == rows@.len(),
            numbers@.len() == i,
            forall|j: int| 0 <= j < i ==> #[trigger] numbers@[j] == as_numbers(rows@[j]),
        decreases n - i,
    {
        let row = &rows[i];
        numbers.push(
            (row.game_pk, row.total_seats, row.assigned, row.available, row.total_requested),
        );
        i += 1;
    }
    assert(numbers@ =~= summary_numbers(store@));
    assert(keys_of(keys@).len() == keys@.len());
    sort_rows(numbers, &keys)
}

/// For every game that has a ticket, in the order of the game table: the
/// game, its tickets, and those available.
pub fn ticket_summary_for_games(store: &Store) -> (counts: Vec<(i64, i64, i64)>)
    requires
        store.wf(),
    ensures
        counts@ == ticket_counts(store@),
{
    let (rows, _keys) = tally(store);
    let n = rows.len();
    let mut counts: Vec<(i64, i64, i64)> = Vec::new();
    let mut i: usize = 0;
    while i < n
        invariant
            0 <= i <= n,
            n == rows@.len(),
            counts@.len() == i,
            forall|j: int|
                0 <= j < i ==> #[trigger] counts@[j] == (
                    rows@[j].game_pk,
                    rows@[j].total_seats,
                    rows@[j].available,
                ),
        decreases n - i,
    {
        let row = &rows[i];
        counts.push((row.game_pk, row.total_seats, row.available));
        i += 1;
    }
    assert(counts@ =~= ticket_counts(store@));
    counts
}

/// A ticket of a game with the labels of its seat and the name of its holder.
#[derive(Debug)]
pub struct GameTicketWithUser {
    pub id: i64,
    pub seat_id: i64,
    pub section: String,
    pub row: String,
    pub seat: String,
    pub status: TicketStatus,
    pub assigned_to: Option<i64>,
    pub assigned_user_name: Option<String>,
}

/// A request with the name of the user who made it.
#[derive(Debug)]
pub struct RequestWithUser {
    pub id: i64,
    pub user_id: i64,
    pub user_name: String,
    pub seats_requested: i64,
    pub seats_approved: i64,
    pub status: RequestStatus,
    pub notes: Option<String>,
}

/// One game with its tickets and the requests for it.
#[derive(Debug)]
pub struct GameAllocationDetail {
    pub game: Game,
    pub tickets: Vec<GameTicketWithUser>,
    pub requests: Vec<RequestWithUser>,
}

/// The ticket `d` with the name of its holder: none where nobody holds it, and
/// none where the holder is not a known user.
pub open spec fn ticket_with_user(d: GameTicketDetail, users: Seq<User>) -> GameTicketWithUser {
    GameTicketWithUser {
        id: d.id,
        seat_id: d.seat_id,
        section: d.section,
        row: d.row,
        seat: d.seat,
        status: d.status,
        assigned_to: d.assigned_to,
        assigned_user_name: match d.assigned_to {
            Some(user) => name_of(users, user),
            None => None,
        },
    }
}

/// Tickets with the names of their holders.
pub open spec fn tickets_with_users(rows: Seq<GameTicketDetail>, users: Seq<User>) -> Seq<
    GameTicketWithUser,
> {
    rows.map_values(|d: GameTicketDetail| ticket_with_user(d, users))
}

/// Whether `w` is the request `r` with the name of the user who made it, the
/// empty name where that user is not known.
pub open spec fn is_request_with_user(w: RequestWithUser, r: TicketRequest, users: Seq<User>) -> bool {
    &&& w.id == r.id
    &&& w.user_id == r.user_id
    &&& w.seats_requested == r.seats_requested
    &&& w.seats_approved == r.seats_approved
    &&& w.status == r.status
    &&& w.notes == r.notes
    &&& match name_of(users, r.user_id) {
        Some(name) => w.user_name == name,
        None => w.user_name@.len() == 0,
    }
}

/// Whether `ws` are the requests `rs`, in order, each with the name of the
/// user who made it.
pub open spec fn are_requests_with_users(
    ws: Seq<RequestWithUser>,
    rs: Seq<TicketRequest>,
    users: Seq<User>,
) -> bool {
    &&& ws.len() == rs.len()
    &&& forall|k: int| 0 <= k < ws.len() ==> is_request_with_user(#[trigger] ws[k], rs[k], users)
}

/// One game in detail: the game, its tickets by section, row and seat with the
/// names of their holders, and the requests for it, in the order in which they
/// were first made, with the names of the users who made them.
///
/// `None` where the game is not known.
pub fn allocation_detail(store: &Store, game_pk: i64) -> (r: Option<GameAllocationDetail>)
    requires
        store.wf(),
    ensures
        r is Some == has_game(store@.games, game_pk),
        r is Some ==> ({
            let d = r->0;
            let rows = details(store@.tickets.filter(of_game(game_pk)), store@.seats);
            &&& store@.games.contains(d.game)
            &&& d.game.game_pk == game_pk
            &&& exists|listed: Seq<GameTicketDetail>|
                #![trigger tickets_with_users(listed, store@.users)]
                is_listing(rows, label_keys(rows), listed) && d.tickets@ == tickets_with_users(
                    listed,
                    store@.users,
                )
            &&& are_requests_with_users(
                d.requests@,
                store@.requests.filter(RequestFilter::ForGame(game_pk).selects()),
                store@.users,
            )
        }),
{
    let game = match find_game(&store.games, game_pk) {
        Some(at) => {
            let game = store.games[at].clone();
            assert(store@.games[at as int] == game);
            game
        },
        None => {
            return None;
        },
    };
    let index = index_users(&store.users);
    let listed = list_tickets_for_game(store, game_pk);
    let ghost listed_rows = listed@;
    let mut tickets: Vec<GameTicketWithUser> = Vec::new();
    for d in it: listed.into_iter()
        invariant
            it.seq() == listed_rows,
            store.wf(),
            indexes(index@, store@.users),
            tickets@.len() == it.index(),
            forall|j: int|
                0 <= j < tickets@.len() ==> #[trigger] tickets@[j] == ticket_with_user(
                    listed_rows[j],
                    store@.users,
                ),
    {
        let holder = match d.assigned_to {
            Some(user) => user_name(&store.users, &index, user),
            None => None,
        };
        tickets.push(
            GameTicketWithUser {
                id: d.id,
                seat_id: d.seat_id,
                section: d.section,
                row: d.row,
                seat: d.seat,
                status: d.status,
                assigned_to: d.assigned_to,
                assigned_user_name: holder,
            },
        );
    }
    assert(tickets@ =~= tickets_with_users(listed_rows, store@.users));
    let asked = list_requests_for_game(store, game_pk);
    let ghost asked_rows = asked@;
    let mut requests: Vec<RequestWithUser> = Vec::new();
    for r in it: asked.into_iter()
        invariant
            it.seq() == asked_rows,
            store.wf(),
            indexes(index@, store@.users),
            requests@.len() == it.index(),
            forall|j: int|
                0 <= j < requests@.len() ==> is_request_with_user(
                    #[trigger] requests@[j],
                    asked_rows[j],
                    store@.users,
                ),
    {
        let name = match user_name(&store.users, &index, r.user_id) {
            Some(name) => name,
            None => String::new(),
        };
        requests.push(
            RequestWithUser {
                id: r.id,
                user_id: r.user_id,
                user_name: name,
                seats_requested: r.seats_requested,
                seats_approved: r.seats_approved,
                status: r.status,
                notes: r.notes,
            },
        );
    }
    Some(GameAllocationDetail { game, tickets, requests })
}

} // verus!
