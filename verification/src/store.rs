//! The store: six tables and the counters that number their rows.
//!
//! The tables can only be changed through the operations of the modules below,
//! each of which keeps the store valid.

use vstd::prelude::*;
use crate::games::{check_games, find_game, games_ok, has_game, has_home_game, home_game_exists};
use crate::models::{Game, GameTicket, Promotion, Seat, TicketRequest, User};
use crate::promotions::{check_promotions, promotions_ok};
use crate::requests::{check_requests, requests_ok, REQUEST_ID_LIMIT};
use crate::seats::{check_seats, has_seat, seat_exists, seats_ok};
use crate::tickets::{check_tickets, tickets_ok};
use crate::users::{check_users, users_ok};

pub mod allocation;
pub mod directory;
pub mod inventory;
pub mod ledger;
pub mod reports;
pub mod schedule;
pub mod summary;

verus! {

/// What the store holds, as sequences of rows in the order in which they were
/// added.
pub struct StoreView {
    pub seats: Seq<Seat>,
    pub games: Seq<Game>,
    pub promotions: Seq<Promotion>,
    pub tickets: Seq<GameTicket>,
    pub users: Seq<User>,
    pub requests: Seq<TicketRequest>,
    /// The id that the next seat gets.
    pub next_seat_id: int,
    /// The id that the next ticket gets.
    pub next_ticket_id: int,
    /// The id that the next user gets.
    pub next_user_id: int,
    /// The id that the next request gets.
    pub next_request_id: int,
}

/// Whether every ticket belongs to a seat of the pool and to a home game.
pub open spec fn tickets_point(tickets: Seq<GameTicket>, seats: Seq<Seat>, games: Seq<Game>) -> bool {
    forall|i: int|
        0 <= i < tickets.len() ==> has_seat(seats, (#[trigger] tickets[i]).seat_id)
            && has_home_game(games, tickets[i].game_pk)
}

/// Whether every request names a known game.
pub open spec fn requests_point(requests: Seq<TicketRequest>, games: Seq<Game>) -> bool {
    forall|i: int| 0 <= i < requests.len() ==> has_game(games, (#[trigger] requests[i]).game_pk)
}

impl StoreView {
    /// The invariant of the store: each table is in order, tickets point to
    /// seats and home games, requests point to games, each counter can still
    /// be read as an id, and no table holds more rows than ids were issued for
    /// it.
    pub open spec fn valid(self) -> bool {
        &&& 1 <= self.next_seat_id <= i64::MAX
        &&& 1 <= self.next_ticket_id <= i64::MAX
        &&& 1 <= self.next_user_id <= i64::MAX
        &&& 1 <= self.next_request_id <= REQUEST_ID_LIMIT
        &&& self.seats.len() < self.next_seat_id
        &&& self.tickets.len() < self.next_ticket_id
        &&& self.users.len() < self.next_user_id
        &&& self.requests.len() < self.next_request_id
        &&& seats_ok(self.seats, self.next_seat_id)
        &&& games_ok(self.games)
        &&& promotions_ok(self.promotions)
        &&& tickets_ok(self.tickets, self.next_ticket_id)
        &&& tickets_point(self.tickets, self.seats, self.games)
        &&& users_ok(self.users, self.next_user_id)
        &&& requests_ok(self.requests, self.next_request_id)
        &&& requests_point(self.requests, self.games)
    }

    /// The store in which nothing has happened yet.
    pub open spec fn empty() -> StoreView {
        StoreView {
            seats: Seq::empty(),
            games: Seq::empty(),
            promotions: Seq::empty(),
            tickets: Seq::empty(),
            users: Seq::empty(),
            requests: Seq::empty(),
            next_seat_id: 1,
            next_ticket_id: 1,
            next_user_id: 1,
            next_request_id: 1,
        }
    }
}

/// The seats, games, tickets, requests and users of one team's season.
pub struct Store {
    seats: Vec<Seat>,
    games: Vec<Game>,
    promotions: Vec<Promotion>,
    tickets: Vec<GameTicket>,
    users: Vec<User>,
    requests: Vec<TicketRequest>,
    next_seat_id: i64,
    next_ticket_id: i64,
    next_user_id: i64,
    next_request_id: i64,
}

impl View for Store {
    type V = StoreView;

    closed spec fn view(&self) -> StoreView {
        StoreView {
            seats: self.seats@,
            games: self.games@,
            promotions: self.promotions@,
            tickets: self.tickets@,
            users: self.users@,
            requests: self.requests@,
            next_seat_id: self.next_seat_id as int,
            next_ticket_id: self.next_ticket_id as int,
            next_user_id: self.next_user_id as int,
            next_request_id: self.next_request_id as int,
        }
    }
}

/// The tables and counters of a store, as they are kept outside it.
pub struct StoreParts {
    pub seats: Vec<Seat>,
    pub games: Vec<Game>,
    pub promotions: Vec<Promotion>,
    pub tickets: Vec<GameTicket>,
    pub users: Vec<User>,
    pub requests: Vec<TicketRequest>,
    pub next_seat_id: i64,
    pub next_ticket_id: i64,
    pub next_user_id: i64,
    pub next_request_id: i64,
}

impl View for StoreParts {
    type V = StoreView;

    open spec fn view(&self) -> StoreView {
        StoreView {
            seats: self.seats@,
            games: self.games@,
            promotions: self.promotions@,
            tickets: self.tickets@,
            users: self.users@,
            requests: self.requests@,
            next_seat_id: self.next_seat_id as int,
            next_ticket_id: self.next_ticket_id as int,
            next_user_id: self.next_user_id as int,
            next_request_id: self.next_request_id as int,
        }
    }
}

/// Whether every ticket belongs to a seat of the pool and to a home game.
fn check_tickets_point(tickets: &Vec<GameTicket>, seats: &Vec<Seat>, games: &Vec<Game>) -> (b: bool)
    ensures
        b == tickets_point(tickets@, seats@, games@),
{
    let n = tickets.len();
    let mut i: usize = 0;
    while i < n
        invariant
            0 <= i <= n,
            n == tickets@.len(),
            forall|j: int|
                0 <= j < i ==> has_seat(seats@, (#[trigger] tickets@[j]).seat_id) && has_home_game(
                    games@,
                    tickets@[j].game_pk,
                ),
        decreases n - i,
    {
        if !seat_exists(seats, tickets[i].seat_id) || !home_game_exists(games, tickets[i].game_pk) {
            assert(!(has_seat(seats@, tickets@[i as int].seat_id) && has_home_game(
                games@,
                tickets@[i as int].game_pk,
            )));
            return false;
        }
        i += 1;
    }
    true
}

/// Whether every request names a known game.
fn check_requests_point(requests: &Vec<TicketRequest>, games: &Vec<Game>) -> (b: bool)
    ensures
        b == requests_point(requests@, games@),
{
    let n = requests.len();
    let mut i: usize = 0;
    while i < n
        invariant
            0 <= i <= n,
            n == requests@.len(),
            forall|j: int| 0 <= j < i ==> has_game(games@, (#[trigger] requests@[j]).game_pk),
        decreases n - i,
    {
        if find_game(games, requests[i].game_pk).is_none() {
            assert(!has_game(games@, requests@[i as int].game_pk));
            return false;
        }
        i += 1;
    }
    true
}

/// Whether a table of `rows` rows has fewer rows than ids were issued for it,
/// and its counter lies between one and `limit`.
fn counter_fits(rows: usize, next: i64, limit: i64) -> (b: bool)
    ensures
        b == (1 <= next <= limit && rows < next),
{
    1 <= next && next <= limit && (rows as u64) < (next as u64)
}

impl Store {
    /// A store with the given tables and counters, if they satisfy the
    /// invariant of the store.
    pub fn from_parts(parts: StoreParts) -> (r: Option<Store>)
        ensures
            r is Some == parts@.valid(),
            r is Some ==> r->0.wf() && r->0@ == parts@,
    {
        let valid = counter_fits(parts.seats.len(), parts.next_seat_id, i64::MAX) && counter_fits(
            parts.tickets.len(),
            parts.next_ticket_id,
            i64::MAX,
        ) && counter_fits(parts.users.len(), parts.next_user_id, i64::MAX) && counter_fits(
            parts.requests.len(),
            parts.next_request_id,
            REQUEST_ID_LIMIT,
        ) && check_seats(&parts.seats, parts.next_seat_id) && check_games(&parts.games)
            && check_promotions(&parts.promotions) && check_tickets(
            &parts.tickets,
            parts.next_ticket_id,
        ) && check_tickets_point(&parts.tickets, &parts.seats, &parts.games) && check_users(
            &parts.users,
            parts.next_user_id,
        ) && check_requests(&parts.requests, parts.next_request_id) && check_requests_point(
            &parts.requests,
            &parts.games,
        );
        if valid {
            Some(
                Store {
                    seats: parts.seats,
                    games: parts.games,
                    promotions: parts.promotions,
                    tickets: parts.tickets,
                    users: parts.users,
                    requests: parts.requests,
                    next_seat_id: parts.next_seat_id,
                    next_ticket_id: parts.next_ticket_id,
                    next_user_id: parts.next_user_id,
                    next_request_id: parts.next_request_id,
                },
            )
        } else {
            None
        }
    }

    /// The tables and counters of the store.
    pub fn into_parts(self) -> (parts: StoreParts)
        ensures
            parts@ == self@,
    {
        StoreParts {
            seats: self.seats,
            games: self.games,
            promotions: self.promotions,
            tickets: self.tickets,
            users: self.users,
            requests: self.requests,
            next_seat_id: self.next_seat_id,
            next_ticket_id: self.next_ticket_id,
            next_user_id: self.next_user_id,
            next_request_id: self.next_request_id,
        }
    }

    /// Whether the store satisfies its invariant.
    pub open spec fn wf(&self) -> bool {
        self@.valid()
    }

    /// An empty store.
    pub fn new() -> (store: Store)
        ensures
            store.wf(),
            store@ == StoreView::empty(),
    {
        Store {
            seats: Vec::new(),
            games: Vec::new(),
            promotions: Vec::new(),
            tickets: Vec::new(),
            users: Vec::new(),
            requests: Vec::new(),
            next_seat_id: 1,
            next_ticket_id: 1,
            next_user_id: 1,
            next_request_id: 1,
        }
    }

    /// The seats, in the order in which they were added.
    pub fn seats(&self) -> (rows: &Vec<Seat>)
        ensures
            rows@ == self@.seats,
    {
        &self.seats
    }

    /// The games, in the order in which they were first recorded.
    pub fn games(&self) -> (rows: &Vec<Game>)
        ensures
            rows@ == self@.games,
    {
        &self.games
    }

    /// The promotions, in the order in which they were first recorded.
    pub fn promotions(&self) -> (rows: &Vec<Promotion>)
        ensures
            rows@ == self@.promotions,
    {
        &self.promotions
    }

    /// The tickets, in the order in which they were issued.
    pub fn tickets(&self) -> (rows: &Vec<GameTicket>)
        ensures
            rows@ == self@.tickets,
    {
        &self.tickets
    }

    /// The users, in the order in which they first signed in.
    pub fn users(&self) -> (rows: &Vec<User>)
        ensures
            rows@ == self@.users,
    {
        &self.users
    }

    /// The requests, in the order in which they were first made.
    pub fn requests(&self) -> (rows: &Vec<TicketRequest>)
        ensures
            rows@ == self@.requests,
    {
        &self.requests
    }
}

} // verus!
