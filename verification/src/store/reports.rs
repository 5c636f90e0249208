//! Reading the store: lists in a stable order.
//!
//! A list holds copies of the rows that it selects, in the order of a key that
//! each list names; rows with equal keys stand in the order of the table.

use vstd::prelude::*;
use crate::models::{
    Game, GameTicket, GameTicketDetail, Promotion, RequestStatus, Row, Seat, TicketRequest, User,
};
use crate::seats::{find_seat, has_seat, lemma_seat_of, seat_of};
use crate::seqs::{lemma_filter_next, lemma_filter_none, lemma_filter_picks, lemma_take_all};
use crate::sorting::{is_listing, key_of_text, keys_of, sort_rows, text_key, Key, SortKey};
use crate::store::Store;
use crate::text::{contains_text, text_contains, two_digit_text, two_digits};
use crate::tickets::{of_game, of_holder};

verus! {

/// Copies of the rows that pass a test, in their order.
fn pick<T: Row>(rows: &Vec<T>, wanted: &Vec<bool>, Ghost(p): Ghost<spec_fn(T) -> bool>) -> (picked:
    Vec<T>)
    requires
        wanted@.len() == rows@.len(),
        forall|i: int| 0 <= i < rows@.len() ==> wanted@[i] == p(#[trigger] rows@[i]),
    ensures
        picked@ == rows@.filter(p),
{
    let n = rows.len();
    let mut picked: Vec<T> = Vec::new();
    let mut i: usize = 0;
    proof {
        lemma_filter_none(rows@, p);
    }
    while i < n
        invariant
            0 <= i <= n,
            n == rows@.len(),
            wanted@.len() == n,
            forall|j: int| 0 <= j < rows@.len() ==> wanted@[j] == p(#[trigger] rows@[j]),
            picked@ == rows@.take(i as int).filter(p),
        decreases n - i,
    {
        proof {
            lemma_filter_next(rows@, p, i as int);
        }
        if wanted[i] {
            picked.push(rows[i].duplicate());
        }
        i += 1;
    }
    proof {
        lemma_take_all(rows@);
    }
    picked
}

/// Copies of all rows, in their order.
fn copy_all<T: Row>(rows: &Vec<T>) -> (copies: Vec<T>)
    ensures
        copies@ == rows@,
{
    let n = rows.len();
    let mut copies: Vec<T> = Vec::new();
    let mut i: usize = 0;
    while i < n
        invariant
            0 <= i <= n,
            n == rows@.len(),
            copies@ == rows@.take(i as int),
        decreases n - i,
    {
        copies.push(rows[i].duplicate());
        assert(copies@ =~= rows@.take(i as int + 1));
        i += 1;
    }
    proof {
        lemma_take_all(rows@);
    }
    copies
}

/// The key of a seat: its section, its row and its place in the row.
pub open spec fn seat_key(s: Seat) -> Key {
    Key {
        number: 0,
        first: text_key(s.section@),
        second: text_key(s.row@),
        third: text_key(s.seat@),
    }
}

/// The keys of seats.
pub open spec fn seat_keys(rows: Seq<Seat>) -> Seq<Key> {
    rows.map_values(|s: Seat| seat_key(s))
}

/// All seats, by section, row and seat.
pub fn list_seats(store: &Store) -> (listed: Vec<Seat>)
    ensures
        is_listing(store@.seats, seat_keys(store@.seats), listed@),
{
    let rows = copy_all(&store.seats);
    let n = rows.len();
    let mut keys: Vec<SortKey> = Vec::new();
    let mut i: usize = 0;
    while i < n
        invariant
            0 <= i <= n,
            n == rows@.len(),
            keys@.len() == i,
            forall|j: int| 0 <= j < i ==> (#[trigger] keys@[j])@ == seat_key(rows@[j]),
        decreases n - i,
    {
        keys.push(
            SortKey {
                number: 0,
                first: key_of_text(rows[i].section.as_str()),
                second: key_of_text(rows[i].row.as_str()),
                third: key_of_text(rows[i].seat.as_str()),
            },
        );
        i += 1;
    }
    assert(keys_of(keys@) =~= seat_keys(rows@));
    sort_rows(rows, &keys)
}

/// The key of a user: the name.
pub open spec fn user_key(u: User) -> Key {
    Key { number: 0, first: text_key(u.name@), second: Seq::empty(), third: Seq::empty() }
}

/// The keys of users.
pub open spec fn user_keys(rows: Seq<User>) -> Seq<Key> {
    rows.map_values(|u: User| user_key(u))
}

/// All users, by name.
pub fn list_users(store: &Store) -> (listed: Vec<User>)
    ensures
        is_listing(store@.users, user_keys(store@.users), listed@),
{
    let rows = copy_all(&store.users);
    let n = rows.len();
    let mut keys: Vec<SortKey> = Vec::new();
    let mut i: usize = 0;
    while i < n
        invariant
            0 <= i <= n,
            n == rows@.len(),
            keys@.len() == i,
            forall|j: int| 0 <= j < i ==> (#[trigger] keys@[j])@ == user_key(rows@[j]),
        decreases n - i,
    {
        keys.push(
            SortKey {
                number: 0,
                first: key_of_text(rows[i].name.as_str()),
                second: Vec::new(),
                third: Vec::new(),
            },
        );
        i += 1;
    }
    assert(keys_of(keys@) =~= user_keys(rows@));
    sort_rows(rows, &keys)
}

/// The mark that the date of a game in month `month` carries: the month in two
/// digits between two hyphens.
pub open spec fn month_mark(month: u32) -> Seq<char> {
    seq!['-'] + two_digits(month as nat) + seq!['-']
}

/// The games of a month, or all games.
pub open spec fn in_month(month: Option<u32>) -> spec_fn(Game) -> bool {
    |g: Game|
        match month {
            Some(m) => contains_text(g.official_date@, month_mark(m)),
            None => true,
        }
}

/// The key of a game: the time at which it starts.
pub open spec fn game_key(g: Game) -> Key {
    Key { number: 0, first: text_key(g.game_date@), second: Seq::empty(), third: Seq::empty() }
}

/// The keys of games.
pub open spec fn game_keys(rows: Seq<Game>) -> Seq<Key> {
    rows.map_values(|g: Game| game_key(g))
}

/// The sort keys of games.
fn keys_for_games(rows: &Vec<Game>) -> (keys: Vec<SortKey>)
    ensures
        keys@.len() == rows@.len(),
        keys_of(keys@) == game_keys(rows@),
{
    let n = rows.len();
    let mut keys: Vec<SortKey> = Vec::new();
    let mut i: usize = 0;
    while i < n
        invariant
            0 <= i <= n,
            n == rows@.len(),
            keys@.len() == i,
            forall|j: int| 0 <= j < i ==> (#[trigger] keys@[j])@ == game_key(rows@[j]),
        decreases n - i,
    {
        keys.push(
            SortKey {
                number: 0,
                first: key_of_text(rows[i].game_date.as_str()),
                second: Vec::new(),
                third: Vec::new(),
            },
        );
        i += 1;
    }
    assert(keys_of(keys@) =~= game_keys(rows@));
    keys
}

/// The games whose official date lies in the month, or all games where no
/// month is given, by the time at which they start.
pub fn list_games(store: &Store, month: Option<u32>) -> (listed: Vec<Game>)
    ensures
        is_listing(
            store@.games.filter(in_month(month)),
            game_keys(store@.games.filter(in_month(month))),
            listed@,
        ),
{
    let n = store.games.len();
    let mark = match month {
        Some(m) => {
            proof {
                reveal_strlit("-");
            }
            let mut mark = String::from_str("-");
            let digits = two_digit_text(m as u64);
            mark.append(digits.as_str());
            mark.append("-");
            assert(mark@ =~= month_mark(m));
            mark
        },
        None => String::new(),
    };
    let mut wanted: Vec<bool> = Vec::new();
    let mut i: usize = 0;
    while i < n
        invariant
            0 <= i <= n,
            n == store.games@.len(),
            wanted@.len() == i,
            month is Some ==> mark@ == month_mark(month->0),
            forall|j: int| 0 <= j < i ==> wanted@[j] == in_month(month)(#[trigger] store.games@[j]),
        decreases n - i,
    {
        let keep = match month {
            Some(_) => text_contains(store.games[i].official_date.as_str(), mark.as_str()),
            None => true,
        };
        wanted.push(keep);
        i += 1;
    }
    let rows = pick(&store.games, &wanted, Ghost(in_month(month)));
    let keys = keys_for_games(&rows);
    sort_rows(rows, &keys)
}

/// The promotions of game `game_pk`.
pub open spec fn offered_at(game_pk: i64) -> spec_fn(Promotion) -> bool {
    |p: Promotion| p.game_pk == game_pk
}

/// The key of a promotion: its place in the display.
pub open spec fn promotion_key(p: Promotion) -> Key {
    Key {
        number: p.display_order as int,
        first: Seq::empty(),
        second: Seq::empty(),
        third: Seq::empty(),
    }
}

/// The keys of promotions.
pub open spec fn promotion_keys(rows: Seq<Promotion>) -> Seq<Key> {
    rows.map_values(|p: Promotion| promotion_key(p))
}

/// The promotions of a game, by their place in the display.
pub fn get_promotions_for_game(store: &Store, game_pk: i64) -> (listed: Vec<Promotion>)
    ensures
        is_listing(
            store@.promotions.filter(offered_at(game_pk)),
            promotion_keys(store@.promotions.filter(offered_at(game_pk))),
            listed@,
        ),
{
    let n = store.promotions.len();
    let mut wanted: Vec<bool> = Vec::new();
    let mut i: usize = 0;
    while i < n
        invariant
            0 <= i <= n,
            n == store.promotions@.len(),
            wanted@.len() == i,
            forall|j: int|
                0 <= j < i ==> wanted@[j] == offered_at(game_pk)(#[trigger] store.promotions@[j]),
        decreases n - i,
    {
        wanted.push(store.promotions[i].game_pk == game_pk);
        i += 1;
    }
    let rows = pick(&store.promotions, &wanted, Ghost(offered_at(game_pk)));
    let m = rows.len();
    let mut keys: Vec<SortKey> = Vec::new();
    let mut k: usize = 0;
    while k < m
        invariant
            0 <= k <= m,
            m == rows@.len(),
            keys@.len() == k,
            forall|j: int| 0 <= j < k ==> (#[trigger] keys@[j])@ == promotion_key(rows@[j]),
        decreases m - k,
    {
        keys.push(
            SortKey {
                number: rows[k].display_order,
                first: Vec::new(),
                second: Vec::new(),
                third: Vec::new(),
            },
        );
        k += 1;
    }
    assert(keys_of(keys@) =~= promotion_keys(rows@));
    sort_rows(rows, &keys)
}

/// Which requests a list selects.
#[derive(Clone, Copy, Debug)]
pub enum RequestFilter {
    /// The requests of one user.
    OfUser(i64),
    /// The requests for one game.
    ForGame(i64),
    /// The requests that are pending.
    Pending,
}

impl RequestFilter {
    /// The requests that the filter selects.
    pub open spec fn selects(self) -> spec_fn(TicketRequest) -> bool {
        |r: TicketRequest|
            match self {
                RequestFilter::OfUser(user) => r.user_id == user,
                RequestFilter::ForGame(game_pk) => r.game_pk == game_pk,
                RequestFilter::Pending => r.status == RequestStatus::Pending,
            }
    }
}

/// Copies of the requests that a filter selects, in the order in which they
/// were first made.
fn select_requests(store: &Store, filter: RequestFilter) -> (picked: Vec<TicketRequest>)
    ensures
        picked@ == store@.requests.filter(filter.selects()),
{
    let n = store.requests.len();
    let mut wanted: Vec<bool> = Vec::new();
    let mut i: usize = 0;
    while i < n
        invariant
            0 <= i <= n,
            n == store.requests@.len(),
            wanted@.len() == i,
            forall|j: int|
                0 <= j < i ==> wanted@[j] == filter.selects()(#[trigger] store.requests@[j]),
        decreases n - i,
    {
        let keep = match filter {
            RequestFilter::OfUser(user) => store.requests[i].user_id == user,
            RequestFilter::ForGame(game_pk) => store.requests[i].game_pk == game_pk,
            RequestFilter::Pending => store.requests[i].status == RequestStatus::Pending,
        };
        wanted.push(keep);
        i += 1;
    }
    pick(&store.requests, &wanted, Ghost(filter.selects()))
}

/// The key of a request: its game.
pub open spec fn request_key(r: TicketRequest) -> Key {
    Key { number: r.game_pk as int, first: Seq::empty(), second: Seq::empty(), third: Seq::empty() }
}

/// The keys of requests.
pub open spec fn request_keys(rows: Seq<TicketRequest>) -> Seq<Key> {
    rows.map_values(|r: TicketRequest| request_key(r))
}

/// Requests by game; those for one game in the order in which they were
/// first made.
fn by_game(rows: Vec<TicketRequest>) -> (listed: Vec<TicketRequest>)
    ensures
        is_listing(rows@, request_keys(rows@), listed@),
{
    let m = rows.len();
    let mut keys: Vec<SortKey> = Vec::new();
    let mut k: usize = 0;
    while k < m
        invariant
            0 <= k <= m,
            m == rows@.len(),
            keys@.len() == k,
            forall|j: int| 0 <= j < k ==> (#[trigger] keys@[j])@ == request_key(rows@[j]),
        decreases m - k,
    {
        keys.push(
            SortKey {
                number: rows[k].game_pk,
                first: Vec::new(),
                second: Vec::new(),
                third: Vec::new(),
            },
        );
        k += 1;
    }
    assert(keys_of(keys@) =~= request_keys(rows@));
    sort_rows(rows, &keys)
}

/// The requests of a user, by game.
pub fn list_requests_for_user(store: &Store, user_id: i64) -> (listed: Vec<TicketRequest>)
    ensures
        is_listing(
            store@.requests.filter(RequestFilter::OfUser(user_id).selects()),
            request_keys(store@.requests.filter(RequestFilter::OfUser(user_id).selects())),
            listed@,
        ),
{
    by_game(select_requests(store, RequestFilter::OfUser(user_id)))
}

/// The requests for a game, in the order in which they were first made.
pub fn list_requests_for_game(store: &Store, game_pk: i64) -> (listed: Vec<TicketRequest>)
    ensures
        listed@ == store@.requests.filter(RequestFilter::ForGame(game_pk).selects()),
{
    select_requests(store, RequestFilter::ForGame(game_pk))
}

/// The pending requests, by game; those for one game in the order in which
/// they were first made.
pub fn list_all_pending_requests(store: &Store) -> (listed: Vec<TicketRequest>)
    ensures
        is_listing(
            store@.requests.filter(RequestFilter::Pending.selects()),
            request_keys(store@.requests.filter(RequestFilter::Pending.selects())),
            listed@,
        ),
{
    by_game(select_requests(store, RequestFilter::Pending))
}

/// A ticket together with the labels of its seat.
pub open spec fn detail_of(t: GameTicket, s: Seat) -> GameTicketDetail {
    GameTicketDetail {
        id: t.id,
        game_pk: t.game_pk,
        seat_id: t.seat_id,
        section: s.section,
        row: s.row,
        seat: s.seat,
        status: t.status,
        notes: t.notes,
        assigned_to: t.assigned_to,
    }
}

/// Tickets, each together with the labels of its seat.
pub open spec fn details(tickets: Seq<GameTicket>, seats: Seq<Seat>) -> Seq<GameTicketDetail> {
    tickets.map_values(|t: GameTicket| detail_of(t, seat_of(seats, t.seat_id)))
}

/// The key of a ticket within a game: the section, the row and the seat.
pub open spec fn label_key(d: GameTicketDetail) -> Key {
    Key {
        number: 0,
        first: text_key(d.section@),
        second: text_key(d.row@),
        third: text_key(d.seat@),
    }
}

/// The keys of tickets within a game.
pub open spec fn label_keys(rows: Seq<GameTicketDetail>) -> Seq<Key> {
    rows.map_values(|d: GameTicketDetail| label_key(d))
}

/// The key of a ticket among those of several games: the game, then the
/// section, the row and the seat.
pub open spec fn game_label_key(d: GameTicketDetail) -> Key {
    Key {
        number: d.game_pk as int,
        first: text_key(d.section@),
        second: text_key(d.row@),
        third: text_key(d.seat@),
    }
}

/// The keys of tickets among those of several games.
pub open spec fn game_label_keys(rows: Seq<GameTicketDetail>) -> Seq<Key> {
    rows.map_values(|d: GameTicketDetail| game_label_key(d))
}

/// Tickets, each together with the labels of its seat.
fn describe(store: &Store, tickets: Vec<GameTicket>) -> (rows: Vec<GameTicketDetail>)
    requires
        store.wf(),
        forall|i: int| 0 <= i < tickets@.len() ==> has_seat(store@.seats, (#[trigger] tickets@[i]).seat_id),
    ensures
        rows@ == details(tickets@, store@.seats),
{
    let ghost all = tickets@;
    let mut rows: Vec<GameTicketDetail> = Vec::new();
    for t in it: tickets.into_iter()
        invariant
            it.seq() == all,
            store.wf(),
            forall|i: int| 0 <= i < all.len() ==> has_seat(store@.seats, (#[trigger] all[i]).seat_id),
            rows@.len() == it.index(),
            forall|j: int|
                0 <= j < rows@.len() ==> rows@[j] == detail_of(
                    all[j],
                    seat_of(store@.seats, all[j].seat_id),
                ),
    {
        assert(has_seat(store@.seats, all[it.index() as int].seat_id));
        match find_seat(&store.seats, t.seat_id) {
            Some(at) => {
                proof {
                    lemma_seat_of(store@.seats, store@.next_seat_id, at as int);
                }
                let s = &store.seats[at];
                rows.push(
                    GameTicketDetail {
                        id: t.id,
                        game_pk: t.game_pk,
                        seat_id: t.seat_id,
                        section: s.section.clone(),
                        row: s.row.clone(),
                        seat: s.seat.clone(),
                        status: t.status,
                        notes: t.notes,
                        assigned_to: t.assigned_to,
                    },
                );
            },
            None => {
                assert(false);
            },
        }
    }
    assert(rows@ =~= details(all, store@.seats));
    rows
}

/// Copies of the tickets that pass a test, in the order in which they were
/// issued.
fn select_tickets(store: &Store, game_pk: Option<i64>, holder: Option<i64>) -> (picked: Vec<
    GameTicket,
>)
    requires
        store.wf(),
        game_pk is Some != holder is Some,
    ensures
        game_pk is Some ==> picked@ == store@.tickets.filter(of_game(game_pk->0)),
        holder is Some ==> picked@ == store@.tickets.filter(of_holder(holder->0)),
        forall|i: int| 0 <= i < picked@.len() ==> has_seat(store@.seats, (#[trigger] picked@[i]).seat_id),
{
    let ghost p = if game_pk is Some {
        of_game(game_pk->0)
    } else {
        of_holder(holder->0)
    };
    let n = store.tickets.len();
    let mut wanted: Vec<bool> = Vec::new();
    let mut i: usize = 0;
    while i < n
        invariant
            0 <= i <= n,
            n == store.tickets@.len(),
            wanted@.len() == i,
            game_pk is Some != holder is Some,
            p == (if game_pk is Some {
                of_game(game_pk->0)
            } else {
                of_holder(holder->0)
            }),
            forall|j: int| 0 <= j < i ==> wanted@[j] == p(#[trigger] store.tickets@[j]),
        decreases n - i,
    {
        let keep = match game_pk {
            Some(pk) => store.tickets[i].game_pk == pk,
            None => match holder {
                Some(user) => match store.tickets[i].assigned_to {
                    Some(u) => u == user,
                    None => false,
                },
                None => false,
            },
        };
        wanted.push(keep);
        i += 1;
    }
    let picked = pick(&store.tickets, &wanted, Ghost(p));
    proof {
        let places = lemma_filter_picks(store@.tickets, p);
        assert forall|i: int| 0 <= i < picked@.len() implies has_seat(
            store@.seats,
            (#[trigger] picked@[i]).seat_id,
        ) by {
            assert(picked@[i] == store@.tickets[places[i]]);
        }
    }
    picked
}

/// The sort keys of tickets, with or without the game in front.
fn keys_for_details(rows: &Vec<GameTicketDetail>, with_game: bool) -> (keys: Vec<SortKey>)
    ensures
        keys@.len() == rows@.len(),
        with_game ==> keys_of(keys@) == game_label_keys(rows@),
        !with_game ==> keys_of(keys@) == label_keys(rows@),
{
    let n = rows.len();
    let mut keys: Vec<SortKey> = Vec::new();
    let mut i: usize = 0;
    while i < n
        invariant
            0 <= i <= n,
            n == rows@.len(),
            keys@.len() == i,
            forall|j: int|
                0 <= j < i ==> (#[trigger] keys@[j])@ == (if with_game {
                    game_label_key(rows@[j])
                } else {
                    label_key(rows@[j])
                }),
        decreases n - i,
    {
        keys.push(
            SortKey {
                number: if with_game {
                    rows[i].game_pk
                } else {
                    0
                },
                first: key_of_text(rows[i].section.as_str()),
                second: key_of_text(rows[i].row.as_str()),
                third: key_of_text(rows[i].seat.as_str()),
            },
        );
        i += 1;
    }
    if with_game {
        assert(keys_of(keys@) =~= game_label_keys(rows@));
    } else {
        assert(keys_of(keys@) =~= label_keys(rows@));
    }
    keys
}

/// The tickets of a game with the labels of their seats, by section, row and
/// seat.
pub fn list_tickets_for_game(store: &Store, game_pk: i64) -> (listed: Vec<GameTicketDetail>)
    requires
        store.wf(),
    ensures
        ({
            let rows = details(store@.tickets.filter(of_game(game_pk)), store@.seats);
            is_listing(rows, label_keys(rows), listed@)
        }),
{
    let picked = select_tickets(store, Some(game_pk), None);
    let rows = describe(store, picked);
    let keys = keys_for_details(&rows, false);
    sort_rows(rows, &keys)
}

/// The tickets that a user holds with the labels of their seats, by game,
/// section, row and seat.
pub fn list_tickets_for_user(store: &Store, user_id: i64) -> (listed: Vec<GameTicketDetail>)
    requires
        store.wf(),
    ensures
        ({
            let rows = details(store@.tickets.filter(of_holder(user_id)), store@.seats);
            is_listing(rows, game_label_keys(rows), listed@)
        }),
{
    let picked = select_tickets(store, None, Some(user_id));
    let rows = describe(store, picked);
    let keys = keys_for_details(&rows, true);
    sort_rows(rows, &keys)
}

} // verus!
