use gtm::error::{EngineError, StorageError, ValidationError};
use gtm::models::{Game, RequestStatus, TicketRequest};
use gtm::store::allocation::update_request_approval;
use gtm::store::ledger::{
    create_ticket_request, create_ticket_requests, update_ticket_request,
    withdraw_ticket_request, RequestEntry,
};
use gtm::store::reports::{
    list_all_pending_requests, list_requests_for_game, list_requests_for_user,
};
use gtm::store::schedule::upsert_game;
use gtm::store::{Store, StoreParts};

fn a_game(game_pk: i64) -> Game {
    Game {
        game_pk,
        game_guid: None,
        game_type: "R".to_string(),
        season: "2025".to_string(),
        game_date: "2025-05-01T19:45:00Z".to_string(),
        official_date: "2025-05-01".to_string(),
        status_abstract: "Preview".to_string(),
        status_detailed: "Scheduled".to_string(),
        status_code: "S".to_string(),
        start_time_tbd: false,
        away_team_id: 119,
        away_team_name: "Los Angeles Dodgers".to_string(),
        away_score: None,
        away_is_winner: None,
        home_team_id: 137,
        home_team_name: "San Francisco Giants".to_string(),
        home_score: None,
        home_is_winner: None,
        venue_id: 2395,
        venue_name: "Oracle Park".to_string(),
        day_night: None,
        series_description: None,
        series_game_number: None,
        games_in_series: None,
        double_header: "N".to_string(),
        game_number: 1,
        scheduled_innings: 9,
        is_tie: false,
    }
}

fn store_with_games() -> Store {
    let mut store = Store::new();
    upsert_game(&mut store, &a_game(123));
    upsert_game(&mut store, &a_game(124));
    upsert_game(&mut store, &a_game(100));
    store
}

fn refusal_of(r: Result<TicketRequest, EngineError>) -> Option<EngineError> {
    r.err()
}

#[test]
fn request_counts_outside_one_to_four_are_refused() {
    let mut store = store_with_games();
    assert_eq!(
        refusal_of(create_ticket_request(&mut store, 7, 123, 0, None)),
        Some(EngineError::Validation(ValidationError::SeatsRequested {
            game_pk: 123,
            seats_requested: 0
        }))
    );
    assert_eq!(
        refusal_of(create_ticket_request(&mut store, 7, 123, 5, None)),
        Some(EngineError::Validation(ValidationError::SeatsRequested {
            game_pk: 123,
            seats_requested: 5
        }))
    );
    assert!(create_ticket_request(&mut store, 7, 123, -1, None).is_err());
    assert!(store.requests().is_empty());
    let one = create_ticket_request(&mut store, 7, 123, 1, None).unwrap();
    assert_eq!(one.seats_requested, 1);
    let four = create_ticket_request(&mut store, 8, 123, 4, None).unwrap();
    assert_eq!(four.seats_requested, 4);
    assert_eq!(store.requests().len(), 2);
}

#[test]
fn first_request_is_pending_with_nothing_approved() {
    let mut store = store_with_games();
    let r = create_ticket_request(&mut store, 7, 123, 2, Some("aisle".to_string())).unwrap();
    assert_eq!(r.id, 1);
    assert_eq!(r.user_id, 7);
    assert_eq!(r.game_pk, 123);
    assert_eq!(r.seats_requested, 2);
    assert_eq!(r.seats_approved, 0);
    assert_eq!(r.status, RequestStatus::Pending);
    assert_eq!(r.notes, Some("aisle".to_string()));
}

#[test]
fn request_for_an_unknown_game_is_refused() {
    let mut store = store_with_games();
    assert_eq!(
        refusal_of(create_ticket_request(&mut store, 7, 555, 2, None)),
        Some(EngineError::Validation(ValidationError::UnknownGame { game_pk: 555 }))
    );
    assert!(store.requests().is_empty());
}

#[test]
fn asking_again_rewrites_the_row() {
    let mut store = store_with_games();
    let first = create_ticket_request(&mut store, 7, 123, 2, Some("aisle".to_string())).unwrap();
    let other = create_ticket_request(&mut store, 8, 123, 1, None).unwrap();
    let again = create_ticket_request(&mut store, 7, 123, 3, None).unwrap();
    assert_eq!(again.id, first.id);
    assert_eq!(again.seats_requested, 3);
    assert_eq!(again.notes, None);
    assert_eq!(again.status, RequestStatus::Pending);
    assert_eq!(store.requests().len(), 2);
    assert_eq!(store.requests()[1].id, other.id);
    assert_eq!(store.requests()[1].seats_requested, 1);
    let next = create_ticket_request(&mut store, 7, 124, 1, None).unwrap();
    assert_eq!(next.id, 3);
}

#[test]
fn withdrawn_request_comes_back_with_its_approved_seats() {
    let mut store = store_with_games();
    let r = create_ticket_request(&mut store, 7, 123, 4, None).unwrap();
    assert_eq!(update_request_approval(&mut store, r.id, 2, RequestStatus::Pending), Ok(true));
    assert!(withdraw_ticket_request(&mut store, r.id, 7));
    assert_eq!(store.requests()[0].status, RequestStatus::Withdrawn);
    assert_eq!(store.requests()[0].seats_approved, 2);
    let again = create_ticket_request(&mut store, 7, 123, 1, Some("back".to_string())).unwrap();
    assert_eq!(again.id, r.id);
    assert_eq!(again.status, RequestStatus::Pending);
    assert_eq!(again.seats_approved, 2);
    assert_eq!(again.seats_requested, 1);
    assert_eq!(store.requests().len(), 1);
}

#[test]
fn asking_again_keeps_an_approved_request_approved() {
    let mut store = store_with_games();
    let r = create_ticket_request(&mut store, 7, 123, 4, None).unwrap();
    assert_eq!(update_request_approval(&mut store, r.id, 2, RequestStatus::Approved), Ok(true));
    let again = create_ticket_request(&mut store, 7, 123, 3, None).unwrap();
    assert_eq!(again.status, RequestStatus::Approved);
    assert_eq!(again.seats_approved, 2);
    assert_eq!(again.seats_requested, 3);
}

#[test]
fn only_the_owner_changes_a_pending_request() {
    let mut store = store_with_games();
    let r = create_ticket_request(&mut store, 7, 123, 2, None).unwrap();
    assert_eq!(update_ticket_request(&mut store, r.id, 8, 3), Ok(false));
    assert_eq!(store.requests()[0].seats_requested, 2);
    assert_eq!(update_ticket_request(&mut store, 99, 7, 3), Ok(false));
    assert_eq!(update_ticket_request(&mut store, r.id, 7, 3), Ok(true));
    assert_eq!(store.requests()[0].seats_requested, 3);
    assert_eq!(
        update_ticket_request(&mut store, r.id, 7, 5),
        Err(EngineError::Validation(ValidationError::SeatCount { seats_requested: 5 }))
    );
    assert_eq!(
        update_ticket_request(&mut store, r.id, 7, 0),
        Err(EngineError::Validation(ValidationError::SeatCount { seats_requested: 0 }))
    );
    assert_eq!(store.requests()[0].seats_requested, 3);
}

#[test]
fn approved_and_withdrawn_requests_are_not_changed_by_their_owner() {
    let mut store = store_with_games();
    let a = create_ticket_request(&mut store, 7, 123, 2, None).unwrap();
    let b = create_ticket_request(&mut store, 7, 124, 2, None).unwrap();
    assert_eq!(update_request_approval(&mut store, a.id, 1, RequestStatus::Approved), Ok(true));
    assert!(withdraw_ticket_request(&mut store, b.id, 7));
    assert_eq!(update_ticket_request(&mut store, a.id, 7, 3), Ok(false));
    assert_eq!(update_ticket_request(&mut store, b.id, 7, 3), Ok(false));
    assert!(!withdraw_ticket_request(&mut store, a.id, 7));
    assert!(!withdraw_ticket_request(&mut store, b.id, 7));
    assert_eq!(store.requests()[0].status, RequestStatus::Approved);
    assert_eq!(store.requests()[0].seats_requested, 2);
    assert_eq!(store.requests()[1].status, RequestStatus::Withdrawn);
}

#[test]
fn withdrawal_needs_the_owner() {
    let mut store = store_with_games();
    let r = create_ticket_request(&mut store, 7, 123, 2, None).unwrap();
    assert!(!withdraw_ticket_request(&mut store, r.id, 8));
    assert!(!withdraw_ticket_request(&mut store, 99, 7));
    assert_eq!(store.requests()[0].status, RequestStatus::Pending);
    assert!(withdraw_ticket_request(&mut store, r.id, 7));
    assert_eq!(store.requests()[0].status, RequestStatus::Withdrawn);
}

fn entry(game_pk: i64, seats_requested: i64) -> RequestEntry {
    RequestEntry { game_pk, seats_requested, notes: None }
}

#[test]
fn a_batch_of_requests_is_checked_before_anything_changes() {
    let mut store = store_with_games();
    let bad = vec![entry(123, 2), entry(124, 5), entry(100, 0)];
    assert_eq!(
        create_ticket_requests(&mut store, 7, &bad).err(),
        Some(EngineError::Validation(ValidationError::SeatsRequested {
            game_pk: 124,
            seats_requested: 5
        }))
    );
    assert!(store.requests().is_empty());
    let unknown = vec![entry(123, 2), entry(555, 1)];
    assert_eq!(
        create_ticket_requests(&mut store, 7, &unknown).err(),
        Some(EngineError::Validation(ValidationError::UnknownGame { game_pk: 555 }))
    );
    assert!(store.requests().is_empty());
    let both = vec![entry(555, 2), entry(123, 9)];
    assert_eq!(
        create_ticket_requests(&mut store, 7, &both).err(),
        Some(EngineError::Validation(ValidationError::SeatsRequested {
            game_pk: 123,
            seats_requested: 9
        }))
    );
}

#[test]
fn a_batch_of_requests_is_applied_in_order() {
    let mut store = store_with_games();
    let batch = vec![
        entry(123, 2),
        RequestEntry { game_pk: 124, seats_requested: 1, notes: Some("kids".to_string()) },
        entry(123, 4),
    ];
    let rows = create_ticket_requests(&mut store, 7, &batch).unwrap();
    assert_eq!(rows.len(), 3);
    assert_eq!(rows[0].id, 1);
    assert_eq!(rows[0].seats_requested, 2);
    assert_eq!(rows[1].id, 2);
    assert_eq!(rows[1].notes, Some("kids".to_string()));
    assert_eq!(rows[2].id, 1);
    assert_eq!(rows[2].seats_requested, 4);
    assert_eq!(store.requests().len(), 2);
    assert_eq!(store.requests()[0].seats_requested, 4);
    assert!(create_ticket_requests(&mut store, 7, &Vec::new()).unwrap().is_empty());
}

#[test]
fn requests_are_refused_when_ids_run_out() {
    let parts = StoreParts {
        seats: Vec::new(),
        games: vec![a_game(123)],
        promotions: Vec::new(),
        tickets: Vec::new(),
        users: Vec::new(),
        requests: Vec::new(),
        next_seat_id: 1,
        next_ticket_id: 1,
        next_user_id: 1,
        next_request_id: 2305843009213693951,
    };
    let mut store = Store::from_parts(parts).unwrap();
    assert_eq!(
        refusal_of(create_ticket_request(&mut store, 7, 123, 2, None)),
        Some(EngineError::Storage(StorageError::IdsExhausted))
    );
    assert_eq!(
        create_ticket_requests(&mut store, 7, &vec![entry(123, 1)]).err(),
        Some(EngineError::Storage(StorageError::IdsExhausted))
    );
}

#[test]
fn requests_are_listed_for_users_games_and_admins() {
    let mut store = store_with_games();
    create_ticket_request(&mut store, 7, 124, 1, None).unwrap();
    create_ticket_request(&mut store, 8, 123, 2, None).unwrap();
    create_ticket_request(&mut store, 7, 100, 3, None).unwrap();
    create_ticket_request(&mut store, 7, 123, 4, None).unwrap();
    create_ticket_request(&mut store, 9, 123, 1, None).unwrap();
    assert!(withdraw_ticket_request(&mut store, 5, 9));

    let mine: Vec<i64> = list_requests_for_user(&store, 7).iter().map(|r| r.game_pk).collect();
    assert_eq!(mine, vec![100, 123, 124]);
    let for_game: Vec<i64> = list_requests_for_game(&store, 123).iter().map(|r| r.id).collect();
    assert_eq!(for_game, vec![2, 4, 5]);
    let pending: Vec<(i64, i64)> =
        list_all_pending_requests(&store).iter().map(|r| (r.game_pk, r.id)).collect();
    assert_eq!(pending, vec![(100, 3), (123, 2), (123, 4), (124, 1)]);
    assert!(list_requests_for_user(&store, 99).is_empty());
}
