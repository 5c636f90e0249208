use gtm::models::{Game, RequestStatus, TicketStatus};
use gtm::store::allocation::{
    assign_ticket, batch_assign, release_tickets_for_game, revoke_ticket, update_request_approval,
    Assignment,
};
use gtm::store::inventory::{add_seat, delete_seat, generate_tickets_for_seat};
use gtm::store::ledger::create_ticket_request;
use gtm::store::schedule::upsert_game;
use gtm::store::summary::{
    allocation_detail, allocation_overview, allocation_summary, ticket_summary_for_games,
};
use gtm::store::directory::upsert_user;
use gtm::models::Role;
use gtm::error::{EngineError, StorageError, ValidationError};
use gtm::store::Store;

fn game(game_pk: i64, home: &str, date: &str) -> Game {
    Game {
        game_pk,
        game_guid: None,
        game_type: "R".to_string(),
        season: "2025".to_string(),
        game_date: format!("{date}T19:45:00Z"),
        official_date: date.to_string(),
        status_abstract: "Preview".to_string(),
        status_detailed: "Scheduled".to_string(),
        status_code: "S".to_string(),
        start_time_tbd: false,
        away_team_id: 119,
        away_team_name: "Los Angeles Dodgers".to_string(),
        away_score: None,
        away_is_winner: None,
        home_team_id: 137,
        home_team_name: home.to_string(),
        home_score: None,
        home_is_winner: None,
        venue_id: 2395,
        venue_name: "Oracle Park".to_string(),
        day_night: Some("night".to_string()),
        series_description: None,
        series_game_number: None,
        games_in_series: None,
        double_header: "N".to_string(),
        game_number: 1,
        scheduled_innings: 9,
        is_tie: false,
    }
}

fn store_with_one_home_game() -> Store {
    let mut store = Store::new();
    upsert_game(&mut store, &game(123, "San Francisco Giants", "2025-05-01"));
    store
}

fn seat(store: &mut Store, number: &str) -> i64 {
    let s = add_seat(store, "127".to_string(), "A".to_string(), number.to_string(), None).unwrap();
    generate_tickets_for_seat(store, s.id).unwrap();
    s.id
}

#[test]
fn seat_ticket_assign_and_revoke() {
    let mut store = store_with_one_home_game();
    let seat = add_seat(&mut store, "127".to_string(), "A".to_string(), "3".to_string(), None).unwrap();
    assert_eq!(seat.id, 1);
    assert_eq!(generate_tickets_for_seat(&mut store, seat.id), Ok(1));
    assert_eq!(store.tickets().len(), 1);
    let ticket_id = store.tickets()[0].id;
    assert_eq!(store.tickets()[0].status, TicketStatus::Available);
    assert_eq!(store.tickets()[0].assigned_to, None);
    assert_eq!(store.tickets()[0].game_pk, 123);
    assert_eq!(store.tickets()[0].seat_id, seat.id);

    assert!(assign_ticket(&mut store, ticket_id, 7));
    assert_eq!(store.tickets()[0].status, TicketStatus::Assigned);
    assert_eq!(store.tickets()[0].assigned_to, Some(7));

    assert!(revoke_ticket(&mut store, ticket_id));
    assert_eq!(store.tickets()[0].status, TicketStatus::Available);
    assert_eq!(store.tickets()[0].assigned_to, None);
}

#[test]
fn second_assignment_of_a_ticket_fails() {
    let mut store = store_with_one_home_game();
    seat(&mut store, "3");
    let ticket_id = store.tickets()[0].id;
    assert!(assign_ticket(&mut store, ticket_id, 7));
    assert!(!assign_ticket(&mut store, ticket_id, 8));
    assert_eq!(store.tickets()[0].assigned_to, Some(7));
    assert_eq!(store.tickets()[0].status, TicketStatus::Assigned);
}

#[test]
fn second_assignment_fails_whoever_comes_first() {
    let mut store = store_with_one_home_game();
    seat(&mut store, "3");
    let ticket_id = store.tickets()[0].id;
    assert!(assign_ticket(&mut store, ticket_id, 8));
    assert!(!assign_ticket(&mut store, ticket_id, 7));
    assert_eq!(store.tickets()[0].assigned_to, Some(8));
}

#[test]
fn assignment_of_an_unknown_ticket_fails() {
    let mut store = store_with_one_home_game();
    seat(&mut store, "3");
    assert!(!assign_ticket(&mut store, 42, 7));
    assert_eq!(store.tickets()[0].assigned_to, None);
}

#[test]
fn revoke_of_an_available_ticket_does_nothing() {
    let mut store = store_with_one_home_game();
    seat(&mut store, "3");
    let ticket_id = store.tickets()[0].id;
    assert!(!revoke_ticket(&mut store, ticket_id));
    assert_eq!(store.tickets()[0].assigned_to, None);
    assert_eq!(store.tickets()[0].status, TicketStatus::Available);
    assert!(!revoke_ticket(&mut store, 999));
}

#[test]
fn release_leaves_the_tickets_of_others() {
    let mut store = store_with_one_home_game();
    seat(&mut store, "3");
    seat(&mut store, "4");
    seat(&mut store, "5");
    assert!(assign_ticket(&mut store, 1, 7));
    assert!(assign_ticket(&mut store, 2, 8));
    assert!(assign_ticket(&mut store, 3, 7));
    assert_eq!(release_tickets_for_game(&mut store, 123, 7), 2);
    assert_eq!(store.tickets()[0].assigned_to, None);
    assert_eq!(store.tickets()[0].status, TicketStatus::Available);
    assert_eq!(store.tickets()[1].assigned_to, Some(8));
    assert_eq!(store.tickets()[1].status, TicketStatus::Assigned);
    assert_eq!(store.tickets()[2].assigned_to, None);
    assert_eq!(release_tickets_for_game(&mut store, 123, 7), 0);
    assert_eq!(release_tickets_for_game(&mut store, 999, 8), 0);
    assert_eq!(store.tickets()[1].assigned_to, Some(8));
}

#[test]
fn release_is_scoped_to_the_game() {
    let mut store = store_with_one_home_game();
    upsert_game(&mut store, &game(124, "San Francisco Giants", "2025-05-02"));
    seat(&mut store, "3");
    assert!(assign_ticket(&mut store, 1, 7));
    assert!(assign_ticket(&mut store, 2, 7));
    assert_eq!(release_tickets_for_game(&mut store, 124, 7), 1);
    assert_eq!(store.tickets()[0].assigned_to, Some(7));
    assert_eq!(store.tickets()[1].assigned_to, None);
}

#[test]
fn deleting_a_seat_removes_its_assigned_ticket() {
    let mut store = store_with_one_home_game();
    let a = seat(&mut store, "3");
    let b = seat(&mut store, "4");
    assert!(assign_ticket(&mut store, 1, 7));
    assert!(delete_seat(&mut store, a));
    assert_eq!(store.seats().len(), 1);
    assert_eq!(store.tickets().len(), 1);
    assert_eq!(store.tickets()[0].seat_id, b);
    assert!(!delete_seat(&mut store, a));
    assert!(!revoke_ticket(&mut store, 1));
}

#[test]
fn batch_assignment_credits_the_request() {
    let mut store = store_with_one_home_game();
    seat(&mut store, "3");
    seat(&mut store, "4");
    seat(&mut store, "5");
    let request = create_ticket_request(&mut store, 7, 123, 4, None).unwrap();
    assert_eq!(request.status, RequestStatus::Pending);
    assert_eq!(request.seats_approved, 0);
    assert_eq!(request.seats_requested, 4);

    let before = allocation_summary(&store);
    assert_eq!(before, vec![(123, 3, 0, 3, 4)]);
    let overview = allocation_overview(&store);
    assert!(overview[0].oversubscribed);

    let batch = vec![
        Assignment { game_ticket_id: 1, user_id: 7, request_id: Some(request.id) },
        Assignment { game_ticket_id: 2, user_id: 7, request_id: Some(request.id) },
    ];
    assert_eq!(batch_assign(&mut store, &batch), Ok(2));
    assert_eq!(store.requests()[0].seats_approved, 2);
    assert_eq!(store.requests()[0].status, RequestStatus::Approved);
    assert_eq!(store.tickets()[0].assigned_to, Some(7));
    assert_eq!(store.tickets()[1].assigned_to, Some(7));
    assert_eq!(store.tickets()[2].assigned_to, None);

    let after = allocation_summary(&store);
    assert_eq!(after, vec![(123, 3, 2, 1, 0)]);
    let overview = allocation_overview(&store);
    assert_eq!(overview.len(), 1);
    assert_eq!(overview[0].game_pk, 123);
    assert_eq!(overview[0].official_date, "2025-05-01");
    assert_eq!(overview[0].away_team_name, "Los Angeles Dodgers");
    assert_eq!(overview[0].total_requested, 0);
    assert!(!overview[0].oversubscribed);
}

#[test]
fn batch_assignment_passes_over_taken_tickets() {
    let mut store = store_with_one_home_game();
    seat(&mut store, "3");
    seat(&mut store, "4");
    let first = create_ticket_request(&mut store, 7, 123, 2, None).unwrap();
    let second = create_ticket_request(&mut store, 8, 123, 1, None).unwrap();
    assert!(assign_ticket(&mut store, 2, 9));
    let batch = vec![
        Assignment { game_ticket_id: 1, user_id: 7, request_id: Some(first.id) },
        Assignment { game_ticket_id: 1, user_id: 8, request_id: Some(second.id) },
        Assignment { game_ticket_id: 2, user_id: 8, request_id: Some(second.id) },
        Assignment { game_ticket_id: 77, user_id: 8, request_id: None },
    ];
    assert_eq!(batch_assign(&mut store, &batch), Ok(1));
    assert_eq!(store.tickets()[0].assigned_to, Some(7));
    assert_eq!(store.tickets()[1].assigned_to, Some(9));
    assert_eq!(store.requests()[0].seats_approved, 1);
    assert_eq!(store.requests()[0].status, RequestStatus::Approved);
    assert_eq!(store.requests()[1].seats_approved, 0);
    assert_eq!(store.requests()[1].status, RequestStatus::Pending);
}

#[test]
fn batch_assignment_without_request_only_assigns() {
    let mut store = store_with_one_home_game();
    seat(&mut store, "3");
    create_ticket_request(&mut store, 7, 123, 2, None).unwrap();
    let batch = vec![Assignment { game_ticket_id: 1, user_id: 7, request_id: None }];
    assert_eq!(batch_assign(&mut store, &batch), Ok(1));
    assert_eq!(store.requests()[0].seats_approved, 0);
    assert_eq!(store.requests()[0].status, RequestStatus::Pending);
    assert_eq!(batch_assign(&mut store, &Vec::new()), Ok(0));
}

#[test]
fn approvals_add_up() {
    let mut store = store_with_one_home_game();
    let request = create_ticket_request(&mut store, 7, 123, 4, None).unwrap();
    assert_eq!(
        update_request_approval(&mut store, request.id, 1, RequestStatus::Approved),
        Ok(true)
    );
    assert_eq!(
        update_request_approval(&mut store, request.id, 2, RequestStatus::Approved),
        Ok(true)
    );
    assert_eq!(store.requests()[0].seats_approved, 3);
    assert_eq!(store.requests()[0].status, RequestStatus::Approved);
    assert_eq!(update_request_approval(&mut store, 99, 2, RequestStatus::Approved), Ok(false));
    assert_eq!(
        update_request_approval(&mut store, request.id, -1, RequestStatus::Approved),
        Err(EngineError::Validation(ValidationError::NegativeApproval { request_id: request.id }))
    );
    assert_eq!(store.requests()[0].seats_approved, 3);
}

#[test]
fn approval_that_overflows_is_refused() {
    let mut store = store_with_one_home_game();
    let request = create_ticket_request(&mut store, 7, 123, 4, None).unwrap();
    assert_eq!(
        update_request_approval(&mut store, request.id, i64::MAX, RequestStatus::Approved),
        Ok(true)
    );
    assert_eq!(
        update_request_approval(&mut store, request.id, 1, RequestStatus::Approved),
        Err(EngineError::Storage(StorageError::CounterOverflow))
    );
    assert_eq!(store.requests()[0].seats_approved, i64::MAX);
}

#[test]
fn a_batch_is_refused_only_for_a_request_it_credits() {
    let mut store = store_with_one_home_game();
    seat(&mut store, "3");
    seat(&mut store, "4");
    let full = create_ticket_request(&mut store, 7, 123, 4, None).unwrap();
    let other = create_ticket_request(&mut store, 8, 123, 1, None).unwrap();
    assert_eq!(
        update_request_approval(&mut store, full.id, i64::MAX, RequestStatus::Approved),
        Ok(true)
    );
    let names_no_ticket =
        vec![Assignment { game_ticket_id: 99, user_id: 7, request_id: Some(full.id) }];
    assert_eq!(batch_assign(&mut store, &names_no_ticket), Ok(0));
    let credits_full = vec![
        Assignment { game_ticket_id: 2, user_id: 8, request_id: Some(other.id) },
        Assignment { game_ticket_id: 1, user_id: 7, request_id: Some(full.id) },
    ];
    assert_eq!(
        batch_assign(&mut store, &credits_full),
        Err(EngineError::Storage(StorageError::CounterOverflow))
    );
    assert_eq!(store.tickets()[0].assigned_to, None);
    assert_eq!(store.tickets()[1].assigned_to, None);
    assert_eq!(store.requests()[1].seats_approved, 0);
    assert_eq!(store.requests()[0].seats_approved, i64::MAX);
    let credits_other = vec![
        Assignment { game_ticket_id: 2, user_id: 8, request_id: Some(other.id) },
        Assignment { game_ticket_id: 1, user_id: 7, request_id: None },
    ];
    assert_eq!(batch_assign(&mut store, &credits_other), Ok(2));
    assert_eq!(store.requests()[1].seats_approved, 1);
    assert_eq!(store.requests()[1].status, RequestStatus::Approved);
    assert_eq!(store.tickets()[0].assigned_to, Some(7));
    assert_eq!(store.tickets()[1].assigned_to, Some(8));
}

#[test]
fn summary_counts_pending_requests_only() {
    let mut store = store_with_one_home_game();
    upsert_game(&mut store, &game(120, "San Francisco Giants", "2025-04-01"));
    upsert_game(&mut store, &game(125, "Los Angeles Dodgers", "2025-04-15"));
    upsert_game(&mut store, &game(126, "San Francisco Giants", "2025-06-01"));
    seat(&mut store, "3");
    seat(&mut store, "4");
    let a = create_ticket_request(&mut store, 7, 123, 4, None).unwrap();
    create_ticket_request(&mut store, 8, 123, 3, None).unwrap();
    create_ticket_request(&mut store, 9, 120, 2, None).unwrap();
    assert!(gtm::store::ledger::withdraw_ticket_request(&mut store, a.id, 7));
    assert!(assign_ticket(&mut store, 1, 8));
    let summary = allocation_summary(&store);
    assert_eq!(summary, vec![(120, 2, 0, 2, 2), (123, 2, 1, 1, 3), (126, 2, 0, 2, 0)]);
    let overview = allocation_overview(&store);
    assert!(!overview[0].oversubscribed);
    assert!(overview[1].oversubscribed);
    assert!(!overview[2].oversubscribed);
    assert_eq!(ticket_summary_for_games(&store), vec![(123, 2, 1), (120, 2, 2), (126, 2, 2)]);
}

#[test]
fn summary_of_an_empty_store_is_empty() {
    let store = store_with_one_home_game();
    assert!(allocation_summary(&store).is_empty());
    assert!(allocation_overview(&store).is_empty());
    assert!(ticket_summary_for_games(&store).is_empty());
}

#[test]
fn detail_names_holders_and_requesters() {
    let mut store = store_with_one_home_game();
    let ann = upsert_user(
        &mut store,
        "auth0|ann".to_string(),
        "ann@example.com".to_string(),
        "Ann".to_string(),
        Role::Member,
    )
    .unwrap();
    seat(&mut store, "4");
    seat(&mut store, "3");
    seat(&mut store, "10");
    assert!(assign_ticket(&mut store, 1, ann.id));
    assert!(assign_ticket(&mut store, 2, 555));
    create_ticket_request(&mut store, 555, 123, 1, Some("aisle".to_string())).unwrap();
    create_ticket_request(&mut store, ann.id, 123, 2, None).unwrap();

    let detail = allocation_detail(&store, 123).unwrap();
    assert_eq!(detail.game.game_pk, 123);
    assert_eq!(detail.tickets.len(), 3);
    assert_eq!(detail.tickets[0].seat, "10");
    assert_eq!(detail.tickets[0].assigned_user_name, None);
    assert_eq!(detail.tickets[1].seat, "3");
    assert_eq!(detail.tickets[1].assigned_to, Some(555));
    assert_eq!(detail.tickets[1].assigned_user_name, None);
    assert_eq!(detail.tickets[2].seat, "4");
    assert_eq!(detail.tickets[2].assigned_to, Some(ann.id));
    assert_eq!(detail.tickets[2].assigned_user_name, Some("Ann".to_string()));
    assert_eq!(detail.tickets[2].status, TicketStatus::Assigned);
    assert_eq!(detail.requests.len(), 2);
    assert_eq!(detail.requests[0].user_id, 555);
    assert_eq!(detail.requests[0].user_name, "");
    assert_eq!(detail.requests[0].notes, Some("aisle".to_string()));
    assert_eq!(detail.requests[1].user_name, "Ann");
    assert_eq!(detail.requests[1].seats_requested, 2);
    assert!(allocation_detail(&store, 999).is_none());
}
