use gtm::error::{EngineError, StorageError, ValidationError};
use gtm::models::{Game, GameTicket, Seat, TicketStatus};
use gtm::store::allocation::assign_ticket;
use gtm::store::inventory::{
    add_seat, add_seat_batch, add_seat_with_tickets, delete_seat,
    generate_tickets_for_all_seats, generate_tickets_for_seat, update_seat_group_notes,
    update_ticket_status,
};
use gtm::store::reports::{list_seats, list_tickets_for_game, list_tickets_for_user};
use gtm::store::schedule::upsert_game;
use gtm::store::{Store, StoreParts};

fn home_game(game_pk: i64, date: &str) -> Game {
    game_of(game_pk, "San Francisco Giants", date)
}

fn game_of(game_pk: i64, home: &str, date: &str) -> Game {
    Game {
        game_pk,
        game_guid: None,
        game_type: "R".to_string(),
        season: "2025".to_string(),
        game_date: format!("{date}T19:45:00Z"),
        official_date: date.to_string(),
        status_abstract: "Preview".to_string(),
        status_detailed: "Scheduled".to_string(),
        status_code: "S".to_string(),
        start_time_tbd: false,
        away_team_id: 119,
        away_team_name: "Los Angeles Dodgers".to_string(),
        away_score: None,
        away_is_winner: None,
        home_team_id: 137,
        home_team_name: home.to_string(),
        home_score: None,
        home_is_winner: None,
        venue_id: 2395,
        venue_name: "Oracle Park".to_string(),
        day_night: None,
        series_description: None,
        series_game_number: None,
        games_in_series: None,
        double_header: "N".to_string(),
        game_number: 1,
        scheduled_innings: 9,
        is_tie: false,
    }
}

fn new_seat(store: &mut Store, section: &str, row: &str, seat: &str) -> Seat {
    add_seat(store, section.to_string(), row.to_string(), seat.to_string(), None).unwrap()
}

#[test]
fn add_seat_numbers_seats_from_one() {
    let mut store = Store::new();
    let a = new_seat(&mut store, "127", "A", "3");
    let b = add_seat(
        &mut store,
        "127".to_string(),
        "A".to_string(),
        "4".to_string(),
        Some("aisle".to_string()),
    )
    .unwrap();
    assert_eq!(a.id, 1);
    assert_eq!(b.id, 2);
    assert_eq!(a.section, "127");
    assert_eq!(a.row, "A");
    assert_eq!(a.seat, "3");
    assert_eq!(a.notes, None);
    assert_eq!(b.notes, Some("aisle".to_string()));
    assert_eq!(store.seats().len(), 2);
    assert_eq!(store.seats()[1].seat, "4");
}

#[test]
fn add_seat_refuses_empty_labels() {
    let mut store = Store::new();
    let refusal = Err(EngineError::Validation(ValidationError::EmptySeatField));
    assert_eq!(
        add_seat(&mut store, "".to_string(), "A".to_string(), "3".to_string(), None).map(|s| s.id),
        refusal
    );
    assert_eq!(
        add_seat(&mut store, "127".to_string(), "".to_string(), "3".to_string(), None).map(|s| s.id),
        refusal
    );
    assert_eq!(
        add_seat(&mut store, "127".to_string(), "A".to_string(), "".to_string(), None).map(|s| s.id),
        refusal
    );
    assert!(store.seats().is_empty());
    assert_eq!(new_seat(&mut store, "127", "A", "3").id, 1);
}

#[test]
fn ids_of_deleted_seats_are_not_reused() {
    let mut store = Store::new();
    let a = new_seat(&mut store, "127", "A", "3");
    assert!(delete_seat(&mut store, a.id));
    let b = new_seat(&mut store, "127", "A", "3");
    assert_eq!(b.id, 2);
}

#[test]
fn generation_twice_issues_each_ticket_once() {
    let mut store = Store::new();
    upsert_game(&mut store, &home_game(123, "2025-05-01"));
    upsert_game(&mut store, &home_game(124, "2025-05-02"));
    upsert_game(&mut store, &game_of(125, "Los Angeles Dodgers", "2025-05-03"));
    let seat = new_seat(&mut store, "127", "A", "3");
    assert_eq!(generate_tickets_for_seat(&mut store, seat.id), Ok(2));
    assert_eq!(generate_tickets_for_seat(&mut store, seat.id), Ok(0));
    assert_eq!(store.tickets().len(), 2);
    assert_eq!(store.tickets()[0].game_pk, 123);
    assert_eq!(store.tickets()[0].id, 1);
    assert_eq!(store.tickets()[1].game_pk, 124);
    assert_eq!(store.tickets()[1].id, 2);
}

#[test]
fn generation_leaves_assigned_tickets_alone() {
    let mut store = Store::new();
    upsert_game(&mut store, &home_game(123, "2025-05-01"));
    let seat = new_seat(&mut store, "127", "A", "3");
    assert_eq!(generate_tickets_for_seat(&mut store, seat.id), Ok(1));
    assert!(assign_ticket(&mut store, 1, 7));
    upsert_game(&mut store, &home_game(124, "2025-05-02"));
    assert_eq!(generate_tickets_for_seat(&mut store, seat.id), Ok(1));
    assert_eq!(store.tickets().len(), 2);
    assert_eq!(store.tickets()[0].status, TicketStatus::Assigned);
    assert_eq!(store.tickets()[0].assigned_to, Some(7));
    assert_eq!(store.tickets()[1].status, TicketStatus::Available);
    assert_eq!(store.tickets()[1].game_pk, 124);
}

#[test]
fn generation_for_an_unknown_seat_is_refused() {
    let mut store = Store::new();
    upsert_game(&mut store, &home_game(123, "2025-05-01"));
    assert_eq!(
        generate_tickets_for_seat(&mut store, 5),
        Err(EngineError::Validation(ValidationError::UnknownSeat { seat_id: 5 }))
    );
    assert!(store.tickets().is_empty());
}

#[test]
fn generation_for_all_seats_fills_the_gaps() {
    let mut store = Store::new();
    upsert_game(&mut store, &home_game(123, "2025-05-01"));
    let a = new_seat(&mut store, "127", "A", "3");
    let b = new_seat(&mut store, "127", "A", "4");
    assert_eq!(generate_tickets_for_seat(&mut store, a.id), Ok(1));
    upsert_game(&mut store, &home_game(124, "2025-05-02"));
    upsert_game(&mut store, &game_of(125, "Los Angeles Dodgers", "2025-05-03"));
    assert_eq!(generate_tickets_for_all_seats(&mut store), Ok(3));
    assert_eq!(generate_tickets_for_all_seats(&mut store), Ok(0));
    let pairs: Vec<(i64, i64)> = store.tickets().iter().map(|t| (t.seat_id, t.game_pk)).collect();
    assert_eq!(pairs, vec![(a.id, 123), (a.id, 124), (b.id, 123), (b.id, 124)]);
    let ids: Vec<i64> = store.tickets().iter().map(|t| t.id).collect();
    assert_eq!(ids, vec![1, 2, 3, 4]);
}

#[test]
fn generation_is_refused_when_ids_run_out() {
    let parts = StoreParts {
        seats: vec![Seat {
            id: 1,
            section: "127".to_string(),
            row: "A".to_string(),
            seat: "3".to_string(),
            notes: None,
        }],
        games: vec![home_game(123, "2025-05-01")],
        promotions: Vec::new(),
        tickets: Vec::new(),
        users: Vec::new(),
        requests: Vec::new(),
        next_seat_id: i64::MAX,
        next_ticket_id: i64::MAX,
        next_user_id: 1,
        next_request_id: 1,
    };
    let mut store = Store::from_parts(parts).unwrap();
    let exhausted = EngineError::Storage(StorageError::IdsExhausted);
    assert_eq!(generate_tickets_for_seat(&mut store, 1), Err(exhausted));
    assert_eq!(generate_tickets_for_all_seats(&mut store), Err(exhausted));
    assert_eq!(
        add_seat(&mut store, "1".to_string(), "A".to_string(), "1".to_string(), None).map(|s| s.id),
        Err(exhausted)
    );
    assert!(store.tickets().is_empty());
    assert_eq!(store.seats().len(), 1);
}

#[test]
fn batch_adds_a_run_of_seats_with_their_tickets() {
    let mut store = Store::new();
    upsert_game(&mut store, &home_game(123, "2025-05-01"));
    let added = add_seat_batch(
        &mut store,
        "127".to_string(),
        "A".to_string(),
        9,
        11,
        Some("shade".to_string()),
    )
    .unwrap();
    let labels: Vec<&str> = added.iter().map(|s| s.seat.as_str()).collect();
    assert_eq!(labels, vec!["9", "10", "11"]);
    let ids: Vec<i64> = added.iter().map(|s| s.id).collect();
    assert_eq!(ids, vec![1, 2, 3]);
    assert_eq!(added[0].section, "127");
    assert_eq!(added[0].row, "A");
    assert_eq!(added[2].notes, Some("shade".to_string()));
    assert_eq!(store.seats().len(), 3);
    assert_eq!(store.tickets().len(), 3);
    assert_eq!(store.tickets()[2].seat_id, 3);
}

#[test]
fn batch_checks_its_range() {
    let mut store = Store::new();
    assert_eq!(
        add_seat_batch(&mut store, "127".to_string(), "A".to_string(), 5, 4, None).map(|s| s.len()),
        Err(EngineError::Validation(ValidationError::SeatRangeInverted))
    );
    assert_eq!(
        add_seat_batch(&mut store, "127".to_string(), "A".to_string(), 1, 51, None).map(|s| s.len()),
        Err(EngineError::Validation(ValidationError::SeatRangeTooLarge))
    );
    assert_eq!(
        add_seat_batch(&mut store, "".to_string(), "A".to_string(), 1, 2, None).map(|s| s.len()),
        Err(EngineError::Validation(ValidationError::EmptySeatField))
    );
    assert_eq!(
        add_seat_batch(&mut store, "127".to_string(), "A".to_string(), 1, 50, None).map(|s| s.len()),
        Err(EngineError::Validation(ValidationError::SeatRangeTooLarge))
    );
    assert_eq!(
        add_seat_batch(&mut store, "127".to_string(), "A".to_string(), 0, u32::MAX, None)
            .map(|s| s.len()),
        Err(EngineError::Validation(ValidationError::SeatRangeTooLarge))
    );
    assert!(store.seats().is_empty());
    assert_eq!(
        add_seat_batch(&mut store, "127".to_string(), "A".to_string(), 1, 49, None).map(|s| s.len()),
        Ok(49)
    );
    assert_eq!(
        add_seat_batch(&mut store, "127".to_string(), "B".to_string(), 7, 7, None).map(|s| s.len()),
        Ok(1)
    );
    assert_eq!(store.seats().len(), 50);
}

#[test]
fn group_notes_reach_one_row_only() {
    let mut store = Store::new();
    new_seat(&mut store, "127", "A", "3");
    new_seat(&mut store, "127", "B", "3");
    new_seat(&mut store, "127", "A", "4");
    new_seat(&mut store, "128", "A", "3");
    assert_eq!(update_seat_group_notes(&mut store, "127", "A", Some("sun".to_string())), 2);
    assert_eq!(store.seats()[0].notes, Some("sun".to_string()));
    assert_eq!(store.seats()[1].notes, None);
    assert_eq!(store.seats()[2].notes, Some("sun".to_string()));
    assert_eq!(store.seats()[3].notes, None);
    assert_eq!(update_seat_group_notes(&mut store, "127", "A", None), 2);
    assert_eq!(store.seats()[0].notes, None);
    assert_eq!(update_seat_group_notes(&mut store, "900", "A", None), 0);
}

#[test]
fn ticket_notes_change_with_a_matching_status() {
    let mut store = Store::new();
    upsert_game(&mut store, &home_game(123, "2025-05-01"));
    let seat = new_seat(&mut store, "127", "A", "3");
    generate_tickets_for_seat(&mut store, seat.id).unwrap();
    assert_eq!(
        update_ticket_status(&mut store, 1, TicketStatus::Available, Some("wet".to_string())),
        Ok(true)
    );
    assert_eq!(store.tickets()[0].notes, Some("wet".to_string()));
    assert_eq!(
        update_ticket_status(&mut store, 1, TicketStatus::Assigned, None),
        Err(EngineError::Validation(ValidationError::StatusMismatch { ticket_id: 1 }))
    );
    assert_eq!(store.tickets()[0].notes, Some("wet".to_string()));
    assert_eq!(store.tickets()[0].status, TicketStatus::Available);
    assert_eq!(update_ticket_status(&mut store, 9, TicketStatus::Available, None), Ok(false));
}

#[test]
fn seats_are_listed_by_section_row_and_seat() {
    let mut store = Store::new();
    new_seat(&mut store, "128", "A", "1");
    new_seat(&mut store, "127", "B", "2");
    new_seat(&mut store, "127", "A", "3");
    new_seat(&mut store, "127", "A", "10");
    new_seat(&mut store, "127", "A", "3");
    let listed = list_seats(&store);
    let labels: Vec<(&str, &str, &str, i64)> =
        listed.iter().map(|s| (s.section.as_str(), s.row.as_str(), s.seat.as_str(), s.id)).collect();
    assert_eq!(
        labels,
        vec![
            ("127", "A", "10", 4),
            ("127", "A", "3", 3),
            ("127", "A", "3", 5),
            ("127", "B", "2", 2),
            ("128", "A", "1", 1),
        ]
    );
}

#[test]
fn tickets_of_a_game_are_listed_by_seat() {
    let mut store = Store::new();
    upsert_game(&mut store, &home_game(123, "2025-05-01"));
    upsert_game(&mut store, &home_game(124, "2025-05-02"));
    new_seat(&mut store, "127", "B", "2");
    new_seat(&mut store, "127", "A", "3");
    generate_tickets_for_all_seats(&mut store).unwrap();
    assert!(assign_ticket(&mut store, 3, 7));
    let listed = list_tickets_for_game(&store, 123);
    assert_eq!(listed.len(), 2);
    assert_eq!(listed[0].row, "A");
    assert_eq!(listed[0].id, 3);
    assert_eq!(listed[0].seat_id, 2);
    assert_eq!(listed[0].status, TicketStatus::Assigned);
    assert_eq!(listed[0].assigned_to, Some(7));
    assert_eq!(listed[1].row, "B");
    assert_eq!(listed[1].id, 1);
    assert_eq!(listed[1].game_pk, 123);
    assert!(list_tickets_for_game(&store, 999).is_empty());
}

#[test]
fn tickets_of_a_user_are_listed_by_game_then_seat() {
    let mut store = Store::new();
    upsert_game(&mut store, &home_game(124, "2025-05-02"));
    upsert_game(&mut store, &home_game(123, "2025-05-01"));
    new_seat(&mut store, "127", "B", "2");
    new_seat(&mut store, "127", "A", "3");
    generate_tickets_for_all_seats(&mut store).unwrap();
    for id in 1..=4 {
        assert!(assign_ticket(&mut store, id, if id == 2 { 8 } else { 7 }));
    }
    let listed = list_tickets_for_user(&store, 7);
    let keys: Vec<(i64, &str)> = listed.iter().map(|t| (t.game_pk, t.row.as_str())).collect();
    assert_eq!(keys, vec![(123, "A"), (124, "A"), (124, "B")]);
    assert!(list_tickets_for_user(&store, 9).is_empty());
}

#[test]
fn a_store_is_rebuilt_from_its_parts() {
    let mut store = Store::new();
    upsert_game(&mut store, &home_game(123, "2025-05-01"));
    let seat = new_seat(&mut store, "127", "A", "3");
    generate_tickets_for_seat(&mut store, seat.id).unwrap();
    assert!(assign_ticket(&mut store, 1, 7));
    let parts = store.into_parts();
    assert_eq!(parts.next_seat_id, 2);
    assert_eq!(parts.next_ticket_id, 2);
    let mut again = Store::from_parts(parts).unwrap();
    assert_eq!(again.tickets()[0].assigned_to, Some(7));
    assert_eq!(new_seat(&mut again, "127", "A", "4").id, 2);
}

#[test]
fn parts_that_break_the_rules_are_refused() {
    let seat = |id: i64| Seat {
        id,
        section: "127".to_string(),
        row: "A".to_string(),
        seat: "3".to_string(),
        notes: None,
    };
    let ticket = |id: i64, seat_id: i64, status: TicketStatus, assigned_to: Option<i64>| GameTicket {
        id,
        game_pk: 123,
        seat_id,
        status,
        notes: None,
        assigned_to,
    };
    let parts = |seats: Vec<Seat>, tickets: Vec<GameTicket>, games: Vec<Game>| StoreParts {
        seats,
        games,
        promotions: Vec::new(),
        tickets,
        users: Vec::new(),
        requests: Vec::new(),
        next_seat_id: 10,
        next_ticket_id: 10,
        next_user_id: 1,
        next_request_id: 1,
    };
    let games = || vec![home_game(123, "2025-05-01")];
    assert!(Store::from_parts(parts(
        vec![seat(1)],
        vec![ticket(1, 1, TicketStatus::Available, None)],
        games()
    ))
    .is_some());
    assert!(Store::from_parts(parts(vec![seat(1), seat(1)], Vec::new(), games())).is_none());
    assert!(Store::from_parts(parts(vec![seat(10)], Vec::new(), games())).is_none());
    assert!(Store::from_parts(parts(
        vec![seat(1)],
        vec![ticket(1, 2, TicketStatus::Available, None)],
        games()
    ))
    .is_none());
    assert!(Store::from_parts(parts(
        vec![seat(1)],
        vec![ticket(1, 1, TicketStatus::Available, Some(7))],
        games()
    ))
    .is_none());
    assert!(Store::from_parts(parts(
        vec![seat(1)],
        vec![ticket(1, 1, TicketStatus::Assigned, None)],
        games()
    ))
    .is_none());
    assert!(Store::from_parts(parts(
        vec![seat(1)],
        vec![
            ticket(1, 1, TicketStatus::Available, None),
            ticket(2, 1, TicketStatus::Available, None)
        ],
        games()
    ))
    .is_none());
    assert!(Store::from_parts(parts(
        vec![seat(1)],
        vec![ticket(1, 1, TicketStatus::Available, None)],
        vec![game_of(123, "Los Angeles Dodgers", "2025-05-01")]
    ))
    .is_none());
    assert!(Store::from_parts(parts(
        Vec::new(),
        Vec::new(),
        vec![home_game(123, "2025-05-01"), home_game(123, "2025-05-02")]
    ))
    .is_none());
}

#[test]
fn a_seat_is_added_with_its_tickets() {
    let mut store = Store::new();
    upsert_game(&mut store, &home_game(123, "2025-05-01"));
    upsert_game(&mut store, &game_of(125, "Los Angeles Dodgers", "2025-05-03"));
    upsert_game(&mut store, &home_game(124, "2025-05-02"));
    let (seat, count) = add_seat_with_tickets(
        &mut store,
        "127".to_string(),
        "A".to_string(),
        "3".to_string(),
        Some("aisle".to_string()),
    )
    .unwrap();
    assert_eq!(seat.id, 1);
    assert_eq!(seat.notes, Some("aisle".to_string()));
    assert_eq!(count, 2);
    assert_eq!(store.seats().len(), 1);
    let games: Vec<i64> = store.tickets().iter().map(|t| t.game_pk).collect();
    assert_eq!(games, vec![123, 124]);
    assert_eq!(
        add_seat_with_tickets(&mut store, "127".to_string(), "A".to_string(), "".to_string(), None)
            .map(|r| r.1),
        Err(EngineError::Validation(ValidationError::EmptySeatField))
    );
    assert_eq!(store.seats().len(), 1);
    assert_eq!(store.tickets().len(), 2);
}

fn parts_with_last_ticket_id(tickets: Vec<GameTicket>, games: Vec<Game>) -> StoreParts {
    StoreParts {
        seats: vec![Seat {
            id: 1,
            section: "127".to_string(),
            row: "A".to_string(),
            seat: "3".to_string(),
            notes: None,
        }],
        games,
        promotions: Vec::new(),
        tickets,
        users: Vec::new(),
        requests: Vec::new(),
        next_seat_id: 2,
        next_ticket_id: i64::MAX,
        next_user_id: 1,
        next_request_id: 1,
    }
}

#[test]
fn generation_that_owes_nothing_needs_no_ids() {
    let ticket = GameTicket {
        id: 5,
        game_pk: 123,
        seat_id: 1,
        status: TicketStatus::Assigned,
        notes: None,
        assigned_to: Some(7),
    };
    let games = vec![home_game(123, "2025-05-01"), game_of(125, "Los Angeles Dodgers", "2025-05-03")];
    let mut store = Store::from_parts(parts_with_last_ticket_id(vec![ticket], games)).unwrap();
    assert_eq!(generate_tickets_for_seat(&mut store, 1), Ok(0));
    assert_eq!(generate_tickets_for_all_seats(&mut store), Ok(0));
    assert_eq!(store.tickets().len(), 1);
    assert_eq!(store.tickets()[0].assigned_to, Some(7));
    upsert_game(&mut store, &home_game(124, "2025-05-02"));
    let exhausted = EngineError::Storage(StorageError::IdsExhausted);
    assert_eq!(generate_tickets_for_seat(&mut store, 1), Err(exhausted));
    assert_eq!(generate_tickets_for_all_seats(&mut store), Err(exhausted));
    assert_eq!(store.tickets().len(), 1);
}

#[test]
fn the_last_ticket_id_is_never_issued() {
    let mut parts = parts_with_last_ticket_id(Vec::new(), vec![home_game(123, "2025-05-01")]);
    parts.next_ticket_id = i64::MAX - 1;
    let mut store = Store::from_parts(parts).unwrap();
    assert_eq!(generate_tickets_for_seat(&mut store, 1), Ok(1));
    assert_eq!(store.tickets()[0].id, i64::MAX - 1);
    upsert_game(&mut store, &home_game(124, "2025-05-02"));
    assert_eq!(
        generate_tickets_for_seat(&mut store, 1),
        Err(EngineError::Storage(StorageError::IdsExhausted))
    );
    assert_eq!(
        add_seat_with_tickets(&mut store, "127".to_string(), "A".to_string(), "4".to_string(), None)
            .map(|r| r.1),
        Err(EngineError::Storage(StorageError::IdsExhausted))
    );
    assert_eq!(
        add_seat_batch(&mut store, "127".to_string(), "B".to_string(), 1, 2, None).map(|s| s.len()),
        Err(EngineError::Storage(StorageError::IdsExhausted))
    );
    assert_eq!(store.seats().len(), 1);
    assert_eq!(store.tickets().len(), 1);
}
