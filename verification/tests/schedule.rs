use gtm::error::{EngineError, StorageError};
use gtm::feed::{
    collect_schedule, convert_promotions, schedule_url, ApiGame, ApiPromotion, DateEntry,
    GameStatus, ScheduleData, ScheduleResponse, TeamInfo, TeamSide, Teams, Venue,
};
use gtm::models::{Game, Promotion, Role, Seat};
use gtm::store::directory::{
    caller_is_current, get_user_by_sub, require_admin, resolve_user, upsert_user,
};
use gtm::store::inventory::add_seat;
use gtm::store::reports::{get_promotions_for_game, list_games, list_users};
use gtm::store::schedule::{
    get_game, import_schedule, upsert_game, upsert_promotion, ImportCounts,
};
use gtm::store::{Store, StoreParts};

fn api_game(game_pk: i64, home: &str, away: &str) -> ApiGame {
    ApiGame {
        game_pk,
        game_guid: Some(format!("guid-{game_pk}")),
        game_type: "R".to_string(),
        season: "2025".to_string(),
        game_date: "2025-05-01T19:45:00Z".to_string(),
        official_date: "2025-05-01".to_string(),
        status: GameStatus {
            abstract_game_state: "Preview".to_string(),
            detailed_state: "Scheduled".to_string(),
            status_code: "S".to_string(),
            start_time_tbd: None,
        },
        teams: Teams {
            away: TeamSide {
                team: TeamInfo { id: 119, name: away.to_string() },
                score: Some(2),
                is_winner: Some(false),
            },
            home: TeamSide {
                team: TeamInfo { id: 137, name: home.to_string() },
                score: Some(3),
                is_winner: Some(true),
            },
        },
        venue: Venue { id: 2395, name: "Oracle Park".to_string() },
        is_tie: None,
        game_number: None,
        double_header: None,
        day_night: Some("night".to_string()),
        scheduled_innings: None,
        games_in_series: Some(3),
        series_game_number: Some(1),
        series_description: Some("Regular Season".to_string()),
        promotions: Vec::new(),
    }
}

fn api_promotion(offer_id: i64, name: &str, order: i64) -> ApiPromotion {
    ApiPromotion {
        offer_id,
        name: name.to_string(),
        offer_type: Some("Giveaway".to_string()),
        description: None,
        distribution: None,
        presented_by: None,
        alt_page_url: None,
        tlink: Some("https://tickets.example".to_string()),
        thumbnail_url: None,
        image_url: None,
        order,
    }
}

fn stored(game_pk: i64, home: &str, official_date: &str, game_date: &str) -> Game {
    let mut g = Game::from_api(api_game(game_pk, home, "Los Angeles Dodgers"));
    g.official_date = official_date.to_string();
    g.game_date = game_date.to_string();
    g
}

#[test]
fn a_reported_game_is_stored_with_defaults() {
    let g = Game::from_api(api_game(123, "San Francisco Giants", "Los Angeles Dodgers"));
    assert_eq!(g.game_pk, 123);
    assert_eq!(g.game_guid, Some("guid-123".to_string()));
    assert_eq!(g.status_abstract, "Preview");
    assert_eq!(g.status_detailed, "Scheduled");
    assert_eq!(g.status_code, "S");
    assert!(!g.start_time_tbd);
    assert_eq!(g.away_team_id, 119);
    assert_eq!(g.away_team_name, "Los Angeles Dodgers");
    assert_eq!(g.away_score, Some(2));
    assert_eq!(g.away_is_winner, Some(false));
    assert_eq!(g.home_team_id, 137);
    assert_eq!(g.home_team_name, "San Francisco Giants");
    assert_eq!(g.home_score, Some(3));
    assert_eq!(g.home_is_winner, Some(true));
    assert_eq!(g.venue_id, 2395);
    assert_eq!(g.venue_name, "Oracle Park");
    assert_eq!(g.double_header, "N");
    assert_eq!(g.game_number, 1);
    assert_eq!(g.scheduled_innings, 9);
    assert!(!g.is_tie);
    assert_eq!(g.games_in_series, Some(3));
    assert_eq!(g.series_game_number, Some(1));
}

#[test]
fn a_reported_game_keeps_what_the_report_says() {
    let mut api = api_game(123, "San Francisco Giants", "Los Angeles Dodgers");
    api.status.start_time_tbd = Some(true);
    api.is_tie = Some(true);
    api.game_number = Some(2);
    api.double_header = Some("Y".to_string());
    api.scheduled_innings = Some(7);
    let g = Game::from_api(api);
    assert!(g.start_time_tbd);
    assert!(g.is_tie);
    assert_eq!(g.game_number, 2);
    assert_eq!(g.double_header, "Y");
    assert_eq!(g.scheduled_innings, 7);
    assert_eq!(g.time_display(), "TBD");
}

#[test]
fn promotions_are_converted_in_order() {
    let promos =
        convert_promotions(123, vec![api_promotion(1, "Cap", 2), api_promotion(2, "Bobblehead", 1)]);
    assert_eq!(promos.len(), 2);
    assert_eq!(promos[0].offer_id, 1);
    assert_eq!(promos[0].game_pk, 123);
    assert_eq!(promos[0].name, "Cap");
    assert_eq!(promos[0].offer_type, Some("Giveaway".to_string()));
    assert_eq!(promos[0].ticket_link, Some("https://tickets.example".to_string()));
    assert_eq!(promos[0].display_order, 2);
    assert_eq!(promos[1].name, "Bobblehead");
    assert!(convert_promotions(1, Vec::new()).is_empty());
}

#[test]
fn a_schedule_is_collected_day_by_day() {
    let mut first = api_game(123, "San Francisco Giants", "Los Angeles Dodgers");
    first.promotions = vec![api_promotion(1, "Cap", 1)];
    let second = api_game(124, "San Francisco Giants", "Los Angeles Dodgers");
    let mut third = api_game(125, "Los Angeles Dodgers", "San Francisco Giants");
    third.promotions = vec![api_promotion(2, "Towel", 1), api_promotion(3, "Pin", 2)];
    let resp = ScheduleResponse {
        dates: vec![
            DateEntry { games: vec![first, second] },
            DateEntry { games: Vec::new() },
            DateEntry { games: vec![third] },
        ],
    };
    let data = collect_schedule(resp);
    let keys: Vec<i64> = data.games.iter().map(|g| g.game_pk).collect();
    assert_eq!(keys, vec![123, 124, 125]);
    let promos: Vec<(i64, i64)> = data.promotions.iter().map(|p| (p.game_pk, p.offer_id)).collect();
    assert_eq!(promos, vec![(123, 1), (125, 2), (125, 3)]);
}

#[test]
fn the_schedule_address_names_the_season() {
    assert_eq!(
        schedule_url(2025),
        "https://statsapi.mlb.com/api/v1/schedule?teamId=137&season=2025&sportId=1&gameType=R&hydrate=game(promotions)"
    );
    assert!(schedule_url(0).contains("season=0&"));
}

#[test]
fn a_known_game_is_refreshed_not_replaced() {
    let mut store = Store::new();
    upsert_game(&mut store, &stored(123, "San Francisco Giants", "2025-05-01", "2025-05-01T19:45:00Z"));
    let mut later = stored(123, "Los Angeles Dodgers", "2025-05-02", "2025-05-01T20:15:00Z");
    later.status_detailed = "Final".to_string();
    later.home_score = Some(9);
    later.venue_name = "Elsewhere".to_string();
    upsert_game(&mut store, &later);
    assert_eq!(store.games().len(), 1);
    let g = get_game(&store, 123).unwrap();
    assert_eq!(g.game_date, "2025-05-01T20:15:00Z");
    assert_eq!(g.status_detailed, "Final");
    assert_eq!(g.home_score, Some(9));
    assert_eq!(g.home_team_name, "San Francisco Giants");
    assert_eq!(g.official_date, "2025-05-01");
    assert_eq!(g.venue_name, "Oracle Park");
    assert!(get_game(&store, 5).is_none());
}

#[test]
fn games_are_listed_by_start_and_month() {
    let mut store = Store::new();
    upsert_game(&mut store, &stored(3, "San Francisco Giants", "2025-06-02", "2025-06-03T02:10:00Z"));
    upsert_game(&mut store, &stored(1, "San Francisco Giants", "2025-05-31", "2025-06-01T01:05:00Z"));
    upsert_game(&mut store, &stored(2, "Los Angeles Dodgers", "2025-05-03", "2025-05-03T20:05:00Z"));
    upsert_game(&mut store, &stored(4, "San Francisco Giants", "2025-12-05", "2025-12-05T20:05:00Z"));
    let all: Vec<i64> = list_games(&store, None).iter().map(|g| g.game_pk).collect();
    assert_eq!(all, vec![2, 1, 3, 4]);
    let may: Vec<i64> = list_games(&store, Some(5)).iter().map(|g| g.game_pk).collect();
    assert_eq!(may, vec![2, 1]);
    let june: Vec<i64> = list_games(&store, Some(6)).iter().map(|g| g.game_pk).collect();
    assert_eq!(june, vec![3]);
    let december: Vec<i64> = list_games(&store, Some(12)).iter().map(|g| g.game_pk).collect();
    assert_eq!(december, vec![4]);
    assert!(list_games(&store, Some(1)).is_empty());
    assert!(list_games(&store, Some(13)).is_empty());
}

#[test]
fn sides_and_opponents_are_told_apart() {
    let home = stored(1, "San Francisco Giants", "2025-05-31", "2025-06-01T01:05:00Z");
    let away = stored(2, "Los Angeles Dodgers", "2025-05-03", "2025-05-03T20:05:00Z");
    assert!(home.plays_at_home());
    assert_eq!(home.side(), "home");
    assert_eq!(home.opponent(), "Los Angeles Dodgers");
    assert!(!away.plays_at_home());
    assert_eq!(away.side(), "away");
    assert_eq!(away.opponent(), "Los Angeles Dodgers");
    assert_eq!(home.time_display(), "2025-06-01T01:05:00Z");
}

fn promotion(offer_id: i64, game_pk: i64, name: &str, display_order: i64) -> Promotion {
    Promotion {
        offer_id,
        game_pk,
        name: name.to_string(),
        offer_type: None,
        description: None,
        distribution: None,
        presented_by: None,
        alt_page_url: None,
        ticket_link: None,
        thumbnail_url: None,
        image_url: None,
        display_order,
    }
}

#[test]
fn promotions_are_replaced_by_key_and_listed_by_order() {
    let mut store = Store::new();
    upsert_promotion(&mut store, &promotion(1, 123, "Cap", 3));
    upsert_promotion(&mut store, &promotion(2, 123, "Towel", 1));
    upsert_promotion(&mut store, &promotion(1, 124, "Pin", 0));
    upsert_promotion(&mut store, &promotion(1, 123, "Hat", 2));
    assert_eq!(store.promotions().len(), 3);
    let listed: Vec<(String, i64)> = get_promotions_for_game(&store, 123)
        .iter()
        .map(|p| (p.name.clone(), p.display_order))
        .collect();
    assert_eq!(listed, vec![("Towel".to_string(), 1), ("Hat".to_string(), 2)]);
    assert!(get_promotions_for_game(&store, 9).is_empty());
}

#[test]
fn an_import_records_the_schedule_and_issues_tickets() {
    let mut store = Store::new();
    add_seat(&mut store, "127".to_string(), "A".to_string(), "3".to_string(), None).unwrap();
    add_seat(&mut store, "127".to_string(), "A".to_string(), "4".to_string(), None).unwrap();
    let data = ScheduleData {
        games: vec![
            stored(1, "San Francisco Giants", "2025-05-31", "2025-06-01T01:05:00Z"),
            stored(2, "Los Angeles Dodgers", "2025-05-03", "2025-05-03T20:05:00Z"),
            stored(3, "San Francisco Giants", "2025-06-02", "2025-06-03T02:10:00Z"),
        ],
        promotions: vec![promotion(1, 1, "Cap", 1)],
    };
    assert_eq!(
        import_schedule(&mut store, &data),
        Ok(ImportCounts { games: 3, promotions: 1, tickets: 4 })
    );
    assert_eq!(
        import_schedule(&mut store, &data),
        Ok(ImportCounts { games: 3, promotions: 1, tickets: 0 })
    );
    assert_eq!(store.games().len(), 3);
    assert_eq!(store.promotions().len(), 1);
    assert_eq!(store.tickets().len(), 4);
}

#[test]
fn an_import_without_ticket_ids_still_records_the_schedule() {
    let parts = StoreParts {
        seats: vec![Seat {
            id: 1,
            section: "127".to_string(),
            row: "A".to_string(),
            seat: "3".to_string(),
            notes: None,
        }],
        games: Vec::new(),
        promotions: Vec::new(),
        tickets: Vec::new(),
        users: Vec::new(),
        requests: Vec::new(),
        next_seat_id: 2,
        next_ticket_id: i64::MAX,
        next_user_id: 1,
        next_request_id: 1,
    };
    let mut store = Store::from_parts(parts).unwrap();
    let data = ScheduleData {
        games: vec![stored(1, "San Francisco Giants", "2025-05-31", "2025-06-01T01:05:00Z")],
        promotions: Vec::new(),
    };
    assert_eq!(
        import_schedule(&mut store, &data),
        Err(EngineError::Storage(StorageError::IdsExhausted))
    );
    assert_eq!(store.games().len(), 1);
    assert!(store.tickets().is_empty());
}

#[test]
fn a_sign_in_updates_the_user_with_the_subject() {
    let mut store = Store::new();
    let ann = upsert_user(
        &mut store,
        "auth0|ann".to_string(),
        "ann@example.com".to_string(),
        "Ann".to_string(),
        Role::Member,
    )
    .unwrap();
    let bob = upsert_user(
        &mut store,
        "auth0|bob".to_string(),
        "bob@example.com".to_string(),
        "Bob".to_string(),
        Role::Admin,
    )
    .unwrap();
    assert_eq!((ann.id, bob.id), (1, 2));
    let again = upsert_user(
        &mut store,
        "auth0|ann".to_string(),
        "ann@new.example".to_string(),
        "Ann B".to_string(),
        Role::Admin,
    )
    .unwrap();
    assert_eq!(again.id, 1);
    assert_eq!(again.email, "ann@new.example");
    assert_eq!(again.name, "Ann B");
    assert_eq!(again.role, Role::Admin);
    assert_eq!(store.users().len(), 2);
    assert_eq!(store.users()[1].name, "Bob");
    let found = get_user_by_sub(&store, "auth0|bob").unwrap();
    assert_eq!(found.id, 2);
    assert_eq!(found.role, Role::Admin);
    assert!(get_user_by_sub(&store, "auth0|eve").is_none());
    let names: Vec<String> = list_users(&store).iter().map(|u| u.name.clone()).collect();
    assert_eq!(names, vec!["Ann B".to_string(), "Bob".to_string()]);
}

#[test]
fn a_caller_is_resolved_with_defaults_and_role() {
    let mut store = Store::new();
    let member = resolve_user(&mut store, "auth0|m".to_string(), None, None, &Vec::new()).unwrap();
    assert_eq!(member.name, "Unknown");
    assert_eq!(member.email, "unknown@example.com");
    assert_eq!(member.role, Role::Member);
    let admin = resolve_user(
        &mut store,
        "auth0|a".to_string(),
        Some("a@example.com".to_string()),
        Some("Ada".to_string()),
        &vec!["editor".to_string(), "admin".to_string()],
    )
    .unwrap();
    assert_eq!(admin.name, "Ada");
    assert_eq!(admin.email, "a@example.com");
    assert_eq!(admin.role, Role::Admin);
    assert_eq!(admin.id, 2);
    assert!(require_admin(&vec!["admin".to_string()]));
    assert!(!require_admin(&vec!["Admin".to_string(), "administrator".to_string()]));
    assert!(!require_admin(&Vec::new()));
}

#[test]
fn users_are_refused_when_ids_run_out() {
    let parts = StoreParts {
        seats: Vec::new(),
        games: Vec::new(),
        promotions: Vec::new(),
        tickets: Vec::new(),
        users: Vec::new(),
        requests: Vec::new(),
        next_seat_id: 1,
        next_ticket_id: 1,
        next_user_id: i64::MAX,
        next_request_id: 1,
    };
    let mut store = Store::from_parts(parts).unwrap();
    let r = upsert_user(
        &mut store,
        "auth0|ann".to_string(),
        "ann@example.com".to_string(),
        "Ann".to_string(),
        Role::Member,
    );
    assert_eq!(r.err(), Some(EngineError::Storage(StorageError::IdsExhausted)));
    assert!(store.users().is_empty());
}

#[test]
fn a_caller_who_signs_in_again_is_current() {
    let mut store = Store::new();
    let roles = vec!["admin".to_string()];
    let name = Some("Ada".to_string());
    assert!(!caller_is_current(&store, "auth0|a", &None, &name, &roles));
    resolve_user(&mut store, "auth0|a".to_string(), None, name.clone(), &roles).unwrap();
    assert!(caller_is_current(&store, "auth0|a", &None, &name, &roles));
    assert!(caller_is_current(
        &store,
        "auth0|a",
        &Some("unknown@example.com".to_string()),
        &name,
        &roles
    ));
    assert!(!caller_is_current(&store, "auth0|a", &None, &name, &Vec::new()));
    assert!(!caller_is_current(&store, "auth0|a", &None, &None, &roles));
    assert!(!caller_is_current(&store, "auth0|a", &Some("a@example.com".to_string()), &name, &roles));
    assert!(!caller_is_current(&store, "auth0|b", &None, &name, &roles));
}
