use gtm::auth::{
    bearer_token, build_jwks, find_jwk, select_key, AuthRefusal, JwkEntry,
};
use gtm::config::{
    join_path, version_string, Backend, CliConfig, Config, EnvConfig, FileConfig, LogLevel,
};
use gtm::error::{EngineError, StorageError, ValidationError};
use gtm::models::{GameTicketDetail, RequestStatus, Role, TicketStatus};
use gtm::sorting::{key_before, number_key, order_bytes, sort_rows, SortKey};
use gtm::text::{
    decimal_text, parse_u16, same_text, same_text_ignoring_case, signed_decimal_text,
    text_contains, two_digit_text,
};

fn no_env() -> EnvConfig {
    EnvConfig {
        db_url: None,
        port: None,
        log_level: None,
        utc: None,
        auth0_domain: None,
        auth0_audience: None,
    }
}

fn no_file() -> FileConfig {
    FileConfig {
        db_url: None,
        port: None,
        log_level: None,
        utc: None,
        auth0_domain: None,
        auth0_audience: None,
    }
}

#[test]
fn defaults_are_built_in() {
    let c = Config::defaults();
    assert_eq!(c.db_url, "sqlite:gtm.db");
    assert_eq!(c.port, 3000);
    assert_eq!(c.log_level, "info");
    assert!(!c.utc);
    assert_eq!(c.auth0_domain, "momentlabs.auth0.com");
    assert_eq!(c.auth0_audience, "https://gtm-api.momentlabs.io");
}

#[test]
fn the_file_replaces_what_it_names() {
    let mut c = Config::defaults();
    c.apply_file(FileConfig {
        db_url: Some("postgres://db/gtm".to_string()),
        port: Some(8080),
        utc: Some(true),
        ..no_file()
    });
    assert_eq!(c.db_url, "postgres://db/gtm");
    assert_eq!(c.port, 8080);
    assert!(c.utc);
    assert_eq!(c.log_level, "info");
    assert_eq!(c.auth0_domain, "momentlabs.auth0.com");
    c.apply_file(no_file());
    assert_eq!(c.port, 8080);
}

#[test]
fn the_environment_replaces_what_it_names() {
    let mut c = Config::defaults();
    c.apply_env(EnvConfig {
        port: Some("8081".to_string()),
        log_level: Some("debug".to_string()),
        utc: Some("TRUE".to_string()),
        auth0_domain: Some("id.example".to_string()),
        auth0_audience: Some("aud".to_string()),
        db_url: Some("sqlite:other.db".to_string()),
    });
    assert_eq!(c.port, 8081);
    assert_eq!(c.log_level, "debug");
    assert!(c.utc);
    assert_eq!(c.auth0_domain, "id.example");
    assert_eq!(c.auth0_audience, "aud");
    assert_eq!(c.db_url, "sqlite:other.db");
    c.apply_env(EnvConfig { port: Some("eighty".to_string()), utc: Some("yes".to_string()), ..no_env() });
    assert_eq!(c.port, 8081);
    assert!(!c.utc);
    c.apply_env(EnvConfig { utc: Some("1".to_string()), port: Some("70000".to_string()), ..no_env() });
    assert!(c.utc);
    assert_eq!(c.port, 8081);
}

#[test]
fn layers_are_laid_in_order() {
    let c = Config::load(
        Some(FileConfig { port: Some(8080), log_level: Some("warn".to_string()), ..no_file() }),
        EnvConfig { port: Some("9090".to_string()), ..no_env() },
    );
    assert_eq!(c.port, 9090);
    assert_eq!(c.log_level, "warn");
    assert_eq!(c.db_url, "sqlite:gtm.db");
    let mut c = Config::load(None, no_env());
    assert_eq!(c.port, 3000);
    c.apply_cli(CliConfig {
        log_level: Some(LogLevel::Trace),
        utc: true,
        db_url: Some("sqlite:cli.db".to_string()),
        port: Some(1234),
    });
    assert_eq!(c.log_level, "trace");
    assert!(c.utc);
    assert_eq!(c.db_url, "sqlite:cli.db");
    assert_eq!(c.port, 1234);
    c.apply_cli(CliConfig { log_level: None, utc: false, db_url: None, port: None });
    assert!(c.utc);
    assert_eq!(c.port, 1234);
    assert_eq!(c.log_level, "trace");
}

#[test]
fn log_levels_have_names() {
    assert_eq!(LogLevel::Trace.as_str(), "trace");
    assert_eq!(LogLevel::Debug.as_str(), "debug");
    assert_eq!(LogLevel::Info.as_str(), "info");
    assert_eq!(LogLevel::Warn.as_str(), "warn");
    assert_eq!(LogLevel::Error.as_str(), "error");
}

#[test]
fn the_configuration_file_lies_below_the_home_directory() {
    assert_eq!(Config::dir(Some("/home/ann")), "/home/ann/.gtm");
    assert_eq!(Config::dir(None), "./.gtm");
    assert_eq!(Config::dir(Some("/")), "/.gtm");
    assert_eq!(Config::file_path(Some("/home/ann")), "/home/ann/.gtm/config.toml");
    assert_eq!(Config::file_path(None), "./.gtm/config.toml");
    assert_eq!(join_path("", "x"), "x");
    assert_eq!(join_path("a/", "x"), "a/x");
}

#[test]
fn the_address_names_the_database() {
    assert_eq!(Backend::of_url("sqlite:gtm.db"), Backend::Sqlite);
    assert_eq!(Backend::of_url("sqlite:"), Backend::Sqlite);
    assert_eq!(Backend::of_url("postgres://db/gtm"), Backend::Postgres);
    assert_eq!(Backend::of_url("sqlite"), Backend::Postgres);
    assert_eq!(Backend::of_url(""), Backend::Postgres);
}

#[test]
fn the_version_carries_the_revision() {
    assert_eq!(version_string("0.1.0", "abc1234"), "0.1.0 (abc1234)");
    assert_eq!(version_string("0.1.0", "abc1234-dirty"), "0.1.0 (abc1234-dirty)");
}

#[test]
fn numbers_are_written_in_decimal() {
    assert_eq!(decimal_text(0), "0");
    assert_eq!(decimal_text(7), "7");
    assert_eq!(decimal_text(10), "10");
    assert_eq!(decimal_text(2025), "2025");
    assert_eq!(decimal_text(u64::MAX), "18446744073709551615");
    assert_eq!(two_digit_text(5), "05");
    assert_eq!(two_digit_text(12), "12");
    assert_eq!(two_digit_text(123), "123");
    assert_eq!(signed_decimal_text(-5), "-5");
    assert_eq!(signed_decimal_text(0), "0");
    assert_eq!(signed_decimal_text(i64::MIN), "-9223372036854775808");
    assert_eq!(signed_decimal_text(i64::MAX), "9223372036854775807");
}

#[test]
fn ports_are_read_like_numbers() {
    assert_eq!(parse_u16("3000"), Some(3000));
    assert_eq!(parse_u16("+80"), Some(80));
    assert_eq!(parse_u16("0"), Some(0));
    assert_eq!(parse_u16("00080"), Some(80));
    assert_eq!(parse_u16("65535"), Some(65535));
    assert_eq!(parse_u16("65536"), None);
    assert_eq!(parse_u16("99999999999999999999"), None);
    assert_eq!(parse_u16(""), None);
    assert_eq!(parse_u16("+"), None);
    assert_eq!(parse_u16("-1"), None);
    assert_eq!(parse_u16(" 80"), None);
    assert_eq!(parse_u16("8 0"), None);
    assert_eq!(parse_u16("80a"), None);
    assert_eq!(parse_u16("++80"), None);
    for text in ["3000", "+80", "65536", "", "+", "-1", "0x10", "٣"] {
        assert_eq!(parse_u16(text), text.parse::<u16>().ok());
    }
}

#[test]
fn texts_are_compared_and_searched() {
    assert!(same_text("admin", "admin"));
    assert!(!same_text("admin", "Admin"));
    assert!(same_text_ignoring_case("TrUe", "true"));
    assert!(!same_text_ignoring_case("true ", "true"));
    assert!(!same_text_ignoring_case("tru", "true"));
    assert!(text_contains("2025-05-01", "-05-"));
    assert!(!text_contains("2025-05-01", "-06-"));
    assert!(text_contains("abc", ""));
    assert!(text_contains("", ""));
    assert!(!text_contains("ab", "abc"));
    assert!(text_contains("xxabc", "abc"));
}

#[test]
fn states_have_words() {
    assert_eq!(TicketStatus::Available.as_str(), "available");
    assert_eq!(TicketStatus::Assigned.as_str(), "assigned");
    assert_eq!(TicketStatus::from_name("assigned"), Some(TicketStatus::Assigned));
    assert_eq!(TicketStatus::from_name("available"), Some(TicketStatus::Available));
    assert_eq!(TicketStatus::from_name("sold"), None);
    assert_eq!(RequestStatus::Pending.as_str(), "pending");
    assert_eq!(RequestStatus::from_name("approved"), Some(RequestStatus::Approved));
    assert_eq!(RequestStatus::from_name("withdrawn"), Some(RequestStatus::Withdrawn));
    assert_eq!(RequestStatus::from_name("pending"), Some(RequestStatus::Pending));
    assert_eq!(RequestStatus::from_name(""), None);
    assert_eq!(Role::Admin.as_str(), "admin");
    assert_eq!(Role::from_name("member"), Some(Role::Member));
    assert_eq!(Role::from_name("admin"), Some(Role::Admin));
    assert_eq!(Role::from_name("root"), None);
}

#[test]
fn a_ticket_is_described_in_one_line() {
    let d = GameTicketDetail {
        id: 1,
        game_pk: 123,
        seat_id: 1,
        section: "127".to_string(),
        row: "A".to_string(),
        seat: "3".to_string(),
        status: TicketStatus::Available,
        notes: None,
        assigned_to: None,
    };
    assert_eq!(d.describe(), "127:A3 [available]");
}

#[test]
fn refusals_have_messages() {
    assert_eq!(
        EngineError::Validation(ValidationError::SeatRangeInverted).message(),
        "seat_start must be <= seat_end"
    );
    assert_eq!(
        EngineError::Validation(ValidationError::SeatRangeTooLarge).message(),
        "Maximum 49 seats per batch"
    );
    assert_eq!(
        EngineError::Validation(ValidationError::SeatsRequested { game_pk: 123, seats_requested: 5 })
            .message(),
        "seats_requested must be 1-4 (got 5 for game_pk 123)"
    );
    assert_eq!(
        EngineError::Validation(ValidationError::SeatsRequested { game_pk: -1, seats_requested: -2 })
            .message(),
        "seats_requested must be 1-4 (got -2 for game_pk -1)"
    );
    assert_eq!(
        EngineError::Validation(ValidationError::SeatCount { seats_requested: 0 }).message(),
        "seats_requested must be 1-4"
    );
    assert_eq!(EngineError::Validation(ValidationError::EmptySeatField).status_code(), 400);
    assert_eq!(EngineError::Storage(StorageError::IdsExhausted).status_code(), 500);
    assert!(EngineError::Validation(ValidationError::EmptySeatField).is_validation());
    assert!(!EngineError::Storage(StorageError::IdsExhausted).is_validation());
    assert!(!EngineError::Storage(StorageError::CounterOverflow).message().is_empty());
}

fn text_key(number: i64, first: &str, second: &str, third: &str) -> SortKey {
    SortKey {
        number,
        first: first.as_bytes().to_vec(),
        second: second.as_bytes().to_vec(),
        third: third.as_bytes().to_vec(),
    }
}

#[test]
fn byte_strings_are_ordered_like_texts() {
    let words = ["", "a", "ab", "b", "B", "10", "9", "é", "z"];
    for a in words {
        for b in words {
            let expected = match a.cmp(b) {
                std::cmp::Ordering::Less => -1,
                std::cmp::Ordering::Equal => 0,
                std::cmp::Ordering::Greater => 1,
            };
            assert_eq!(order_bytes(&a.as_bytes().to_vec(), &b.as_bytes().to_vec()), expected);
        }
    }
}

#[test]
fn keys_are_ordered_field_by_field() {
    assert!(key_before(&text_key(1, "z", "z", "z"), &text_key(2, "a", "a", "a")));
    assert!(key_before(&text_key(1, "a", "z", "z"), &text_key(1, "b", "a", "a")));
    assert!(key_before(&text_key(1, "a", "a", "z"), &text_key(1, "a", "b", "a")));
    assert!(key_before(&text_key(1, "a", "a", "a"), &text_key(1, "a", "a", "b")));
    assert!(!key_before(&text_key(1, "a", "a", "a"), &text_key(1, "a", "a", "a")));
    assert!(!key_before(&text_key(2, "a", "a", "a"), &text_key(1, "a", "a", "a")));
    assert!(key_before(&number_key(-1), &number_key(0)));
}

#[test]
fn sorting_keeps_equal_keys_in_order() {
    let rows = vec!["c1", "a1", "b", "a2", "c2", "a3"];
    let keys: Vec<SortKey> =
        rows.iter().map(|r| text_key(0, &r[..1], "", "")).collect();
    assert_eq!(sort_rows(rows, &keys), vec!["a1", "a2", "a3", "b", "c1", "c2"]);
    let none: Vec<i64> = Vec::new();
    assert!(sort_rows(none, &Vec::new()).is_empty());
    let numbers = vec![3, 1, 2];
    let keys: Vec<SortKey> = numbers.iter().map(|n| number_key(*n)).collect();
    assert_eq!(sort_rows(numbers, &keys), vec![1, 2, 3]);
}

const TOKEN_WITH_KEY: &str =
    "eyJhbGciOiJSUzI1NiIsInR5cCI6IkpXVCIsImtpZCI6ImtleS0yIn0.eyJzdWIiOiJhdXRoMHwxIn0.c2ln";
const TOKEN_WITHOUT_KEY: &str = "eyJhbGciOiJSUzI1NiIsInR5cCI6IkpXVCJ9.eyJzdWIiOiJhdXRoMHwxIn0.c2ln";
const MODULUS: &str = "AQIDBAUGBwgJCgsMDQ4PEBESExQVFhcYGRobHB0eHyA";

fn published(kid: &str, n: &str, e: &str) -> JwkEntry {
    JwkEntry { kid: kid.to_string(), n: n.to_string(), e: e.to_string() }
}

#[test]
fn the_bearer_token_follows_the_scheme() {
    assert_eq!(bearer_token("Bearer abc.def"), Some("abc.def".to_string()));
    assert_eq!(bearer_token("Bearer "), Some(String::new()));
    assert_eq!(bearer_token("bearer abc"), None);
    assert_eq!(bearer_token("Bearer"), None);
    assert_eq!(bearer_token("Basic abc"), None);
    assert_eq!(bearer_token(""), None);
}

#[test]
fn published_keys_become_keys_if_they_decode() {
    let keys = build_jwks(vec![
        published("key-1", MODULUS, "AQAB"),
        published("", MODULUS, "AQAB"),
        published("key-x", "", "AQAB"),
        published("key-y", MODULUS, ""),
        published("key-bad", "not base64!", "AQAB"),
        published("key-2", MODULUS, "AQAB"),
    ]);
    let ids: Vec<&str> = keys.iter().map(|k| k.kid.as_str()).collect();
    assert_eq!(ids, vec!["key-1", "key-2"]);
    assert_eq!(find_jwk(&keys, "key-2"), Some(1));
    assert_eq!(find_jwk(&keys, "key-bad"), None);
    assert!(build_jwks(Vec::new()).is_empty());
}

#[test]
fn the_key_that_a_token_names_is_picked() {
    let keys = build_jwks(vec![
        published("key-1", MODULUS, "AQAB"),
        published("key-2", MODULUS, "AQAB"),
        published("key-2", MODULUS, "AQAB"),
    ]);
    let header = format!("Bearer {TOKEN_WITH_KEY}");
    let choice = select_key(Some(&header), &keys).unwrap();
    assert_eq!(choice.token, TOKEN_WITH_KEY);
    assert_eq!(choice.key, 1);

    assert_eq!(
        select_key(None, &keys).err().map(|e| e.message()),
        Some("Missing Authorization header".to_string())
    );
    assert_eq!(
        select_key(Some("Basic abc"), &keys).err().map(|e| e.message()),
        Some("Invalid Authorization header format".to_string())
    );
    let unreadable = select_key(Some("Bearer a.b.c"), &keys).err().map(|e| e.message()).unwrap();
    assert!(unreadable.starts_with("Invalid token header: "));
    assert!(unreadable.len() > "Invalid token header: ".len());
    let refusal = |header: Option<&str>, keys| select_key(header, keys).err().map(|e| e.refusal());
    assert_eq!(refusal(None, &keys), Some(AuthRefusal::MissingHeader));
    assert_eq!(refusal(Some(TOKEN_WITH_KEY), &keys), Some(AuthRefusal::BadFormat));
    assert_eq!(refusal(Some("Bearer not-a-token"), &keys), Some(AuthRefusal::InvalidHeader));
    assert_eq!(refusal(Some("Bearer a.b.c"), &keys), Some(AuthRefusal::InvalidHeader));
    let header = format!("Bearer {TOKEN_WITHOUT_KEY}");
    assert_eq!(refusal(Some(&header), &keys), Some(AuthRefusal::MissingKeyId));
    let header = format!("Bearer {TOKEN_WITH_KEY}");
    let others = build_jwks(vec![published("key-1", MODULUS, "AQAB")]);
    assert_eq!(refusal(Some(&header), &others), Some(AuthRefusal::UnknownKey));
}
