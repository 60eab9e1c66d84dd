use pam_cli::responses::ApiError;
use pam_cli::session::{
    UtcParts, continue_or_new, format_session_id, format_skill_session_id, new_session,
};

fn parts(year: i32, month: u8, day: u8, hour: u8, minute: u8, second: u8) -> UtcParts {
    UtcParts { year, month, day, hour, minute, second }
}

#[test]
fn session_id_format_is_exact() {
    let id = format_session_id(&parts(2024, 1, 2, 3, 4, 5), 42);
    assert_eq!(id, "cli_20240102_030405_0000002a");
    let id2 = format_session_id(&parts(999, 12, 31, 23, 59, 59), 0xdeadbeef);
    assert_eq!(id2, "cli_09991231_235959_deadbeef");
}

#[test]
fn fresh_ids_match_the_documented_format() {
    let id = new_session();
    assert!(id.starts_with("cli_"));
    let tail: Vec<char> = id.chars().rev().take(8).collect();
    assert!(tail.iter().all(|c| c.is_ascii_hexdigit()));
    assert_eq!(id.chars().rev().nth(8), Some('_'));
    // the timestamp part: 8 digits of date, an underscore, 6 digits of time
    let stamp: Vec<char> = id.chars().skip(4).take(15).collect();
    assert!(stamp[0..8].iter().all(|c| c.is_ascii_digit()));
    assert_eq!(stamp[8], '_');
    assert!(stamp[9..15].iter().all(|c| c.is_ascii_digit()));
}

#[test]
fn two_fresh_ids_differ() {
    // two calls within the same second still differ: the random suffix
    // separates them with overwhelming probability
    let a = new_session();
    let b = new_session();
    assert_ne!(a, b);
}

#[test]
fn same_second_different_suffix_different_id() {
    let p = parts(2024, 6, 7, 8, 9, 10);
    let a = format_session_id(&p, 1);
    let b = format_session_id(&p, 2);
    assert_ne!(a, b);
}

#[test]
fn continue_prefers_the_lookup_and_never_fails() {
    let fresh = "cli_fresh".to_owned();
    assert_eq!(
        continue_or_new(Ok(Some("older".to_owned())), fresh.clone()),
        "older"
    );
    assert_eq!(continue_or_new(Ok(None), fresh.clone()), "cli_fresh");
    let failed: Result<Option<String>, ApiError> = Err(ApiError::Transport {
        detail: "timed out".to_owned(),
    });
    assert_eq!(continue_or_new(failed, fresh), "cli_fresh");
}

#[test]
fn skill_session_id_is_the_prefixed_timestamp() {
    assert_eq!(format_skill_session_id(1700000000), "cli_1700000000");
    assert_eq!(format_skill_session_id(-5), "cli_-5");
}
