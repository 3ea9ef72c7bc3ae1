use emc_rs::milisecond_calculator::milisecond_calculator;
use emc_rs::music_search::{format_duration, format_song_option_label};
use emc_rs::startup::{normalize_sqlite_url, read_discord_token};

#[test]
fn milliseconds_from_units() {
    assert_eq!(milisecond_calculator("1d"), Some(86_400_000));
    assert_eq!(milisecond_calculator("1h30m"), Some(5_400_000));
    assert_eq!(milisecond_calculator("2M15S"), Some(135_000));
    assert_eq!(milisecond_calculator("1500"), Some(1_500));
    assert_eq!(milisecond_calculator("1s500"), Some(1_500));
    assert_eq!(milisecond_calculator(""), Some(0));
}

#[test]
fn milliseconds_rejections_and_saturation() {
    assert_eq!(milisecond_calculator("h"), None);
    assert_eq!(milisecond_calculator("10x"), None);
    assert_eq!(milisecond_calculator("1 h"), None);
    assert_eq!(milisecond_calculator("99999999999999999999s"), None);
    assert_eq!(milisecond_calculator("99999999999999999999"), None);
    assert_eq!(milisecond_calculator("18446744073709551615d"), Some(u64::MAX));
    assert_eq!(milisecond_calculator("18446744073709551615"), Some(u64::MAX));
}

#[test]
fn durations_are_minutes_and_seconds() {
    assert_eq!(format_duration(None), "unknown");
    assert_eq!(format_duration(Some(0)), "00:00");
    assert_eq!(format_duration(Some(65_999)), "01:05");
    assert_eq!(format_duration(Some(3_600_000)), "60:00");
    assert_eq!(format_duration(Some(6_000_000)), "100:00");
}

#[test]
fn option_labels_fit_one_hundred_chars() {
    assert_eq!(format_song_option_label("Song", Some(61_000)), "Song (01:01)");
    assert_eq!(format_song_option_label("Song", None), "Song (unknown)");
    let long: String = std::iter::repeat('a').take(150).collect();
    let label = format_song_option_label(&long, Some(61_000));
    assert_eq!(label.chars().count(), 100);
    assert!(label.ends_with("... (01:01)"));
    let exact: String = std::iter::repeat('é').take(92).collect();
    let label = format_song_option_label(&exact, Some(61_000));
    assert_eq!(label, format!("{exact} (01:01)"));
}

#[test]
fn sqlite_urls_get_a_mode() {
    assert_eq!(normalize_sqlite_url("sqlite://bot.db".to_string()), "sqlite://bot.db?mode=rwc");
    assert_eq!(
        normalize_sqlite_url("sqlite://bot.db?cache=shared".to_string()),
        "sqlite://bot.db?cache=shared&mode=rwc"
    );
    assert_eq!(
        normalize_sqlite_url("sqlite://bot.db?mode=ro".to_string()),
        "sqlite://bot.db?mode=ro"
    );
    assert_eq!(normalize_sqlite_url("postgres://x".to_string()), "postgres://x");
}

#[test]
fn discord_token_prefers_discord_token() {
    assert_eq!(
        read_discord_token(Some(" a ".to_string()), Some("b".to_string())),
        Some(" a ".to_string())
    );
    assert_eq!(
        read_discord_token(Some("  ".to_string()), Some("b".to_string())),
        Some("b".to_string())
    );
    assert_eq!(read_discord_token(None, Some(" ".to_string())), None);
}

#[test]
fn durations_written_one_after_another_add_up() {
    assert_eq!(milisecond_calculator("1h30m"), Some(3_600_000 + 1_800_000));
    assert_eq!(milisecond_calculator("2d5"), Some(2 * 86_400_000 + 5));
    assert_eq!(milisecond_calculator("18446744073709551615s1s"), Some(u64::MAX));
    assert_eq!(milisecond_calculator("1hx"), None);
}
