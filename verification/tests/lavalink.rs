use std::time::Duration;

use emc_rs::lavalink::{
    extract_lavalink_host, lavalink_enabled_from_env, lavalink_session_ready, lookup_address,
    next_retry_delay, read_first_non_empty_env, read_lavalink_password_from_env,
    read_non_empty_env, resolve_lavalink_ssl, retry_delay_secs, track_identifier,
    tracks_from_load, lavalink_rejected, needs_voice_handshake, voice_endpoint, EnvError, InitStep,
    LavalinkHostError, LavalinkRuntimeState, LoadedTrack, TrackLoad,
};

#[test]
fn extracts_host_and_ssl_from_supported_urls() {
    assert_eq!(
        extract_lavalink_host("ws://lavalink:2333").unwrap(),
        ("lavalink:2333".to_string(), Some(false))
    );
    assert_eq!(
        extract_lavalink_host("https://lava.example.com/v4/websocket").unwrap(),
        ("lava.example.com".to_string(), Some(true))
    );
    assert_eq!(
        extract_lavalink_host("lava.example.com:2333").unwrap(),
        ("lava.example.com:2333".to_string(), None)
    );
}

#[test]
fn rejects_empty_lavalink_host() {
    assert!(extract_lavalink_host("   ").is_err());
}

#[test]
fn retry_delay_grows_and_caps() {
    assert_eq!(next_retry_delay(1), Duration::from_secs(5));
    assert_eq!(next_retry_delay(2), Duration::from_secs(10));
    assert_eq!(next_retry_delay(3), Duration::from_secs(20));
    assert_eq!(next_retry_delay(4), Duration::from_secs(40));
    assert_eq!(next_retry_delay(5), Duration::from_secs(60));
    assert_eq!(next_retry_delay(8), Duration::from_secs(60));
}

#[test]
fn extract_host_other_schemes_and_separators() {
    assert_eq!(
        extract_lavalink_host("  wss://node.example.org:443?x=1 ").unwrap(),
        ("node.example.org:443".to_string(), Some(true))
    );
    assert_eq!(
        extract_lavalink_host("http://10.0.0.2:2333#frag").unwrap(),
        ("10.0.0.2:2333".to_string(), Some(false))
    );
    assert!(matches!(extract_lavalink_host(""), Err(LavalinkHostError::Empty)));
    match extract_lavalink_host("ws:///path") {
        Err(LavalinkHostError::Invalid(raw)) => assert_eq!(raw, "ws:///path"),
        other => panic!("unexpected {:?}", other),
    }
}

#[test]
fn retry_delay_seconds_and_zero_failures() {
    assert_eq!(retry_delay_secs(0), 5);
    assert_eq!(retry_delay_secs(4), 40);
    assert_eq!(retry_delay_secs(u32::MAX), 60);
    assert_eq!(next_retry_delay(0), Duration::from_secs(5));
}

#[test]
fn env_values_are_trimmed_and_required() {
    assert_eq!(read_non_empty_env("K", Some("  v  ")).unwrap(), "v");
    match read_non_empty_env("K", None) {
        Err(EnvError::Missing(k)) => assert_eq!(k, "K"),
        other => panic!("unexpected {:?}", other),
    }
    match read_non_empty_env("K", Some(" \t")) {
        Err(EnvError::Empty(k)) => assert_eq!(k, "K"),
        other => panic!("unexpected {:?}", other),
    }
    let values = vec![None, Some("   ".to_string()), Some(" second ".to_string())];
    assert_eq!(read_first_non_empty_env(&values), Some("second".to_string()));
    assert_eq!(read_first_non_empty_env(&vec![None, None]), None);
    assert_eq!(
        read_lavalink_password_from_env(None, Some("pw".to_string())),
        Some("pw".to_string())
    );
    assert!(lavalink_enabled_from_env(Some("host"), Some("p".to_string()), None));
    assert!(!lavalink_enabled_from_env(Some(" "), Some("p".to_string()), None));
    assert!(!lavalink_enabled_from_env(Some("host"), None, Some(" ".to_string())));
}

#[test]
fn session_ready_needs_non_numeric_id() {
    assert!(!lavalink_session_ready(None));
    assert!(!lavalink_session_ready(Some("  ")));
    assert!(!lavalink_session_ready(Some("0")));
    assert!(!lavalink_session_ready(Some(" +12 ")));
    assert!(lavalink_session_ready(Some("abc123")));
    assert!(lavalink_session_ready(Some("-1")));
    assert!(lavalink_session_ready(Some("99999999999999999999999")));
}

#[test]
fn ssl_lookup_and_identifier() {
    assert!(resolve_lavalink_ssl(Some("TRUE"), Some(false)));
    assert!(resolve_lavalink_ssl(Some("1"), None));
    assert!(!resolve_lavalink_ssl(Some("yes"), Some(true)));
    assert!(resolve_lavalink_ssl(None, Some(true)));
    assert!(!resolve_lavalink_ssl(None, None));
    assert_eq!(lookup_address("lavalink"), "lavalink:80");
    assert_eq!(lookup_address("lavalink:2333"), "lavalink:2333");
    assert_eq!(track_identifier("never gonna"), "ytsearch:never gonna");
    assert_eq!(track_identifier("https://youtu.be/x"), "https://youtu.be/x");
}

fn track(n: u64) -> LoadedTrack {
    LoadedTrack {
        title: format!("t{n}"),
        uri: if n % 2 == 0 { Some(format!("u{n}")) } else { None },
        length: n * 1000,
        encoded: format!("e{n}"),
    }
}

#[test]
fn loaded_tracks_keep_first_ten() {
    let many: Vec<LoadedTrack> = (0..12).map(track).collect();
    let out = tracks_from_load(&TrackLoad::Search(many)).unwrap();
    assert_eq!(out.len(), 10);
    assert_eq!(out[0], ("t0".to_string(), "u0".to_string(), 0, "e0".to_string()));
    assert_eq!(out[1], ("t1".to_string(), String::new(), 1000, "e1".to_string()));
    let one = tracks_from_load(&TrackLoad::Track(track(4))).unwrap();
    assert_eq!(one, vec![("t4".to_string(), "u4".to_string(), 4000, "e4".to_string())]);
    assert_eq!(tracks_from_load(&TrackLoad::Empty).unwrap().len(), 0);
    assert_eq!(
        tracks_from_load(&TrackLoad::Error("boom".to_string())),
        Err("boom".to_string())
    );
    let pl: Vec<LoadedTrack> = (0..3).map(track).collect();
    assert_eq!(tracks_from_load(&TrackLoad::Playlist(pl)).unwrap().len(), 3);
}

#[test]
fn runtime_state_backoff() {
    let mut s = LavalinkRuntimeState::new();
    assert!(s.may_attempt_init(0));
    let d = s.record_init_failure(1_000, "down".to_string());
    assert_eq!(d, 5);
    assert_eq!(s.consecutive_failures, 1);
    assert_eq!(s.retry_after, Some(1_000 + 5_000_000_000));
    assert!(!s.may_attempt_init(1_000));
    assert!(s.may_attempt_init(5_000_001_000));
    assert_eq!(s.record_init_failure(2_000, "down".to_string()), 10);
    s.record_invalidated("ws closed".to_string());
    assert_eq!(s.last_error.as_deref(), Some("ws closed"));
    assert_eq!(s.consecutive_failures, 2);
    s.record_init_success();
    assert_eq!(s.consecutive_failures, 0);
    assert!(s.retry_after.is_none());
    assert!(s.last_error.is_none());
}

#[test]
fn voice_endpoint_drops_wss_scheme() {
    assert_eq!(voice_endpoint("wss://rotterdam1.discord.media:443"), "rotterdam1.discord.media:443");
    assert_eq!(voice_endpoint("rotterdam1.discord.media"), "rotterdam1.discord.media");
    assert_eq!(voice_endpoint("wss://a/wss://b"), "a/b");
    assert_eq!(voice_endpoint("ws://a"), "ws://a");
    assert_eq!(voice_endpoint(""), "");
}

#[test]
fn rejected_answers_hold_error_field() {
    assert!(lavalink_rejected("{\"timestamp\":1,\"status\":400,\"error\":\"Bad Request\"}"));
    assert!(!lavalink_rejected("{\"guildId\":\"1\",\"track\":null}"));
    assert!(!lavalink_rejected("error"));
    assert!(!lavalink_rejected(""));
}

#[test]
fn handshake_skipped_only_in_same_channel_with_player() {
    assert!(!needs_voice_handshake(Some(5), 5, true));
    assert!(needs_voice_handshake(Some(5), 5, false));
    assert!(needs_voice_handshake(Some(6), 5, true));
    assert!(needs_voice_handshake(None, 5, true));
}

#[test]
fn extracted_host_extracts_to_itself() {
    for raw in ["  wss://node.example.com:443/v4?x=1 ", "http://10.0.0.5:2333#frag", "lavalink:2333"] {
        let (host, _) = extract_lavalink_host(raw).unwrap();
        assert_eq!(extract_lavalink_host(&host).unwrap(), (host.clone(), None));
    }
}

#[test]
fn init_checks_come_in_order() {
    let mut state = LavalinkRuntimeState::new();
    assert_eq!(state.init_step(false, Some(true), 0), InitStep::Skip);
    assert_eq!(state.init_step(true, Some(true), 0), InitStep::UseExisting);
    assert_eq!(state.init_step(true, None, 0), InitStep::Attempt { drop_client: false });
    assert_eq!(state.init_step(true, Some(false), 0), InitStep::Attempt { drop_client: true });
    let delay = state.record_init_failure(1_000, "refused".to_string());
    assert_eq!(delay, 5);
    assert_eq!(state.init_step(true, Some(false), 2_000), InitStep::Wait { drop_client: true });
    assert_eq!(state.init_step(true, None, 1_000 + 5_000_000_000), InitStep::Attempt { drop_client: false });
    assert_eq!(state.init_step(true, Some(true), 2_000), InitStep::UseExisting);
}
