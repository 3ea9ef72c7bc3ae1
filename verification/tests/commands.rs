use emc_rs::access_control::{
    is_owner_user, member_has_any_role, owner_allows, owner_ids_from_env, role_access,
    AccessDecision,
};
use emc_rs::commands::{
    delete_message_count, message_command_role, music_search_custom_id, parse_message_command,
    random_reply, random_result_message, required_message_role, required_slash_role,
    route_component, search_cache_key, timeout_minutes, CommandRole, ComponentRoute,
    MessageCommand,
};
use emc_rs::moderation::{set_lockdown, OverwriteTarget, PermissionOverwrite, SEND_MESSAGES};
use emc_rs::music_queue::SongItem;
use emc_rs::playback::{build_search_options, requested_song_from_lavalink};
use emc_rs::private_voice_registry::TempVoiceChannelKind;
use emc_rs::temp_voice::{
    auto_leave_action, build_temp_voice_channel_name, count_members_in, kind_label,
    temp_voice_request, AutoLeaveAction,
};
use emc_rs::guild_settings::GuildSettings;
use emc_rs::ytdlp::{CookieManager, YtDlpHelper};

#[test]
fn command_roles() {
    assert_eq!(required_slash_role("config-set"), Some(CommandRole::Owner));
    assert_eq!(required_slash_role("eval"), Some(CommandRole::Developer));
    assert_eq!(required_slash_role("play"), Some(CommandRole::User));
    assert_eq!(required_slash_role("unknown"), None);
    assert_eq!(required_message_role("!reload"), Some(CommandRole::Owner));
    assert_eq!(required_message_role("!eval"), Some(CommandRole::Developer));
    assert_eq!(required_message_role("!stop"), Some(CommandRole::User));
    assert_eq!(required_message_role("ping"), None);
    assert_eq!(message_command_role("  !eval 1+1"), Some(CommandRole::Developer));
    assert_eq!(message_command_role("!play\tsong"), Some(CommandRole::User));
    assert_eq!(message_command_role(""), None);
}

#[test]
fn message_commands() {
    assert_eq!(parse_message_command(" !ping "), MessageCommand::Ping);
    assert_eq!(parse_message_command("!reload"), MessageCommand::Reload);
    assert_eq!(parse_message_command("!skip"), MessageCommand::Skip);
    assert_eq!(parse_message_command("!stop"), MessageCommand::Stop);
    assert_eq!(parse_message_command("!play  never gonna "), MessageCommand::Play(" never gonna".to_string()));
    assert_eq!(parse_message_command("!eval x"), MessageCommand::Eval("x".to_string()));
    assert_eq!(parse_message_command("!play"), MessageCommand::Other);
    assert_eq!(parse_message_command("hello"), MessageCommand::Other);
}

#[test]
fn component_routes() {
    assert_eq!(route_component("music-skip"), ComponentRoute::MusicSkip);
    assert_eq!(route_component("music-stop"), ComponentRoute::MusicStop);
    assert_eq!(route_component("music-clear"), ComponentRoute::MusicClear);
    assert_eq!(route_component("private-voice-invite"), ComponentRoute::PrivateVoiceInvite);
    let key = search_cache_key(12, 34);
    assert_eq!(key, "search:12:34");
    let id = music_search_custom_id(&key);
    assert_eq!(id, "music-search:search:12:34");
    assert_eq!(route_component(&id), ComponentRoute::MusicSearch(key));
    assert_eq!(route_component("other"), ComponentRoute::Unknown);
}

#[test]
fn random_and_option_helpers() {
    assert_eq!(random_reply(Some(5), Some(1)), "min must be <= max");
    assert_eq!(random_reply(Some(3), Some(3)), "Random result: 3");
    assert_eq!(random_reply(Some(-2), Some(-2)), "Random result: -2");
    let r = random_reply(None, None);
    let n: i64 = r.strip_prefix("Random result: ").unwrap().parse().unwrap();
    assert!((0..=100).contains(&n));
    assert_eq!(random_result_message(i64::MIN), "Random result: -9223372036854775808");
    assert_eq!(delete_message_count(None), 1);
    assert_eq!(delete_message_count(Some(-5)), 1);
    assert_eq!(delete_message_count(Some(250)), 100);
    assert_eq!(delete_message_count(Some(42)), 42);
    assert_eq!(timeout_minutes(None), 1);
    assert_eq!(timeout_minutes(Some(0)), 1);
    assert_eq!(timeout_minutes(Some(15)), 15);
}

#[test]
fn access_rules() {
    assert!(member_has_any_role(&vec![1, 2], &vec![3, 2]));
    assert!(!member_has_any_role(&vec![1, 2], &vec![]));
    let owners = owner_ids_from_env(&vec![Some("5, 3".to_string()), None, Some("3,x,9".to_string())]);
    assert_eq!(owners, vec![3, 5, 9]);
    assert!(is_owner_user(&owners, 9));
    assert!(!is_owner_user(&owners, 4));
    assert!(owner_allows(&vec![], 4));
    assert!(!owner_allows(&owners, 4));
    assert_eq!(role_access(true, false, &vec![1], None), AccessDecision::Allow);
    assert_eq!(role_access(false, false, &vec![], None), AccessDecision::Deny);
    assert_eq!(role_access(false, true, &vec![], None), AccessDecision::Allow);
    assert_eq!(role_access(false, true, &vec![1], None), AccessDecision::Deny);
    assert_eq!(role_access(false, true, &vec![1], Some(&vec![1])), AccessDecision::Allow);
    assert_eq!(role_access(false, true, &vec![1], Some(&vec![2])), AccessDecision::DenyWithNotice);
}

#[test]
fn lockdown_edits_everyone_overwrite() {
    let mut ows = vec![
        PermissionOverwrite { allow: SEND_MESSAGES | 1, deny: 0, target: OverwriteTarget::Member(7) },
        PermissionOverwrite { allow: SEND_MESSAGES | 1, deny: 2, target: OverwriteTarget::Role(99) },
    ];
    set_lockdown(&mut ows, 99, true);
    assert_eq!(ows[1].allow, 1);
    assert_eq!(ows[1].deny, 2 | SEND_MESSAGES);
    assert_eq!(ows[0].allow, SEND_MESSAGES | 1);
    set_lockdown(&mut ows, 99, false);
    assert_eq!(ows[1].deny, 2);
    let mut none = vec![PermissionOverwrite { allow: 0, deny: 0, target: OverwriteTarget::Role(1) }];
    set_lockdown(&mut none, 99, true);
    assert_eq!(none[0].deny, 0);
}

#[test]
fn songs_and_menu_options() {
    let s = requested_song_from_lavalink(
        "me#0001",
        ("Title".to_string(), "https://u".to_string(), 61_000, "enc".to_string()),
    );
    assert_eq!(s.duration_ms, Some(61_000));
    assert_eq!(s.requested_by, "me#0001");
    assert_eq!(s.lavalink_encoded_track.as_deref(), Some("enc"));
    let songs: Vec<SongItem> = (0..30).map(|_| s.clone()).collect();
    let opts = build_search_options(&songs);
    assert_eq!(opts.len(), 25);
    assert_eq!(opts[0].label, "Title (01:01)");
    assert_eq!(opts[0].value, "https://u");
}

#[test]
fn temp_voice_decisions() {
    assert_eq!(kind_label(TempVoiceChannelKind::Public), "public");
    assert_eq!(kind_label(TempVoiceChannelKind::Private), "private");
    assert_eq!(
        build_temp_voice_channel_name(TempVoiceChannelKind::Public, Some("  Ana "), 5),
        "Ana's Voice"
    );
    assert_eq!(
        build_temp_voice_channel_name(TempVoiceChannelKind::Private, Some("   "), 5),
        "User 5's Private Voice"
    );
    assert_eq!(
        build_temp_voice_channel_name(TempVoiceChannelKind::Private, None, 5),
        "User 5's Private Voice"
    );
    let long: String = std::iter::repeat('n').take(120).collect();
    assert_eq!(
        build_temp_voice_channel_name(TempVoiceChannelKind::Public, Some(&long), 5).chars().count(),
        100
    );
    let mut g = GuildSettings::new(1);
    g.temp_voice_public_lobby_channel_id = Some(10);
    g.temp_voice_private_lobby_channel_id = Some(11);
    assert_eq!(temp_voice_request(&g, None, Some(10)), None);
    g.temp_voice_category_id = Some(3);
    assert_eq!(temp_voice_request(&g, None, Some(10)), Some((3, TempVoiceChannelKind::Public)));
    assert_eq!(temp_voice_request(&g, Some(4), Some(11)), Some((3, TempVoiceChannelKind::Private)));
    assert_eq!(temp_voice_request(&g, Some(11), Some(11)), None);
    let states = vec![(1, Some(10)), (2, Some(10)), (3, None), (4, Some(11))];
    assert_eq!(count_members_in(&states, 10, None), 2);
    assert_eq!(count_members_in(&states, 10, Some(1)), 1);
    assert_eq!(auto_leave_action(true, None, 0), AutoLeaveAction::Stay);
    assert_eq!(auto_leave_action(false, None, 3), AutoLeaveAction::DropQueue);
    assert_eq!(auto_leave_action(false, Some(1), 0), AutoLeaveAction::Leave);
    assert_eq!(auto_leave_action(false, Some(1), 2), AutoLeaveAction::Stay);
}

#[test]
fn cookie_and_ytdlp_settings() {
    assert_eq!(CookieManager::get_cookie_path(None), "cookies.txt");
    assert_eq!(CookieManager::get_cookie_path(Some("/c.txt".to_string())), "/c.txt");
    assert!(CookieManager::is_valid_cookie_file(true, true));
    assert!(!CookieManager::is_valid_cookie_file(true, false));
    assert_eq!(CookieManager::get_args("/c.txt", true), vec!["--cookies".to_string(), "/c.txt".to_string()]);
    assert!(CookieManager::get_args("/c.txt", false).is_empty());
    assert_eq!(CookieManager::log_status("/c.txt", true), "Cookie file loaded from /c.txt");
    assert_eq!(CookieManager::log_status("/c.txt", false), "Cookie file missing at /c.txt");
    assert_eq!(YtDlpHelper::get_command(None), "yt-dlp");
    assert_eq!(YtDlpHelper::search_target("abc"), "ytsearch5:abc");
}
