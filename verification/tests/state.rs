use std::collections::HashSet;

use emc_rs::guild_settings::{
    channel_meets, parse_config_key, ChannelKind, ChannelRequirement, ConfigError, ConfigKey,
    GuildSettings,
};
use emc_rs::lavalink::is_music_voice_channel;
use emc_rs::moderation::{OverwriteTarget, PermissionOverwrite, CONNECT, VIEW_CHANNEL};
use emc_rs::temp_voice::{invite_overwrite, keep_created_channel, temp_voice_overwrites};
use emc_rs::music_manager::MusicManager;
use emc_rs::music_queue::{DisconnectTimerAction, MusicQueue, SongItem, IDLE_DISCONNECT_TIMEOUT_MS};
use emc_rs::private_voice_registry::{
    invite_permission, InviteError, PrivateVoiceRegistry, TempVoiceChannelKind,
};
use emc_rs::search_cache::{SearchCache, SEARCH_CACHE_TTL_NANOS};

fn song(n: u32) -> SongItem {
    SongItem {
        title: format!("song {n}"),
        url: format!("https://example.com/{n}"),
        duration_ms: Some(1000 * n as u64),
        requested_by: "user#1".to_string(),
        lavalink_encoded_track: Some(format!("enc{n}")),
    }
}

#[test]
fn csv_ids_parse_and_serialize() {
    assert_eq!(GuildSettings::parse_ids_csv(" 1, 2,,x, +3 ,18446744073709551616,4"), vec![1, 2, 3, 4]);
    assert_eq!(GuildSettings::parse_ids_csv(""), Vec::<u64>::new());
    let ids: HashSet<u64> = [30u64, 5, 200].into_iter().collect();
    let s = GuildSettings::serialize_role_ids(&ids);
    assert_eq!(s, "5,30,200");
    assert_eq!(GuildSettings::parse_role_ids(&s), ids);
    assert_eq!(GuildSettings::serialize_channel_ids(&HashSet::new()), "");
    assert_eq!(GuildSettings::parse_channel_ids("7,7, 8"), [7u64, 8].into_iter().collect());
}

#[test]
fn guild_settings_defaults_and_channel_rules() {
    let mut g = GuildSettings::new(42);
    assert_eq!(g.guild_id, 42);
    assert!(g.allow_music_channel(1));
    assert!(g.allow_private_voice_channel(1));
    g.music_text_channel_ids.insert(9);
    assert!(g.allow_music_channel(9));
    assert!(!g.allow_music_channel(1));
    let copy = g.clone();
    assert_eq!(copy.music_text_channel_ids, g.music_text_channel_ids);
}

#[test]
fn config_keys_apply() {
    assert_eq!(parse_config_key("admin_role_add"), Some(ConfigKey::AdminRoleAdd));
    assert_eq!(parse_config_key("temp_voice_lobby_channel"), Some(ConfigKey::TempVoiceLobbyChannel));
    assert_eq!(parse_config_key("nope"), None);
    let mut g = GuildSettings::new(1);
    assert_eq!(g.apply_config(ConfigKey::AdminRoleAdd, Some(5), None, None), Ok(()));
    assert!(g.admin_role_ids.contains(&5));
    assert_eq!(g.apply_config(ConfigKey::ModChannel, None, None, None), Err(ConfigError::MissingChannel));
    assert_eq!(g.apply_config(ConfigKey::TempVoiceLobbyChannel, None, Some(77), None), Ok(()));
    assert_eq!(g.temp_voice_private_lobby_channel_id, Some(77));
    assert_eq!(g.apply_config(ConfigKey::MusicChannelsCsv, None, None, Some("3, 4")), Ok(()));
    assert_eq!(g.music_text_channel_ids, [3u64, 4].into_iter().collect());
    assert_eq!(g.apply_config(ConfigKey::DeveloperRolesCsv, None, None, None), Err(ConfigError::MissingCsv));
    assert_eq!(g.apply_config(ConfigKey::DeveloperRoleAdd, None, Some(1), None), Err(ConfigError::MissingRole));
}

#[test]
fn queue_plays_in_order() {
    let mut q = MusicQueue::constructor(1, 2);
    assert!(q.is_idle());
    assert!(q.enqueue_song(song(1)));
    assert!(q.enqueue_song(song(2)));
    assert_eq!(q.play().unwrap().title, "song 1");
    q.mark_playing();
    assert!(!q.enqueue_song(song(3)));
    assert_eq!(q.pending_len(), 3);
    assert_eq!(q.get_queue_info(), "Now playing: song 1 (req by user#1) | Pending: 3");
    let (action, next) = q.handle_song_end();
    assert_eq!(action, DisconnectTimerAction::Clear);
    assert_eq!(next.unwrap().title, "song 2");
    let (_, next) = q.skip();
    assert_eq!(next.unwrap().title, "song 3");
    let (action, next) = q.skip();
    assert!(next.is_none());
    assert_eq!(action, DisconnectTimerAction::Start(IDLE_DISCONNECT_TIMEOUT_MS));
    assert!(q.disconnect_timer_armed());
    assert_eq!(q.get_queue_info(), "Now playing: Nothing | Pending: 0");
    assert!(q.disconnect_timer_fired());
}

#[test]
fn queue_stop_destroy_and_suppression() {
    let mut q = MusicQueue::constructor(1, 2);
    q.enqueue_song(song(1));
    assert!(!q.disconnect_timer_fired());
    assert_eq!(q.stop(), DisconnectTimerAction::Start(30_000));
    assert!(q.is_idle());
    q.suppress_auto_leave_at(1_000, 20_000);
    assert!(q.is_auto_leave_suppressed_at(20_000_000_999));
    assert!(!q.is_auto_leave_suppressed_at(20_000_001_000));
    q.suppress_auto_leave_at(0, 1);
    assert!(q.is_auto_leave_suppressed_at(20_000_000_999));
    q.lavalink_player_initialized = true;
    q.destroy();
    assert!(!q.lavalink_player_initialized);
    assert!(!q.is_auto_leave_suppressed_at(0));
    assert!(!q.disconnect_timer_armed());
    q.suppress_auto_leave(20_000);
    assert!(q.is_auto_leave_suppressed());
}

#[test]
fn manager_keeps_queues_by_guild() {
    let mut m = MusicManager::new();
    assert!(!m.has_queue(5));
    m.create_queue(5, 10);
    m.create_queue(6, 11);
    assert!(m.has_queue(5));
    assert_eq!(m.get_queue(5).unwrap().text_channel_id, 10);
    let mut q = m.take_queue(5).unwrap();
    assert!(!m.has_queue(5));
    q.enqueue_song(song(1));
    m.put_queue(q);
    assert_eq!(m.get_queue(5).unwrap().pending_len(), 1);
    let mut all = m.get_all_queues();
    all.sort();
    assert_eq!(all, vec![5, 6]);
    m.delete_queue(5);
    assert!(m.get_queue(5).is_none());
}

#[test]
fn cache_expires_after_ttl() {
    let mut c = SearchCache::new();
    c.store_results_at("k".to_string(), vec![song(1), song(2)], 100);
    assert_eq!(c.get_at("k", 100).unwrap().len(), 2);
    assert!(c.has_at("k", 100 + SEARCH_CACHE_TTL_NANOS));
    assert!(!c.has_at("k", 101 + SEARCH_CACHE_TTL_NANOS));
    assert!(c.get_at("other", 100).is_none());
    c.store_results_at("k".to_string(), vec![song(3)], 200);
    assert_eq!(c.get_at("k", 200).unwrap()[0].title, "song 3");
    c.store_results_at("j".to_string(), vec![], 10 + SEARCH_CACHE_TTL_NANOS);
    c.cleanup_at(150 + SEARCH_CACHE_TTL_NANOS);
    assert!(c.has_at("k", 150 + SEARCH_CACHE_TTL_NANOS));
    c.cleanup_at(201 + SEARCH_CACHE_TTL_NANOS);
    assert!(c.get_at("k", 0).is_none());
    assert!(c.has_at("j", 201 + SEARCH_CACHE_TTL_NANOS));
    c.store_results("x".to_string(), vec![song(4)]);
    assert!(c.has("x"));
    assert_eq!(c.get("x").unwrap()[0].url, "https://example.com/4");
    c.cleanup();
    assert!(c.has("x"));
    c.clear();
    assert!(!c.has("x"));
}

#[test]
fn registry_records_owners() {
    let mut r = PrivateVoiceRegistry::new();
    r.set_channel(100, 7, TempVoiceChannelKind::Private);
    r.set_channel(101, 8, TempVoiceChannelKind::Public);
    assert_eq!(r.get_owner(100), Some(7));
    assert!(r.is_private(100));
    assert!(!r.is_private(101));
    assert_eq!(r.get_entry(101).unwrap().kind, TempVoiceChannelKind::Public);
    r.delete_owner(100);
    assert!(r.get_entry(100).is_none());
    assert_eq!(invite_permission(None, true, 7), Err(InviteError::NotPrivateVoice));
    assert_eq!(invite_permission(Some(7), false, 7), Err(InviteError::ChannelNotAllowed));
    assert_eq!(invite_permission(Some(7), true, 8), Err(InviteError::NotOwner));
    assert_eq!(invite_permission(Some(7), true, 7), Ok(()));
}

#[test]
fn private_temp_channels_admit_only_their_owner() {
    assert!(temp_voice_overwrites(TempVoiceChannelKind::Public, 7, 99).is_empty());
    let ows = temp_voice_overwrites(TempVoiceChannelKind::Private, 7, 99);
    assert_eq!(ows.len(), 2);
    assert_eq!(ows[0], PermissionOverwrite { allow: 0x400 | 0x10_0000, deny: 0, target: OverwriteTarget::Member(7) });
    assert_eq!(ows[1], PermissionOverwrite { allow: 0, deny: VIEW_CHANNEL | CONNECT, target: OverwriteTarget::Role(99) });
    assert_eq!(invite_overwrite(8), PermissionOverwrite { allow: CONNECT | VIEW_CHANNEL, deny: 0, target: OverwriteTarget::Member(8) });
    assert!(keep_created_channel(Some(3), Some(3)));
    assert!(!keep_created_channel(Some(4), Some(3)));
    assert!(!keep_created_channel(None, Some(3)));
}

#[test]
fn channel_kinds_accepted_for_keys_and_music() {
    assert!(channel_meets(ChannelRequirement::Category, ChannelKind::Category));
    assert!(!channel_meets(ChannelRequirement::Category, ChannelKind::Voice));
    assert!(channel_meets(ChannelRequirement::Voice, ChannelKind::Voice));
    assert!(!channel_meets(ChannelRequirement::Voice, ChannelKind::Stage));
    assert!(is_music_voice_channel(ChannelKind::Voice));
    assert!(is_music_voice_channel(ChannelKind::Stage));
    assert!(!is_music_voice_channel(ChannelKind::Text));
    assert!(!is_music_voice_channel(ChannelKind::Category));
}
