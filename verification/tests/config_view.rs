use std::collections::{HashMap, HashSet};

use emc_rs::config_view::{config_summary, format_channel_list, format_optional_channel, format_role_list};
use emc_rs::guild_settings::GuildSettings;
use emc_rs::music_queue::SongItem;
use emc_rs::music_search::find_song_by_url;

#[test]
fn empty_lists_read_empty() {
    let names: HashMap<u64, String> = HashMap::new();
    assert_eq!(format_role_list(&HashSet::new(), &names), "<empty>");
    assert_eq!(format_channel_list(&HashSet::new(), &names), "<empty>");
    assert_eq!(format_optional_channel(None, &names), "<empty>");
}

#[test]
fn role_list_names_known_roles_and_sorts_as_strings() {
    let ids: HashSet<u64> = [30, 5, 100].into_iter().collect();
    let mut names = HashMap::new();
    names.insert(5, "Admin".to_string());
    names.insert(100, "Mods".to_string());
    assert_eq!(
        format_role_list(&ids, &names),
        "<@&30> (30), Admin (5), Mods (100)"
    );
}

#[test]
fn channel_list_prefixes_names_with_hash() {
    let ids: HashSet<u64> = [9, 7].into_iter().collect();
    let mut names = HashMap::new();
    names.insert(7, "music".to_string());
    assert_eq!(format_channel_list(&ids, &names), "#music (7), <#9> (9)");
    assert_eq!(format_optional_channel(Some(7), &names), "#music (7)");
    assert_eq!(format_optional_channel(Some(12), &names), "<#12> (12)");
}

#[test]
fn config_summary_lists_every_setting() {
    let mut settings = GuildSettings::new(1);
    settings.admin_role_ids.insert(2);
    settings.music_text_channel_ids.insert(3);
    settings.mod_channel_id = Some(4);
    let mut roles = HashMap::new();
    roles.insert(2, "Staff".to_string());
    let channels = HashMap::new();
    assert_eq!(
        config_summary(&settings, &roles, &channels),
        "Guild config\nadmin_roles: Staff (2)\ndeveloper_roles: <empty>\nmusic_channels: <#3> (3)\nprivate_voice_allowed_channels: <empty>\ntemp_voice_category: <empty>\ntemp_voice_public_lobby_channel: <empty>\ntemp_voice_private_lobby_channel: <empty>\nmod_channel: <#4> (4)"
    );
}

fn song(title: &str, url: &str) -> SongItem {
    SongItem {
        title: title.to_string(),
        url: url.to_string(),
        duration_ms: None,
        requested_by: "user#1".to_string(),
        lavalink_encoded_track: None,
    }
}

#[test]
fn picked_song_is_first_with_that_url() {
    let songs = vec![song("a", "u1"), song("b", "u2"), song("c", "u2")];
    assert_eq!(find_song_by_url(&songs, "u2").map(|s| s.title), Some("b".to_string()));
    assert!(find_song_by_url(&songs, "u3").is_none());
    assert!(find_song_by_url(&[].to_vec(), "u1").is_none());
}
