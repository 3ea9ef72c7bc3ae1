//! Songs made from Lavalink tracks and the options of the search-result menu.
use vstd::prelude::*;
use crate::music_queue::SongItem;
use crate::music_search::{format_song_option_label, song_option_label};

verus! {

broadcast use vstd::string::group_string_axioms;

/// A song requested by `requested_by` from a Lavalink track
/// `(title, url, length_ms, encoded)`.
pub fn requested_song_from_lavalink(requested_by: &str, track: (String, String, u64, String)) -> (s: SongItem)
    ensures
        s.title == track.0,
        s.url == track.1,
        s.duration_ms == Some(track.2),
        s.requested_by@ == requested_by@,
        s.lavalink_encoded_track == Some(track.3),
{
    let (title, url, duration_ms, encoded) = track;
    SongItem {
        title,
        url,
        duration_ms: Some(duration_ms),
        requested_by: String::from_str(requested_by),
        lavalink_encoded_track: Some(encoded),
    }
}

/// One entry of the search-result menu: the label shown and the value sent back.
#[derive(Debug)]
pub struct SearchOption {
    pub label: String,
    pub value: String,
}

/// Most options a select menu can hold.
pub const MAX_MENU_OPTIONS: usize = 25;

/// Menu options for the first 25 songs: each labelled with its title and duration,
/// with its URL as value.
pub fn build_search_options(songs: &[SongItem]) -> (r: Vec<SearchOption>)
    ensures
        r@.len() == if songs@.len() < 25 { songs@.len() } else { 25 },
        forall|i: int|
            0 <= i < r@.len() ==> (#[trigger] r@[i]).label@ == song_option_label(
                songs@[i].title@,
                songs@[i].duration_ms,
            ) && r@[i].value@ == songs@[i].url@,
{
    let mut out: Vec<SearchOption> = Vec::new();
    let mut i: usize = 0;
    while i < songs.len() && i < MAX_MENU_OPTIONS
        invariant
            i <= songs@.len(),
            i <= 25,
            out@.len() == i,
            forall|k: int|
                0 <= k < i ==> (#[trigger] out@[k]).label@ == song_option_label(
                    songs@[k].title@,
                    songs@[k].duration_ms,
                ) && out@[k].value@ == songs@[k].url@,
        decreases songs.len() - i,
    {
        let song = &songs[i];
        let label = format_song_option_label(song.title.as_str(), song.duration_ms);
        out.push(SearchOption { label, value: song.url.clone() });
        i = i + 1;
    }
    out
}

} // verus!
