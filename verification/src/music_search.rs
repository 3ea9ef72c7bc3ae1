//! Labels shown for songs in the search-result select menu.
use vstd::prelude::*;
use crate::text::{decimal_pad2, push_char, push_chars, push_decimal_pad2, chars_of, str_eq};
use crate::music_queue::SongItem;

verus! {

/// `mm:ss` rendering of a duration in milliseconds (minutes are not wrapped into
/// hours, both fields at least two digits), or `unknown`.
pub open spec fn duration_text(ms: Option<u64>) -> Seq<char> {
    match ms {
        None => seq!['u', 'n', 'k', 'n', 'o', 'w', 'n'],
        Some(total_ms) => {
            let total_sec = total_ms / 1000;
            decimal_pad2((total_sec / 60) as nat) + seq![':'] + decimal_pad2((total_sec % 60) as nat)
        },
    }
}

/// The longest label a select-menu option may carry, in characters.
pub const MAX_LABEL_CHARS: usize = 100;

/// ` (<duration>)`, appended to every option label.
pub open spec fn label_suffix(duration_ms: Option<u64>) -> Seq<char> {
    seq![' ', '('] + duration_text(duration_ms) + seq![')']
}

/// The title shortened so that title and suffix fit in `MAX_LABEL_CHARS`
/// characters, ending in `...` when it was cut.
pub open spec fn label_title(title: Seq<char>, suffix_len: nat) -> Seq<char> {
    let max_title_len: int = if suffix_len >= 100 { 0 } else { 100 - suffix_len };
    if title.len() <= max_title_len {
        title
    } else if max_title_len <= 3 {
        seq!['.', '.', '.'].take(max_title_len)
    } else {
        title.take(max_title_len - 3) + seq!['.', '.', '.']
    }
}

/// Select-menu label of a song: its (possibly shortened) title and its duration.
pub open spec fn song_option_label(title: Seq<char>, duration_ms: Option<u64>) -> Seq<char> {
    let suffix = label_suffix(duration_ms);
    label_title(title, suffix.len()) + suffix
}

fn push_duration(out: &mut String, ms: Option<u64>)
    ensures
        final(out)@ == old(out)@ + duration_text(ms),
{
    match ms {
        None => {
            push_char(out, 'u');
            push_char(out, 'n');
            push_char(out, 'k');
            push_char(out, 'n');
            push_char(out, 'o');
            push_char(out, 'w');
            push_char(out, 'n');
            assert(out@ =~= old(out)@ + duration_text(ms));
        },
        Some(total_ms) => {
            let total_sec = total_ms / 1000;
            push_decimal_pad2(out, total_sec / 60);
            push_char(out, ':');
            push_decimal_pad2(out, total_sec % 60);
            assert(out@ =~= old(out)@ + duration_text(ms));
        },
    }
}

/// Renders a duration in milliseconds as `mm:ss`, or `unknown` when absent.
pub fn format_duration(ms: Option<u64>) -> (s: String)
    ensures
        s@ == duration_text(ms),
{
    let mut s = String::new();
    push_duration(&mut s, ms);
    assert(s@ =~= duration_text(ms));
    s
}

/// Label of a song option: `<title> (<mm:ss>)`, with the title cut and ended by
/// `...` so that the whole label holds at most 100 characters.
pub fn format_song_option_label(title: &str, duration_ms: Option<u64>) -> (s: String)
    ensures
        s@ == song_option_label(title@, duration_ms),
{
    let mut suffix = String::new();
    push_char(&mut suffix, ' ');
    push_char(&mut suffix, '(');
    push_duration(&mut suffix, duration_ms);
    push_char(&mut suffix, ')');
    assert(suffix@ =~= label_suffix(duration_ms));
    let suffix_chars = chars_of(suffix.as_str());
    let suffix_len = suffix_chars.len();
    let max_title_len = MAX_LABEL_CHARS.saturating_sub(suffix_len);
    let t = chars_of(title);
    let mut out = String::new();
    if t.len() <= max_title_len {
        push_chars(&mut out, &t, 0, t.len());
        assert(t@.subrange(0, t@.len() as int) =~= t@);
    } else if max_title_len <= 3 {
        let mut k: usize = 0;
        while k < max_title_len
            invariant
                k <= max_title_len <= 3,
                out@ == seq!['.', '.', '.'].take(k as int),
            decreases max_title_len - k,
        {
            push_char(&mut out, '.');
            assert(seq!['.', '.', '.'].take(k + 1) =~= seq!['.', '.', '.'].take(k as int).push(
                '.',
            ));
            k = k + 1;
        }
    } else {
        push_chars(&mut out, &t, 0, max_title_len - 3);
        push_char(&mut out, '.');
        push_char(&mut out, '.');
        push_char(&mut out, '.');
        assert(t@.subrange(0, max_title_len - 3) =~= t@.take(max_title_len - 3));
        assert(out@ =~= t@.take(max_title_len - 3) + seq!['.', '.', '.']);
    }
    assert(out@ == label_title(title@, suffix@.len()));
    push_chars(&mut out, &suffix_chars, 0, suffix_len);
    assert(suffix_chars@.subrange(0, suffix_len as int) =~= suffix@);
    out
}

} // verus!

verus! {

/// Every option label holds at most 100 characters, and a title that fits is kept
/// whole.
pub proof fn option_label_fits(title: Seq<char>, duration_ms: Option<u64>)
    ensures
        song_option_label(title, duration_ms).len() <= 100,
        title.len() + label_suffix(duration_ms).len() <= 100 ==> song_option_label(title, duration_ms)
            == title + label_suffix(duration_ms),
{
    match duration_ms {
        None => {},
        Some(total_ms) => {
            let total_sec = total_ms / 1000;
            crate::text::lemma_decimal_len_u64(total_sec / 60);
            crate::text::lemma_decimal_len_u64(total_sec % 60);
        },
    }
    assert(label_suffix(duration_ms).len() <= 44);
}

} // verus!

verus! {

/// Index of the first song whose URL is `url`, if any.
pub open spec fn first_with_url(songs: Seq<SongItem>, url: Seq<char>) -> Option<int>
    decreases songs.len(),
{
    if songs.len() == 0 {
        None
    } else if songs[0].url@ == url {
        Some(0)
    } else {
        match first_with_url(songs.skip(1), url) {
            Some(i) => Some(i + 1),
            None => None,
        }
    }
}

/// The first of the cached search results whose URL is the value picked in the menu.
pub fn find_song_by_url(songs: &Vec<SongItem>, url: &str) -> (r: Option<SongItem>)
    ensures
        match first_with_url(songs@, url@) {
            Some(i) => r == Some(songs@[i]),
            None => r is None,
        },
{
    let mut i: usize = 0;
    assert(songs@.skip(0) =~= songs@);
    while i < songs.len()
        invariant
            i <= songs@.len(),
            first_with_url(songs@, url@) == match first_with_url(songs@.skip(i as int), url@) {
                Some(j) => Some(j + i),
                None => None::<int>,
            },
        decreases songs.len() - i,
    {
        let ghost rest = songs@.skip(i as int);
        assert(rest[0] == songs@[i as int]);
        if str_eq(songs[i].url.as_str(), url) {
            return Some(songs[i].clone());
        }
        assert(rest.skip(1) =~= songs@.skip(i + 1));
        i = i + 1;
    }
    assert(songs@.skip(i as int).len() == 0);
    None
}

} // verus!
