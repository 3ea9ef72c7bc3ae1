//! Start-up configuration read from environment values.
use vstd::prelude::*;
use crate::text::{
    chars_contain_text, chars_have_prefix, chars_of, contains_char, contains_text, has_prefix, push_char,
    push_chars, trim, trim_bounds,
};

verus! {

broadcast use vstd::string::group_string_axioms;

/// Database URL with SQLite's create-if-missing mode added when a `sqlite:` URL
/// names no mode.
pub open spec fn normalized_sqlite_url(raw: Seq<char>) -> Seq<char> {
    if !has_prefix(raw, seq!['s', 'q', 'l', 'i', 't', 'e', ':']) || contains_text(raw, seq!['m', 'o', 'd', 'e', '=']) {
        raw
    } else if contains_char(raw, '?') {
        raw + seq!['&', 'm', 'o', 'd', 'e', '=', 'r', 'w', 'c']
    } else {
        raw + seq!['?', 'm', 'o', 'd', 'e', '=', 'r', 'w', 'c']
    }
}

/// Adds `mode=rwc` to a `sqlite:` database URL that sets no mode.
pub fn normalize_sqlite_url(raw: String) -> (r: String)
    ensures
        r@ == normalized_sqlite_url(raw@),
{
    let v = chars_of(raw.as_str());
    let prefix = vec!['s', 'q', 'l', 'i', 't', 'e', ':'];
    let mode = vec!['m', 'o', 'd', 'e', '='];
    if !chars_have_prefix(&v, &prefix) {
        return raw;
    }
    if chars_contain_text(&v, &mode) {
        return raw;
    }
    let mut out = raw;
    if crate::text::chars_contain(&v, '?') {
        push_char(&mut out, '&');
    } else {
        push_char(&mut out, '?');
    }
    let tail = vec!['m', 'o', 'd', 'e', '=', 'r', 'w', 'c'];
    push_chars(&mut out, &tail, 0, tail.len());
    assert(tail@.subrange(0, tail@.len() as int) =~= seq!['m', 'o', 'd', 'e', '=', 'r', 'w', 'c']);
    assert(out@ =~= normalized_sqlite_url(raw@));
    out
}

/// The Discord token: `DISCORD_TOKEN`, or else `BOT_TOKEN`, whichever is first set
/// and not blank, as given (untrimmed).
pub fn read_discord_token(discord_token: Option<String>, bot_token: Option<String>) -> (r: Option<String>)
    ensures
        match discord_token {
            Some(t) if trim(t@).len() > 0 => r == Some(t),
            _ => match bot_token {
                Some(t) if trim(t@).len() > 0 => r == Some(t),
                _ => r is None,
            },
        },
{
    match discord_token {
        Some(t) => {
            let v = chars_of(t.as_str());
            let (a, b) = trim_bounds(&v, 0, v.len());
            assert(v@.subrange(0, v@.len() as int) =~= t@);
            if a < b {
                return Some(t);
            }
        },
        None => {},
    }
    match bot_token {
        Some(t) => {
            let v = chars_of(t.as_str());
            let (a, b) = trim_bounds(&v, 0, v.len());
            assert(v@.subrange(0, v@.len() as int) =~= t@);
            if a < b {
                Some(t)
            } else {
                None
            }
        },
        None => None,
    }
}

} // verus!
