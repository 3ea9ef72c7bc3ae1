//! The yt-dlp cookie file and the yt-dlp command.
use vstd::prelude::*;
use crate::text::{push_chars, push_text};

verus! {

broadcast use vstd::string::group_string_axioms;

fn push_lit(out: &mut String, lit: &Vec<char>)
    ensures
        final(out)@ == old(out)@ + lit@,
{
    push_chars(out, lit, 0, lit.len());
    assert(lit@.subrange(0, lit@.len() as int) =~= lit@);
}

/// Where yt-dlp reads cookies from.
pub struct CookieManager;

impl CookieManager {
    /// The cookie file: `YT_COOKIE_FILE` when set, else `cookies.txt`.
    pub fn get_cookie_path(env_value: Option<String>) -> (r: String)
        ensures
            r@ == match env_value {
                Some(p) => p@,
                None => seq!['c', 'o', 'o', 'k', 'i', 'e', 's', '.', 't', 'x', 't'],
            },
    {
        match env_value {
            Some(p) => p,
            None => {
                let mut s = String::new();
                push_lit(&mut s, &vec!['c', 'o', 'o', 'k', 'i', 'e', 's', '.', 't', 'x', 't']);
                s
            },
        }
    }

    /// A cookie file is usable when the path exists and is a regular file.
    pub fn is_valid_cookie_file(exists: bool, is_file: bool) -> (r: bool)
        ensures
            r == (exists && is_file),
    {
        exists && is_file
    }

    /// yt-dlp arguments that pass the cookie file, when it is usable.
    pub fn get_args(path: &str, valid: bool) -> (r: Vec<String>)
        ensures
            valid ==> r@.len() == 2 && r@[0]@ == seq!['-', '-', 'c', 'o', 'o', 'k', 'i', 'e', 's'] && r@[1]@ == path@,
            !valid ==> r@.len() == 0,
    {
        let mut out: Vec<String> = Vec::new();
        if valid {
            let mut flag = String::new();
            push_lit(&mut flag, &vec!['-', '-', 'c', 'o', 'o', 'k', 'i', 'e', 's']);
            out.push(flag);
            out.push(String::from_str(path));
        }
        out
    }

    /// Log line describing the cookie file.
    pub fn log_status(path: &str, valid: bool) -> (r: String)
        ensures
            r@ == (if valid {
                seq!['C', 'o', 'o', 'k', 'i', 'e', ' ', 'f', 'i', 'l', 'e', ' ', 'l', 'o', 'a', 'd', 'e', 'd', ' ', 'f', 'r', 'o', 'm', ' ']
            } else {
                seq!['C', 'o', 'o', 'k', 'i', 'e', ' ', 'f', 'i', 'l', 'e', ' ', 'm', 'i', 's', 's', 'i', 'n', 'g', ' ', 'a', 't', ' ']
            }) + path@,
    {
        let mut s = String::new();
        if valid {
            push_lit(&mut s, &vec!['C', 'o', 'o', 'k', 'i', 'e', ' ', 'f', 'i', 'l', 'e', ' ', 'l', 'o', 'a', 'd', 'e', 'd', ' ', 'f', 'r', 'o', 'm', ' ']);
        } else {
            push_lit(&mut s, &vec!['C', 'o', 'o', 'k', 'i', 'e', ' ', 'f', 'i', 'l', 'e', ' ', 'm', 'i', 's', 's', 'i', 'n', 'g', ' ', 'a', 't', ' ']);
        }
        push_text(&mut s, path);
        s
    }
}

/// Runs yt-dlp.
pub struct YtDlpHelper;

impl YtDlpHelper {
    /// The yt-dlp executable: `YT_DLP_BIN` when set, else `yt-dlp`.
    pub fn get_command(env_value: Option<String>) -> (r: String)
        ensures
            r@ == match env_value {
                Some(p) => p@,
                None => seq!['y', 't', '-', 'd', 'l', 'p'],
            },
    {
        match env_value {
            Some(p) => p,
            None => {
                let mut s = String::new();
                push_lit(&mut s, &vec!['y', 't', '-', 'd', 'l', 'p']);
                s
            },
        }
    }

    /// yt-dlp target that searches for five results matching `query`.
    pub fn search_target(query: &str) -> (r: String)
        ensures
            r@ == seq!['y', 't', 's', 'e', 'a', 'r', 'c', 'h', '5', ':'] + query@,
    {
        let mut s = String::new();
        push_lit(&mut s, &vec!['y', 't', 's', 'e', 'a', 'r', 'c', 'h', '5', ':']);
        push_text(&mut s, query);
        s
    }
}

} // verus!
