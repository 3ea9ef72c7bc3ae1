//! Lavalink connection settings and decisions: host parsing, credentials read from
//! environment values, session readiness, reconnect back-off and track loading.
use vstd::prelude::*;
use crate::text::{
    chars_of, contains_char, has_prefix, parse_unsigned, parse_unsigned_range,
    push_char, push_chars, range_has_prefix, string_of_range, trim, trim_bounds,
};

verus! {

broadcast use vstd::string::group_string_axioms;

// ---------------------------------------------------------------------------
// Host parsing
// ---------------------------------------------------------------------------

/// Why a `LAVALINK_HOST` value was refused.
#[derive(Debug)]
pub enum LavalinkHostError {
    /// Nothing but whitespace was given.
    Empty,
    /// No host is left once the scheme and path are removed; holds the raw value.
    Invalid(String),
}

pub open spec fn ws_scheme() -> Seq<char> {
    seq!['w', 's', ':', '/', '/']
}

pub open spec fn wss_scheme() -> Seq<char> {
    seq!['w', 's', 's', ':', '/', '/']
}

pub open spec fn http_scheme() -> Seq<char> {
    seq!['h', 't', 't', 'p', ':', '/', '/']
}

pub open spec fn https_scheme() -> Seq<char> {
    seq!['h', 't', 't', 'p', 's', ':', '/', '/']
}

/// Removes a leading `ws://`, `wss://`, `http://` or `https://` and tells whether it
/// implies TLS (`None` when there was no scheme).
pub open spec fn split_scheme(t: Seq<char>) -> (Seq<char>, Option<bool>) {
    if has_prefix(t, ws_scheme()) {
        (t.skip(5), Some(false))
    } else if has_prefix(t, wss_scheme()) {
        (t.skip(6), Some(true))
    } else if has_prefix(t, http_scheme()) {
        (t.skip(7), Some(false))
    } else if has_prefix(t, https_scheme()) {
        (t.skip(8), Some(true))
    } else {
        (t, None)
    }
}

/// Path, query and fragment separators.
pub open spec fn is_path_separator(c: char) -> bool {
    c == '/' || c == '?' || c == '#'
}

/// The part of `s` before its first path separator.
pub open spec fn before_path(s: Seq<char>) -> Seq<char>
    decreases s.len(),
{
    if s.len() == 0 || is_path_separator(s[0]) {
        Seq::empty()
    } else {
        seq![s[0]] + before_path(s.drop_first())
    }
}

/// Host (and port) named by a raw `LAVALINK_HOST` value.
pub open spec fn lavalink_host_part(raw: Seq<char>) -> Seq<char> {
    trim(before_path(split_scheme(trim(raw)).0))
}

proof fn lemma_before_path_no_separator(s: Seq<char>)
    ensures
        forall|k: int| 0 <= k < before_path(s).len() ==> !is_path_separator(#[trigger] before_path(s)[k]),
    decreases s.len(),
{
    if s.len() > 0 && !is_path_separator(s[0]) {
        lemma_before_path_no_separator(s.drop_first());
        let b = before_path(s.drop_first());
        assert forall|k: int| 0 <= k < before_path(s).len() implies !is_path_separator(
            #[trigger] before_path(s)[k],
        ) by {
            if k > 0 {
                assert(before_path(s)[k] == b[k - 1]);
            }
        }
    }
}

/// An extracted host reads back as itself: it has no scheme, no path and no
/// surrounding whitespace, so extracting it again changes nothing and implies no
/// TLS setting.
pub proof fn extracted_host_is_stable(raw: Seq<char>)
    ensures
        lavalink_host_part(lavalink_host_part(raw)) == lavalink_host_part(raw),
        split_scheme(trim(lavalink_host_part(raw))).1 is None,
{
    let b = before_path(split_scheme(trim(raw)).0);
    let h = lavalink_host_part(raw);
    lemma_before_path_no_separator(split_scheme(trim(raw)).0);
    crate::text::lemma_trim_shape(b);
    assert forall|k: int| 0 <= k < h.len() implies !is_path_separator(#[trigger] h[k]) by {
        assert(b.contains(h[k]));
        let j = choose|j: int| 0 <= j < b.len() && b[j] == h[k];
        assert(!is_path_separator(b[j]));
    }
    assert(trim(h) == h);
    if has_prefix(h, ws_scheme()) {
        assert(h.subrange(0, 5)[3] == h[3]);
        assert(!is_path_separator(h[3]));
    }
    if has_prefix(h, wss_scheme()) {
        assert(h.subrange(0, 6)[4] == h[4]);
        assert(!is_path_separator(h[4]));
    }
    if has_prefix(h, http_scheme()) {
        assert(h.subrange(0, 7)[5] == h[5]);
        assert(!is_path_separator(h[5]));
    }
    if has_prefix(h, https_scheme()) {
        assert(h.subrange(0, 8)[6] == h[6]);
        assert(!is_path_separator(h[6]));
    }
    assert(!has_prefix(h, ws_scheme()));
    assert(!has_prefix(h, wss_scheme()));
    assert(!has_prefix(h, http_scheme()));
    assert(!has_prefix(h, https_scheme()));
    lemma_before_path(h, h.len() as int);
    assert(h.take(h.len() as int) =~= h);
}

proof fn lemma_before_path(s: Seq<char>, i: int)
    requires
        0 <= i <= s.len(),
        forall|k: int| 0 <= k < i ==> !is_path_separator(#[trigger] s[k]),
        i == s.len() || is_path_separator(s[i]),
    ensures
        before_path(s) == s.take(i),
    decreases i,
{
    if i == 0 {
        assert(s.take(0) =~= Seq::<char>::empty());
    } else {
        let t = s.drop_first();
        assert forall|k: int| 0 <= k < i - 1 implies !is_path_separator(#[trigger] t[k]) by {
            assert(t[k] == s[k + 1]);
        }
        lemma_before_path(t, i - 1);
        assert(seq![s[0]] + t.take(i - 1) =~= s.take(i));
    }
}

fn scheme_prefixes() -> (r: (Vec<char>, Vec<char>, Vec<char>, Vec<char>))
    ensures
        r.0@ == ws_scheme(),
        r.1@ == wss_scheme(),
        r.2@ == http_scheme(),
        r.3@ == https_scheme(),
{
    let a = vec!['w', 's', ':', '/', '/'];
    let b = vec!['w', 's', 's', ':', '/', '/'];
    let c = vec!['h', 't', 't', 'p', ':', '/', '/'];
    let d = vec!['h', 't', 't', 'p', 's', ':', '/', '/'];
    assert(a@ =~= ws_scheme());
    assert(b@ =~= wss_scheme());
    assert(c@ =~= http_scheme());
    assert(d@ =~= https_scheme());
    (a, b, c, d)
}

/// Splits a `LAVALINK_HOST` value into the host (with port) to connect to and the
/// TLS setting that its scheme implies. Surrounding whitespace, a `ws://`, `wss://`,
/// `http://` or `https://` scheme, and anything from the first `/`, `?` or `#` on
/// are removed.
pub fn extract_lavalink_host(raw: &str) -> (r: Result<(String, Option<bool>), LavalinkHostError>)
    ensures
        trim(raw@).len() == 0 ==> r matches Err(LavalinkHostError::Empty),
        trim(raw@).len() > 0 && lavalink_host_part(raw@).len() == 0 ==> (r matches Err(
            LavalinkHostError::Invalid(x)) && x@ == raw@),
        trim(raw@).len() > 0 && lavalink_host_part(raw@).len() > 0 ==> (r matches Ok((host, ssl))
            && host@ == lavalink_host_part(raw@) && ssl == split_scheme(trim(raw@)).1),
{
    let v = chars_of(raw);
    let (s, e) = trim_bounds(&v, 0, v.len());
    assert(v@.subrange(0, v@.len() as int) =~= raw@);
    let ghost t = v@.subrange(s as int, e as int);
    if s == e {
        return Err(LavalinkHostError::Empty);
    }
    let (p_ws, p_wss, p_http, p_https) = scheme_prefixes();
    let (rest, ssl) = if range_has_prefix(&v, s, e, &p_ws) {
        (s + 5, Some(false))
    } else if range_has_prefix(&v, s, e, &p_wss) {
        (s + 6, Some(true))
    } else if range_has_prefix(&v, s, e, &p_http) {
        (s + 7, Some(false))
    } else if range_has_prefix(&v, s, e, &p_https) {
        (s + 8, Some(true))
    } else {
        (s, None)
    };
    assert(v@.subrange(rest as int, e as int) =~= split_scheme(t).0);
    assert(ssl == split_scheme(t).1);
    let ghost u = v@.subrange(rest as int, e as int);
    let mut j = rest;
    while j < e && !(v[j] == '/' || v[j] == '?' || v[j] == '#')
        invariant
            rest <= j <= e <= v@.len(),
            u == v@.subrange(rest as int, e as int),
            forall|k: int| 0 <= k < j - rest ==> !is_path_separator(#[trigger] u[k]),
        decreases e - j,
    {
        assert(u[j - rest] == v@[j as int]);
        j = j + 1;
    }
    proof {
        if j < e {
            assert(u[j - rest] == v@[j as int]);
        }
        lemma_before_path(u, j - rest);
        assert(u.take(j - rest) =~= v@.subrange(rest as int, j as int));
    }
    let (a, b) = trim_bounds(&v, rest, j);
    if a == b {
        let raw_copy = string_of_range(&v, 0, v.len());
        return Err(LavalinkHostError::Invalid(raw_copy));
    }
    Ok((string_of_range(&v, a, b), ssl))
}

/// Address handed to name resolution: the host itself when it names a port,
/// otherwise the host with port 80.
pub open spec fn lookup_address_of(host: Seq<char>) -> Seq<char> {
    if contains_char(host, ':') {
        host
    } else {
        host + seq![':', '8', '0']
    }
}

/// Address to resolve when checking that the Lavalink host is reachable.
pub fn lookup_address(host: &str) -> (r: String)
    ensures
        r@ == lookup_address_of(host@),
{
    let v = chars_of(host);
    let mut out = String::new();
    push_chars(&mut out, &v, 0, v.len());
    assert(v@.subrange(0, v@.len() as int) =~= host@);
    if !crate::text::chars_contain(&v, ':') {
        push_char(&mut out, ':');
        push_char(&mut out, '8');
        push_char(&mut out, '0');
    }
    assert(out@ =~= lookup_address_of(host@));
    out
}

/// ASCII lower case of `c`.
pub open spec fn ascii_lower(c: char) -> char {
    if 65 <= (c as u32) <= 90 {
        ((c as u32) + 32) as char
    } else {
        c
    }
}

/// `s` equals `t` up to ASCII case.
pub open spec fn eq_ignore_ascii_case(s: Seq<char>, t: Seq<char>) -> bool {
    s.len() == t.len() && forall|i: int| 0 <= i < s.len() ==> ascii_lower(#[trigger] s[i])
        == ascii_lower(t[i])
}

/// Whether TLS is used: an explicit `LAVALINK_SSL` value decides (`true` in any
/// ASCII case, or `1`); without one, the scheme of the host decides, and no scheme
/// means no TLS.
pub open spec fn lavalink_ssl(ssl_env: Option<Seq<char>>, inferred: Option<bool>) -> bool {
    match ssl_env {
        Some(v) => eq_ignore_ascii_case(v, seq!['t', 'r', 'u', 'e']) || v == seq!['1'],
        None => match inferred {
            Some(b) => b,
            None => false,
        },
    }
}

fn lower(c: char) -> (r: char)
    ensures
        r == ascii_lower(c),
{
    let u = c as u32;
    if 65 <= u && u <= 90 {
        let b: u8 = (u + 32) as u8;
        b as char
    } else {
        c
    }
}

/// Decides whether the Lavalink connection uses TLS.
pub fn resolve_lavalink_ssl(ssl_env: Option<&str>, inferred: Option<bool>) -> (r: bool)
    ensures
        r == lavalink_ssl(
            match ssl_env {
                Some(v) => Some(v@),
                None => None,
            },
            inferred,
        ),
{
    match ssl_env {
        Some(value) => {
            let v = chars_of(value);
            let t = vec!['t', 'r', 'u', 'e'];
            assert(t@ =~= seq!['t', 'r', 'u', 'e']);
            let mut same = v.len() == 4;
            if same {
                let mut i: usize = 0;
                while i < 4
                    invariant
                        v@.len() == 4,
                        t@ == seq!['t', 'r', 'u', 'e'],
                        i <= 4,
                        same == (forall|k: int| 0 <= k < i ==> ascii_lower(#[trigger] v@[k])
                            == ascii_lower(t@[k])),
                    decreases 4 - i,
                {
                    if lower(v[i]) != lower(t[i]) {
                        same = false;
                    }
                    i = i + 1;
                }
            }
            let one = v.len() == 1 && v[0] == '1';
            assert(one == (v@ == seq!['1'])) by {
                if v@.len() == 1 && v@[0] == '1' {
                    assert(v@ =~= seq!['1']);
                }
            }
            same || one
        },
        None => match inferred {
            Some(b) => b,
            None => false,
        },
    }
}

// ---------------------------------------------------------------------------
// Environment values
// ---------------------------------------------------------------------------

/// Why a required environment value could not be used.
#[derive(Debug)]
pub enum EnvError {
    /// The variable is not set; holds its name.
    Missing(String),
    /// The variable holds only whitespace; holds its name.
    Empty(String),
}

/// The trimmed value of a variable that must be set and not blank.
pub fn read_non_empty_env(key: &str, value: Option<&str>) -> (r: Result<String, EnvError>)
    ensures
        match value {
            None => (r matches Err(EnvError::Missing(k)) && k@ == key@),
            Some(v) => if trim(v@).len() == 0 {
                (r matches Err(EnvError::Empty(k)) && k@ == key@)
            } else {
                (r matches Ok(t) && t@ == trim(v@))
            },
        },
{
    match value {
        None => Err(EnvError::Missing(String::from_str(key))),
        Some(raw) => {
            let v = chars_of(raw);
            let (s, e) = trim_bounds(&v, 0, v.len());
            assert(v@.subrange(0, v@.len() as int) =~= raw@);
            if s == e {
                Err(EnvError::Empty(String::from_str(key)))
            } else {
                Ok(string_of_range(&v, s, e))
            }
        },
    }
}

/// The first value that is set and not blank, trimmed.
pub open spec fn first_non_empty(values: Seq<Option<String>>) -> Option<Seq<char>>
    decreases values.len(),
{
    if values.len() == 0 {
        None
    } else {
        match values[0] {
            Some(v) if trim(v@).len() > 0 => Some(trim(v@)),
            _ => first_non_empty(values.drop_first()),
        }
    }
}

/// Among the values of several variables, in order, the first one that is set
/// and not blank, trimmed; `None` when there is none.
pub fn read_first_non_empty_env(values: &Vec<Option<String>>) -> (r: Option<String>)
    ensures
        match first_non_empty(values@) {
            Some(t) => r matches Some(s) && s@ == t,
            None => r is None,
        },
{
    let mut i: usize = 0;
    assert(values@.skip(0) =~= values@);
    while i < values.len()
        invariant
            i <= values@.len(),
            first_non_empty(values@) == first_non_empty(values@.skip(i as int)),
        decreases values.len() - i,
    {
        assert(values@.skip(i as int).drop_first() =~= values@.skip(i + 1));
        assert(values@.skip(i as int)[0] == values@[i as int]);
        match &values[i] {
            Some(raw) => {
                let v = chars_of(raw.as_str());
                let (s, e) = trim_bounds(&v, 0, v.len());
                assert(v@.subrange(0, v@.len() as int) =~= raw@);
                if s < e {
                    return Some(string_of_range(&v, s, e));
                }
            },
            None => {},
        }
        i = i + 1;
    }
    None
}

/// The Lavalink password: `LAVALINK_PASSWORD`, or else `LAVALINK_SERVER_PASSWORD`.
pub fn read_lavalink_password_from_env(password: Option<String>, server_password: Option<String>) -> (r: Option<String>)
    ensures
        match first_non_empty(seq![password, server_password]) {
            Some(t) => r matches Some(s) && s@ == t,
            None => r is None,
        },
{
    let values = vec![password, server_password];
    assert(values@ =~= seq![password, server_password]);
    read_first_non_empty_env(&values)
}

/// Lavalink is used when a host and a password are both configured (set and not blank).
pub fn lavalink_enabled_from_env(
    host: Option<&str>,
    password: Option<String>,
    server_password: Option<String>,
) -> (r: bool)
    ensures
        r == ((host matches Some(h) && trim(h@).len() > 0) && first_non_empty(
            seq![password, server_password],
        ) is Some),
{
    let h = read_non_empty_env("LAVALINK_HOST", host);
    let p = read_lavalink_password_from_env(password, server_password);
    h.is_ok() && p.is_some()
}

// ---------------------------------------------------------------------------
// Session readiness
// ---------------------------------------------------------------------------

/// A node's session is ready once its session id is a non-blank string that is
/// not a number (a placeholder number is stored before the `Ready` event).
pub open spec fn session_ready(session_id: Seq<char>) -> bool {
    trim(session_id).len() > 0 && parse_unsigned(trim(session_id), usize::MAX as nat) is None
}

/// Whether the first Lavalink node (if any) has received its session id.
pub fn lavalink_session_ready(session_id: Option<&str>) -> (r: bool)
    ensures
        r == (session_id matches Some(s) && session_ready(s@)),
{
    match session_id {
        None => false,
        Some(sid) => {
            let v = chars_of(sid);
            let (s, e) = trim_bounds(&v, 0, v.len());
            assert(v@.subrange(0, v@.len() as int) =~= sid@);
            s < e && parse_unsigned_range(&v, s, e, usize::MAX as u64).is_none()
        },
    }
}

// ---------------------------------------------------------------------------
// Reconnect back-off
// ---------------------------------------------------------------------------

/// Seconds to wait before the next connection attempt after `failures`
/// consecutive failures: 5 s, doubling per further failure, at most 60 s.
pub open spec fn retry_delay_seconds(failures: u32) -> u64 {
    if failures <= 1 {
        5
    } else if failures == 2 {
        10
    } else if failures == 3 {
        20
    } else if failures == 4 {
        40
    } else {
        60
    }
}

/// First back-off delay, in seconds.
pub const INITIAL_RETRY_DELAY_SECS: u64 = 5;

/// Longest back-off delay, in seconds.
pub const MAX_RETRY_DELAY_SECS: u64 = 60;

/// Back-off delay in seconds after `failure_count` consecutive failed attempts.
pub fn retry_delay_secs(failure_count: u32) -> (r: u64)
    ensures
        r == retry_delay_seconds(failure_count),
{
    let e = failure_count.saturating_sub(1);
    let exponent: u32 = if e < 4 { e } else { 4 };
    let shifted: u64 = 1u64 << exponent;
    assert(shifted == if exponent == 0 { 1u64 } else if exponent == 1 { 2u64 } else if exponent
        == 2 { 4u64 } else if exponent == 3 { 8u64 } else { 16u64 }) by (bit_vector)
        requires
            exponent <= 4,
            shifted == 1u64 << exponent,
    ;
    let seconds = INITIAL_RETRY_DELAY_SECS * shifted;
    if seconds < MAX_RETRY_DELAY_SECS {
        seconds
    } else {
        MAX_RETRY_DELAY_SECS
    }
}

/// What `Duration::from_secs` builds from a number of seconds.
pub uninterp spec fn duration_of_secs(secs: u64) -> std::time::Duration;

/// `Duration::from_secs`: the claim is only that equal arguments give equal durations.
#[verifier::external_body]
fn duration_from_secs(secs: u64) -> (d: std::time::Duration)
    ensures
        d == duration_of_secs(secs),
{
    std::time::Duration::from_secs(secs)
}

/// Back-off delay after `failure_count` consecutive failed attempts.
pub fn next_retry_delay(failure_count: u32) -> (d: std::time::Duration)
    ensures
        d == duration_of_secs(retry_delay_seconds(failure_count)),
{
    duration_from_secs(retry_delay_secs(failure_count))
}

/// Later failures never wait less, and no wait is shorter than 5 s or longer than 60 s.
pub proof fn retry_delay_monotone_and_capped(a: u32, b: u32)
    requires
        a <= b,
    ensures
        retry_delay_seconds(a) <= retry_delay_seconds(b),
        INITIAL_RETRY_DELAY_SECS <= retry_delay_seconds(a) <= MAX_RETRY_DELAY_SECS,
        b >= 5 ==> retry_delay_seconds(b) == MAX_RETRY_DELAY_SECS,
{
}

/// Connection bookkeeping kept between attempts to reach Lavalink. Times are
/// nanoseconds on one monotonic clock.
pub struct LavalinkRuntimeState {
    /// No new attempt is made before this time.
    pub retry_after: Option<u64>,
    /// Failed attempts since the last success.
    pub consecutive_failures: u32,
    /// Why the last attempt failed, or why the client was dropped.
    pub last_error: Option<String>,
}

/// Nanoseconds in one second.
pub const NANOS_PER_SEC: u64 = 1_000_000_000;

/// `a + b`, or `u64::MAX` when that does not fit.
pub open spec fn saturating_sum(a: u64, b: u64) -> u64 {
    if a + b > u64::MAX {
        u64::MAX
    } else {
        (a + b) as u64
    }
}

impl LavalinkRuntimeState {
    /// No client yet, no failure, nothing to wait for.
    pub fn new() -> (s: Self)
        ensures
            s.retry_after is None,
            s.consecutive_failures == 0,
            s.last_error is None,
    {
        LavalinkRuntimeState { retry_after: None, consecutive_failures: 0, last_error: None }
    }

    /// A new attempt may be made at `now` unless a back-off window is still open.
    pub fn may_attempt_init(&self, now: u64) -> (r: bool)
        ensures
            r == !(self.retry_after matches Some(t) && t > now),
    {
        match self.retry_after {
            Some(t) => t <= now,
            None => true,
        }
    }

    /// A connection was established: the failure count and back-off are cleared.
    pub fn record_init_success(&mut self)
        ensures
            final(self).retry_after is None,
            final(self).consecutive_failures == 0,
            final(self).last_error is None,
    {
        self.retry_after = None;
        self.consecutive_failures = 0;
        self.last_error = None;
    }

    /// An attempt failed at `now`: one more failure is counted and the next attempt
    /// waits the back-off delay. Returns that delay in seconds.
    pub fn record_init_failure(&mut self, now: u64, error: String) -> (delay: u64)
        ensures
            final(self).consecutive_failures == (if old(self).consecutive_failures == u32::MAX {
                u32::MAX
            } else {
                (old(self).consecutive_failures + 1) as u32
            }),
            delay == retry_delay_seconds(final(self).consecutive_failures),
            final(self).retry_after == Some(saturating_sum(now, (delay * NANOS_PER_SEC) as u64)),
            final(self).last_error == Some(error),
    {
        self.consecutive_failures = self.consecutive_failures.saturating_add(1);
        let delay = retry_delay_secs(self.consecutive_failures);
        self.retry_after = Some(now.saturating_add(delay * NANOS_PER_SEC));
        self.last_error = Some(error);
        delay
    }

    /// The client was dropped for `reason`; the failure count is kept.
    pub fn record_invalidated(&mut self, reason: String)
        ensures
            final(self).retry_after == old(self).retry_after,
            final(self).consecutive_failures == old(self).consecutive_failures,
            final(self).last_error == Some(reason),
    {
        self.last_error = Some(reason);
    }
}

/// What to do when a Lavalink client is asked for.
#[derive(Clone, Copy, Debug, PartialEq, Eq, Structural)]
pub enum InitStep {
    /// Lavalink is not configured: there is no client.
    Skip,
    /// The client held has its session: use it.
    UseExisting,
    /// The back-off window is still open: no client for now. `drop_client` says
    /// whether a held client without a session is dropped first.
    Wait { drop_client: bool },
    /// Try to connect. `drop_client` says whether a held client without a session
    /// is dropped first.
    Attempt { drop_client: bool },
}

/// The order of the checks before connecting: not configured, then a ready client,
/// then the back-off window; a held client without a session is dropped once the
/// first two checks have not returned.
pub open spec fn init_step_of(
    enabled: bool,
    client_ready: Option<bool>,
    retry_after: Option<u64>,
    now: u64,
) -> InitStep {
    if !enabled {
        InitStep::Skip
    } else if client_ready == Some(true) {
        InitStep::UseExisting
    } else if retry_after matches Some(t) && t > now {
        InitStep::Wait { drop_client: client_ready == Some(false) }
    } else {
        InitStep::Attempt { drop_client: client_ready == Some(false) }
    }
}

impl LavalinkRuntimeState {
    /// Decides how to obtain a client at `now`: `enabled` says whether Lavalink is
    /// configured, `client_ready` whether a client is held (`Some`) and whether its
    /// session is ready.
    pub fn init_step(&self, enabled: bool, client_ready: Option<bool>, now: u64) -> (r: InitStep)
        ensures
            r == init_step_of(enabled, client_ready, self.retry_after, now),
    {
        if !enabled {
            return InitStep::Skip;
        }
        if client_ready == Some(true) {
            return InitStep::UseExisting;
        }
        let drop_client = client_ready == Some(false);
        if self.may_attempt_init(now) {
            InitStep::Attempt { drop_client }
        } else {
            InitStep::Wait { drop_client }
        }
    }
}

/// Right after a failed attempt no new attempt is allowed at the same moment, and
/// once the back-off has elapsed one is.
pub proof fn failure_opens_backoff_window(now: u64, delay: u64, later: u64)
    requires
        now < u64::MAX,
        5 <= delay <= 60,
        later >= saturating_sum(now, (delay * NANOS_PER_SEC) as u64),
    ensures
        saturating_sum(now, (delay * NANOS_PER_SEC) as u64) > now,
        !(saturating_sum(now, (delay * NANOS_PER_SEC) as u64) > later),
{
}

// ---------------------------------------------------------------------------
// Track loading
// ---------------------------------------------------------------------------

/// Identifier given to Lavalink: URLs load directly, anything else is a YouTube search.
pub open spec fn track_identifier_of(query: Seq<char>) -> Seq<char> {
    if has_prefix(query, http_scheme()) || has_prefix(query, https_scheme()) {
        query
    } else {
        seq!['y', 't', 's', 'e', 'a', 'r', 'c', 'h', ':'] + query
    }
}

/// A query that starts with `http://` or `https://` is handed to Lavalink as it is;
/// any other query becomes a YouTube search for exactly that text.
pub proof fn urls_load_unchanged(query: Seq<char>)
    ensures
        has_prefix(query, seq!['h', 't', 't', 'p', ':', '/', '/']) || has_prefix(
            query,
            seq!['h', 't', 't', 'p', 's', ':', '/', '/'],
        ) ==> track_identifier_of(query) == query,
        !has_prefix(query, seq!['h', 't', 't', 'p', ':', '/', '/']) && !has_prefix(
            query,
            seq!['h', 't', 't', 'p', 's', ':', '/', '/'],
        ) ==> track_identifier_of(query).len() == query.len() + 9 && track_identifier_of(
            query,
        ).skip(9) == query && track_identifier_of(query).take(9) == seq![
            'y',
            't',
            's',
            'e',
            'a',
            'r',
            'c',
            'h',
            ':',
        ],
{
    let t = track_identifier_of(query);
    if !has_prefix(query, http_scheme()) && !has_prefix(query, https_scheme()) {
        assert(t.skip(9) =~= query);
        assert(t.take(9) =~= seq!['y', 't', 's', 'e', 'a', 'r', 'c', 'h', ':']);
    }
}

/// The Lavalink load identifier for a user query.
pub fn track_identifier(query: &str) -> (r: String)
    ensures
        r@ == track_identifier_of(query@),
        has_prefix(query@, http_scheme()) || has_prefix(query@, https_scheme()) ==> r@ == query@,
{
    proof {
        urls_load_unchanged(query@);
    }
    let v = chars_of(query);
    let (_a, _b, p_http, p_https) = scheme_prefixes();
    let mut out = String::new();
    let is_url = crate::text::chars_have_prefix(&v, &p_http) || crate::text::chars_have_prefix(
        &v,
        &p_https,
    );
    if !is_url {
        push_char(&mut out, 'y');
        push_char(&mut out, 't');
        push_char(&mut out, 's');
        push_char(&mut out, 'e');
        push_char(&mut out, 'a');
        push_char(&mut out, 'r');
        push_char(&mut out, 'c');
        push_char(&mut out, 'h');
        push_char(&mut out, ':');
    }
    push_chars(&mut out, &v, 0, v.len());
    assert(v@.subrange(0, v@.len() as int) =~= query@);
    assert(out@ =~= track_identifier_of(query@));
    out
}

/// One track as Lavalink describes it.
pub struct LoadedTrack {
    pub title: String,
    pub uri: Option<String>,
    pub length: u64,
    pub encoded: String,
}

/// What a Lavalink load request answered.
pub enum TrackLoad {
    /// A single track (direct URL).
    Track(LoadedTrack),
    /// Search results.
    Search(Vec<LoadedTrack>),
    /// The tracks of a playlist.
    Playlist(Vec<LoadedTrack>),
    /// A load error with its message.
    Error(String),
    /// Nothing matched.
    Empty,
}

/// Most tracks kept from one search or playlist.
pub const MAX_LOADED_TRACKS: usize = 10;

/// `(title, url, length_ms, encoded)` of a loaded track; a missing URL becomes empty.
pub open spec fn track_tuple_matches(t: LoadedTrack, r: (String, String, u64, String)) -> bool {
    &&& r.0@ == t.title@
    &&& r.1@ == (match t.uri {
        Some(u) => u@,
        None => Seq::<char>::empty(),
    })
    &&& r.2 == t.length
    &&& r.3@ == t.encoded@
}

fn track_tuple(t: &LoadedTrack) -> (r: (String, String, u64, String))
    ensures
        track_tuple_matches(*t, r),
{
    let uri = match &t.uri {
        Some(u) => u.clone(),
        None => String::new(),
    };
    (t.title.clone(), uri, t.length, t.encoded.clone())
}

fn first_tracks(tracks: &Vec<LoadedTrack>) -> (r: Vec<(String, String, u64, String)>)
    ensures
        r@.len() == if tracks@.len() < 10 { tracks@.len() } else { 10 },
        forall|i: int| 0 <= i < r@.len() ==> track_tuple_matches(tracks@[i], #[trigger] r@[i]),
{
    let mut out: Vec<(String, String, u64, String)> = Vec::new();
    let mut i: usize = 0;
    while i < tracks.len() && i < MAX_LOADED_TRACKS
        invariant
            i <= tracks@.len(),
            i <= 10,
            out@.len() == i,
            forall|k: int| 0 <= k < i ==> track_tuple_matches(tracks@[k], #[trigger] out@[k]),
        decreases tracks.len() - i,
    {
        out.push(track_tuple(&tracks[i]));
        i = i + 1;
    }
    out
}

/// Turns a Lavalink load answer into `(title, url, length_ms, encoded)` tuples:
/// the single track, or the first ten of a search or playlist; a load error gives
/// its message.
pub fn tracks_from_load(load: &TrackLoad) -> (r: Result<Vec<(String, String, u64, String)>, String>)
    ensures
        match *load {
            TrackLoad::Track(t) => r matches Ok(v) && v@.len() == 1 && track_tuple_matches(
                t,
                v@[0],
            ),
            TrackLoad::Search(ts) => r matches Ok(v) && v@.len() == (if ts@.len() < 10 {
                ts@.len()
            } else {
                10
            }) && forall|i: int| 0 <= i < v@.len() ==> track_tuple_matches(ts@[i], #[trigger] v@[i]),
            TrackLoad::Playlist(ts) => r matches Ok(v) && v@.len() == (if ts@.len() < 10 {
                ts@.len()
            } else {
                10
            }) && forall|i: int| 0 <= i < v@.len() ==> track_tuple_matches(ts@[i], #[trigger] v@[i]),
            TrackLoad::Error(m) => r matches Err(e) && e@ == m@,
            TrackLoad::Empty => r matches Ok(v) && v@.len() == 0,
        },
{
    match load {
        TrackLoad::Track(t) => {
            let mut v = Vec::new();
            v.push(track_tuple(t));
            Ok(v)
        },
        TrackLoad::Search(ts) => Ok(first_tracks(ts)),
        TrackLoad::Playlist(ts) => Ok(first_tracks(ts)),
        TrackLoad::Error(m) => Err(m.clone()),
        TrackLoad::Empty => Ok(Vec::new()),
    }
}

// ---------------------------------------------------------------------------
// Voice connection
// ---------------------------------------------------------------------------

/// Whether `connect` has to join the voice channel and hand the session to
/// Lavalink: always, unless the bot already sits in `target` with a live player.
pub fn needs_voice_handshake(bot_channel: Option<u64>, target: u64, player_ready: bool) -> (r: bool)
    ensures
        r == !(bot_channel == Some(target) && player_ready),
{
    !(bot_channel == Some(target) && player_ready)
}

/// Music can be played only in a voice or stage channel.
pub fn is_music_voice_channel(kind: crate::guild_settings::ChannelKind) -> (r: bool)
    ensures
        r == (kind == crate::guild_settings::ChannelKind::Voice || kind
            == crate::guild_settings::ChannelKind::Stage),
{
    kind == crate::guild_settings::ChannelKind::Voice || kind == crate::guild_settings::ChannelKind::Stage
}

/// `s` with every `wss://` removed, scanning from the left.
pub open spec fn without_wss(s: Seq<char>) -> Seq<char>
    decreases s.len(),
{
    if s.len() == 0 {
        s
    } else if has_prefix(s, wss_scheme()) {
        without_wss(s.skip(6))
    } else {
        seq![s[0]] + without_wss(s.drop_first())
    }
}

/// The voice endpoint in the form Lavalink expects: without its `wss://` scheme.
pub fn voice_endpoint(endpoint: &str) -> (r: String)
    ensures
        r@ == without_wss(endpoint@),
{
    let v = chars_of(endpoint);
    let (_a, p_wss, _c, _d) = scheme_prefixes();
    let mut out = String::new();
    let mut i: usize = 0;
    assert(v@.skip(0) =~= v@);
    while i < v.len()
        invariant
            i <= v@.len(),
            p_wss@ == wss_scheme(),
            v@ == endpoint@,
            out@ + without_wss(v@.skip(i as int)) == without_wss(v@),
        decreases v.len() - i,
    {
        let ghost rest = v@.skip(i as int);
        assert(v@.subrange(i as int, v@.len() as int) =~= rest);
        if range_has_prefix(&v, i, v.len(), &p_wss) {
            assert(rest.skip(6) =~= v@.skip(i + 6));
            i = i + 6;
        } else {
            let ghost before = out@;
            push_char(&mut out, v[i]);
            assert(rest.drop_first() =~= v@.skip(i + 1));
            assert(rest[0] == v@[i as int]);
            assert(out@ + without_wss(v@.skip(i + 1)) =~= before + (seq![v@[i as int]] + without_wss(
                v@.skip(i + 1),
            )));
            i = i + 1;
        }
    }
    assert(v@.skip(i as int) =~= Seq::<char>::empty());
    assert(out@ =~= without_wss(v@));
    out
}

/// `"error"`, the field name that marks a refused Lavalink REST request.
pub open spec fn error_field() -> Seq<char> {
    seq!['"', 'e', 'r', 'r', 'o', 'r', '"']
}

/// Whether a Lavalink REST answer reports an error: it holds `"error"`.
pub fn lavalink_rejected(response: &str) -> (r: bool)
    ensures
        r == crate::text::contains_text(response@, error_field()),
{
    let v = chars_of(response);
    let needle = vec!['"', 'e', 'r', 'r', 'o', 'r', '"'];
    assert(needle@ =~= error_field());
    crate::text::chars_contain_text(&v, &needle)
}

} // verus!
