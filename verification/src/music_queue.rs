//! The music queue of one guild: pending songs, the song now playing, the idle
//! disconnect timer and the auto-leave suppression window.
use std::collections::VecDeque;
use vstd::prelude::*;
use crate::clock::MonotonicClock;
use crate::text::{push_decimal, push_text, decimal};

verus! {

broadcast use vstd::string::group_string_axioms;

/// A song requested by a user.
#[derive(Debug)]
pub struct SongItem {
    pub title: String,
    pub url: String,
    pub duration_ms: Option<u64>,
    pub requested_by: String,
    /// Track data that Lavalink can play directly, when the song came from Lavalink.
    pub lavalink_encoded_track: Option<String>,
}

impl Clone for SongItem {
    fn clone(&self) -> (r: Self)
        ensures
            r == *self,
    {
        SongItem {
            title: self.title.clone(),
            url: self.url.clone(),
            duration_ms: self.duration_ms,
            requested_by: self.requested_by.clone(),
            lavalink_encoded_track: match &self.lavalink_encoded_track {
                Some(t) => Some(t.clone()),
                None => None,
            },
        }
    }
}

/// Milliseconds of idleness after which the bot leaves the voice channel.
pub const IDLE_DISCONNECT_TIMEOUT_MS: u64 = 30_000;

/// Milliseconds during which a fresh connection is not torn down by auto-leave.
pub const AUTO_LEAVE_SUPPRESSION_WINDOW_MS: u64 = 20_000;

/// What the caller must do with the idle disconnect timer.
#[derive(Debug, Clone, Copy, PartialEq, Eq, Structural)]
pub enum DisconnectTimerAction {
    /// Cancel any pending timer, then start one that fires after this many milliseconds.
    Start(u64),
    /// Cancel any pending timer.
    Clear,
}

/// Abstract state of a queue.
pub struct MusicQueueView {
    pub guild_id: u64,
    pub text_channel_id: u64,
    /// Songs not finished yet, the playing one first.
    pub songs: Seq<SongItem>,
    /// The song playing or about to play.
    pub current: Option<SongItem>,
    pub is_playing: bool,
    /// An idle disconnect timer is pending.
    pub timer_armed: bool,
    /// End of the auto-leave suppression window, in clock nanoseconds.
    pub suppressed_until: Option<u64>,
    pub player_initialized: bool,
}

/// The music queue of one guild.
pub struct MusicQueue {
    pub guild_id: u64,
    pub text_channel_id: u64,
    songs: VecDeque<SongItem>,
    current: Option<SongItem>,
    is_playing: bool,
    disconnect_timer_armed: bool,
    auto_leave_suppressed_until: Option<u64>,
    /// A Lavalink voice player exists for this guild.
    pub lavalink_player_initialized: bool,
    clock: MonotonicClock,
}

impl View for MusicQueue {
    type V = MusicQueueView;

    closed spec fn view(&self) -> MusicQueueView {
        MusicQueueView {
            guild_id: self.guild_id,
            text_channel_id: self.text_channel_id,
            songs: self.songs@,
            current: self.current,
            is_playing: self.is_playing,
            timer_armed: self.disconnect_timer_armed,
            suppressed_until: self.auto_leave_suppressed_until,
            player_initialized: self.lavalink_player_initialized,
        }
    }
}

/// The head of a song list, if any.
pub open spec fn head(songs: Seq<SongItem>) -> Option<SongItem> {
    if songs.len() > 0 {
        Some(songs[0])
    } else {
        None
    }
}

/// `a + b`, or `u64::MAX` when that does not fit.
pub open spec fn sat_add(a: u64, b: u64) -> u64 {
    if a + b > u64::MAX {
        u64::MAX
    } else {
        (a + b) as u64
    }
}

/// Milliseconds as nanoseconds, or `u64::MAX` when that does not fit.
pub open spec fn ms_to_nanos(ms: u64) -> u64 {
    if ms * 1_000_000 > u64::MAX {
        u64::MAX
    } else {
        (ms * 1_000_000) as u64
    }
}

/// End of a suppression window of `duration_ms` opened at `now`, kept later when the
/// window `until` already ends later.
pub open spec fn extended_until(until: Option<u64>, now: u64, duration_ms: u64) -> u64 {
    match until {
        Some(t) => if t > sat_add(now, ms_to_nanos(duration_ms)) {
            t
        } else {
            sat_add(now, ms_to_nanos(duration_ms))
        },
        None => sat_add(now, ms_to_nanos(duration_ms)),
    }
}

/// A suppression window ending at `until` is still open at `now`.
pub open spec fn window_open(until: Option<u64>, now: u64) -> bool {
    until matches Some(t) && t > now
}

/// The timer decision after playback state changed: an idle queue arms the idle
/// disconnect timer, a busy one cancels it.
pub open spec fn refresh_action(idle: bool) -> DisconnectTimerAction {
    if idle {
        DisconnectTimerAction::Start(IDLE_DISCONNECT_TIMEOUT_MS)
    } else {
        DisconnectTimerAction::Clear
    }
}

/// `Now playing: <title> (req by <user>) | Pending: <n>`, or `Nothing` when idle.
pub open spec fn queue_info_text(current: Option<SongItem>, pending: nat) -> Seq<char> {
    "Now playing: "@ + match current {
        Some(s) => s.title@ + " (req by "@ + s.requested_by@ + ")"@,
        None => "Nothing"@,
    } + " | Pending: "@ + decimal(pending)
}

impl MusicQueue {
    /// The queue invariant: the current song is the head of the pending songs.
    pub closed spec fn wf(&self) -> bool {
        self.current == head(self.songs@)
    }

    /// An empty, stopped queue bound to a guild and its text channel.
    pub fn constructor(guild_id: u64, text_channel_id: u64) -> (q: Self)
        ensures
            q.wf(),
            q@.guild_id == guild_id,
            q@.text_channel_id == text_channel_id,
            q@.songs.len() == 0,
            q@.current is None,
            !q@.is_playing,
            !q@.timer_armed,
            q@.suppressed_until is None,
            !q@.player_initialized,
    {
        MusicQueue {
            guild_id,
            text_channel_id,
            songs: VecDeque::new(),
            current: None,
            is_playing: false,
            disconnect_timer_armed: false,
            auto_leave_suppressed_until: None,
            lavalink_player_initialized: false,
            clock: MonotonicClock::new(),
        }
    }

    /// The guild this queue plays in.
    pub fn guild(&self) -> (r: u64)
        ensures
            r == self@.guild_id,
    {
        self.guild_id
    }

    /// Nothing is playing and nothing is pending.
    pub fn is_idle(&self) -> (r: bool)
        ensures
            r == (self@.current is None && self@.songs.len() == 0),
    {
        self.current.is_none() && self.songs.len() == 0
    }

    /// The song playing or about to play.
    pub fn play(&self) -> (r: Option<SongItem>)
        ensures
            r == self@.current,
    {
        match &self.current {
            Some(s) => Some(s.clone()),
            None => None,
        }
    }

    /// Number of songs not finished yet, the current one included.
    pub fn pending_len(&self) -> (r: usize)
        ensures
            r == self@.songs.len(),
    {
        self.songs.len()
    }

    /// A pending idle disconnect timer is wanted.
    pub fn disconnect_timer_armed(&self) -> (r: bool)
        ensures
            r == self@.timer_armed,
    {
        self.disconnect_timer_armed
    }

    /// Extends the auto-leave suppression window to at least `duration_ms`
    /// milliseconds after `now` (clock nanoseconds); a longer window is kept.
    pub fn suppress_auto_leave_at(&mut self, now: u64, duration_ms: u64)
        ensures
            final(self).wf() == old(self).wf(),
            final(self)@.suppressed_until == Some(
                extended_until(old(self)@.suppressed_until, now, duration_ms),
            ),
            final(self)@.songs == old(self)@.songs,
            final(self)@.current == old(self)@.current,
            final(self)@.is_playing == old(self)@.is_playing,
            final(self)@.timer_armed == old(self)@.timer_armed,
            final(self)@.player_initialized == old(self)@.player_initialized,
            final(self)@.guild_id == old(self)@.guild_id,
            final(self)@.text_channel_id == old(self)@.text_channel_id,
    {
        let nanos = match duration_ms.checked_mul(1_000_000) {
            Some(n) => n,
            None => u64::MAX,
        };
        let until = now.saturating_add(nanos);
        self.auto_leave_suppressed_until = Some(
            match self.auto_leave_suppressed_until {
                Some(t) => if t > until {
                    t
                } else {
                    until
                },
                None => until,
            },
        );
    }

    /// Extends the auto-leave suppression window to at least `duration_ms` from now.
    pub fn suppress_auto_leave(&mut self, duration_ms: u64)
        ensures
            final(self).wf() == old(self).wf(),
            exists|now: u64|
                final(self)@.suppressed_until == Some(
                    #[trigger] extended_until(old(self)@.suppressed_until, now, duration_ms),
                ),
            final(self)@.songs == old(self)@.songs,
            final(self)@.current == old(self)@.current,
            final(self)@.is_playing == old(self)@.is_playing,
            final(self)@.timer_armed == old(self)@.timer_armed,
            final(self)@.player_initialized == old(self)@.player_initialized,
            final(self)@.guild_id == old(self)@.guild_id,
            final(self)@.text_channel_id == old(self)@.text_channel_id,
    {
        let now = self.clock.now_nanos();
        self.suppress_auto_leave_at(now, duration_ms);
    }

    /// The suppression window is still open at `now` (clock nanoseconds).
    pub fn is_auto_leave_suppressed_at(&self, now: u64) -> (r: bool)
        ensures
            r == window_open(self@.suppressed_until, now),
    {
        match self.auto_leave_suppressed_until {
            Some(t) => t > now,
            None => false,
        }
    }

    /// The suppression window is still open now.
    pub fn is_auto_leave_suppressed(&self) -> (r: bool)
        ensures
            exists|now: u64| r == #[trigger] window_open(self@.suppressed_until, now),
            self@.suppressed_until is None ==> !r,
    {
        let now = self.clock.now_nanos();
        self.is_auto_leave_suppressed_at(now)
    }

    /// Playback has started.
    pub fn mark_playing(&mut self)
        ensures
            final(self).wf() == old(self).wf(),
            final(self)@.is_playing,
            final(self)@.songs == old(self)@.songs,
            final(self)@.current == old(self)@.current,
            final(self)@.timer_armed == old(self)@.timer_armed,
            final(self)@.suppressed_until == old(self)@.suppressed_until,
            final(self)@.player_initialized == old(self)@.player_initialized,
            final(self)@.guild_id == old(self)@.guild_id,
            final(self)@.text_channel_id == old(self)@.text_channel_id,
    {
        self.is_playing = true;
    }

    /// Cancels the idle disconnect timer.
    pub fn clear_disconnect_timeout(&mut self)
        ensures
            final(self).wf() == old(self).wf(),
            !final(self)@.timer_armed,
            final(self)@.songs == old(self)@.songs,
            final(self)@.current == old(self)@.current,
            final(self)@.is_playing == old(self)@.is_playing,
            final(self)@.suppressed_until == old(self)@.suppressed_until,
            final(self)@.player_initialized == old(self)@.player_initialized,
            final(self)@.guild_id == old(self)@.guild_id,
            final(self)@.text_channel_id == old(self)@.text_channel_id,
    {
        self.disconnect_timer_armed = false;
    }

    /// Replaces any pending idle disconnect timer by one firing after `timeout_ms`.
    pub fn start_disconnect_timeout(&mut self, timeout_ms: u64) -> (a: DisconnectTimerAction)
        ensures
            a == DisconnectTimerAction::Start(timeout_ms),
            final(self).wf() == old(self).wf(),
            final(self)@.timer_armed,
            final(self)@.songs == old(self)@.songs,
            final(self)@.current == old(self)@.current,
            final(self)@.is_playing == old(self)@.is_playing,
            final(self)@.suppressed_until == old(self)@.suppressed_until,
            final(self)@.player_initialized == old(self)@.player_initialized,
            final(self)@.guild_id == old(self)@.guild_id,
            final(self)@.text_channel_id == old(self)@.text_channel_id,
    {
        self.disconnect_timer_armed = true;
        DisconnectTimerAction::Start(timeout_ms)
    }

    /// Arms the idle timer when nothing is left to play, cancels it otherwise.
    fn refresh_disconnect_timeout(&mut self) -> (a: DisconnectTimerAction)
        ensures
            a == refresh_action(old(self)@.current is None && old(self)@.songs.len() == 0),
            final(self)@.timer_armed == (old(self)@.current is None && old(self)@.songs.len() == 0),
            final(self).wf() == old(self).wf(),
            final(self)@.songs == old(self)@.songs,
            final(self)@.current == old(self)@.current,
            final(self)@.is_playing == old(self)@.is_playing,
            final(self)@.suppressed_until == old(self)@.suppressed_until,
            final(self)@.player_initialized == old(self)@.player_initialized,
            final(self)@.guild_id == old(self)@.guild_id,
            final(self)@.text_channel_id == old(self)@.text_channel_id,
    {
        if self.is_idle() {
            self.start_disconnect_timeout(IDLE_DISCONNECT_TIMEOUT_MS)
        } else {
            self.clear_disconnect_timeout();
            DisconnectTimerAction::Clear
        }
    }

    /// Appends a song; it becomes the current song when none is set. Cancels the
    /// idle timer. Returns whether playback has to be started (nothing was playing).
    pub fn enqueue_song(&mut self, song: SongItem) -> (should_start: bool)
        requires
            old(self).wf(),
        ensures
            final(self).wf(),
            should_start == !old(self)@.is_playing,
            final(self)@.songs == old(self)@.songs.push(song),
            final(self)@.current == (match old(self)@.current {
                Some(c) => Some(c),
                None => Some(song),
            }),
            !final(self)@.timer_armed,
            final(self)@.is_playing == old(self)@.is_playing,
            final(self)@.suppressed_until == old(self)@.suppressed_until,
            final(self)@.player_initialized == old(self)@.player_initialized,
            final(self)@.guild_id == old(self)@.guild_id,
            final(self)@.text_channel_id == old(self)@.text_channel_id,
    {
        self.clear_disconnect_timeout();
        let should_start = !self.is_playing;
        if self.current.is_none() {
            self.current = Some(song.clone());
        }
        self.songs.push_back(song);
        should_start
    }

    /// The current song is over: it leaves the queue, the next one (if any) becomes
    /// current and playback is marked stopped. Returns the timer decision and the
    /// song to start next.
    fn advance(&mut self) -> (r: (DisconnectTimerAction, Option<SongItem>))
        requires
            old(self).wf(),
        ensures
            final(self).wf(),
            final(self)@.songs == (if old(self)@.songs.len() > 0 {
                old(self)@.songs.drop_first()
            } else {
                old(self)@.songs
            }),
            final(self)@.current == head(final(self)@.songs),
            !final(self)@.is_playing,
            r.0 == refresh_action(final(self)@.songs.len() == 0),
            final(self)@.timer_armed == (final(self)@.songs.len() == 0),
            r.1 == final(self)@.current,
            final(self)@.suppressed_until == old(self)@.suppressed_until,
            final(self)@.player_initialized == old(self)@.player_initialized,
            final(self)@.guild_id == old(self)@.guild_id,
            final(self)@.text_channel_id == old(self)@.text_channel_id,
    {
        let _ = self.songs.pop_front();
        if self.songs.len() > 0 {
            self.current = Some(self.songs[0].clone());
        } else {
            self.current = None;
        }
        self.is_playing = false;
        let action = self.refresh_disconnect_timeout();
        (action, self.play())
    }

    /// Handles the end of the current track. Returns the timer decision and the
    /// song that must be started next, if any.
    pub fn handle_song_end(&mut self) -> (r: (DisconnectTimerAction, Option<SongItem>))
        requires
            old(self).wf(),
        ensures
            final(self).wf(),
            final(self)@.songs == (if old(self)@.songs.len() > 0 {
                old(self)@.songs.drop_first()
            } else {
                old(self)@.songs
            }),
            !final(self)@.is_playing,
            r.0 == refresh_action(final(self)@.songs.len() == 0),
            final(self)@.timer_armed == (final(self)@.songs.len() == 0),
            r.1 == head(final(self)@.songs),
            final(self)@.suppressed_until == old(self)@.suppressed_until,
            final(self)@.player_initialized == old(self)@.player_initialized,
            final(self)@.guild_id == old(self)@.guild_id,
            final(self)@.text_channel_id == old(self)@.text_channel_id,
    {
        self.advance()
    }

    /// Skips the current song. Returns the timer decision and the song that must be
    /// started next; with none, remote playback must be stopped.
    pub fn skip(&mut self) -> (r: (DisconnectTimerAction, Option<SongItem>))
        requires
            old(self).wf(),
        ensures
            final(self).wf(),
            final(self)@.songs == (if old(self)@.songs.len() > 0 {
                old(self)@.songs.drop_first()
            } else {
                old(self)@.songs
            }),
            !final(self)@.is_playing,
            r.0 == refresh_action(final(self)@.songs.len() == 0),
            final(self)@.timer_armed == (final(self)@.songs.len() == 0),
            r.1 == head(final(self)@.songs),
            final(self)@.suppressed_until == old(self)@.suppressed_until,
            final(self)@.player_initialized == old(self)@.player_initialized,
            final(self)@.guild_id == old(self)@.guild_id,
            final(self)@.text_channel_id == old(self)@.text_channel_id,
    {
        self.advance()
    }

    /// Clears the queue and stops playback; the idle timer is armed. Remote
    /// playback must then be stopped.
    pub fn stop(&mut self) -> (a: DisconnectTimerAction)
        ensures
            final(self).wf(),
            final(self)@.songs.len() == 0,
            final(self)@.current is None,
            !final(self)@.is_playing,
            a == DisconnectTimerAction::Start(IDLE_DISCONNECT_TIMEOUT_MS),
            final(self)@.timer_armed,
            final(self)@.suppressed_until == old(self)@.suppressed_until,
            final(self)@.player_initialized == old(self)@.player_initialized,
            final(self)@.guild_id == old(self)@.guild_id,
            final(self)@.text_channel_id == old(self)@.text_channel_id,
    {
        self.songs.clear();
        self.current = None;
        self.is_playing = false;
        self.refresh_disconnect_timeout()
    }

    /// Resets the queue before the bot leaves the voice channel: no songs, no
    /// timer, no suppression window, no player.
    pub fn destroy(&mut self)
        ensures
            final(self).wf(),
            final(self)@.songs.len() == 0,
            final(self)@.current is None,
            !final(self)@.is_playing,
            !final(self)@.timer_armed,
            final(self)@.suppressed_until is None,
            !final(self)@.player_initialized,
            final(self)@.guild_id == old(self)@.guild_id,
            final(self)@.text_channel_id == old(self)@.text_channel_id,
    {
        self.clear_disconnect_timeout();
        self.songs.clear();
        self.current = None;
        self.is_playing = false;
        self.auto_leave_suppressed_until = None;
        self.lavalink_player_initialized = false;
    }

    /// The idle timer fired. Returns whether the queue is idle and must be destroyed
    /// (the timer is then disarmed); a busy queue is left as it is.
    pub fn disconnect_timer_fired(&mut self) -> (destroy: bool)
        ensures
            destroy == (old(self)@.current is None && old(self)@.songs.len() == 0),
            destroy ==> !final(self)@.timer_armed,
            !destroy ==> final(self)@.timer_armed == old(self)@.timer_armed,
            final(self).wf() == old(self).wf(),
            final(self)@.songs == old(self)@.songs,
            final(self)@.current == old(self)@.current,
            final(self)@.is_playing == old(self)@.is_playing,
            final(self)@.suppressed_until == old(self)@.suppressed_until,
            final(self)@.player_initialized == old(self)@.player_initialized,
            final(self)@.guild_id == old(self)@.guild_id,
            final(self)@.text_channel_id == old(self)@.text_channel_id,
    {
        if !self.is_idle() {
            return false;
        }
        self.disconnect_timer_armed = false;
        true
    }

    /// One-line summary of the queue.
    pub fn get_queue_info(&self) -> (s: String)
        ensures
            s@ == queue_info_text(self@.current, self@.songs.len()),
    {
        let mut out = String::new();
        push_text(&mut out, "Now playing: ");
        match &self.current {
            Some(s) => {
                push_text(&mut out, s.title.as_str());
                push_text(&mut out, " (req by ");
                push_text(&mut out, s.requested_by.as_str());
                push_text(&mut out, ")");
            },
            None => {
                push_text(&mut out, "Nothing");
            },
        }
        push_text(&mut out, " | Pending: ");
        push_decimal(&mut out, self.songs.len() as u64);
        assert(out@ =~= queue_info_text(self@.current, self@.songs.len()));
        out
    }
}

/// Every queue operation keeps the current song at the head of the pending songs,
/// so the song reported as playing is always the next one the queue gives up.
pub proof fn current_song_is_queue_head(q: MusicQueue)
    requires
        q.wf(),
    ensures
        q@.current == head(q@.songs),
        (q@.current is None) <==> q@.songs.len() == 0,
{
}

/// Songs come out in the order they were enqueued: after `k` songs have ended or
/// been skipped, the current song is the `k`-th one enqueued, and a song enqueued
/// behind the others comes out once all of them are gone.
pub proof fn songs_play_in_enqueue_order(songs: Seq<SongItem>, s: SongItem, k: nat)
    requires
        k <= songs.len(),
    ensures
        head(songs.push(s).skip(k as int)) == if k < songs.len() {
            Some(songs[k as int])
        } else {
            Some(s)
        },
{
    assert(songs.push(s).skip(k as int)[0] == songs.push(s)[k as int]);
}

} // verus!
