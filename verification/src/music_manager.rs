//! The music queues of all guilds, keyed by guild id.
use std::collections::HashMap;
use vstd::prelude::*;
use vstd::std_specs::iter::IteratorSpec;
use crate::music_queue::MusicQueue;

verus! {

/// Queues by guild id.
pub struct MusicManager {
    queues: HashMap<u64, MusicQueue>,
}

impl View for MusicManager {
    type V = Map<u64, MusicQueue>;

    closed spec fn view(&self) -> Map<u64, MusicQueue> {
        self.queues@
    }
}

impl MusicManager {
    /// Every stored queue keeps its invariant and belongs to the guild it is stored under.
    pub closed spec fn wf(&self) -> bool {
        forall|g: u64| #[trigger] self.queues@.contains_key(g) ==> self.queues@[g].wf()
            && self.queues@[g]@.guild_id == g
    }

    /// No queue yet.
    pub fn new() -> (m: Self)
        ensures
            m.wf(),
            m@ == Map::<u64, MusicQueue>::empty(),
    {
        MusicManager { queues: HashMap::new() }
    }

    /// No queue yet.
    pub fn constructor() -> (m: Self)
        ensures
            m.wf(),
            m@ == Map::<u64, MusicQueue>::empty(),
    {
        Self::new()
    }

    /// The queue of a guild, if it has one.
    pub fn get_queue(&self, guild_id: u64) -> (r: Option<&MusicQueue>)
        requires
            self.wf(),
        ensures
            match r {
                Some(q) => self@.contains_key(guild_id) && *q == self@[guild_id] && q.wf()
                    && q@.guild_id == guild_id,
                None => !self@.contains_key(guild_id),
            },
    {
        self.queues.get(&guild_id)
    }

    /// Whether a guild has a queue.
    pub fn has_queue(&self, guild_id: u64) -> (r: bool)
        ensures
            r == self@.contains_key(guild_id),
    {
        self.queues.contains_key(&guild_id)
    }

    /// Gives a guild a fresh, empty queue bound to `text_channel_id`, replacing any
    /// queue it had.
    pub fn create_queue(&mut self, guild_id: u64, text_channel_id: u64)
        requires
            old(self).wf(),
        ensures
            final(self).wf(),
            final(self)@.dom() == old(self)@.dom().insert(guild_id),
            forall|g: u64| g != guild_id && #[trigger] old(self)@.contains_key(g) ==> final(self)@[g] == old(self)@[g],
            final(self)@[guild_id]@.guild_id == guild_id,
            final(self)@[guild_id]@.text_channel_id == text_channel_id,
            final(self)@[guild_id]@.songs.len() == 0,
            final(self)@[guild_id]@.current is None,
            !final(self)@[guild_id]@.is_playing,
            !final(self)@[guild_id]@.timer_armed,
            final(self)@[guild_id]@.suppressed_until is None,
            !final(self)@[guild_id]@.player_initialized,
    {
        let q = MusicQueue::constructor(guild_id, text_channel_id);
        self.queues.insert(guild_id, q);
    }

    /// Removes a guild's queue.
    pub fn delete_queue(&mut self, guild_id: u64)
        requires
            old(self).wf(),
        ensures
            final(self).wf(),
            final(self)@ == old(self)@.remove(guild_id),
    {
        let _ = self.queues.remove(&guild_id);
    }

    /// Takes a guild's queue out of the manager to change it.
    pub fn take_queue(&mut self, guild_id: u64) -> (r: Option<MusicQueue>)
        requires
            old(self).wf(),
        ensures
            final(self).wf(),
            final(self)@ == old(self)@.remove(guild_id),
            match r {
                Some(q) => old(self)@.contains_key(guild_id) && q == old(self)@[guild_id] && q.wf()
                    && q@.guild_id == guild_id,
                None => !old(self)@.contains_key(guild_id),
            },
    {
        self.queues.remove(&guild_id)
    }

    /// Stores a queue under its guild, replacing any queue that guild had.
    pub fn put_queue(&mut self, queue: MusicQueue)
        requires
            old(self).wf(),
            queue.wf(),
        ensures
            final(self).wf(),
            final(self)@ == old(self)@.insert(queue@.guild_id, queue),
    {
        let g = queue.guild();
        assert(queue@.guild_id == g);
        self.queues.insert(g, queue);
    }

    /// The guilds that have a queue, each once.
    pub fn get_all_queues(&self) -> (r: Vec<u64>)
        ensures
            r@.to_set() == self@.dom(),
            r@.no_duplicates(),
    {
        let mut out: Vec<u64> = Vec::new();
        let ghost all = vstd::std_specs::hash::spec_keys_iter(&self.queues).remaining();
        for g in it: self.queues.keys()
            invariant
                it.seq() == all,
                all.unref().to_set() == self.queues@.dom(),
                all.no_duplicates(),
                out@ == all.unref().take(it.index()),
        {
            let ghost k = it.index();
            assert(all.unref()[k] == *g);
            out.push(*g);
            assert(all.unref().take(k + 1) =~= all.unref().take(k).push(*g));
        }
        assert(all.unref().take(all.len() as int) =~= all.unref());
        assert(out@.no_duplicates()) by {
            assert forall|i: int, j: int| 0 <= i < out@.len() && 0 <= j < out@.len() && i != j
                implies out@[i] != out@[j] by {
                assert(out@[i] == *all[i] && out@[j] == *all[j]);
            }
        }
        out
    }
}

impl Default for MusicManager {
    fn default() -> (r: Self)
        ensures
            r.wf(),
            r@ == Map::<u64, MusicQueue>::empty(),
    {
        Self::new()
    }
}

} // verus!
