//! Temporary voice channels created from the lobbies, with their owner and kind.
use std::collections::HashMap;
use vstd::prelude::*;

verus! {

/// Whether a temporary voice channel is open to everyone or only to invited members.
#[derive(Clone, Copy, Debug, PartialEq, Eq, Structural)]
pub enum TempVoiceChannelKind {
    Public,
    Private,
}

/// Owner and kind of a temporary voice channel.
#[derive(Clone, Copy, Debug, PartialEq, Eq, Structural)]
pub struct TempVoiceChannelEntry {
    pub owner: u64,
    pub kind: TempVoiceChannelKind,
}

/// Temporary voice channels by channel id.
pub struct PrivateVoiceRegistry {
    channels: HashMap<u64, TempVoiceChannelEntry>,
}

impl View for PrivateVoiceRegistry {
    type V = Map<u64, TempVoiceChannelEntry>;

    closed spec fn view(&self) -> Map<u64, TempVoiceChannelEntry> {
        self.channels@
    }
}

impl PrivateVoiceRegistry {
    /// No channel registered.
    pub fn new() -> (r: Self)
        ensures
            r@ == Map::<u64, TempVoiceChannelEntry>::empty(),
    {
        PrivateVoiceRegistry { channels: HashMap::new() }
    }

    /// Records `channel_id` as a temporary channel owned by `user_id`, replacing any
    /// earlier record of it.
    pub fn set_channel(&mut self, channel_id: u64, user_id: u64, kind: TempVoiceChannelKind)
        ensures
            final(self)@ == old(self)@.insert(
                channel_id,
                TempVoiceChannelEntry { owner: user_id, kind },
            ),
    {
        self.channels.insert(channel_id, TempVoiceChannelEntry { owner: user_id, kind });
    }

    /// The record of a channel, if it is a temporary one.
    pub fn get_entry(&self, channel_id: u64) -> (r: Option<TempVoiceChannelEntry>)
        ensures
            r == (if self@.contains_key(channel_id) {
                Some(self@[channel_id])
            } else {
                None
            }),
    {
        match self.channels.get(&channel_id) {
            Some(e) => Some(*e),
            None => None,
        }
    }

    /// The owner of a temporary channel.
    pub fn get_owner(&self, channel_id: u64) -> (r: Option<u64>)
        ensures
            r == (if self@.contains_key(channel_id) {
                Some(self@[channel_id].owner)
            } else {
                None
            }),
    {
        match self.get_entry(channel_id) {
            Some(e) => Some(e.owner),
            None => None,
        }
    }

    /// The channel is a private temporary channel.
    pub fn is_private(&self, channel_id: u64) -> (r: bool)
        ensures
            r == (self@.contains_key(channel_id) && self@[channel_id].kind
                == TempVoiceChannelKind::Private),
    {
        match self.get_entry(channel_id) {
            Some(e) => match e.kind {
                TempVoiceChannelKind::Private => true,
                TempVoiceChannelKind::Public => false,
            },
            None => false,
        }
    }

    /// Forgets a channel.
    pub fn delete_owner(&mut self, channel_id: u64)
        ensures
            final(self)@ == old(self)@.remove(channel_id),
    {
        let _ = self.channels.remove(&channel_id);
    }
}

/// A recorded channel reads back with the owner and kind it was recorded with until
/// it is deleted; recording or deleting another channel leaves it alone.
pub proof fn registry_read_after_write(
    m: Map<u64, TempVoiceChannelEntry>,
    channel: u64,
    other: u64,
    owner: u64,
    kind: TempVoiceChannelKind,
)
    requires
        other != channel,
    ensures
        m.insert(channel, TempVoiceChannelEntry { owner, kind }).contains_key(channel),
        m.insert(channel, TempVoiceChannelEntry { owner, kind })[channel].owner == owner,
        m.insert(channel, TempVoiceChannelEntry { owner, kind })[channel].kind == kind,
        !m.insert(channel, TempVoiceChannelEntry { owner, kind }).remove(channel).contains_key(
            channel,
        ),
        m.insert(other, TempVoiceChannelEntry { owner, kind }).contains_key(channel)
            == m.contains_key(channel),
        m.remove(other).contains_key(channel) == m.contains_key(channel),
{
}

/// Why an invitation to a private channel was refused.
#[derive(Clone, Copy, Debug, PartialEq, Eq, Structural)]
pub enum InviteError {
    /// The inviter's channel is not a temporary channel.
    NotPrivateVoice,
    /// The guild configuration does not allow private channels here.
    ChannelNotAllowed,
    /// Only the owner may invite.
    NotOwner,
}

/// Whether `inviter` may invite others into the channel whose recorded owner is
/// `owner`, in a channel the configuration `allowed`.
pub fn invite_permission(owner: Option<u64>, allowed: bool, inviter: u64) -> (r: Result<(), InviteError>)
    ensures
        owner is None ==> r == Err::<(), InviteError>(InviteError::NotPrivateVoice),
        owner is Some && !allowed ==> r == Err::<(), InviteError>(InviteError::ChannelNotAllowed),
        owner is Some && allowed && owner->0 != inviter ==> r == Err::<(), InviteError>(
            InviteError::NotOwner,
        ),
        owner == Some(inviter) && allowed ==> r is Ok,
{
    let o = match owner {
        Some(o) => o,
        None => return Err(InviteError::NotPrivateVoice),
    };
    if !allowed {
        return Err(InviteError::ChannelNotAllowed);
    }
    if o != inviter {
        return Err(InviteError::NotOwner);
    }
    Ok(())
}

impl Default for PrivateVoiceRegistry {
    fn default() -> (r: Self)
        ensures
            r@ == Map::<u64, TempVoiceChannelEntry>::empty(),
    {
        Self::new()
    }
}

} // verus!
