//! Decisions about temporary voice channels and leaving empty voice channels.
use vstd::prelude::*;
use crate::guild_settings::GuildSettings;
use crate::moderation::{OverwriteTarget, PermissionOverwrite, CONNECT, VIEW_CHANNEL};
use crate::private_voice_registry::TempVoiceChannelKind;
use crate::text::{chars_of, decimal, push_char, push_chars, push_decimal, trim, trim_bounds};

verus! {

broadcast use vstd::string::group_string_axioms;

/// `public` or `private`.
pub open spec fn kind_label_text(kind: TempVoiceChannelKind) -> Seq<char> {
    match kind {
        TempVoiceChannelKind::Public => seq!['p', 'u', 'b', 'l', 'i', 'c'],
        TempVoiceChannelKind::Private => seq!['p', 'r', 'i', 'v', 'a', 't', 'e'],
    }
}

/// Word used for a kind in moderation messages.
pub fn kind_label(kind: TempVoiceChannelKind) -> (r: String)
    ensures
        r@ == kind_label_text(kind),
{
    let mut s = String::new();
    match kind {
        TempVoiceChannelKind::Public => {
            push_char(&mut s, 'p');
            push_char(&mut s, 'u');
            push_char(&mut s, 'b');
            push_char(&mut s, 'l');
            push_char(&mut s, 'i');
            push_char(&mut s, 'c');
        },
        TempVoiceChannelKind::Private => {
            push_char(&mut s, 'p');
            push_char(&mut s, 'r');
            push_char(&mut s, 'i');
            push_char(&mut s, 'v');
            push_char(&mut s, 'a');
            push_char(&mut s, 't');
            push_char(&mut s, 'e');
        },
    }
    assert(s@ =~= kind_label_text(kind));
    s
}

/// Longest channel name, in characters.
pub const MAX_CHANNEL_NAME_CHARS: usize = 100;

/// Name of the owner shown in the channel name: the member's (trimmed) display
/// name, or `User <id>` when there is none or it is blank.
pub open spec fn owner_display(member_name: Option<Seq<char>>, user_id: u64) -> Seq<char> {
    match member_name {
        Some(n) if trim(n).len() > 0 => trim(n),
        _ => seq!['U', 's', 'e', 'r', ' '] + decimal(user_id as nat),
    }
}

/// `'s Voice` or `'s Private Voice`.
pub open spec fn channel_name_suffix(kind: TempVoiceChannelKind) -> Seq<char> {
    match kind {
        TempVoiceChannelKind::Public => seq!['\'', 's', ' ', 'V', 'o', 'i', 'c', 'e'],
        TempVoiceChannelKind::Private => seq![
            '\'',
            's',
            ' ',
            'P',
            'r',
            'i',
            'v',
            'a',
            't',
            'e',
            ' ',
            'V',
            'o',
            'i',
            'c',
            'e',
        ],
    }
}

/// Name of a new temporary channel, cut to its first 100 characters.
pub open spec fn temp_channel_name(
    kind: TempVoiceChannelKind,
    member_name: Option<Seq<char>>,
    user_id: u64,
) -> Seq<char> {
    let full = owner_display(member_name, user_id) + channel_name_suffix(kind);
    if full.len() > 100 {
        full.take(100)
    } else {
        full
    }
}

/// Name for the temporary channel of a member: `<name>'s Voice` or
/// `<name>'s Private Voice`, where `<name>` is the member's nickname or user name
/// (`member_name`, trimmed) or `User <id>`; at most 100 characters.
pub fn build_temp_voice_channel_name(
    kind: TempVoiceChannelKind,
    member_name: Option<&str>,
    user_id: u64,
) -> (r: String)
    ensures
        r@ == temp_channel_name(
            kind,
            match member_name {
                Some(n) => Some(n@),
                None => None,
            },
            user_id,
        ),
{
    let mut full = String::new();
    let mut named = false;
    match member_name {
        Some(n) => {
            let v = chars_of(n);
            let (a, b) = trim_bounds(&v, 0, v.len());
            assert(v@.subrange(0, v@.len() as int) =~= n@);
            if a < b {
                push_chars(&mut full, &v, a, b);
                named = true;
            }
        },
        None => {},
    }
    if !named {
        push_char(&mut full, 'U');
        push_char(&mut full, 's');
        push_char(&mut full, 'e');
        push_char(&mut full, 'r');
        push_char(&mut full, ' ');
        push_decimal(&mut full, user_id);
    }
    let ghost owner = full@;
    let suffix: Vec<char> = match kind {
        TempVoiceChannelKind::Public => vec!['\'', 's', ' ', 'V', 'o', 'i', 'c', 'e'],
        TempVoiceChannelKind::Private => vec![
            '\'',
            's',
            ' ',
            'P',
            'r',
            'i',
            'v',
            'a',
            't',
            'e',
            ' ',
            'V',
            'o',
            'i',
            'c',
            'e',
        ],
    };
    assert(suffix@ =~= channel_name_suffix(kind));
    push_chars(&mut full, &suffix, 0, suffix.len());
    assert(suffix@.subrange(0, suffix@.len() as int) =~= suffix@);
    let ghost m = match member_name {
        Some(n) => Some(n@),
        None => None,
    };
    assert(owner =~= owner_display(m, user_id));
    let all = chars_of(full.as_str());
    if all.len() > MAX_CHANNEL_NAME_CHARS {
        let out = crate::text::string_of_range(&all, 0, MAX_CHANNEL_NAME_CHARS);
        assert(all@.subrange(0, 100) =~= all@.take(100));
        out
    } else {
        full
    }
}

/// Which lobby a voice-state change entered: a lobby counts when it is configured,
/// the member is now in it and was not before. The private lobby wins.
pub open spec fn lobby_joined(
    public_lobby: Option<u64>,
    private_lobby: Option<u64>,
    old_channel: Option<u64>,
    new_channel: Option<u64>,
) -> Option<TempVoiceChannelKind> {
    if private_lobby is Some && new_channel == private_lobby && old_channel != private_lobby {
        Some(TempVoiceChannelKind::Private)
    } else if public_lobby is Some && new_channel == public_lobby && old_channel != public_lobby {
        Some(TempVoiceChannelKind::Public)
    } else {
        None
    }
}

/// A lobby is joined only by moving into it: a voice-state change that stays in
/// the same channel (muting, deafening) joins nothing, and a joined lobby is the
/// new channel, set, and different from the old one; the private lobby wins when
/// both lobbies are the same channel.
pub proof fn lobby_join_needs_a_move(
    public_lobby: Option<u64>,
    private_lobby: Option<u64>,
    old_channel: Option<u64>,
    new_channel: Option<u64>,
)
    ensures
        old_channel == new_channel ==> lobby_joined(public_lobby, private_lobby, old_channel, new_channel)
            is None,
        lobby_joined(public_lobby, private_lobby, old_channel, new_channel) == Some(
            TempVoiceChannelKind::Private,
        ) ==> new_channel is Some && new_channel == private_lobby && old_channel != new_channel,
        lobby_joined(public_lobby, private_lobby, old_channel, new_channel) == Some(
            TempVoiceChannelKind::Public,
        ) ==> new_channel is Some && new_channel == public_lobby && old_channel != new_channel,
        (new_channel is Some && new_channel == private_lobby && old_channel != new_channel) ==> lobby_joined(
            public_lobby,
            private_lobby,
            old_channel,
            new_channel,
        ) == Some(TempVoiceChannelKind::Private),
        (new_channel is Some && new_channel == public_lobby && new_channel != private_lobby
            && old_channel != new_channel) ==> lobby_joined(
            public_lobby,
            private_lobby,
            old_channel,
            new_channel,
        ) == Some(TempVoiceChannelKind::Public),
{
}

/// When temporary voices are enabled (a category is set), the category to create
/// the channel in and the kind of channel that a member's move from `old_channel`
/// to `new_channel` asks for.
pub fn temp_voice_request(
    settings: &GuildSettings,
    old_channel: Option<u64>,
    new_channel: Option<u64>,
) -> (r: Option<(u64, TempVoiceChannelKind)>)
    ensures
        r == match settings.temp_voice_category_id {
            None => None,
            Some(cat) => match lobby_joined(
                settings.temp_voice_public_lobby_channel_id,
                settings.temp_voice_private_lobby_channel_id,
                old_channel,
                new_channel,
            ) {
                Some(k) => Some((cat, k)),
                None => None,
            },
        },
        old_channel == new_channel ==> r is None,
        r matches Some((cat, k)) ==> settings.temp_voice_category_id == Some(cat) && new_channel
            is Some && old_channel != new_channel && new_channel == match k {
            TempVoiceChannelKind::Private => settings.temp_voice_private_lobby_channel_id,
            TempVoiceChannelKind::Public => settings.temp_voice_public_lobby_channel_id,
        },
{
    proof {
        lobby_join_needs_a_move(
            settings.temp_voice_public_lobby_channel_id,
            settings.temp_voice_private_lobby_channel_id,
            old_channel,
            new_channel,
        );
    }
    let category = match settings.temp_voice_category_id {
        Some(c) => c,
        None => return None,
    };
    let public_lobby = settings.temp_voice_public_lobby_channel_id;
    let private_lobby = settings.temp_voice_private_lobby_channel_id;
    let joined_public = public_lobby.is_some() && new_channel == public_lobby && old_channel
        != public_lobby;
    let joined_private = private_lobby.is_some() && new_channel == private_lobby && old_channel
        != private_lobby;
    if joined_private {
        Some((category, TempVoiceChannelKind::Private))
    } else if joined_public {
        Some((category, TempVoiceChannelKind::Public))
    } else {
        None
    }
}

/// Members (by user id) in `channel`, leaving out `except` if given.
pub open spec fn members_in(states: Seq<(u64, Option<u64>)>, channel: u64, except: Option<u64>) -> nat
    decreases states.len(),
{
    if states.len() == 0 {
        0
    } else {
        let s = states.last();
        members_in(states.drop_last(), channel, except) + if s.1 == Some(channel) && Some(s.0)
            != except {
            1nat
        } else {
            0nat
        }
    }
}

/// Counts the voice states `(user, channel)` that sit in `channel`, except the user
/// `except` if given.
pub fn count_members_in(states: &Vec<(u64, Option<u64>)>, channel: u64, except: Option<u64>) -> (r: usize)
    ensures
        r == members_in(states@, channel, except),
{
    let mut n: usize = 0;
    let mut i: usize = 0;
    assert(states@.take(0) =~= Seq::<(u64, Option<u64>)>::empty());
    while i < states.len()
        invariant
            i <= states@.len(),
            n == members_in(states@.take(i as int), channel, except),
            n <= i,
        decreases states.len() - i,
    {
        let (user, ch) = states[i];
        assert(states@.take(i + 1).drop_last() =~= states@.take(i as int));
        if ch == Some(channel) && Some(user) != except {
            n = n + 1;
        }
        i = i + 1;
    }
    assert(states@.take(states@.len() as int) =~= states@);
    n
}

/// What to do with a guild's music queue after a voice-state change.
#[derive(Clone, Copy, Debug, PartialEq, Eq, Structural)]
pub enum AutoLeaveAction {
    /// Leave everything as it is.
    Stay,
    /// The bot is in no voice channel: forget the queue.
    DropQueue,
    /// The bot is alone: destroy the queue, leave, and remove an emptied temporary channel.
    Leave,
}

/// Auto-leave decision: nothing while suppressed; forget the queue when the bot is in
/// no voice channel; leave when no one else listens.
pub open spec fn auto_leave_decision(suppressed: bool, bot_channel: Option<u64>, listeners: nat) -> AutoLeaveAction {
    if suppressed {
        AutoLeaveAction::Stay
    } else if bot_channel is None {
        AutoLeaveAction::DropQueue
    } else if listeners == 0 {
        AutoLeaveAction::Leave
    } else {
        AutoLeaveAction::Stay
    }
}

/// Decides what to do with a guild's queue after a voice-state change, given
/// whether auto-leave is suppressed, the bot's voice channel and how many other
/// members are in it.
pub fn auto_leave_action(suppressed: bool, bot_channel: Option<u64>, listeners: usize) -> (r: AutoLeaveAction)
    ensures
        r == auto_leave_decision(suppressed, bot_channel, listeners as nat),
{
    if suppressed {
        AutoLeaveAction::Stay
    } else if bot_channel.is_none() {
        AutoLeaveAction::DropQueue
    } else if listeners == 0 {
        AutoLeaveAction::Leave
    } else {
        AutoLeaveAction::Stay
    }
}

/// A temporary channel name never exceeds 100 characters, and a name that fits is
/// kept whole.
pub proof fn temp_channel_name_fits(kind: TempVoiceChannelKind, member_name: Option<Seq<char>>, user_id: u64)
    ensures
        temp_channel_name(kind, member_name, user_id).len() <= 100,
        (owner_display(member_name, user_id) + channel_name_suffix(kind)).len() <= 100
            ==> temp_channel_name(kind, member_name, user_id) == owner_display(member_name, user_id)
            + channel_name_suffix(kind),
{
}

/// Permission overwrites of a new temporary channel. A private channel is shown to
/// and joinable by its owner only: the owner is allowed to view and connect, and
/// the `@everyone` role (whose id is the guild id) is denied both. A public channel
/// has none.
pub open spec fn temp_channel_overwrites(
    kind: TempVoiceChannelKind,
    owner: u64,
    guild_id: u64,
) -> Seq<PermissionOverwrite> {
    match kind {
        TempVoiceChannelKind::Public => Seq::empty(),
        TempVoiceChannelKind::Private => seq![
            PermissionOverwrite {
                allow: VIEW_CHANNEL | CONNECT,
                deny: 0,
                target: OverwriteTarget::Member(owner),
            },
            PermissionOverwrite {
                allow: 0,
                deny: VIEW_CHANNEL | CONNECT,
                target: OverwriteTarget::Role(guild_id),
            },
        ],
    }
}

/// The permission overwrites to create a temporary channel with.
pub fn temp_voice_overwrites(kind: TempVoiceChannelKind, owner: u64, guild_id: u64) -> (r: Vec<
    PermissionOverwrite,
>)
    ensures
        r@ == temp_channel_overwrites(kind, owner, guild_id),
{
    let mut v: Vec<PermissionOverwrite> = Vec::new();
    if kind == TempVoiceChannelKind::Private {
        v.push(
            PermissionOverwrite {
                allow: VIEW_CHANNEL | CONNECT,
                deny: 0,
                target: OverwriteTarget::Member(owner),
            },
        );
        v.push(
            PermissionOverwrite {
                allow: 0,
                deny: VIEW_CHANNEL | CONNECT,
                target: OverwriteTarget::Role(guild_id),
            },
        );
    }
    assert(v@ =~= temp_channel_overwrites(kind, owner, guild_id));
    v
}

/// A channel just created for a member is kept only if the member is still in the
/// lobby they joined; otherwise it is deleted again.
pub fn keep_created_channel(current_channel: Option<u64>, joined_channel: Option<u64>) -> (r: bool)
    ensures
        r == (current_channel == joined_channel),
{
    current_channel == joined_channel
}

/// The overwrite that lets an invited member see and join a private channel.
pub fn invite_overwrite(user_id: u64) -> (r: PermissionOverwrite)
    ensures
        r == (PermissionOverwrite {
            allow: CONNECT | VIEW_CHANNEL,
            deny: 0,
            target: OverwriteTarget::Member(user_id),
        }),
{
    PermissionOverwrite { allow: CONNECT | VIEW_CHANNEL, deny: 0, target: OverwriteTarget::Member(user_id) }
}

} // verus!
