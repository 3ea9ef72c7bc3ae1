//! Command names, message-command parsing, component routing and small
//! command helpers.
use rand::Rng;
use vstd::prelude::*;
use crate::text::{
    chars_of, char_is_whitespace, decimal, has_prefix, is_whitespace, push_char, push_chars,
    push_decimal, range_eq, range_has_prefix, string_of_range, trim, trim_bounds,
};

verus! {

broadcast use vstd::string::group_string_axioms;

/// Who may run a command.
#[derive(Clone, Copy, Debug, PartialEq, Eq, Structural)]
pub enum CommandRole {
    Owner,
    Developer,
    User,
}

/// Role required by a slash command; `None` for an unknown command.
pub open spec fn slash_role_of(name: Seq<char>) -> Option<CommandRole> {
    if name == seq!['t', 'i', 'm', 'e', 'o', 'u', 't'] || name == seq!['d', 'e', 'l', 'e', 't', 'e', 'm', 'e', 's', 's', 'a', 'g', 'e'] || name == seq!['s', 'e', 'c', 'u', 'r', 'i', 't', 'y', '-', 'l', 'o', 'c', 'k', 'd', 'o', 'w', 'n'] || name == seq!['c', 'o', 'n', 'f', 'i', 'g', '-', 's', 'e', 't'] || name == seq!['c', 'o', 'n', 'f', 'i', 'g', '-', 's', 'h', 'o', 'w'] || name == seq!['r', 'e', 'l', 'o', 'a', 'd'] {
        Some(CommandRole::Owner)
    } else if name == seq!['e', 'v', 'a', 'l'] {
        Some(CommandRole::Developer)
    } else if name == seq!['p', 'i', 'n', 'g'] || name == seq!['r', 'a', 'n', 'd', 'o', 'm'] || name == seq!['p', 'l', 'a', 'y'] || name == seq!['s', 'k', 'i', 'p'] || name == seq!['s', 't', 'o', 'p'] {
        Some(CommandRole::User)
    } else {
        None
    }
}

/// Role required by a message command (its first word); `None` for other words.
pub open spec fn message_role_of(name: Seq<char>) -> Option<CommandRole> {
    if name == seq!['!', 'r', 'e', 'l', 'o', 'a', 'd'] {
        Some(CommandRole::Owner)
    } else if name == seq!['!', 'e', 'v', 'a', 'l'] {
        Some(CommandRole::Developer)
    } else if name == seq!['!', 'p', 'i', 'n', 'g'] || name == seq!['!', 'p', 'l', 'a', 'y'] || name == seq!['!', 's', 'k', 'i', 'p'] || name == seq!['!', 's', 't', 'o', 'p'] {
        Some(CommandRole::User)
    } else {
        None
    }
}

/// The slash commands the bot registers.
pub open spec fn registered_slash_commands() -> Seq<Seq<char>> {
    seq![
        seq!['p', 'i', 'n', 'g'],
        seq!['r', 'a', 'n', 'd', 'o', 'm'],
        seq!['t', 'i', 'm', 'e', 'o', 'u', 't'],
        seq!['d', 'e', 'l', 'e', 't', 'e', 'm', 'e', 's', 's', 'a', 'g', 'e'],
        seq!['s', 'e', 'c', 'u', 'r', 'i', 't', 'y', '-', 'l', 'o', 'c', 'k', 'd', 'o', 'w', 'n'],
        seq!['c', 'o', 'n', 'f', 'i', 'g', '-', 's', 'e', 't'],
        seq!['c', 'o', 'n', 'f', 'i', 'g', '-', 's', 'h', 'o', 'w'],
        seq!['r', 'e', 'l', 'o', 'a', 'd'],
        seq!['e', 'v', 'a', 'l'],
        seq!['p', 'l', 'a', 'y'],
        seq!['s', 'k', 'i', 'p'],
        seq!['s', 't', 'o', 'p'],
    ]
}

/// Every registered slash command has a role, so each is dispatched; and the
/// commands that also exist as message commands (`!play`, `!skip`, `!stop`,
/// `!ping`, `!reload`, `!eval`) require the same role in both forms.
pub proof fn slash_commands_are_gated_like_their_message_twins(w: Seq<char>)
    ensures
        forall|i: int|
            0 <= i < registered_slash_commands().len() ==> #[trigger] slash_role_of(
                registered_slash_commands()[i],
            ) is Some,
        (w == seq!['p', 'l', 'a', 'y'] || w == seq!['s', 'k', 'i', 'p'] || w == seq!['s', 't', 'o', 'p'] || w == seq!['p', 'i', 'n', 'g'] || w == seq!['r', 'e', 'l', 'o', 'a', 'd'] || w == seq!['e', 'v', 'a', 'l']) ==> slash_role_of(w) is Some
            && slash_role_of(w) == message_role_of(seq!['!'] + w),
{
    assert(seq!['!'] + seq!['p', 'l', 'a', 'y'] =~= seq!['!', 'p', 'l', 'a', 'y']);
    assert(seq!['!'] + seq!['s', 'k', 'i', 'p'] =~= seq!['!', 's', 'k', 'i', 'p']);
    assert(seq!['!'] + seq!['s', 't', 'o', 'p'] =~= seq!['!', 's', 't', 'o', 'p']);
    assert(seq!['!'] + seq!['p', 'i', 'n', 'g'] =~= seq!['!', 'p', 'i', 'n', 'g']);
    assert(seq!['!'] + seq!['r', 'e', 'l', 'o', 'a', 'd'] =~= seq!['!', 'r', 'e', 'l', 'o', 'a', 'd']);
    assert(seq!['!'] + seq!['e', 'v', 'a', 'l'] =~= seq!['!', 'e', 'v', 'a', 'l']);
    assert forall|i: int| 0 <= i < registered_slash_commands().len() implies #[trigger] slash_role_of(
        registered_slash_commands()[i],
    ) is Some by {
        assert(registered_slash_commands()[0] == seq!['p', 'i', 'n', 'g']);
        assert(registered_slash_commands()[1] == seq!['r', 'a', 'n', 'd', 'o', 'm']);
        assert(registered_slash_commands()[2] == seq!['t', 'i', 'm', 'e', 'o', 'u', 't']);
        assert(registered_slash_commands()[3] == seq!['d', 'e', 'l', 'e', 't', 'e', 'm', 'e', 's', 's', 'a', 'g', 'e']);
        assert(registered_slash_commands()[4] == seq!['s', 'e', 'c', 'u', 'r', 'i', 't', 'y', '-', 'l', 'o', 'c', 'k', 'd', 'o', 'w', 'n']);
        assert(registered_slash_commands()[5] == seq!['c', 'o', 'n', 'f', 'i', 'g', '-', 's', 'e', 't']);
        assert(registered_slash_commands()[6] == seq!['c', 'o', 'n', 'f', 'i', 'g', '-', 's', 'h', 'o', 'w']);
        assert(registered_slash_commands()[7] == seq!['r', 'e', 'l', 'o', 'a', 'd']);
        assert(registered_slash_commands()[8] == seq!['e', 'v', 'a', 'l']);
        assert(registered_slash_commands()[9] == seq!['p', 'l', 'a', 'y']);
        assert(registered_slash_commands()[10] == seq!['s', 'k', 'i', 'p']);
        assert(registered_slash_commands()[11] == seq!['s', 't', 'o', 'p']);
    }
}

fn slash_role_range(v: &Vec<char>, from: usize, to: usize) -> (r: Option<CommandRole>)
    requires
        from <= to <= v@.len(),
    ensures
        r == slash_role_of(v@.subrange(from as int, to as int)),
{
    if range_eq(v, from, to, &vec!['t', 'i', 'm', 'e', 'o', 'u', 't']) || range_eq(v, from, to, &vec!['d', 'e', 'l', 'e', 't', 'e', 'm', 'e', 's', 's', 'a', 'g', 'e']) || range_eq(v, from, to, &vec!['s', 'e', 'c', 'u', 'r', 'i', 't', 'y', '-', 'l', 'o', 'c', 'k', 'd', 'o', 'w', 'n']) || range_eq(v, from, to, &vec!['c', 'o', 'n', 'f', 'i', 'g', '-', 's', 'e', 't']) || range_eq(v, from, to, &vec!['c', 'o', 'n', 'f', 'i', 'g', '-', 's', 'h', 'o', 'w']) || range_eq(v, from, to, &vec!['r', 'e', 'l', 'o', 'a', 'd']) {
        Some(CommandRole::Owner)
    } else if range_eq(v, from, to, &vec!['e', 'v', 'a', 'l']) {
        Some(CommandRole::Developer)
    } else if range_eq(v, from, to, &vec!['p', 'i', 'n', 'g']) || range_eq(v, from, to, &vec!['r', 'a', 'n', 'd', 'o', 'm']) || range_eq(v, from, to, &vec!['p', 'l', 'a', 'y']) || range_eq(v, from, to, &vec!['s', 'k', 'i', 'p']) || range_eq(v, from, to, &vec!['s', 't', 'o', 'p']) {
        Some(CommandRole::User)
    } else {
        None
    }
}

fn message_role_range(v: &Vec<char>, from: usize, to: usize) -> (r: Option<CommandRole>)
    requires
        from <= to <= v@.len(),
    ensures
        r == message_role_of(v@.subrange(from as int, to as int)),
{
    if range_eq(v, from, to, &vec!['!', 'r', 'e', 'l', 'o', 'a', 'd']) {
        Some(CommandRole::Owner)
    } else if range_eq(v, from, to, &vec!['!', 'e', 'v', 'a', 'l']) {
        Some(CommandRole::Developer)
    } else if range_eq(v, from, to, &vec!['!', 'p', 'i', 'n', 'g']) || range_eq(v, from, to, &vec!['!', 'p', 'l', 'a', 'y']) || range_eq(v, from, to, &vec!['!', 's', 'k', 'i', 'p']) || range_eq(v, from, to, &vec!['!', 's', 't', 'o', 'p']) {
        Some(CommandRole::User)
    } else {
        None
    }
}

/// Role required by the slash command `name`.
pub fn required_slash_role(name: &str) -> (r: Option<CommandRole>)
    ensures
        r == slash_role_of(name@),
{
    let v = chars_of(name);
    assert(v@.subrange(0, v@.len() as int) =~= name@);
    slash_role_range(&v, 0, v.len())
}

/// Role required by the message command named `name`.
pub fn required_message_role(name: &str) -> (r: Option<CommandRole>)
    ensures
        r == message_role_of(name@),
{
    let v = chars_of(name);
    assert(v@.subrange(0, v@.len() as int) =~= name@);
    message_role_range(&v, 0, v.len())
}

/// The characters of `s` before its first whitespace.
pub open spec fn first_word(s: Seq<char>) -> Seq<char>
    decreases s.len(),
{
    if s.len() == 0 || is_whitespace(s[0]) {
        Seq::empty()
    } else {
        seq![s[0]] + first_word(s.drop_first())
    }
}

proof fn lemma_first_word(s: Seq<char>, i: int)
    requires
        0 <= i <= s.len(),
        forall|k: int| 0 <= k < i ==> !is_whitespace(#[trigger] s[k]),
        i == s.len() || is_whitespace(s[i]),
    ensures
        first_word(s) == s.take(i),
    decreases i,
{
    if i == 0 {
        assert(s.take(0) =~= Seq::<char>::empty());
    } else {
        let t = s.drop_first();
        assert forall|k: int| 0 <= k < i - 1 implies !is_whitespace(#[trigger] t[k]) by {
            assert(t[k] == s[k + 1]);
        }
        lemma_first_word(t, i - 1);
        assert(seq![s[0]] + t.take(i - 1) =~= s.take(i));
    }
}

/// Role that gates a message: the role of its first word once trimmed, if any.
pub fn message_command_role(content: &str) -> (r: Option<CommandRole>)
    ensures
        r == message_role_of(first_word(trim(content@))),
{
    let v = chars_of(content);
    let (a, b) = trim_bounds(&v, 0, v.len());
    assert(v@.subrange(0, v@.len() as int) =~= content@);
    let ghost t = v@.subrange(a as int, b as int);
    let mut e = a;
    while e < b && !char_is_whitespace(v[e])
        invariant
            a <= e <= b <= v@.len(),
            t == v@.subrange(a as int, b as int),
            forall|k: int| 0 <= k < e - a ==> !is_whitespace(#[trigger] t[k]),
        decreases b - e,
    {
        assert(t[e - a] == v@[e as int]);
        e = e + 1;
    }
    proof {
        if e < b {
            assert(t[e - a] == v@[e as int]);
        }
        lemma_first_word(t, e - a);
        assert(t.take(e - a) =~= v@.subrange(a as int, e as int));
    }
    message_role_range(&v, a, e)
}

/// A message command.
#[derive(Debug, PartialEq, Eq)]
pub enum MessageCommand {
    Ping,
    Reload,
    Skip,
    Stop,
    /// `!play <query>`.
    Play(String),
    /// `!eval <code>`.
    Eval(String),
    /// Not a command.
    Other,
}

/// `!play ` and `!eval `.
pub open spec fn play_prefix() -> Seq<char> {
    seq!['!', 'p', 'l', 'a', 'y', ' ']
}

pub open spec fn eval_prefix() -> Seq<char> {
    seq!['!', 'e', 'v', 'a', 'l', ' ']
}

/// Command in a message, read from its trimmed content.
pub open spec fn message_command_matches(content: Seq<char>, c: MessageCommand) -> bool {
    let t = trim(content);
    if t == seq!['!', 'p', 'i', 'n', 'g'] {
        c == MessageCommand::Ping
    } else if t == seq!['!', 'r', 'e', 'l', 'o', 'a', 'd'] {
        c == MessageCommand::Reload
    } else if t == seq!['!', 's', 'k', 'i', 'p'] {
        c == MessageCommand::Skip
    } else if t == seq!['!', 's', 't', 'o', 'p'] {
        c == MessageCommand::Stop
    } else if has_prefix(t, play_prefix()) {
        c matches MessageCommand::Play(q) && q@ == t.skip(6)
    } else if has_prefix(t, eval_prefix()) {
        c matches MessageCommand::Eval(q) && q@ == t.skip(6)
    } else {
        c == MessageCommand::Other
    }
}

/// Reads the command of a message.
pub fn parse_message_command(content: &str) -> (r: MessageCommand)
    ensures
        message_command_matches(content@, r),
{
    let v = chars_of(content);
    let (a, b) = trim_bounds(&v, 0, v.len());
    assert(v@.subrange(0, v@.len() as int) =~= content@);
    let ghost t = v@.subrange(a as int, b as int);
    if range_eq(&v, a, b, &vec!['!', 'p', 'i', 'n', 'g']) {
        MessageCommand::Ping
    } else if range_eq(&v, a, b, &vec!['!', 'r', 'e', 'l', 'o', 'a', 'd']) {
        MessageCommand::Reload
    } else if range_eq(&v, a, b, &vec!['!', 's', 'k', 'i', 'p']) {
        MessageCommand::Skip
    } else if range_eq(&v, a, b, &vec!['!', 's', 't', 'o', 'p']) {
        MessageCommand::Stop
    } else if range_has_prefix(&v, a, b, &vec!['!', 'p', 'l', 'a', 'y', ' ']) {
        assert(v@.subrange(a + 6, b as int) =~= t.skip(6));
        MessageCommand::Play(string_of_range(&v, a + 6, b))
    } else if range_has_prefix(&v, a, b, &vec!['!', 'e', 'v', 'a', 'l', ' ']) {
        assert(v@.subrange(a + 6, b as int) =~= t.skip(6));
        MessageCommand::Eval(string_of_range(&v, a + 6, b))
    } else {
        MessageCommand::Other
    }
}

/// Handler of a message component, chosen by its custom id.
#[derive(Debug, PartialEq, Eq)]
pub enum ComponentRoute {
    MusicSkip,
    MusicStop,
    MusicClear,
    PrivateVoiceInvite,
    /// A search-result menu; holds the search cache key.
    MusicSearch(String),
    Unknown,
}

/// `music-search:`, the custom id prefix of search-result menus.
pub open spec fn music_search_prefix() -> Seq<char> {
    seq!['m', 'u', 's', 'i', 'c', '-', 's', 'e', 'a', 'r', 'c', 'h', ':']
}

/// Route of a component custom id.
pub open spec fn component_route_matches(id: Seq<char>, r: ComponentRoute) -> bool {
    if id == seq!['m', 'u', 's', 'i', 'c', '-', 's', 'k', 'i', 'p'] {
        r == ComponentRoute::MusicSkip
    } else if id == seq!['m', 'u', 's', 'i', 'c', '-', 's', 't', 'o', 'p'] {
        r == ComponentRoute::MusicStop
    } else if id == seq!['m', 'u', 's', 'i', 'c', '-', 'c', 'l', 'e', 'a', 'r'] {
        r == ComponentRoute::MusicClear
    } else if id == seq!['p', 'r', 'i', 'v', 'a', 't', 'e', '-', 'v', 'o', 'i', 'c', 'e', '-', 'i', 'n', 'v', 'i', 't', 'e'] {
        r == ComponentRoute::PrivateVoiceInvite
    } else if has_prefix(id, music_search_prefix()) {
        r matches ComponentRoute::MusicSearch(k) && k@ == id.skip(13)
    } else {
        r == ComponentRoute::Unknown
    }
}

/// Chooses the handler of a component interaction from its custom id.
pub fn route_component(custom_id: &str) -> (r: ComponentRoute)
    ensures
        component_route_matches(custom_id@, r),
{
    let v = chars_of(custom_id);
    let n = v.len();
    assert(v@.subrange(0, n as int) =~= custom_id@);
    if range_eq(&v, 0, n, &vec!['m', 'u', 's', 'i', 'c', '-', 's', 'k', 'i', 'p']) {
        ComponentRoute::MusicSkip
    } else if range_eq(&v, 0, n, &vec!['m', 'u', 's', 'i', 'c', '-', 's', 't', 'o', 'p']) {
        ComponentRoute::MusicStop
    } else if range_eq(&v, 0, n, &vec!['m', 'u', 's', 'i', 'c', '-', 'c', 'l', 'e', 'a', 'r']) {
        ComponentRoute::MusicClear
    } else if range_eq(&v, 0, n, &vec!['p', 'r', 'i', 'v', 'a', 't', 'e', '-', 'v', 'o', 'i', 'c', 'e', '-', 'i', 'n', 'v', 'i', 't', 'e']) {
        ComponentRoute::PrivateVoiceInvite
    } else if range_has_prefix(&v, 0, n, &vec!['m', 'u', 's', 'i', 'c', '-', 's', 'e', 'a', 'r', 'c', 'h', ':']) {
        assert(v@.subrange(13, n as int) =~= custom_id@.skip(13));
        ComponentRoute::MusicSearch(string_of_range(&v, 13, n))
    } else {
        ComponentRoute::Unknown
    }
}

/// `search:<guild>:<user>`.
pub open spec fn search_cache_key_of(guild_id: u64, user_id: u64) -> Seq<char> {
    seq!['s', 'e', 'a', 'r', 'c', 'h', ':'] + decimal(guild_id as nat) + seq![':'] + decimal(user_id as nat)
}

/// Key under which a member's search results are cached.
pub fn search_cache_key(guild_id: u64, user_id: u64) -> (r: String)
    ensures
        r@ == search_cache_key_of(guild_id, user_id),
{
    let mut s = String::new();
    let p = vec!['s', 'e', 'a', 'r', 'c', 'h', ':'];
    push_chars(&mut s, &p, 0, p.len());
    push_decimal(&mut s, guild_id);
    push_char(&mut s, ':');
    push_decimal(&mut s, user_id);
    assert(p@.subrange(0, p@.len() as int) =~= seq!['s', 'e', 'a', 'r', 'c', 'h', ':']);
    assert(s@ =~= search_cache_key_of(guild_id, user_id));
    s
}

/// Custom id of the search-result menu for a cache key.
pub fn music_search_custom_id(cache_key: &str) -> (r: String)
    ensures
        r@ == music_search_prefix() + cache_key@,
{
    let mut s = String::new();
    let p = vec!['m', 'u', 's', 'i', 'c', '-', 's', 'e', 'a', 'r', 'c', 'h', ':'];
    push_chars(&mut s, &p, 0, p.len());
    let k = chars_of(cache_key);
    push_chars(&mut s, &k, 0, k.len());
    assert(p@.subrange(0, p@.len() as int) =~= music_search_prefix());
    assert(k@.subrange(0, k@.len() as int) =~= cache_key@);
    s
}

/// A search-result menu built for a cache key routes back to the search handler
/// with that same key.
pub proof fn search_menu_routes_back(key: Seq<char>, r: ComponentRoute)
    requires
        component_route_matches(music_search_prefix() + key, r),
    ensures
        r matches ComponentRoute::MusicSearch(k) && k@ == key,
{
    let id = music_search_prefix() + key;
    assert(id.subrange(0, 13) =~= music_search_prefix());
    assert(id.skip(13) =~= key);
    assert(id[7] == 'e');
    assert(id != seq!['m', 'u', 's', 'i', 'c', '-', 's', 'k', 'i', 'p']) by {
        assert(seq!['m', 'u', 's', 'i', 'c', '-', 's', 'k', 'i', 'p'][7] == 'k');
    }
    assert(id != seq!['m', 'u', 's', 'i', 'c', '-', 's', 't', 'o', 'p']) by {
        assert(seq!['m', 'u', 's', 'i', 'c', '-', 's', 't', 'o', 'p'][7] == 't');
    }
    assert(id != seq!['m', 'u', 's', 'i', 'c', '-', 'c', 'l', 'e', 'a', 'r']) by {
        assert(seq!['m', 'u', 's', 'i', 'c', '-', 'c', 'l', 'e', 'a', 'r'][6] == 'c');
        assert(id[6] == 's');
    }
    assert(id != seq!['p', 'r', 'i', 'v', 'a', 't', 'e', '-', 'v', 'o', 'i', 'c', 'e', '-', 'i', 'n', 'v', 'i', 't', 'e']) by {
        assert(seq!['p', 'r', 'i', 'v', 'a', 't', 'e', '-', 'v', 'o', 'i', 'c', 'e', '-', 'i', 'n', 'v', 'i', 't', 'e'][0] == 'p');
        assert(id[0] == 'm');
    }
}

} // verus!

verus! {

/// `n` in decimal with a leading `-` when negative.
pub open spec fn signed_decimal(n: int) -> Seq<char> {
    if n < 0 {
        seq!['-'] + decimal((-n) as nat)
    } else {
        decimal(n as nat)
    }
}

fn push_i64(out: &mut String, n: i64)
    ensures
        final(out)@ == old(out)@ + signed_decimal(n as int),
{
    if n < 0 {
        push_char(out, '-');
        let magnitude: u64 = if n == i64::MIN {
            9_223_372_036_854_775_808u64
        } else {
            (-n) as u64
        };
        push_decimal(out, magnitude);
        assert(out@ =~= old(out)@ + signed_decimal(n as int));
    } else {
        push_decimal(out, n as u64);
    }
}

/// `rand::thread_rng().gen_range(min..=max)`: a value drawn from `min..=max`. Nothing
/// more is claimed of which value comes out.
#[verifier::external_body]
fn random_in_range(min: i64, max: i64) -> (r: i64)
    requires
        min <= max,
    ensures
        min <= r <= max,
{
    rand::thread_rng().gen_range(min..=max)
}

/// Reply of the `random` command for a drawn value.
pub open spec fn random_result_text(result: int) -> Seq<char> {
    seq!['R', 'a', 'n', 'd', 'o', 'm', ' ', 'r', 'e', 's', 'u', 'l', 't', ':', ' '] + signed_decimal(result)
}

/// Reply when the bounds are reversed.
pub open spec fn random_bounds_error_text() -> Seq<char> {
    seq!['m', 'i', 'n', ' ', 'm', 'u', 's', 't', ' ', 'b', 'e', ' ', '<', '=', ' ', 'm', 'a', 'x']
}

/// The reply announcing a drawn value.
pub fn random_result_message(result: i64) -> (r: String)
    ensures
        r@ == random_result_text(result as int),
{
    let mut s = String::new();
    let p = vec!['R', 'a', 'n', 'd', 'o', 'm', ' ', 'r', 'e', 's', 'u', 'l', 't', ':', ' '];
    push_chars(&mut s, &p, 0, p.len());
    assert(p@.subrange(0, p@.len() as int) =~= seq!['R', 'a', 'n', 'd', 'o', 'm', ' ', 'r', 'e', 's', 'u', 'l', 't', ':', ' ']);
    push_i64(&mut s, result);
    assert(s@ =~= random_result_text(result as int));
    s
}

/// Reply of the `random` command: a value drawn between the bounds (0 and 100 when
/// not given), or a complaint when the lower bound is above the upper one.
pub fn random_reply(min: Option<i64>, max: Option<i64>) -> (r: String)
    ensures
        ({
            let lo = match min {
                Some(v) => v,
                None => 0,
            };
            let hi = match max {
                Some(v) => v,
                None => 100,
            };
            if lo > hi {
                r@ == random_bounds_error_text()
            } else {
                exists|n: i64| lo <= n <= hi && r@ == random_result_text(n as int)
            }
        }),
{
    let lo = match min {
        Some(v) => v,
        None => 0,
    };
    let hi = match max {
        Some(v) => v,
        None => 100,
    };
    if lo > hi {
        let mut s = String::new();
        let p = vec!['m', 'i', 'n', ' ', 'm', 'u', 's', 't', ' ', 'b', 'e', ' ', '<', '=', ' ', 'm', 'a', 'x'];
        push_chars(&mut s, &p, 0, p.len());
        assert(p@.subrange(0, p@.len() as int) =~= random_bounds_error_text());
        s
    } else {
        let n = random_in_range(lo, hi);
        random_result_message(n)
    }
}

/// Number of messages `deletemessage` fetches and deletes: the option, 1 when
/// absent, kept between 1 and 100.
pub fn delete_message_count(count: Option<i64>) -> (r: u8)
    ensures
        r as int == ({
            let c = match count {
                Some(v) => v as int,
                None => 1,
            };
            if c < 1 {
                1
            } else if c > 100 {
                100
            } else {
                c
            }
        }),
{
    let c = match count {
        Some(v) => v,
        None => 1,
    };
    if c < 1 {
        1
    } else if c > 100 {
        100
    } else {
        c as u8
    }
}

/// Length of a `timeout` in minutes: the option, 1 when absent, at least 1.
pub fn timeout_minutes(minutes: Option<i64>) -> (r: i64)
    ensures
        r == ({
            let m = match minutes {
                Some(v) => v,
                None => 1,
            };
            if m < 1 {
                1
            } else {
                m
            }
        }),
{
    let m = match minutes {
        Some(v) => v,
        None => 1,
    };
    if m < 1 {
        1
    } else {
        m
    }
}

} // verus!

verus! {

proof fn lemma_word_is_whole(t: Seq<char>)
    requires
        forall|k: int| 0 <= k < t.len() ==> !is_whitespace(#[trigger] t[k]),
    ensures
        first_word(t) == t,
{
    lemma_first_word(t, t.len() as int);
    assert(t.take(t.len() as int) =~= t);
}

proof fn lemma_word_before_space(t: Seq<char>, w: Seq<char>)
    requires
        has_prefix(t, w.push(' ')),
        forall|k: int| 0 <= k < w.len() ==> !is_whitespace(#[trigger] w[k]),
    ensures
        first_word(t) == w,
{
    assert forall|k: int| 0 <= k < w.len() implies !is_whitespace(#[trigger] t[k]) by {
        assert(t.subrange(0, w.len() as int + 1)[k] == t[k]);
        assert(w.push(' ')[k] == w[k]);
    }
    assert(t.subrange(0, w.len() as int + 1)[w.len() as int] == t[w.len() as int]);
    lemma_first_word(t, w.len() as int);
    assert(t.take(w.len() as int) =~= w);
}

/// Every message command that is routed is gated by its role: `!reload` by the
/// owner check, `!eval` by the developer check, the others open to users.
pub proof fn routed_message_commands_are_gated(content: Seq<char>, c: MessageCommand)
    requires
        message_command_matches(content, c),
    ensures
        match c {
            MessageCommand::Ping | MessageCommand::Skip | MessageCommand::Stop
            | MessageCommand::Play(_) => message_role_of(first_word(trim(content))) == Some(
                CommandRole::User,
            ),
            MessageCommand::Reload => message_role_of(first_word(trim(content))) == Some(
                CommandRole::Owner,
            ),
            MessageCommand::Eval(_) => message_role_of(first_word(trim(content))) == Some(
                CommandRole::Developer,
            ),
            MessageCommand::Other => true,
        },
{
    let t = trim(content);
    if t == seq!['!', 'p', 'i', 'n', 'g'] || t == seq!['!', 'r', 'e', 'l', 'o', 'a', 'd'] || t == seq!['!', 's', 'k', 'i', 'p'] || t == seq!['!', 's', 't', 'o', 'p'] {
        lemma_word_is_whole(t);
    } else if has_prefix(t, play_prefix()) {
        assert(play_prefix() == seq!['!', 'p', 'l', 'a', 'y'].push(' '));
        lemma_word_before_space(t, seq!['!', 'p', 'l', 'a', 'y']);
    } else if has_prefix(t, eval_prefix()) {
        assert(eval_prefix() == seq!['!', 'e', 'v', 'a', 'l'].push(' '));
        lemma_word_before_space(t, seq!['!', 'e', 'v', 'a', 'l']);
    }
}

} // verus!
