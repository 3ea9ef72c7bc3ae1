//! The text that `config-show` prints for a guild's configuration: role and
//! channel lists in string order, each item named from the guild's tables when
//! it knows the id.
use std::collections::{HashMap, HashSet};
use vstd::prelude::*;
use vstd::multiset::Multiset;
use vstd::relations::sorted_by;
use crate::guild_settings::{increasing_ids, sorted_ids, GuildSettings};
use crate::text::{
    chars_of, decimal, lemma_text_order_total, push_char, push_chars, push_decimal, push_text, text_le,
    text_le_exec, text_order,
};

verus! {

broadcast use vstd::seq_lib::group_to_multiset_ensures;

/// The name that a table gives `id`, if any.
pub open spec fn name_of(names: Map<u64, String>, id: u64) -> Option<Seq<char>> {
    if names.contains_key(id) {
        Some(names[id]@)
    } else {
        None
    }
}

/// Whether an id names a role or a channel.
#[derive(Clone, Copy, Debug, PartialEq, Eq, Structural)]
pub enum IdKind {
    Role,
    Channel,
}

/// How an id is shown when the guild knows no name for it: `<@&id>` for a role,
/// `<#id>` for a channel.
pub open spec fn mention(kind: IdKind, id: u64) -> Seq<char> {
    match kind {
        IdKind::Role => seq!['<', '@', '&'] + decimal(id as nat) + seq!['>'],
        IdKind::Channel => seq!['<', '#'] + decimal(id as nat) + seq!['>'],
    }
}

/// `<label> (<id>)`: the label is the role's name, `#` and the channel's name, or
/// the mention when the name is unknown.
pub open spec fn id_item(kind: IdKind, id: u64, name: Option<Seq<char>>) -> Seq<char> {
    let label = match name {
        Some(n) => match kind {
            IdKind::Role => n,
            IdKind::Channel => seq!['#'] + n,
        },
        None => mention(kind, id),
    };
    label + seq![' ', '('] + decimal(id as nat) + seq![')']
}

/// `<empty>`.
pub open spec fn empty_text() -> Seq<char> {
    seq!['<', 'e', 'm', 'p', 't', 'y', '>']
}

/// The items separated by `, `.
pub open spec fn comma_join(items: Seq<Seq<char>>) -> Seq<char>
    decreases items.len(),
{
    if items.len() == 0 {
        Seq::empty()
    } else if items.len() == 1 {
        items[0]
    } else {
        comma_join(items.drop_last()) + seq![',', ' '] + items.last()
    }
}

/// The items in string order separated by `, `, or `<empty>` when there are none.
pub open spec fn list_text(items: Seq<Seq<char>>) -> Seq<char> {
    if items.len() == 0 {
        empty_text()
    } else {
        comma_join(items.sort_by(text_order()))
    }
}

/// The item of every id of the set.
pub open spec fn set_items(kind: IdKind, ids: Set<u64>, names: Map<u64, String>) -> Seq<Seq<char>> {
    increasing_ids(ids).map_values(|id: u64| id_item(kind, id, name_of(names, id)))
}

/// The text of a set of ids.
pub open spec fn id_set_text(kind: IdKind, ids: Set<u64>, names: Map<u64, String>) -> Seq<char> {
    list_text(set_items(kind, ids, names))
}

/// The text of an optional channel: its item, or `<empty>`.
pub open spec fn optional_channel_text(id: Option<u64>, names: Map<u64, String>) -> Seq<char> {
    match id {
        None => empty_text(),
        Some(c) => id_item(IdKind::Channel, c, name_of(names, c)),
    }
}

/// The texts that a list of character vectors holds.
pub open spec fn texts(v: Seq<Vec<char>>) -> Seq<Seq<char>> {
    v.map_values(|x: Vec<char>| x@)
}

/// The item text of one id.
fn item_text(kind: IdKind, id: u64, names: &HashMap<u64, String>) -> (s: String)
    ensures
        s@ == id_item(kind, id, name_of(names@, id)),
{
    let mut s = String::new();
    match names.get(&id) {
        Some(n) => {
            if kind == IdKind::Channel {
                push_char(&mut s, '#');
            }
            let v = chars_of(n.as_str());
            push_chars(&mut s, &v, 0, v.len());
            assert(v@.subrange(0, v@.len() as int) =~= v@);
        },
        None => {
            push_char(&mut s, '<');
            match kind {
                IdKind::Role => {
                    push_char(&mut s, '@');
                    push_char(&mut s, '&');
                },
                IdKind::Channel => {
                    push_char(&mut s, '#');
                },
            }
            push_decimal(&mut s, id);
            push_char(&mut s, '>');
        },
    }
    let ghost label = s@;
    push_char(&mut s, ' ');
    push_char(&mut s, '(');
    push_decimal(&mut s, id);
    push_char(&mut s, ')');
    assert(s@ =~= label + seq![' ', '('] + decimal(id as nat) + seq![')']);
    s
}

/// Inserts `x` into `out`, which stays in string order.
fn insert_in_order(out: &mut Vec<Vec<char>>, x: Vec<char>)
    requires
        sorted_by(texts(old(out)@), text_order()),
    ensures
        sorted_by(texts(final(out)@), text_order()),
        texts(final(out)@).to_multiset() == texts(old(out)@).to_multiset().insert(x@),
        final(out)@.len() == old(out)@.len() + 1,
{
    proof {
        lemma_text_order_total();
    }
    let ghost before = texts(out@);
    let mut p: usize = 0;
    while p < out.len()
        invariant
            p <= out@.len(),
            texts(out@) == before,
            forall|k: int| 0 <= k < p ==> text_le(#[trigger] before[k], x@),
        ensures
            p <= out@.len(),
            texts(out@) == before,
            forall|k: int| 0 <= k < p ==> text_le(#[trigger] before[k], x@),
            p < out@.len() ==> !text_le(before[p as int], x@),
        decreases out.len() - p,
    {
        if !text_le_exec(&out[p], &x) {
            break;
        }
        p = p + 1;
    }
    assert(p < out@.len() ==> text_le(x@, before[p as int])) by {
        if p < out@.len() {
            assert(text_order()(x@, before[p as int]) || text_order()(before[p as int], x@));
        }
    }
    let ghost xv = x@;
    out.insert(p, x);
    let ghost after = texts(out@);
    assert(after =~= before.insert(p as int, xv));
    assert forall|i: int, j: int| 0 <= i < j < after.len() implies #[trigger] text_order()(
        after[i],
        after[j],
    ) by {
        if j < p {
            assert(text_order()(before[i], before[j]));
        } else if j == p {
            assert(text_le(before[i], xv));
        } else if i < p {
            assert(text_order()(before[i], before[j - 1]));
        } else if i == p {
            if j - 1 > p {
                assert(text_order()(before[p as int], before[j - 1]));
                assert(text_order()(xv, before[p as int]));
            }
        } else {
            assert(text_order()(before[i - 1], before[j - 1]));
        }
    }
    proof {
        vstd::seq_lib::to_multiset_insert(before, p as int, xv);
    }
}

/// The texts of `items` joined by `, `.
fn join_texts(items: &Vec<Vec<char>>) -> (s: String)
    ensures
        s@ == comma_join(texts(items@)),
{
    let mut s = String::new();
    let mut i: usize = 0;
    while i < items.len()
        invariant
            i <= items@.len(),
            s@ == comma_join(texts(items@).take(i as int)),
        decreases items.len() - i,
    {
        let ghost t = texts(items@);
        assert(t.take(i + 1).drop_last() =~= t.take(i as int));
        if i > 0 {
            push_char(&mut s, ',');
            push_char(&mut s, ' ');
        }
        let n = items[i].len();
        push_chars(&mut s, &items[i], 0, n);
        assert(items@[i as int]@.subrange(0, n as int) =~= t[i as int]);
        proof {
            if i == 0 {
                assert(t.take(1) =~= seq![t[0]]);
                assert(comma_join(t.take(0)) =~= Seq::<char>::empty());
                assert(s@ =~= t[0]);
            } else {
                assert(t.take(i + 1).last() == t[i as int]);
            }
        }
        i = i + 1;
    }
    assert(texts(items@).take(items@.len() as int) =~= texts(items@));
    s
}

/// A list in string order that holds the items of `t` is `t` sorted.
proof fn lemma_ordered_is_sorted(s: Seq<Seq<char>>, t: Seq<Seq<char>>)
    requires
        sorted_by(s, text_order()),
        s.to_multiset() == t.to_multiset(),
    ensures
        s == t.sort_by(text_order()),
{
    lemma_text_order_total();
    t.lemma_sort_by_ensures(text_order());
    vstd::seq_lib::lemma_sorted_unique(s, t.sort_by(text_order()), text_order());
}

/// The text of a set of role or channel ids: each id as `<label> (<id>)`, in string
/// order, separated by `, `; `<empty>` when the set is empty.
pub fn format_id_set(kind: IdKind, ids: &HashSet<u64>, names: &HashMap<u64, String>) -> (s: String)
    ensures
        s@ == id_set_text(kind, ids@, names@),
{
    let v = sorted_ids(ids);
    let ghost items = set_items(kind, ids@, names@);
    assert(items.len() == v@.len());
    let mut out: Vec<Vec<char>> = Vec::new();
    let mut i: usize = 0;
    assert(items.take(0).to_multiset() =~= Multiset::<Seq<char>>::empty());
    assert(texts(out@).to_multiset() =~= Multiset::<Seq<char>>::empty());
    while i < v.len()
        invariant
            i <= v@.len(),
            v@ == increasing_ids(ids@),
            items == set_items(kind, ids@, names@),
            items.len() == v@.len(),
            sorted_by(texts(out@), text_order()),
            texts(out@).to_multiset() == items.take(i as int).to_multiset(),
            texts(out@).len() == i,
        decreases v.len() - i,
    {
        let item = item_text(kind, v[i], names);
        assert(item@ == items[i as int]);
        let c = chars_of(item.as_str());
        insert_in_order(&mut out, c);
        assert(items.take(i + 1) =~= items.take(i as int).push(items[i as int]));
        i = i + 1;
    }
    assert(items.take(v@.len() as int) =~= items);
    if out.len() == 0 {
        let mut e = String::new();
        push_char(&mut e, '<');
        push_char(&mut e, 'e');
        push_char(&mut e, 'm');
        push_char(&mut e, 'p');
        push_char(&mut e, 't');
        push_char(&mut e, 'y');
        push_char(&mut e, '>');
        assert(e@ =~= empty_text());
        return e;
    }
    proof {
        lemma_ordered_is_sorted(texts(out@), items);
    }
    join_texts(&out)
}

/// The text of a set of role ids (see `format_id_set`).
pub fn format_role_list(ids: &HashSet<u64>, role_names: &HashMap<u64, String>) -> (s: String)
    ensures
        s@ == id_set_text(IdKind::Role, ids@, role_names@),
{
    format_id_set(IdKind::Role, ids, role_names)
}

/// The text of a set of channel ids (see `format_id_set`).
pub fn format_channel_list(ids: &HashSet<u64>, channel_names: &HashMap<u64, String>) -> (s: String)
    ensures
        s@ == id_set_text(IdKind::Channel, ids@, channel_names@),
{
    format_id_set(IdKind::Channel, ids, channel_names)
}

/// The text of an optional channel: `#<name> (<id>)` or `<#<id>> (<id>)`, or
/// `<empty>` when none is set.
pub fn format_optional_channel(id: Option<u64>, channel_names: &HashMap<u64, String>) -> (s: String)
    ensures
        s@ == optional_channel_text(id, channel_names@),
{
    match id {
        Some(c) => item_text(IdKind::Channel, c, channel_names),
        None => {
            let mut e = String::new();
            push_char(&mut e, '<');
            push_char(&mut e, 'e');
            push_char(&mut e, 'm');
            push_char(&mut e, 'p');
            push_char(&mut e, 't');
            push_char(&mut e, 'y');
            push_char(&mut e, '>');
            assert(e@ =~= empty_text());
            e
        },
    }
}

} // verus!

verus! {

/// The configuration of a guild as `config-show` prints it, one `key: value` line
/// per setting under a `Guild config` heading.
pub open spec fn config_summary_text(
    settings: GuildSettings,
    role_names: Map<u64, String>,
    channel_names: Map<u64, String>,
) -> Seq<char> {
    "Guild config\nadmin_roles: "@ + id_set_text(IdKind::Role, settings.admin_role_ids@, role_names)
        + "\ndeveloper_roles: "@ + id_set_text(IdKind::Role, settings.developer_role_ids@, role_names)
        + "\nmusic_channels: "@ + id_set_text(
        IdKind::Channel,
        settings.music_text_channel_ids@,
        channel_names,
    ) + "\nprivate_voice_allowed_channels: "@ + id_set_text(
        IdKind::Channel,
        settings.private_voice_allowed_channel_ids@,
        channel_names,
    ) + "\ntemp_voice_category: "@ + optional_channel_text(
        settings.temp_voice_category_id,
        channel_names,
    ) + "\ntemp_voice_public_lobby_channel: "@ + optional_channel_text(
        settings.temp_voice_public_lobby_channel_id,
        channel_names,
    ) + "\ntemp_voice_private_lobby_channel: "@ + optional_channel_text(
        settings.temp_voice_private_lobby_channel_id,
        channel_names,
    ) + "\nmod_channel: "@ + optional_channel_text(settings.mod_channel_id, channel_names)
}

/// The text of `config-show` for a guild, with role and channel names taken from
/// the guild's tables where it knows them.
pub fn config_summary(
    settings: &GuildSettings,
    role_names: &HashMap<u64, String>,
    channel_names: &HashMap<u64, String>,
) -> (s: String)
    ensures
        s@ == config_summary_text(*settings, role_names@, channel_names@),
{
    let mut s = String::new();
    push_text(&mut s, "Guild config\nadmin_roles: ");
    let t = format_role_list(&settings.admin_role_ids, role_names);
    push_text(&mut s, t.as_str());
    push_text(&mut s, "\ndeveloper_roles: ");
    let t = format_role_list(&settings.developer_role_ids, role_names);
    push_text(&mut s, t.as_str());
    push_text(&mut s, "\nmusic_channels: ");
    let t = format_channel_list(&settings.music_text_channel_ids, channel_names);
    push_text(&mut s, t.as_str());
    push_text(&mut s, "\nprivate_voice_allowed_channels: ");
    let t = format_channel_list(&settings.private_voice_allowed_channel_ids, channel_names);
    push_text(&mut s, t.as_str());
    push_text(&mut s, "\ntemp_voice_category: ");
    let t = format_optional_channel(settings.temp_voice_category_id, channel_names);
    push_text(&mut s, t.as_str());
    push_text(&mut s, "\ntemp_voice_public_lobby_channel: ");
    let t = format_optional_channel(settings.temp_voice_public_lobby_channel_id, channel_names);
    push_text(&mut s, t.as_str());
    push_text(&mut s, "\ntemp_voice_private_lobby_channel: ");
    let t = format_optional_channel(settings.temp_voice_private_lobby_channel_id, channel_names);
    push_text(&mut s, t.as_str());
    push_text(&mut s, "\nmod_channel: ");
    let t = format_optional_channel(settings.mod_channel_id, channel_names);
    push_text(&mut s, t.as_str());
    s
}

} // verus!
