//! Per-guild configuration: role and channel id sets, their comma-separated
//! storage form, and the updates that `config-set` applies.
use std::collections::HashSet;
use vstd::std_specs::iter::IteratorSpec;
use vstd::prelude::*;
use crate::text::{
    chars_of, decimal, is_digit, is_whitespace, lemma_decimal_value,
    parse_unsigned, parse_unsigned_range, push_char, push_decimal, trim, trim_bounds, trim_end,
    trim_start, unsigned_digits, lemma_take_to_set_step,
};

verus! {

// ---------------------------------------------------------------------------
// Comma-separated ids
// ---------------------------------------------------------------------------

/// The fields of `s` between commas (one field when there is no comma).
pub open spec fn split_commas(s: Seq<char>) -> Seq<Seq<char>>
    decreases s.len(),
{
    if s.len() == 0 {
        seq![Seq::empty()]
    } else {
        let prev = split_commas(s.drop_last());
        if s.last() == ',' {
            prev.push(Seq::empty())
        } else {
            prev.update(prev.len() - 1, prev.last().push(s.last()))
        }
    }
}

/// The ids that the fields denote, in order: each field is trimmed, and fields that
/// are not an unsigned 64-bit number are skipped.
pub open spec fn ids_of_fields(f: Seq<Seq<char>>) -> Seq<u64>
    decreases f.len(),
{
    if f.len() == 0 {
        Seq::empty()
    } else {
        let prev = ids_of_fields(f.drop_last());
        match parse_unsigned(trim(f.last()), u64::MAX as nat) {
            Some(n) => prev.push(n as u64),
            None => prev,
        }
    }
}

/// The ids listed in a comma-separated string.
pub open spec fn csv_ids(s: Seq<char>) -> Seq<u64> {
    ids_of_fields(split_commas(s))
}

/// Ids in decimal, separated by commas.
pub open spec fn join_ids(q: Seq<u64>) -> Seq<char>
    decreases q.len(),
{
    if q.len() == 0 {
        Seq::empty()
    } else if q.len() == 1 {
        decimal(q[0] as nat)
    } else {
        join_ids(q.drop_last()) + seq![','] + decimal(q.last() as nat)
    }
}

/// Each id is smaller than the next.
pub open spec fn strictly_increasing(q: Seq<u64>) -> bool {
    forall|i: int, j: int| 0 <= i < j < q.len() ==> q[i] < q[j]
}

/// The ids of a set listed in increasing order.
pub open spec fn increasing_ids(ids: Set<u64>) -> Seq<u64> {
    choose|q: Seq<u64>| strictly_increasing(q) && q.to_set() == ids
}

/// A set of ids has only one listing in increasing order.
pub proof fn lemma_increasing_unique(p: Seq<u64>, q: Seq<u64>)
    requires
        strictly_increasing(p),
        strictly_increasing(q),
        p.to_set() == q.to_set(),
    ensures
        p == q,
    decreases p.len(),
{
    if p.len() == 0 {
        if q.len() > 0 {
            assert(q.to_set().contains(q[0]));
            assert(p.contains(q[0]));
        }
        assert(p =~= q);
    } else {
        assert(p.to_set().contains(p[0]));
        assert(q.contains(p[0]));
        let j = choose|j: int| 0 <= j < q.len() && q[j] == p[0];
        assert(q.to_set().contains(q[0]));
        assert(p.contains(q[0]));
        let k = choose|k: int| 0 <= k < p.len() && p[k] == q[0];
        assert(p[0] == q[0]) by {
            if j > 0 {
                assert(q[0] < q[j]);
            }
            if k > 0 {
                assert(p[0] < p[k]);
            }
        }
        let p1 = p.drop_first();
        let q1 = q.drop_first();
        assert(p1.to_set() =~= q1.to_set()) by {
            assert forall|x: u64| p1.to_set().contains(x) implies q1.to_set().contains(x) by {
                let i = choose|i: int| 0 <= i < p1.len() && p1[i] == x;
                assert(p[i + 1] == x);
                assert(p.to_set().contains(x));
                let m = choose|m: int| 0 <= m < q.len() && q[m] == x;
                assert(p[0] < p[i + 1]);
                assert(m != 0);
                assert(q1[m - 1] == x);
            }
            assert forall|x: u64| q1.to_set().contains(x) implies p1.to_set().contains(x) by {
                let i = choose|i: int| 0 <= i < q1.len() && q1[i] == x;
                assert(q[i + 1] == x);
                assert(q.to_set().contains(x));
                let m = choose|m: int| 0 <= m < p.len() && p[m] == x;
                assert(q[0] < q[i + 1]);
                assert(m != 0);
                assert(p1[m - 1] == x);
            }
        }
        lemma_increasing_unique(p1, q1);
        assert(p =~= seq![p[0]] + p1);
        assert(q =~= seq![q[0]] + q1);
    }
}

/// No character of `s` is a comma.
pub open spec fn comma_free(s: Seq<char>) -> bool {
    forall|i: int| 0 <= i < s.len() ==> s[i] != ','
}

proof fn lemma_split_nonempty(s: Seq<char>)
    ensures
        split_commas(s).len() >= 1,
    decreases s.len(),
{
    if s.len() > 0 {
        lemma_split_nonempty(s.drop_last());
    }
}

proof fn lemma_split_comma_free_suffix(a: Seq<char>, b: Seq<char>)
    requires
        comma_free(b),
    ensures
        split_commas(a + b) == split_commas(a).update(
            split_commas(a).len() - 1,
            split_commas(a).last() + b,
        ),
    decreases b.len(),
{
    lemma_split_nonempty(a);
    if b.len() == 0 {
        assert(a + b =~= a);
        assert(split_commas(a).last() + b =~= split_commas(a).last());
        assert(split_commas(a).update(split_commas(a).len() - 1, split_commas(a).last())
            =~= split_commas(a));
    } else {
        let b0 = b.drop_last();
        assert forall|i: int| 0 <= i < b0.len() implies b0[i] != ',' by {
            assert(b0[i] == b[i]);
        }
        lemma_split_comma_free_suffix(a, b0);
        assert((a + b).drop_last() =~= a + b0);
        assert((a + b).last() == b.last());
        lemma_split_nonempty(a + b0);
        let p = split_commas(a);
        assert(split_commas(a + b0).last() == p.last() + b0);
        assert((p.last() + b0).push(b.last()) =~= p.last() + b);
        assert(split_commas(a + b) =~= p.update(p.len() - 1, p.last() + b));
    }
}

proof fn lemma_decimal_field(x: u64)
    ensures
        comma_free(decimal(x as nat)),
        trim(decimal(x as nat)) == decimal(x as nat),
        parse_unsigned(trim(decimal(x as nat)), u64::MAX as nat) == Some(x as nat),
{
    let d = decimal(x as nat);
    lemma_decimal_value(x as nat);
    assert(is_digit(d[0]));
    assert(is_digit(d.last()));
    assert forall|i: int| 0 <= i < d.len() implies d[i] != ',' by {
        assert(is_digit(d[i]));
    }
    assert(!is_whitespace(d[0]));
    assert(!is_whitespace(d.last()));
    assert(trim_start(d) == d);
    assert(trim_end(d) == d);
    assert(unsigned_digits(d) == d);
}

/// Reading back a comma-separated list of ids gives exactly the ids written.
pub proof fn csv_ids_of_joined(q: Seq<u64>)
    ensures
        csv_ids(join_ids(q)) == q,
    decreases q.len(),
{
    if q.len() == 0 {
        let e = Seq::<char>::empty();
        assert(split_commas(e) == seq![e]);
        assert(trim_start(e) == e);
        assert(trim_end(e) == e);
        assert(seq![e].drop_last() =~= Seq::<Seq<char>>::empty());
        assert(ids_of_fields(Seq::<Seq<char>>::empty()) =~= Seq::<u64>::empty());
        assert(ids_of_fields(seq![e]) =~= Seq::<u64>::empty());
    } else if q.len() == 1 {
        let d = decimal(q[0] as nat);
        lemma_decimal_field(q[0]);
        lemma_split_comma_free_suffix(Seq::empty(), d);
        assert(Seq::<char>::empty() + d =~= d);
        assert(Seq::<char>::empty() + d =~= d);
        assert(split_commas(d) =~= seq![d]);
        assert(seq![d].drop_last() =~= Seq::<Seq<char>>::empty());
        assert(ids_of_fields(Seq::<Seq<char>>::empty()) =~= Seq::<u64>::empty());
        assert(ids_of_fields(seq![d]) =~= seq![q[0]]);
        assert(q =~= seq![q[0]]);
    } else {
        let q0 = q.drop_last();
        let x = q.last();
        let d = decimal(x as nat);
        let j = join_ids(q0);
        csv_ids_of_joined(q0);
        lemma_decimal_field(x);
        assert(j.push(',').drop_last() =~= j);
        let p = split_commas(j.push(','));
        assert(p == split_commas(j).push(Seq::empty()));
        lemma_split_comma_free_suffix(j.push(','), d);
        assert(j + seq![','] + d =~= j.push(',') + d);
        assert(Seq::<char>::empty() + d =~= d);
        let f = split_commas(j).push(d);
        assert(split_commas(join_ids(q)) =~= f);
        assert(f.drop_last() =~= split_commas(j));
        assert(ids_of_fields(f) == csv_ids(j).push(x));
        assert(q0.push(x) =~= q);
    }
}

/// Ids separated by commas: fields are trimmed, and blank fields or fields that are
/// not an unsigned 64-bit number are skipped.
pub fn parse_ids_csv(input: &str) -> (r: Vec<u64>)
    ensures
        r@ == csv_ids(input@),
{
    let v = chars_of(input);
    let mut out: Vec<u64> = Vec::new();
    let mut start: usize = 0;
    let mut i: usize = 0;
    let ghost mut done: Seq<Seq<char>> = Seq::empty();
    assert(v@.take(0) =~= Seq::<char>::empty());
    assert(v@.subrange(0, 0) =~= Seq::<char>::empty());
    while i < v.len()
        invariant
            v@ == input@,
            start <= i <= v@.len(),
            split_commas(v@.take(i as int)) == done.push(v@.subrange(start as int, i as int)),
            out@ == ids_of_fields(done),
        decreases v.len() - i,
    {
        let c = v[i];
        assert(v@.take(i + 1).drop_last() =~= v@.take(i as int));
        assert(v@.take(i + 1).last() == c);
        if c == ',' {
            let (a, b) = trim_bounds(&v, start, i);
            let parsed = parse_unsigned_range(&v, a, b, u64::MAX);
            let ghost field = v@.subrange(start as int, i as int);
            proof {
                assert(done.push(field).drop_last() =~= done);
            }
            match parsed {
                Some(n) => {
                    out.push(n);
                },
                None => {},
            }
            proof {
                done = done.push(field);
                assert(v@.subrange(i + 1, i + 1) =~= Seq::<char>::empty());
            }
            start = i + 1;
        } else {
            proof {
                assert(v@.subrange(start as int, i + 1) =~= v@.subrange(start as int, i as int).push(
                    c,
                ));
            }
        }
        i = i + 1;
    }
    assert(v@.take(v@.len() as int) =~= v@);
    let (a, b) = trim_bounds(&v, start, v.len());
    let ghost field = v@.subrange(start as int, v@.len() as int);
    assert(done.push(field).drop_last() =~= done);
    match parse_unsigned_range(&v, a, b, u64::MAX) {
        Some(n) => {
            out.push(n);
        },
        None => {},
    }
    out
}

// ---------------------------------------------------------------------------
// Serialising id sets
// ---------------------------------------------------------------------------

fn insert_sorted(v: &mut Vec<u64>, x: u64)
    requires
        strictly_increasing(old(v)@),
        !old(v)@.contains(x),
    ensures
        strictly_increasing(final(v)@),
        final(v)@.to_set() == old(v)@.to_set().insert(x),
{
    let mut p: usize = 0;
    while p < v.len() && v[p] < x
        invariant
            p <= v@.len(),
            forall|k: int| 0 <= k < p ==> v@[k] < x,
        decreases v.len() - p,
    {
        p = p + 1;
    }
    let ghost before = v@;
    assert(p < v@.len() ==> v@[p as int] > x) by {
        if p < v@.len() {
            assert(v@[p as int] != x);
        }
    }
    v.insert(p, x);
    assert forall|a: int, b: int| 0 <= a < b < v@.len() implies v@[a] < v@[b] by {
        if b < p {
        } else if a < p && b == p {
        } else if a < p {
            assert(v@[b] == before[b - 1]);
        } else if a == p {
            assert(v@[b] == before[b - 1]);
            assert(before[p as int] <= before[b - 1]);
        } else {
            assert(v@[a] == before[a - 1]);
            assert(v@[b] == before[b - 1]);
        }
    }
    assert forall|y: u64| v@.to_set().contains(y) <==> before.to_set().insert(x).contains(y) by {
        if v@.to_set().contains(y) {
            let k = choose|k: int| 0 <= k < v@.len() && v@[k] == y;
            if k < p {
                assert(before[k] == y);
            } else if k > p {
                assert(before[k - 1] == y);
            }
        }
        if before.to_set().contains(y) && y != x {
            let k = choose|k: int| 0 <= k < before.len() && before[k] == y;
            if k < p {
                assert(v@[k] == y);
            } else {
                assert(v@[k + 1] == y);
            }
        }
        if y == x {
            assert(v@[p as int] == x);
        }
    }
    assert(v@.to_set() =~= before.to_set().insert(x));
}

/// The ids of a set in increasing order.
pub fn sorted_ids(ids: &HashSet<u64>) -> (v: Vec<u64>)
    ensures
        v@ == increasing_ids(ids@),
        strictly_increasing(v@),
        v@.to_set() == ids@,
{
    let mut v: Vec<u64> = Vec::new();
    let ghost all = vstd::std_specs::hash::spec_hash_keys_iter(ids).remaining();
    assert(v@.to_set() =~= Set::<u64>::empty());
    for x in it: ids.iter()
        invariant
            it.seq() == all,
            all.unref().to_set() == ids@,
            all.no_duplicates(),
            strictly_increasing(v@),
            v@.to_set() == all.unref().take(it.index()).to_set(),
    {
        let ghost k = it.index();
        let ghost u = all.unref();
        assert(u[k] == *x);
        assert(!v@.contains(*x)) by {
            if v@.contains(*x) {
                assert(v@.to_set().contains(*x));
                let j = choose|j: int| 0 <= j < u.take(k).len() && u.take(k)[j] == *x;
                assert(all[j] == all[k]);
            }
        }
        insert_sorted(&mut v, *x);
        assert(u.take(k + 1) =~= u.take(k).push(*x));
        proof {
            lemma_take_to_set_step(u, k);
        }
    }
    assert(all.unref().take(all.len() as int) =~= all.unref());
    proof {
        let w = increasing_ids(ids@);
        assert(strictly_increasing(v@) && v@.to_set() == ids@);
        lemma_increasing_unique(w, v@);
    }
    v
}

/// The ids of `q` in decimal, separated by commas.
pub fn join_id_list(q: &Vec<u64>) -> (s: String)
    ensures
        s@ == join_ids(q@),
{
    let mut s = String::new();
    let mut i: usize = 0;
    assert(q@.take(0) =~= Seq::<u64>::empty());
    while i < q.len()
        invariant
            i <= q@.len(),
            s@ == join_ids(q@.take(i as int)),
        decreases q.len() - i,
    {
        if i > 0 {
            push_char(&mut s, ',');
        }
        push_decimal(&mut s, q[i]);
        assert(q@.take(i + 1).drop_last() =~= q@.take(i as int));
        if i == 0 {
            assert(s@ =~= join_ids(q@.take(1)));
        } else {
            assert(s@ =~= join_ids(q@.take(i + 1)));
        }
        i = i + 1;
    }
    assert(q@.take(q@.len() as int) =~= q@);
    s
}

/// Storage form of an id set: its ids in increasing order, in decimal, separated by
/// commas (empty for the empty set).
pub open spec fn serialized_ids(ids: Set<u64>, s: Seq<char>) -> bool {
    exists|q: Seq<u64>| strictly_increasing(q) && q.to_set() == ids && s == join_ids(q)
}

fn serialize_ids(ids: &HashSet<u64>) -> (s: String)
    ensures
        serialized_ids(ids@, s@),
{
    let v = sorted_ids(ids);
    let s = join_id_list(&v);
    assert(strictly_increasing(v@) && v@.to_set() == ids@ && s@ == join_ids(v@));
    s
}

/// The set of ids in a comma-separated string.
fn parse_id_set(input: &str) -> (r: HashSet<u64>)
    ensures
        r@ == csv_ids(input@).to_set(),
{
    let ids = parse_ids_csv(input);
    let mut set: HashSet<u64> = HashSet::new();
    let mut i: usize = 0;
    assert(ids@.take(0).to_set() =~= Set::<u64>::empty());
    while i < ids.len()
        invariant
            i <= ids@.len(),
            set@ == ids@.take(i as int).to_set(),
        decreases ids.len() - i,
    {
        set.insert(ids[i]);
        proof {
            lemma_take_to_set_step(ids@, i as int);
        }
        i = i + 1;
    }
    assert(ids@.take(ids@.len() as int) =~= ids@);
    set
}

/// A set written in storage form and read back is the same set.
pub proof fn stored_ids_read_back(ids: Set<u64>, s: Seq<char>)
    requires
        serialized_ids(ids, s),
    ensures
        csv_ids(s).to_set() == ids,
{
    let q = choose|q: Seq<u64>| strictly_increasing(q) && q.to_set() == ids && s == join_ids(q);
    csv_ids_of_joined(q);
}

} // verus!

verus! {

// ---------------------------------------------------------------------------
// Settings
// ---------------------------------------------------------------------------

/// Configuration of one guild. Ids are the raw 64-bit Discord snowflakes.
#[derive(Debug)]
pub struct GuildSettings {
    pub guild_id: u64,
    /// Roles whose members may use administrator commands (any member when empty).
    pub admin_role_ids: HashSet<u64>,
    /// Roles whose members may use developer commands (any member when empty).
    pub developer_role_ids: HashSet<u64>,
    /// Text channels where music commands are accepted (all when empty).
    pub music_text_channel_ids: HashSet<u64>,
    /// Voice channels that may be private temp voices (all when empty).
    pub private_voice_allowed_channel_ids: HashSet<u64>,
    pub temp_voice_category_id: Option<u64>,
    pub temp_voice_public_lobby_channel_id: Option<u64>,
    pub temp_voice_private_lobby_channel_id: Option<u64>,
    pub mod_channel_id: Option<u64>,
}

/// A copy of an id set.
fn copy_id_set(ids: &HashSet<u64>) -> (r: HashSet<u64>)
    ensures
        r@ == ids@,
{
    let mut out: HashSet<u64> = HashSet::new();
    let ghost all = vstd::std_specs::hash::spec_hash_keys_iter(ids).remaining();
    assert(out@ =~= all.unref().take(0).to_set());
    for x in it: ids.iter()
        invariant
            it.seq() == all,
            all.unref().to_set() == ids@,
            out@ == all.unref().take(it.index()).to_set(),
    {
        let ghost k = it.index();
        assert(all.unref()[k] == *x);
        out.insert(*x);
        proof {
            lemma_take_to_set_step(all.unref(), k);
        }
    }
    assert(all.unref().take(all.len() as int) =~= all.unref());
    out
}

impl Clone for GuildSettings {
    fn clone(&self) -> (r: Self)
        ensures
            r.guild_id == self.guild_id,
            r.admin_role_ids@ == self.admin_role_ids@,
            r.developer_role_ids@ == self.developer_role_ids@,
            r.music_text_channel_ids@ == self.music_text_channel_ids@,
            r.private_voice_allowed_channel_ids@ == self.private_voice_allowed_channel_ids@,
            r.temp_voice_category_id == self.temp_voice_category_id,
            r.temp_voice_public_lobby_channel_id == self.temp_voice_public_lobby_channel_id,
            r.temp_voice_private_lobby_channel_id == self.temp_voice_private_lobby_channel_id,
            r.mod_channel_id == self.mod_channel_id,
    {
        GuildSettings {
            guild_id: self.guild_id,
            admin_role_ids: copy_id_set(&self.admin_role_ids),
            developer_role_ids: copy_id_set(&self.developer_role_ids),
            music_text_channel_ids: copy_id_set(&self.music_text_channel_ids),
            private_voice_allowed_channel_ids: copy_id_set(&self.private_voice_allowed_channel_ids),
            temp_voice_category_id: self.temp_voice_category_id,
            temp_voice_public_lobby_channel_id: self.temp_voice_public_lobby_channel_id,
            temp_voice_private_lobby_channel_id: self.temp_voice_private_lobby_channel_id,
            mod_channel_id: self.mod_channel_id,
        }
    }
}

impl GuildSettings {
    /// Defaults for a guild: no restriction and no temp-voice or moderation channel.
    pub fn new(guild_id: u64) -> (s: Self)
        ensures
            s.guild_id == guild_id,
            s.admin_role_ids@ == Set::<u64>::empty(),
            s.developer_role_ids@ == Set::<u64>::empty(),
            s.music_text_channel_ids@ == Set::<u64>::empty(),
            s.private_voice_allowed_channel_ids@ == Set::<u64>::empty(),
            s.temp_voice_category_id is None,
            s.temp_voice_public_lobby_channel_id is None,
            s.temp_voice_private_lobby_channel_id is None,
            s.mod_channel_id is None,
    {
        GuildSettings {
            guild_id,
            admin_role_ids: HashSet::new(),
            developer_role_ids: HashSet::new(),
            music_text_channel_ids: HashSet::new(),
            private_voice_allowed_channel_ids: HashSet::new(),
            temp_voice_category_id: None,
            temp_voice_public_lobby_channel_id: None,
            temp_voice_private_lobby_channel_id: None,
            mod_channel_id: None,
        }
    }

    /// Music commands are accepted in `channel_id`.
    pub fn allow_music_channel(&self, channel_id: u64) -> (r: bool)
        ensures
            r == (self.music_text_channel_ids@.is_empty() || self.music_text_channel_ids@.contains(
                channel_id,
            )),
    {
        self.music_text_channel_ids.is_empty() || self.music_text_channel_ids.contains(&channel_id)
    }

    /// `channel_id` may be used as a private temp voice.
    pub fn allow_private_voice_channel(&self, channel_id: u64) -> (r: bool)
        ensures
            r == (self.private_voice_allowed_channel_ids@.is_empty()
                || self.private_voice_allowed_channel_ids@.contains(channel_id)),
    {
        self.private_voice_allowed_channel_ids.is_empty()
            || self.private_voice_allowed_channel_ids.contains(&channel_id)
    }

    /// Ids listed in a comma-separated string, in order (see [`parse_ids_csv`]).
    pub fn parse_ids_csv(input: &str) -> (r: Vec<u64>)
        ensures
            r@ == csv_ids(input@),
    {
        parse_ids_csv(input)
    }

    /// Storage form of a set of role ids.
    pub fn serialize_role_ids(ids: &HashSet<u64>) -> (s: String)
        ensures
            serialized_ids(ids@, s@),
    {
        serialize_ids(ids)
    }

    /// Storage form of a set of channel ids.
    pub fn serialize_channel_ids(ids: &HashSet<u64>) -> (s: String)
        ensures
            serialized_ids(ids@, s@),
    {
        serialize_ids(ids)
    }

    /// Role ids read from their storage form.
    pub fn parse_role_ids(input: &str) -> (r: HashSet<u64>)
        ensures
            r@ == csv_ids(input@).to_set(),
    {
        parse_id_set(input)
    }

    /// Channel ids read from their storage form.
    pub fn parse_channel_ids(input: &str) -> (r: HashSet<u64>)
        ensures
            r@ == csv_ids(input@).to_set(),
    {
        parse_id_set(input)
    }
}

// ---------------------------------------------------------------------------
// config-set
// ---------------------------------------------------------------------------

/// Settings that `config-set` can change.
#[derive(Debug, Clone, Copy, PartialEq, Eq, Structural)]
pub enum ConfigKey {
    AdminRoleAdd,
    DeveloperRoleAdd,
    MusicChannelAdd,
    PrivateVoiceChannelAdd,
    TempVoiceCategory,
    TempVoicePublicLobbyChannel,
    TempVoicePrivateLobbyChannel,
    /// Older name of the private lobby setting.
    TempVoiceLobbyChannel,
    ModChannel,
    AdminRolesCsv,
    DeveloperRolesCsv,
    MusicChannelsCsv,
    PrivateVoiceChannelsCsv,
}

/// Which command option a key reads its value from.
#[derive(Debug, Clone, Copy, PartialEq, Eq, Structural)]
pub enum ConfigInput {
    Role,
    Channel,
    Csv,
}

/// Kind that a channel must have before it is stored under a key.
#[derive(Debug, Clone, Copy, PartialEq, Eq, Structural)]
pub enum ChannelRequirement {
    Category,
    Voice,
}

/// Kind of a guild channel, as far as the bot's decisions tell kinds apart.
#[derive(Debug, Clone, Copy, PartialEq, Eq, Structural)]
pub enum ChannelKind {
    Text,
    Voice,
    Stage,
    Category,
    Other,
}

/// A channel of `kind` satisfies `requirement`.
pub open spec fn kind_accepted(requirement: ChannelRequirement, kind: ChannelKind) -> bool {
    match requirement {
        ChannelRequirement::Category => kind == ChannelKind::Category,
        ChannelRequirement::Voice => kind == ChannelKind::Voice,
    }
}

/// Whether a channel of `kind` may be stored under a key that asks for `requirement`.
pub fn channel_meets(requirement: ChannelRequirement, kind: ChannelKind) -> (r: bool)
    ensures
        r == kind_accepted(requirement, kind),
        r == match requirement {
            ChannelRequirement::Category => kind == ChannelKind::Category,
            ChannelRequirement::Voice => kind == ChannelKind::Voice,
        },
{
    match requirement {
        ChannelRequirement::Category => kind == ChannelKind::Category,
        ChannelRequirement::Voice => kind == ChannelKind::Voice,
    }
}

/// A required command option was not given.
#[derive(Debug, Clone, Copy, PartialEq, Eq, Structural)]
pub enum ConfigError {
    MissingRole,
    MissingChannel,
    MissingCsv,
}

/// The key named by a `config-set` key string.
pub open spec fn config_key_named(name: Seq<char>) -> Option<ConfigKey> {
    if name == "admin_role_add"@ {
        Some(ConfigKey::AdminRoleAdd)
    } else if name == "developer_role_add"@ {
        Some(ConfigKey::DeveloperRoleAdd)
    } else if name == "music_channel_add"@ {
        Some(ConfigKey::MusicChannelAdd)
    } else if name == "private_voice_channel_add"@ {
        Some(ConfigKey::PrivateVoiceChannelAdd)
    } else if name == "temp_voice_category"@ {
        Some(ConfigKey::TempVoiceCategory)
    } else if name == "temp_voice_public_lobby_channel"@ {
        Some(ConfigKey::TempVoicePublicLobbyChannel)
    } else if name == "temp_voice_private_lobby_channel"@ {
        Some(ConfigKey::TempVoicePrivateLobbyChannel)
    } else if name == "temp_voice_lobby_channel"@ {
        Some(ConfigKey::TempVoiceLobbyChannel)
    } else if name == "mod_channel"@ {
        Some(ConfigKey::ModChannel)
    } else if name == "admin_roles_csv"@ {
        Some(ConfigKey::AdminRolesCsv)
    } else if name == "developer_roles_csv"@ {
        Some(ConfigKey::DeveloperRolesCsv)
    } else if name == "music_channels_csv"@ {
        Some(ConfigKey::MusicChannelsCsv)
    } else if name == "private_voice_channels_csv"@ {
        Some(ConfigKey::PrivateVoiceChannelsCsv)
    } else {
        None
    }
}

/// Reads a `config-set` key; `None` for an unsupported key.
pub fn parse_config_key(name: &str) -> (r: Option<ConfigKey>)
    ensures
        r == config_key_named(name@),
{
    if crate::text::str_eq(name, "admin_role_add") {
        Some(ConfigKey::AdminRoleAdd)
    } else if crate::text::str_eq(name, "developer_role_add") {
        Some(ConfigKey::DeveloperRoleAdd)
    } else if crate::text::str_eq(name, "music_channel_add") {
        Some(ConfigKey::MusicChannelAdd)
    } else if crate::text::str_eq(name, "private_voice_channel_add") {
        Some(ConfigKey::PrivateVoiceChannelAdd)
    } else if crate::text::str_eq(name, "temp_voice_category") {
        Some(ConfigKey::TempVoiceCategory)
    } else if crate::text::str_eq(name, "temp_voice_public_lobby_channel") {
        Some(ConfigKey::TempVoicePublicLobbyChannel)
    } else if crate::text::str_eq(name, "temp_voice_private_lobby_channel") {
        Some(ConfigKey::TempVoicePrivateLobbyChannel)
    } else if crate::text::str_eq(name, "temp_voice_lobby_channel") {
        Some(ConfigKey::TempVoiceLobbyChannel)
    } else if crate::text::str_eq(name, "mod_channel") {
        Some(ConfigKey::ModChannel)
    } else if crate::text::str_eq(name, "admin_roles_csv") {
        Some(ConfigKey::AdminRolesCsv)
    } else if crate::text::str_eq(name, "developer_roles_csv") {
        Some(ConfigKey::DeveloperRolesCsv)
    } else if crate::text::str_eq(name, "music_channels_csv") {
        Some(ConfigKey::MusicChannelsCsv)
    } else if crate::text::str_eq(name, "private_voice_channels_csv") {
        Some(ConfigKey::PrivateVoiceChannelsCsv)
    } else {
        None
    }
}

/// The option a key reads.
pub open spec fn config_input_of(key: ConfigKey) -> ConfigInput {
    match key {
        ConfigKey::AdminRoleAdd | ConfigKey::DeveloperRoleAdd => ConfigInput::Role,
        ConfigKey::AdminRolesCsv | ConfigKey::DeveloperRolesCsv | ConfigKey::MusicChannelsCsv
        | ConfigKey::PrivateVoiceChannelsCsv => ConfigInput::Csv,
        _ => ConfigInput::Channel,
    }
}

/// The kind that a channel stored under a key must have, if any.
pub open spec fn channel_requirement_of(key: ConfigKey) -> Option<ChannelRequirement> {
    match key {
        ConfigKey::TempVoiceCategory => Some(ChannelRequirement::Category),
        ConfigKey::TempVoicePublicLobbyChannel | ConfigKey::TempVoicePrivateLobbyChannel
        | ConfigKey::TempVoiceLobbyChannel => Some(ChannelRequirement::Voice),
        _ => None,
    }
}

/// The temporary-voice category key takes category channels and nothing else; the
/// lobby keys (public, private and the older lobby name) take voice channels and
/// nothing else; every other key checks no channel kind.
pub proof fn channel_keys_take_their_kind(key: ConfigKey, kind: ChannelKind)
    ensures
        key == ConfigKey::TempVoiceCategory ==> (channel_requirement_of(key) matches Some(r)
            && (kind_accepted(r, kind) <==> kind == ChannelKind::Category)),
        key == ConfigKey::TempVoicePublicLobbyChannel || key == ConfigKey::TempVoicePrivateLobbyChannel
            || key == ConfigKey::TempVoiceLobbyChannel ==> (channel_requirement_of(key) matches Some(r)
            && (kind_accepted(r, kind) <==> kind == ChannelKind::Voice)),
        !(key == ConfigKey::TempVoiceCategory || key == ConfigKey::TempVoicePublicLobbyChannel
            || key == ConfigKey::TempVoicePrivateLobbyChannel || key
            == ConfigKey::TempVoiceLobbyChannel) ==> channel_requirement_of(key) is None,
{
}

impl ConfigKey {
    /// The option this key reads.
    pub fn input(&self) -> (r: ConfigInput)
        ensures
            r == config_input_of(*self),
    {
        match self {
            ConfigKey::AdminRoleAdd | ConfigKey::DeveloperRoleAdd => ConfigInput::Role,
            ConfigKey::AdminRolesCsv | ConfigKey::DeveloperRolesCsv | ConfigKey::MusicChannelsCsv
            | ConfigKey::PrivateVoiceChannelsCsv => ConfigInput::Csv,
            _ => ConfigInput::Channel,
        }
    }

    /// The kind that a channel stored under this key must have, if any.
    pub fn channel_requirement(&self) -> (r: Option<ChannelRequirement>)
        ensures
            r == channel_requirement_of(*self),
    {
        match self {
            ConfigKey::TempVoiceCategory => Some(ChannelRequirement::Category),
            ConfigKey::TempVoicePublicLobbyChannel | ConfigKey::TempVoicePrivateLobbyChannel
            | ConfigKey::TempVoiceLobbyChannel => Some(ChannelRequirement::Voice),
            _ => None,
        }
    }
}

/// What `config-set` makes of the settings `s` for `key` with the given options,
/// as a predicate on the new settings `t`.
pub open spec fn config_applied(
    s: GuildSettings,
    t: GuildSettings,
    key: ConfigKey,
    role: u64,
    channel: u64,
    csv: Seq<char>,
) -> bool {
    &&& t.guild_id == s.guild_id
    &&& t.admin_role_ids@ == match key {
        ConfigKey::AdminRoleAdd => s.admin_role_ids@.insert(role),
        ConfigKey::AdminRolesCsv => csv_ids(csv).to_set(),
        _ => s.admin_role_ids@,
    }
    &&& t.developer_role_ids@ == match key {
        ConfigKey::DeveloperRoleAdd => s.developer_role_ids@.insert(role),
        ConfigKey::DeveloperRolesCsv => csv_ids(csv).to_set(),
        _ => s.developer_role_ids@,
    }
    &&& t.music_text_channel_ids@ == match key {
        ConfigKey::MusicChannelAdd => s.music_text_channel_ids@.insert(channel),
        ConfigKey::MusicChannelsCsv => csv_ids(csv).to_set(),
        _ => s.music_text_channel_ids@,
    }
    &&& t.private_voice_allowed_channel_ids@ == match key {
        ConfigKey::PrivateVoiceChannelAdd => s.private_voice_allowed_channel_ids@.insert(channel),
        ConfigKey::PrivateVoiceChannelsCsv => csv_ids(csv).to_set(),
        _ => s.private_voice_allowed_channel_ids@,
    }
    &&& t.temp_voice_category_id == match key {
        ConfigKey::TempVoiceCategory => Some(channel),
        _ => s.temp_voice_category_id,
    }
    &&& t.temp_voice_public_lobby_channel_id == match key {
        ConfigKey::TempVoicePublicLobbyChannel => Some(channel),
        _ => s.temp_voice_public_lobby_channel_id,
    }
    &&& t.temp_voice_private_lobby_channel_id == match key {
        ConfigKey::TempVoicePrivateLobbyChannel | ConfigKey::TempVoiceLobbyChannel => Some(channel),
        _ => s.temp_voice_private_lobby_channel_id,
    }
    &&& t.mod_channel_id == match key {
        ConfigKey::ModChannel => Some(channel),
        _ => s.mod_channel_id,
    }
}

impl GuildSettings {
    /// Applies one `config-set` key with the command's `role`, `channel` and `csv`
    /// options. The option that the key reads must be present; the others are
    /// ignored. A channel's kind is checked by the caller before this call.
    pub fn apply_config(
        &mut self,
        key: ConfigKey,
        role: Option<u64>,
        channel: Option<u64>,
        csv: Option<&str>,
    ) -> (r: Result<(), ConfigError>)
        ensures
            match config_input_of(key) {
                ConfigInput::Role => role is None,
                ConfigInput::Channel => channel is None,
                ConfigInput::Csv => csv is None,
            } ==> r == Err::<(), ConfigError>(
                match config_input_of(key) {
                    ConfigInput::Role => ConfigError::MissingRole,
                    ConfigInput::Channel => ConfigError::MissingChannel,
                    ConfigInput::Csv => ConfigError::MissingCsv,
                },
            ) && *final(self) == *old(self),
            r is Ok ==> config_applied(
                *old(self),
                *final(self),
                key,
                match role {
                    Some(x) => x,
                    None => 0,
                },
                match channel {
                    Some(x) => x,
                    None => 0,
                },
                match csv {
                    Some(x) => x@,
                    None => Seq::empty(),
                },
            ),
            r is Ok <== match config_input_of(key) {
                ConfigInput::Role => role is Some,
                ConfigInput::Channel => channel is Some,
                ConfigInput::Csv => csv is Some,
            },
    {
        match key.input() {
            ConfigInput::Role => {
                let r = match role {
                    Some(r) => r,
                    None => return Err(ConfigError::MissingRole),
                };
                match key {
                    ConfigKey::AdminRoleAdd => {
                        self.admin_role_ids.insert(r);
                    },
                    _ => {
                        self.developer_role_ids.insert(r);
                    },
                }
            },
            ConfigInput::Channel => {
                let c = match channel {
                    Some(c) => c,
                    None => return Err(ConfigError::MissingChannel),
                };
                match key {
                    ConfigKey::MusicChannelAdd => {
                        self.music_text_channel_ids.insert(c);
                    },
                    ConfigKey::PrivateVoiceChannelAdd => {
                        self.private_voice_allowed_channel_ids.insert(c);
                    },
                    ConfigKey::TempVoiceCategory => {
                        self.temp_voice_category_id = Some(c);
                    },
                    ConfigKey::TempVoicePublicLobbyChannel => {
                        self.temp_voice_public_lobby_channel_id = Some(c);
                    },
                    ConfigKey::TempVoicePrivateLobbyChannel | ConfigKey::TempVoiceLobbyChannel => {
                        self.temp_voice_private_lobby_channel_id = Some(c);
                    },
                    _ => {
                        self.mod_channel_id = Some(c);
                    },
                }
            },
            ConfigInput::Csv => {
                let text = match csv {
                    Some(t) => t,
                    None => return Err(ConfigError::MissingCsv),
                };
                let ids = parse_id_set(text);
                match key {
                    ConfigKey::AdminRolesCsv => {
                        self.admin_role_ids = ids;
                    },
                    ConfigKey::DeveloperRolesCsv => {
                        self.developer_role_ids = ids;
                    },
                    ConfigKey::MusicChannelsCsv => {
                        self.music_text_channel_ids = ids;
                    },
                    _ => {
                        self.private_voice_allowed_channel_ids = ids;
                    },
                }
            },
        }
        Ok(())
    }
}

} // verus!
