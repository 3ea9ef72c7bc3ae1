//! Channel lockdown: the `@everyone` permission overwrite of a text channel.
use vstd::prelude::*;

verus! {

/// The `SEND_MESSAGES` permission bit.
pub const SEND_MESSAGES: u64 = 0x800;

/// The `VIEW_CHANNEL` permission bit.
pub const VIEW_CHANNEL: u64 = 0x400;

/// The `CONNECT` permission bit.
pub const CONNECT: u64 = 0x10_0000;

/// Whom a permission overwrite applies to.
#[derive(Clone, Copy, Debug, PartialEq, Eq, Structural)]
pub enum OverwriteTarget {
    Role(u64),
    Member(u64),
}

/// Permission bits a channel explicitly allows and denies to a role or member.
#[derive(Clone, Copy, Debug, PartialEq, Eq, Structural)]
pub struct PermissionOverwrite {
    pub allow: u64,
    pub deny: u64,
    pub target: OverwriteTarget,
}

/// The first overwrite of `everyone_role`, if any.
pub open spec fn everyone_index(ows: Seq<PermissionOverwrite>, everyone_role: u64) -> Option<int> {
    if exists|i: int| 0 <= i < ows.len() && ows[i].target == OverwriteTarget::Role(everyone_role) {
        Some(
            choose|i: int|
                0 <= i < ows.len() && ows[i].target == OverwriteTarget::Role(everyone_role) && forall|
                    j: int,
                | 0 <= j < i ==> ows[j].target != OverwriteTarget::Role(everyone_role),
        )
    } else {
        None
    }
}

proof fn lemma_first_everyone_exists(ows: Seq<PermissionOverwrite>, everyone_role: u64, i: int)
    requires
        0 <= i < ows.len(),
        ows[i].target == OverwriteTarget::Role(everyone_role),
    ensures
        exists|k: int|
            0 <= k < ows.len() && ows[k].target == OverwriteTarget::Role(everyone_role) && forall|
                j: int,
            | 0 <= j < k ==> ows[j].target != OverwriteTarget::Role(everyone_role),
    decreases i,
{
    if exists|j: int| 0 <= j < i && ows[j].target == OverwriteTarget::Role(everyone_role) {
        let j = choose|j: int| 0 <= j < i && ows[j].target == OverwriteTarget::Role(everyone_role);
        lemma_first_everyone_exists(ows, everyone_role, j);
    } else {
        assert(forall|j: int| 0 <= j < i ==> ows[j].target != OverwriteTarget::Role(everyone_role));
    }
}

/// `everyone_index` is the position of the first overwrite of `everyone_role`, and
/// it is `None` exactly when the list holds no overwrite of that role.
pub proof fn lemma_everyone_index(ows: Seq<PermissionOverwrite>, everyone_role: u64)
    ensures
        match everyone_index(ows, everyone_role) {
            Some(i) => 0 <= i < ows.len() && ows[i].target == OverwriteTarget::Role(everyone_role)
                && forall|j: int| 0 <= j < i ==> ows[j].target != OverwriteTarget::Role(everyone_role),
            None => forall|j: int|
                0 <= j < ows.len() ==> ows[j].target != OverwriteTarget::Role(everyone_role),
        },
{
    if exists|i: int| 0 <= i < ows.len() && ows[i].target == OverwriteTarget::Role(everyone_role) {
        let i = choose|i: int| 0 <= i < ows.len() && ows[i].target == OverwriteTarget::Role(everyone_role);
        lemma_first_everyone_exists(ows, everyone_role, i);
    }
}

/// The `@everyone` overwrite after a lock (sending denied and no longer allowed) or
/// an unlock (sending no longer denied).
pub open spec fn locked_overwrite(o: PermissionOverwrite, enabled: bool) -> PermissionOverwrite {
    if enabled {
        PermissionOverwrite { allow: o.allow & !SEND_MESSAGES, deny: o.deny | SEND_MESSAGES, target: o.target }
    } else {
        PermissionOverwrite { allow: o.allow, deny: o.deny & !SEND_MESSAGES, target: o.target }
    }
}

/// Locks (`enabled`) or unlocks a channel by editing the first overwrite of the
/// `@everyone` role (whose id is the guild id); a channel without one is unchanged.
pub fn set_lockdown(overwrites: &mut Vec<PermissionOverwrite>, everyone_role: u64, enabled: bool)
    ensures
        final(overwrites)@.len() == old(overwrites)@.len(),
        match everyone_index(old(overwrites)@, everyone_role) {
            None => final(overwrites)@ == old(overwrites)@,
            Some(i) => final(overwrites)@ == old(overwrites)@.update(
                i,
                locked_overwrite(old(overwrites)@[i], enabled),
            ),
        },
{
    let mut i: usize = 0;
    while i < overwrites.len()
        invariant
            i <= overwrites@.len(),
            overwrites@ == old(overwrites)@,
            forall|j: int| 0 <= j < i ==> overwrites@[j].target != OverwriteTarget::Role(everyone_role),
        decreases overwrites.len() - i,
    {
        let o = overwrites[i];
        let is_everyone = match o.target {
            OverwriteTarget::Role(r) => r == everyone_role,
            OverwriteTarget::Member(_) => false,
        };
        if is_everyone {
            let updated = if enabled {
                PermissionOverwrite { allow: o.allow & !SEND_MESSAGES, deny: o.deny | SEND_MESSAGES, target: o.target }
            } else {
                PermissionOverwrite { allow: o.allow, deny: o.deny & !SEND_MESSAGES, target: o.target }
            };
            let ghost before = overwrites@;
            overwrites.set(i, updated);
            proof {
                let idx = everyone_index(before, everyone_role);
                assert(idx is Some);
                let k = idx->0;
                assert(k == i as int) by {
                    if k < i {
                    } else if k > i {
                        assert(before[i as int].target == OverwriteTarget::Role(everyone_role));
                    }
                }
            }
            return;
        }
        i = i + 1;
    }
}

} // verus!
