//! Who may run which command: bot owners, role requirements and their outcome.
use vstd::prelude::*;
use crate::guild_settings::{csv_ids, parse_ids_csv, strictly_increasing};

verus! {

/// The member holds at least one of the required roles.
pub open spec fn has_any_role(member_roles: Seq<u64>, required: Seq<u64>) -> bool {
    exists|i: int| 0 <= i < required.len() && member_roles.contains(#[trigger] required[i])
}

/// Whether a member with `member_roles` holds any role of `required`.
pub fn member_has_any_role(member_roles: &Vec<u64>, required: &Vec<u64>) -> (r: bool)
    ensures
        r == has_any_role(member_roles@, required@),
{
    let mut i: usize = 0;
    while i < required.len()
        invariant
            i <= required@.len(),
            forall|k: int| 0 <= k < i ==> !member_roles@.contains(#[trigger] required@[k]),
        decreases required.len() - i,
    {
        let role = required[i];
        let mut j: usize = 0;
        while j < member_roles.len()
            invariant
                j <= member_roles@.len(),
                i < required@.len(),
                role == required@[i as int],
                forall|k: int| 0 <= k < j ==> member_roles@[k] != role,
            decreases member_roles.len() - j,
        {
            if member_roles[j] == role {
                assert(member_roles@.contains(required@[i as int]));
                return true;
            }
            j = j + 1;
        }
        i = i + 1;
    }
    false
}

/// The ids listed in the set values among `values`.
pub open spec fn listed_ids(values: Seq<Option<String>>) -> Set<u64>
    decreases values.len(),
{
    if values.len() == 0 {
        Set::empty()
    } else {
        listed_ids(values.drop_last()) + match values.last() {
            Some(v) => csv_ids(v@).to_set(),
            None => Set::empty(),
        }
    }
}

fn insert_unique_sorted(v: &mut Vec<u64>, x: u64)
    requires
        strictly_increasing(old(v)@),
    ensures
        strictly_increasing(final(v)@),
        final(v)@.to_set() == old(v)@.to_set().insert(x),
{
    let mut p: usize = 0;
    while p < v.len() && v[p] < x
        invariant
            p <= v@.len(),
            forall|k: int| 0 <= k < p ==> v@[k] < x,
        decreases v.len() - p,
    {
        p = p + 1;
    }
    if p < v.len() && v[p] == x {
        assert(v@.to_set() =~= v@.to_set().insert(x)) by {
            assert(v@.to_set().contains(x));
        }
        return;
    }
    let ghost before = v@;
    v.insert(p, x);
    assert forall|a: int, b: int| 0 <= a < b < v@.len() implies v@[a] < v@[b] by {
        if b < p {
        } else if a < p && b == p {
        } else if a < p {
            assert(v@[b] == before[b - 1]);
        } else if a == p {
            assert(v@[b] == before[b - 1]);
            assert(before[p as int] <= before[b - 1]);
        } else {
            assert(v@[a] == before[a - 1]);
            assert(v@[b] == before[b - 1]);
        }
    }
    assert forall|y: u64| v@.to_set().contains(y) <==> before.to_set().insert(x).contains(y) by {
        if v@.to_set().contains(y) {
            let k = choose|k: int| 0 <= k < v@.len() && v@[k] == y;
            if k < p {
                assert(before[k] == y);
            } else if k > p {
                assert(before[k - 1] == y);
            }
        }
        if before.to_set().contains(y) && y != x {
            let k = choose|k: int| 0 <= k < before.len() && before[k] == y;
            if k < p {
                assert(v@[k] == y);
            } else {
                assert(v@[k + 1] == y);
            }
        }
        if y == x {
            assert(v@[p as int] == x);
        }
    }
    assert(v@.to_set() =~= before.to_set().insert(x));
}

/// Bot owner ids from the values of the owner variables (each a comma-separated
/// list; unset variables contribute nothing), sorted and without repetition.
pub fn owner_ids_from_env(values: &Vec<Option<String>>) -> (r: Vec<u64>)
    ensures
        strictly_increasing(r@),
        r@.to_set() == listed_ids(values@),
{
    let mut out: Vec<u64> = Vec::new();
    let mut i: usize = 0;
    assert(values@.take(0) =~= Seq::<Option<String>>::empty());
    assert(out@.to_set() =~= Set::<u64>::empty());
    while i < values.len()
        invariant
            i <= values@.len(),
            strictly_increasing(out@),
            out@.to_set() == listed_ids(values@.take(i as int)),
        decreases values.len() - i,
    {
        assert(values@.take(i + 1).drop_last() =~= values@.take(i as int));
        match &values[i] {
            Some(raw) => {
                let ids = parse_ids_csv(raw.as_str());
                let ghost base = out@.to_set();
                let mut j: usize = 0;
                assert(base + ids@.take(0).to_set() =~= base);
                while j < ids.len()
                    invariant
                        j <= ids@.len(),
                        strictly_increasing(out@),
                        out@.to_set() == base + ids@.take(j as int).to_set(),
                    decreases ids.len() - j,
                {
                    insert_unique_sorted(&mut out, ids[j]);
                    proof {
                        crate::text::lemma_take_to_set_step(ids@, j as int);
                    }
                    assert(out@.to_set() =~= base + ids@.take(j + 1).to_set());
                    j = j + 1;
                }
                assert(ids@.take(ids@.len() as int) =~= ids@);
            },
            None => {
                assert(out@.to_set() =~= listed_ids(values@.take(i + 1)));
            },
        }
        i = i + 1;
    }
    assert(values@.take(values@.len() as int) =~= values@);
    out
}

/// Whether `user_id` is one of the bot owners.
pub fn is_owner_user(owner_ids: &Vec<u64>, user_id: u64) -> (r: bool)
    ensures
        r == owner_ids@.contains(user_id),
{
    let mut i: usize = 0;
    while i < owner_ids.len()
        invariant
            i <= owner_ids@.len(),
            forall|k: int| 0 <= k < i ==> owner_ids@[k] != user_id,
        decreases owner_ids.len() - i,
    {
        if owner_ids[i] == user_id {
            return true;
        }
        i = i + 1;
    }
    false
}

/// Owner-only commands are open to everyone while no owner is configured.
pub fn owner_allows(owner_ids: &Vec<u64>, user_id: u64) -> (r: bool)
    ensures
        r == (owner_ids@.len() == 0 || owner_ids@.contains(user_id)),
{
    owner_ids.len() == 0 || is_owner_user(owner_ids, user_id)
}

/// Outcome of a permission check.
#[derive(Clone, Copy, Debug, PartialEq, Eq, Structural)]
pub enum AccessDecision {
    /// The command may run.
    Allow,
    /// The command is refused silently.
    Deny,
    /// The command is refused and the user is told why.
    DenyWithNotice,
}

/// Role-gated access: owners always pass; outside a guild nobody does; with no role
/// configured everyone does; otherwise the member must hold one of the roles, and is
/// told when not (a missing member record is refused silently).
pub open spec fn role_access_decision(
    is_owner: bool,
    in_guild: bool,
    required: Seq<u64>,
    member_roles: Option<Seq<u64>>,
) -> AccessDecision {
    if is_owner {
        AccessDecision::Allow
    } else if !in_guild {
        AccessDecision::Deny
    } else if required.len() == 0 {
        AccessDecision::Allow
    } else {
        match member_roles {
            None => AccessDecision::Deny,
            Some(roles) => if has_any_role(roles, required) {
                AccessDecision::Allow
            } else {
                AccessDecision::DenyWithNotice
            },
        }
    }
}

/// Decides an administrator or developer check.
pub fn role_access(
    is_owner: bool,
    in_guild: bool,
    required: &Vec<u64>,
    member_roles: Option<&Vec<u64>>,
) -> (r: AccessDecision)
    ensures
        r == role_access_decision(
            is_owner,
            in_guild,
            required@,
            match member_roles {
                Some(m) => Some(m@),
                None => None,
            },
        ),
{
    if is_owner {
        return AccessDecision::Allow;
    }
    if !in_guild {
        return AccessDecision::Deny;
    }
    if required.len() == 0 {
        return AccessDecision::Allow;
    }
    match member_roles {
        None => AccessDecision::Deny,
        Some(roles) => if member_has_any_role(roles, required) {
            AccessDecision::Allow
        } else {
            AccessDecision::DenyWithNotice
        },
    }
}

} // verus!
