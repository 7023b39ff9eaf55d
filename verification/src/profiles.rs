//! Profile bookkeeping around the crawl phases.
//!
//! Author profiles are fetched at most once per account: before a lookup
//! the caller filters out ids the archive already holds, and after a
//! lookup the returned profiles are folded into the archive's profile
//! table.

use crate::store::IdKeyMap;
use crate::storage::UserId;
use crate::types::Profile;
use vstd::prelude::*;

verus! {

/// A profile table after storing each profile under its id, left to
/// right.
pub open spec fn spec_insert_profiles(m: Map<u64, Profile>, profiles: Seq<Profile>) -> Map<
    u64,
    Profile,
>
    decreases profiles.len(),
{
    if profiles.len() == 0 {
        m
    } else {
        spec_insert_profiles(m, profiles.drop_last()).insert(profiles.last().id, profiles.last())
    }
}

/// Store each fetched profile under its id.
pub fn insert_profiles(table: &mut IdKeyMap<Profile>, profiles: Vec<Profile>)
    requires
        old(table).wf(),
    ensures
        final(table).wf(),
        final(table)@ == spec_insert_profiles(old(table)@, profiles@),
{
    let n = profiles.len();
    let ghost orig = profiles@;
    let mut profiles = profiles;
    let mut i: usize = 0;
    while i < n
        invariant
            n == orig.len(),
            i <= n,
            profiles@ == orig.subrange(i as int, n as int),
            table.wf(),
            table@ == spec_insert_profiles(old(table)@, orig.subrange(0, i as int)),
        decreases n - i,
    {
        let ghost prefix = orig.subrange(0, i as int);
        let p = profiles.remove(0);
        let id = p.id;
        table.insert(id, p);
        i += 1;
        proof {
            assert(profiles@ =~= orig.subrange(i as int, n as int));
            let longer = orig.subrange(0, i as int);
            assert(longer.drop_last() =~= prefix);
            assert(longer.last() == orig[i - 1]);
        }
    }
}

/// The ids in `ids` that the profile table does not know yet, in order.
pub open spec fn spec_unknown_profile_ids(m: Map<u64, Profile>, ids: Seq<u64>) -> Seq<u64>
    decreases ids.len(),
{
    if ids.len() == 0 {
        Seq::empty()
    } else {
        let rest = spec_unknown_profile_ids(m, ids.drop_last());
        if m.contains_key(ids.last()) {
            rest
        } else {
            rest.push(ids.last())
        }
    }
}

/// Keep only the ids whose profiles the archive does not hold yet, so a
/// profile lookup never re-fetches an archived profile.
pub fn unknown_profile_ids(table: &IdKeyMap<Profile>, ids: &Vec<UserId>) -> (r: Vec<UserId>)
    requires
        table.wf(),
    ensures
        r@ == spec_unknown_profile_ids(table@, ids@),
{
    let n = ids.len();
    let mut out: Vec<UserId> = Vec::new();
    let mut i: usize = 0;
    while i < n
        invariant
            n == ids@.len(),
            i <= n,
            table.wf(),
            out@ == spec_unknown_profile_ids(table@, ids@.subrange(0, i as int)),
        decreases n - i,
    {
        let ghost prefix = ids@.subrange(0, i as int);
        if !table.contains(ids[i]) {
            out.push(ids[i]);
        }
        i += 1;
        proof {
            let longer = ids@.subrange(0, i as int);
            assert(longer.drop_last() =~= prefix);
            assert(longer.last() == ids@[i - 1]);
        }
    }
    proof {
        assert(ids@.subrange(0, n as int) =~= ids@);
    }
    out
}

} // verus!
