//! The list crawl: two-level fetching of owned lists and their members.
//!
//! Lists page by cursor like connection lists do, but a list already
//! archived is skipped whole in sync mode rather than re-fetched, and
//! each list's member chase keeps its own resume position under a key
//! derived from the list id.

use crate::config::Config;
use crate::governor::{spec_wait_seconds, wait_seconds, RateLimit};
use crate::media::spec_dec_digits;
use crate::phase::PageOutcome;
use crate::profiles::spec_insert_profiles;
use crate::storage::{List, ListInfo, UserId};
use crate::store::IdKeyMap;
use crate::types::Profile;
use vstd::prelude::*;

verus! {

/// Whether the archive already holds a list with this id.
pub open spec fn spec_has_list(lists: Seq<List>, list_id: u64) -> bool {
    exists|i: int| 0 <= i < lists.len() && (#[trigger] lists[i]).list.id == list_id
}

/// In sync mode a list already archived is skipped whole: lists are not
/// synced item by item, only fetched once.
pub fn should_skip_list(lists: &Vec<List>, list_id: u64, is_sync: bool) -> (r: bool)
    ensures
        r == (is_sync && spec_has_list(lists@, list_id)),
{
    if !is_sync {
        return false;
    }
    let n = lists.len();
    let mut i: usize = 0;
    while i < n
        invariant
            is_sync,
            n == lists@.len(),
            i <= n,
            forall|j: int| 0 <= j < i ==> (#[trigger] lists@[j]).list.id != list_id,
        decreases n - i,
    {
        if lists[i].list.id == list_id {
            proof {
                assert((lists@[i as int]).list.id == list_id);
                assert(spec_has_list(lists@, list_id));
            }
            return true;
        }
        i += 1;
    }
    false
}

/// The resume-position key for one list's member chase.
pub fn list_paging_key(list_id: u64) -> (r: String)
    ensures
        r@ == seq!['l', 'i', 's', 't', '-'] + spec_dec_digits(list_id as int),
{
    let mut key: String = "list-".to_owned();
    proof {
        reveal_strlit("list-");
        assert(key@ =~= seq!['l', 'i', 's', 't', '-']);
    }
    let digits = crate::media::u64_dec_string(list_id);
    key.append(digits.as_str());
    key
}

/// The ids of a member page, in page order.
pub open spec fn spec_member_ids(members: Seq<Profile>) -> Seq<u64> {
    members.map_values(|p: Profile| p.id)
}

/// Absorb one page of list members: remember each member's id for the
/// list and store each member's profile in the archive's profile table.
pub fn absorb_member_page(
    members: Vec<Profile>,
    member_ids: &mut Vec<UserId>,
    profiles: &mut IdKeyMap<Profile>,
)
    requires
        old(profiles).wf(),
    ensures
        final(profiles).wf(),
        final(member_ids)@ == old(member_ids)@ + spec_member_ids(members@),
        final(profiles)@ == spec_insert_profiles(old(profiles)@, members@),
{
    let n = members.len();
    let ghost orig = members@;
    let mut members = members;
    let mut i: usize = 0;
    while i < n
        invariant
            n == orig.len(),
            i <= n,
            members@ == orig.subrange(i as int, n as int),
            profiles.wf(),
            member_ids@ == old(member_ids)@ + spec_member_ids(orig.subrange(0, i as int)),
            profiles@ == spec_insert_profiles(old(profiles)@, orig.subrange(0, i as int)),
        decreases n - i,
    {
        let ghost prefix = orig.subrange(0, i as int);
        let p = members.remove(0);
        let id = p.id;
        member_ids.push(id);
        profiles.insert(id, p);
        i += 1;
        proof {
            assert(members@ =~= orig.subrange(i as int, n as int));
            let longer = orig.subrange(0, i as int);
            assert(longer.drop_last() =~= prefix);
            assert(longer.last() == orig[i - 1]);
            assert(spec_member_ids(longer) =~= spec_member_ids(prefix).push(orig[i - 1].id));
            assert(member_ids@ =~= old(member_ids)@ + spec_member_ids(longer));
        }
    }
    proof {
        assert(orig.subrange(0, n as int) =~= orig);
    }
}

/// Close one list's member chase: record the list with its gathered
/// member ids in the archive and clear the list's resume position.
pub fn finish_list(
    lists: &mut Vec<List>,
    info: ListInfo,
    member_ids: Vec<UserId>,
    config: &mut Config,
)
    requires
        old(config).wf(),
    ensures
        final(config).wf(),
        final(config).is_sync == old(config).is_sync,
        final(config).config_data == old(config).config_data,
        final(config).spec_paging() == old(config).spec_paging().remove(
            (seq!['l', 'i', 's', 't', '-'] + spec_dec_digits(info.id as int)),
        ),
        final(lists)@.len() == old(lists)@.len() + 1,
        final(lists)@.last().name == info.name,
        final(lists)@.last().list == info,
        final(lists)@.last().members == member_ids,
        final(lists)@.subrange(0, old(lists)@.len() as int) == old(lists)@,
    {
    let key = list_paging_key(info.id);
    config.set_paging_position(key.as_str(), None);
    let name = info.name.clone();
    lists.push(List { name, list: info, members: member_ids });
    proof {
        assert(lists@.subrange(0, old(lists)@.len() as int) =~= old(lists)@);
    }
}

/// The loop control for a plain cursor chase without id merging (list
/// pages, member pages): an empty page ends the phase without touching
/// the cursor; a full page advances the persisted cursor (a negative
/// cursor clears it), consults the governor, and ends the phase when the
/// next cursor is the terminal zero.
pub fn cursor_page_control(
    endpoint_key: &str,
    page_is_empty: bool,
    next_cursor: i64,
    limit: &RateLimit,
    now: i64,
    config: &mut Config,
) -> (r: PageOutcome)
    requires
        old(config).wf(),
        now >= 0,
    ensures
        final(config).wf(),
        final(config).is_sync == old(config).is_sync,
        final(config).config_data == old(config).config_data,
        r.stop == (page_is_empty || next_cursor == 0),
        r.kept == 0,
        page_is_empty ==> final(config).spec_paging() == old(config).spec_paging()
            && r.wait_seconds.is_none(),
        !page_is_empty ==> final(config).spec_paging() == (if next_cursor >= 0 {
            old(config).spec_paging().insert(endpoint_key@, next_cursor as u64)
        } else {
            old(config).spec_paging().remove(endpoint_key@)
        }) && r.wait_seconds == spec_wait_seconds(*limit, now),
{
    if page_is_empty {
        return PageOutcome { stop: true, kept: 0, wait_seconds: None };
    }
    config.set_paging_position(
        endpoint_key,
        if next_cursor >= 0 {
            Some(next_cursor as u64)
        } else {
            None
        },
    );
    let w = wait_seconds(limit, now);
    PageOutcome { stop: next_cursor == 0, kept: 0, wait_seconds: w }
}

} // verus!
