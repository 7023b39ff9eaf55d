//! The per-endpoint crawl state machines.
//!
//! A phase is one endpoint's run from its resume position to completion.
//! The caller owns the network loop: it fetches a page, hands the page to
//! the phase, and obeys the returned outcome — stop, or keep fetching
//! after an optional rate-limit wait. The phase owns every decision: what
//! to keep from the page, when the sync boundary ends the run, how the
//! resume position advances, and how the gathered items merge back into
//! the archive.

use crate::config::{spec_resume_position, Config};
use crate::governor::{spec_wait_seconds, wait_seconds, RateLimit};
use crate::storage::{TweetId, UserId};
use crate::types::Tweet;
use vstd::prelude::*;

verus! {

/// What the crawl loop must do after handing a page to a phase.
#[derive(Clone, Copy, Debug, PartialEq, Eq, Structural)]
pub struct PageOutcome {
    /// The phase is over: fetch no further page.
    pub stop: bool,
    /// How many of the page's items the phase kept, counted from the
    /// front of the page.
    pub kept: usize,
    /// Sleep this long before the next fetch, when the rate-limit budget
    /// is exhausted.
    pub wait_seconds: Option<u64>,
}

/// How many items a page contributes: every item before the sync
/// boundary. In sync mode the first item whose id equals the boundary id
/// cuts the page there; otherwise the whole page counts.
pub open spec fn spec_boundary_cut(posts: Seq<Tweet>, boundary: Option<TweetId>, sync: bool) -> int
    decreases posts.len(),
{
    if posts.len() == 0 {
        0
    } else if sync && (boundary matches Some(b) && posts[0].id == b) {
        0
    } else {
        1 + spec_boundary_cut(posts.drop_first(), boundary, sync)
    }
}

/// The cut always lands inside the page, boundary items included.
pub proof fn lemma_cut_in_range(posts: Seq<Tweet>, boundary: Option<TweetId>, sync: bool)
    ensures
        0 <= spec_boundary_cut(posts, boundary, sync) <= posts.len(),
    decreases posts.len(),
{
    if posts.len() > 0 && !(sync && (boundary matches Some(b) && posts[0].id == b)) {
        lemma_cut_in_range(posts.drop_first(), boundary, sync);
    }
}

/// The sync boundary: everything strictly before the cut is unknown (its
/// id differs from the boundary id), and when the cut lands inside the
/// page it lands exactly on the first item carrying the boundary id.
pub proof fn lemma_sync_boundary(posts: Seq<Tweet>, x: TweetId)
    ensures
        0 <= spec_boundary_cut(posts, Some(x), true) <= posts.len(),
        forall|i: int|
            0 <= i < spec_boundary_cut(posts, Some(x), true) ==> (#[trigger] posts[i]).id != x,
        spec_boundary_cut(posts, Some(x), true) < posts.len() ==> posts[spec_boundary_cut(
            posts,
            Some(x),
            true,
        )].id == x,
    decreases posts.len(),
{
    lemma_cut_in_range(posts, Some(x), true);
    if posts.len() > 0 && posts[0].id != x {
        lemma_sync_boundary(posts.drop_first(), x);
        let cut = spec_boundary_cut(posts, Some(x), true);
        assert forall|i: int| 0 <= i < cut implies (#[trigger] posts[i]).id != x by {
            if i > 0 {
                assert(posts.drop_first()[i - 1] == posts[i]);
            }
        }
        if cut < posts.len() {
            assert(posts.drop_first()[cut - 1] == posts[cut]);
        }
    }
}

/// Outside sync mode a page is never cut: full-backfill mode drains every
/// page whole, to true exhaustion.
pub proof fn lemma_full_mode_keeps_page(posts: Seq<Tweet>, boundary: Option<TweetId>)
    ensures
        spec_boundary_cut(posts, boundary, false) == posts.len(),
    decreases posts.len(),
{
    if posts.len() > 0 {
        lemma_full_mode_keeps_page(posts.drop_first(), boundary);
    }
}

/// The id of the newest archived item of a collection, the sync boundary
/// for the next run over it.
pub fn first_tweet_id(posts: &Vec<Tweet>) -> (r: Option<TweetId>)
    ensures
        r == if posts@.len() > 0 {
            Some(posts@[0].id)
        } else {
            None::<TweetId>
        },
{
    if posts.len() > 0 {
        Some(posts[0].id)
    } else {
        None
    }
}

/// A phase over a time-ordered, newest-first endpoint (own posts,
/// mentions).
#[derive(Debug)]
pub struct TimelinePhase {
    /// The key under which this endpoint's resume position is stored.
    pub endpoint_key: String,
    /// Stop at the first already-archived item and prepend, instead of
    /// draining the endpoint and appending.
    pub sync_mode: bool,
    /// The id of the newest item already archived, if any.
    pub boundary_id: Option<TweetId>,
    /// What the phase has gathered so far, oldest page last.
    pub collected: Vec<Tweet>,
}

impl TimelinePhase {
    /// Open a phase: remember the sync boundary and read the saved resume
    /// position, so an interrupted run continues where it left off rather
    /// than from the beginning.
    pub fn start(endpoint_key: String, boundary_id: Option<TweetId>, config: &Config) -> (r: (
        TimelinePhase,
        Option<u64>,
    ))
        requires
            config.wf(),
        ensures
            r.0.endpoint_key == endpoint_key,
            r.0.sync_mode == config.is_sync,
            r.0.boundary_id == boundary_id,
            r.0.collected@.len() == 0,
            r.1 == spec_resume_position(config.spec_paging(), endpoint_key@),
    {
        let position = config.paging_position(endpoint_key.as_str());
        (
            TimelinePhase {
                endpoint_key,
                sync_mode: config.is_sync,
                boundary_id,
                collected: Vec::new(),
            },
            position,
        )
    }

    /// Absorb one fetched page and decide how the loop goes on.
    ///
    /// An empty page ends the phase. Otherwise the page's items up to the
    /// sync boundary join the gathered list in page order; hitting the
    /// boundary ends the phase at once, before the boundary item. Only a
    /// fully absorbed page advances the persisted resume position (to
    /// `next_position`, or clears it when the endpoint reports none) and
    /// consults the rate-limit governor.
    pub fn on_page(
        &mut self,
        posts: Vec<Tweet>,
        next_position: Option<u64>,
        limit: &RateLimit,
        now: i64,
        config: &mut Config,
    ) -> (r: PageOutcome)
        requires
            old(config).wf(),
            now >= 0,
        ensures
            final(self).endpoint_key == old(self).endpoint_key,
            final(self).sync_mode == old(self).sync_mode,
            final(self).boundary_id == old(self).boundary_id,
            final(config).wf(),
            final(config).is_sync == old(config).is_sync,
            final(config).config_data == old(config).config_data,
            ({
                let cut = spec_boundary_cut(posts@, old(self).boundary_id, old(self).sync_mode);
                &&& final(self).collected@ == old(self).collected@ + posts@.subrange(0, cut)
                &&& r.kept == cut
                &&& r.stop == (posts@.len() == 0 || cut < posts@.len())
                &&& (r.stop ==> final(config).spec_paging() == old(config).spec_paging()
                    && r.wait_seconds.is_none())
                &&& (!r.stop ==> final(config).spec_paging() == (match next_position {
                    Some(p) => old(config).spec_paging().insert(old(self).endpoint_key@, p),
                    None => old(config).spec_paging().remove(old(self).endpoint_key@),
                }) && r.wait_seconds == spec_wait_seconds(*limit, now))
            }),
    {
        proof {
            lemma_cut_in_range(posts@, self.boundary_id, self.sync_mode);
        }
        if posts.len() == 0 {
            return PageOutcome { stop: true, kept: 0, wait_seconds: None };
        }
        let ghost orig = posts@;
        let ghost b = self.boundary_id;
        let ghost s = self.sync_mode;
        let total: usize = posts.len();
        let mut posts = posts;
        let mut hit = false;
        let mut kept: usize = 0;
        while !hit && posts.len() > 0
            invariant
                self.endpoint_key == old(self).endpoint_key,
                self.sync_mode == old(self).sync_mode,
                self.boundary_id == old(self).boundary_id,
                *config == *old(config),
                b == old(self).boundary_id,
                s == old(self).sync_mode,
                total == orig.len(),
                kept == orig.len() - posts@.len(),
                kept <= total,
                posts@ == orig.subrange(orig.len() - posts@.len(), orig.len() as int),
                self.collected@ == old(self).collected@ + orig.subrange(
                    0,
                    orig.len() - posts@.len(),
                ),
                !hit ==> spec_boundary_cut(orig, b, s) == orig.len() - posts@.len()
                    + spec_boundary_cut(posts@, b, s),
                hit ==> spec_boundary_cut(orig, b, s) == orig.len() - posts@.len() && posts@.len()
                    > 0,
            decreases posts@.len() + (if hit {
                0int
            } else {
                1int
            }),
        {
            let is_hit = self.sync_mode && (match self.boundary_id {
                Some(boundary) => posts[0].id == boundary,
                None => false,
            });
            if is_hit {
                hit = true;
                proof {
                    assert(spec_boundary_cut(posts@, b, s) == 0);
                }
            } else {
                let ghost posts_before = posts@;
                let t = posts.remove(0);
                self.collected.push(t);
                kept += 1;
                proof {
                    assert(posts@ =~= posts_before.drop_first());
                    assert(posts@ =~= orig.subrange(
                        orig.len() - posts@.len(),
                        orig.len() as int,
                    ));
                    assert(self.collected@ =~= old(self).collected@ + orig.subrange(
                        0,
                        orig.len() - posts@.len(),
                    ));
                }
            }
        }
        if hit {
            proof {
                assert(self.collected@ == old(self).collected@ + orig.subrange(
                    0,
                    spec_boundary_cut(orig, b, s),
                ));
            }
            return PageOutcome { stop: true, kept, wait_seconds: None };
        }
        proof {
            assert(posts@.len() == 0);
            assert(spec_boundary_cut(orig, b, s) == orig.len());
            assert(self.collected@ == old(self).collected@ + orig.subrange(
                0,
                spec_boundary_cut(orig, b, s),
            ));
        }
        config.set_paging_position(self.endpoint_key.as_str(), next_position);
        let w = wait_seconds(limit, now);
        PageOutcome { stop: false, kept, wait_seconds: w }
    }

    /// Close the phase: merge what was gathered into the archived
    /// collection — prepended in sync mode, keeping newest-first order;
    /// appended in full mode — and clear the resume position, since the
    /// phase completed.
    pub fn finish(self, into: &mut Vec<Tweet>, config: &mut Config)
        requires
            old(config).wf(),
        ensures
            final(config).wf(),
            final(config).spec_paging() == old(config).spec_paging().remove(self.endpoint_key@),
            final(config).is_sync == old(config).is_sync,
            final(config).config_data == old(config).config_data,
            final(into)@ == if self.sync_mode {
                self.collected@ + old(into)@
            } else {
                old(into)@ + self.collected@
            },
    {
        let mut collected = self.collected;
        if self.sync_mode {
            collected.append(into);
            *into = collected;
        } else {
            into.append(&mut collected);
        }
        config.set_paging_position(self.endpoint_key.as_str(), None);
    }
}

/// The ids of `new_ids` not yet in `known`, in page order. A page at the
/// sync boundary may mix known and unknown ids; the unknown ones are
/// kept.
pub open spec fn spec_unknown_ids(new_ids: Seq<u64>, known: Seq<u64>) -> Seq<u64>
    decreases new_ids.len(),
{
    if new_ids.len() == 0 {
        Seq::empty()
    } else {
        let rest = spec_unknown_ids(new_ids.drop_last(), known);
        if known.contains(new_ids.last()) {
            rest
        } else {
            rest.push(new_ids.last())
        }
    }
}

/// Whether a list of ids holds `x`.
pub fn ids_contain(ids: &Vec<u64>, x: u64) -> (r: bool)
    ensures
        r == ids@.contains(x),
{
    let n = ids.len();
    let mut i: usize = 0;
    while i < n
        invariant
            n == ids@.len(),
            i <= n,
            forall|j: int| 0 <= j < i ==> ids@[j] != x,
        decreases n - i,
    {
        if ids[i] == x {
            return true;
        }
        i += 1;
    }
    false
}

/// When a cursor chase stops: on an empty page, on reaching archived
/// ground in sync mode, and on the terminal cursor zero.
pub open spec fn spec_cursor_stop(
    page_len: int,
    unknown_len: int,
    sync: bool,
    next_cursor: i64,
) -> bool {
    page_len == 0 || (sync && unknown_len < page_len) || next_cursor == 0
}

/// A phase over a cursor-chasing endpoint (followers, follows): pages of
/// account ids, linked by a next-cursor value whose zero marks the end.
#[derive(Debug)]
pub struct CursorPhase {
    /// The key under which this endpoint's resume position is stored.
    pub endpoint_key: String,
    /// Stop once a page is no longer purely unknown ids, instead of
    /// chasing the cursor to its end.
    pub sync_mode: bool,
    /// The ids gathered so far; starts as the already-archived list.
    pub ids: Vec<UserId>,
}

impl CursorPhase {
    /// Open a phase over the already-archived ids and read the saved
    /// cursor; with none saved, the chase starts at the beginning, which
    /// the remote service addresses as cursor -1.
    pub fn start(endpoint_key: String, existing: Vec<UserId>, config: &Config) -> (r: (
        CursorPhase,
        i64,
    ))
        requires
            config.wf(),
        ensures
            r.0.endpoint_key == endpoint_key,
            r.0.sync_mode == config.is_sync,
            r.0.ids == existing,
            r.1 == (match spec_resume_position(config.spec_paging(), endpoint_key@) {
                Some(p) => p as i64,
                None => -1int as i64,
            }),
    {
        let cursor: i64 = match config.paging_position(endpoint_key.as_str()) {
            Some(p) => p as i64,
            None => -1,
        };
        (CursorPhase { endpoint_key, sync_mode: config.is_sync, ids: existing }, cursor)
    }

    /// Absorb one page of ids and decide how the chase goes on.
    ///
    /// An empty page ends the phase. The page's unknown ids join the
    /// gathered list — prepended in sync mode, appended otherwise — and
    /// the unknown ids are also handed back, so the caller can fetch the
    /// profiles behind them. In sync mode a page that was not purely
    /// unknown ids means the chase reached archived ground and the phase
    /// ends without advancing the cursor. Otherwise the persisted cursor
    /// advances to `next_cursor` (a negative cursor clears it), the
    /// governor is consulted, and a zero cursor ends the phase.
    pub fn on_page(
        &mut self,
        new_ids: Vec<UserId>,
        next_cursor: i64,
        limit: &RateLimit,
        now: i64,
        config: &mut Config,
    ) -> (r: (PageOutcome, Vec<UserId>))
        requires
            old(config).wf(),
            now >= 0,
        ensures
            final(self).endpoint_key == old(self).endpoint_key,
            final(self).sync_mode == old(self).sync_mode,
            final(config).wf(),
            final(config).is_sync == old(config).is_sync,
            final(config).config_data == old(config).config_data,
            ({
                let unknown = spec_unknown_ids(new_ids@, old(self).ids@);
                let early = old(self).sync_mode && unknown.len() < new_ids@.len();
                &&& r.1@ == unknown
                &&& final(self).ids@ == if old(self).sync_mode {
                    unknown + old(self).ids@
                } else {
                    old(self).ids@ + unknown
                }
                &&& r.0.kept == unknown.len()
                &&& r.0.stop == spec_cursor_stop(
                    new_ids@.len() as int,
                    unknown.len() as int,
                    old(self).sync_mode,
                    next_cursor,
                )
                &&& ((new_ids@.len() == 0 || early) ==> final(config).spec_paging() == old(
                    config,
                ).spec_paging() && r.0.wait_seconds.is_none())
                &&& (!(new_ids@.len() == 0 || early) ==> final(config).spec_paging() == (
                if next_cursor >= 0 {
                    old(config).spec_paging().insert(old(self).endpoint_key@, next_cursor as u64)
                } else {
                    old(config).spec_paging().remove(old(self).endpoint_key@)
                }) && r.0.wait_seconds == spec_wait_seconds(*limit, now))
            }),
    {
        if new_ids.len() == 0 {
            return (PageOutcome { stop: true, kept: 0, wait_seconds: None }, Vec::new());
        }
        let n = new_ids.len();
        let mut unknown: Vec<UserId> = Vec::new();
        let mut i: usize = 0;
        while i < n
            invariant
                n == new_ids@.len(),
                i <= n,
                *self == *old(self),
                *config == *old(config),
                unknown@ == spec_unknown_ids(new_ids@.subrange(0, i as int), self.ids@),
            decreases n - i,
        {
            let ghost prefix = new_ids@.subrange(0, i as int);
            if !ids_contain(&self.ids, new_ids[i]) {
                unknown.push(new_ids[i]);
            }
            i += 1;
            proof {
                let longer = new_ids@.subrange(0, i as int);
                assert(longer.drop_last() =~= prefix);
                assert(longer.last() == new_ids@[i - 1]);
            }
        }
        proof {
            assert(new_ids@.subrange(0, n as int) =~= new_ids@);
        }
        let unknown_len = unknown.len();
        let handed_back = unknown.clone();
        proof {
            assert(handed_back@ =~= unknown@);
        }
        if self.sync_mode {
            let mut merged = unknown;
            merged.append(&mut self.ids);
            self.ids = merged;
        } else {
            self.ids.append(&mut unknown);
        }
        let early = self.sync_mode && unknown_len < n;
        if early {
            return (
                PageOutcome { stop: true, kept: unknown_len, wait_seconds: None },
                handed_back,
            );
        }
        config.set_paging_position(
            self.endpoint_key.as_str(),
            if next_cursor >= 0 {
                Some(next_cursor as u64)
            } else {
                None
            },
        );
        let w = wait_seconds(limit, now);
        (
            PageOutcome { stop: next_cursor == 0, kept: unknown_len, wait_seconds: w },
            handed_back,
        )
    }

    /// Close the phase: clear the cursor and hand the gathered ids back
    /// to replace the archived list.
    pub fn finish(self, config: &mut Config) -> (r: Vec<UserId>)
        requires
            old(config).wf(),
        ensures
            final(config).wf(),
            final(config).spec_paging() == old(config).spec_paging().remove(self.endpoint_key@),
            final(config).is_sync == old(config).is_sync,
            final(config).config_data == old(config).config_data,
            r == self.ids,
    {
        config.set_paging_position(self.endpoint_key.as_str(), None);
        self.ids
    }
}

/// A cursor value of zero is terminal: whatever else a page says, the
/// phase stops there and chases no further cursor.
pub proof fn lemma_zero_cursor_terminates(page_len: int, unknown_len: int, sync: bool)
    ensures
        spec_cursor_stop(page_len, unknown_len, sync, 0),
{
}

} // verus!
