//! Run configuration: which collections to crawl, the archived account's
//! identity, and the per-endpoint resume positions.
//!
//! Reading and writing the settings and position files, and everything
//! about authentication tokens, happens outside the library; the library
//! holds the values the engine decides with.

use crate::store::StrKeyMap;
use vstd::prelude::*;

verus! {

/// The declarative toggles that select what a crawl run archives.
#[derive(Clone, Copy, Debug, PartialEq, Eq, Structural)]
pub struct CrawlOptions {
    /// Download all posts.
    pub tweets: bool,
    /// Download the first responses to each of the account's own posts.
    pub tweet_responses: bool,
    /// Download the profile of each post's author.
    pub tweet_profiles: bool,
    /// Download all mentions.
    pub mentions: bool,
    /// Download all followers and their profiles.
    pub followers: bool,
    /// Download all follows and their profiles.
    pub follows: bool,
    /// Download lists and the profiles of their members.
    pub lists: bool,
    /// Download media from posts and profiles.
    pub media: bool,
    /// Download the account's liked posts.
    pub likes: bool,
}

impl CrawlOptions {
    /// A copy of these options with `change` applied to it.
    pub fn changed<F: FnOnce(Self) -> Self>(&self, change: F) -> (r: Self)
        requires
            change.requires((*self,)),
        ensures
            change.ensures((*self,), r),
    {
        change(*self)
    }
}

impl Default for CrawlOptions {
    /// Everything but list crawling and response search is on by default.
    fn default() -> (r: Self)
        ensures
            r == (CrawlOptions {
                tweets: true,
                tweet_responses: false,
                tweet_profiles: true,
                mentions: true,
                followers: true,
                follows: true,
                lists: false,
                media: true,
                likes: true,
            }),
    {
        CrawlOptions {
            tweets: true,
            tweet_responses: false,
            tweet_profiles: true,
            mentions: true,
            followers: true,
            follows: true,
            lists: false,
            media: true,
            likes: true,
        }
    }
}

/// The persisted account settings: who is archived and with what options.
#[derive(Debug, Clone, PartialEq, Eq)]
pub struct ConfigData {
    username: String,
    user_id: u64,
    key: String,
    secret: String,
    crawl_options: CrawlOptions,
}

impl ConfigData {
    pub fn new(
        username: String,
        user_id: u64,
        key: String,
        secret: String,
        crawl_options: CrawlOptions,
    ) -> (r: Self)
        ensures
            r.spec_username() == username,
            r.spec_user_id() == user_id,
            r.spec_key() == key,
            r.spec_secret() == secret,
            r.spec_crawl_options() == crawl_options,
    {
        ConfigData { username, user_id, key, secret, crawl_options }
    }

    pub closed spec fn spec_username(self) -> String {
        self.username
    }

    pub closed spec fn spec_user_id(self) -> u64 {
        self.user_id
    }

    pub closed spec fn spec_key(self) -> String {
        self.key
    }

    pub closed spec fn spec_secret(self) -> String {
        self.secret
    }

    pub closed spec fn spec_crawl_options(self) -> CrawlOptions {
        self.crawl_options
    }

    /// The archived account's handle.
    pub fn username(&self) -> (r: &String)
        ensures
            *r == self.spec_username(),
    {
        &self.username
    }

    /// The stored access-token key.
    pub fn key(&self) -> (r: &String)
        ensures
            *r == self.spec_key(),
    {
        &self.key
    }

    /// The stored access-token secret.
    pub fn secret(&self) -> (r: &String)
        ensures
            *r == self.spec_secret(),
    {
        &self.secret
    }
}

/// One run's configuration: sync mode, the account settings, and the
/// in-memory endpoint resume positions.
///
/// Every change to a resume position also has to reach durable storage;
/// the caller persists the position table after each
/// [`Config::set_paging_position`], treating a failure to write as
/// non-fatal so the running crawl keeps its in-memory state.
#[derive(Debug)]
pub struct Config {
    /// When true, each phase stops at the first already-archived item and
    /// prepends what it gathered; when false, phases run to exhaustion.
    pub is_sync: bool,
    pub config_data: ConfigData,
    pub paging_positions: StrKeyMap<u64>,
}

impl Config {
    /// The resume-position table has pairwise-distinct keys.
    pub open spec fn wf(self) -> bool {
        self.paging_positions.wf()
    }

    /// The resume positions as a map from endpoint key to position.
    pub open spec fn spec_paging(self) -> Map<Seq<char>, u64> {
        self.paging_positions@
    }

    /// A configuration with no resume positions saved.
    pub fn new(config_data: ConfigData, is_sync: bool) -> (r: Self)
        ensures
            r.wf(),
            r.is_sync == is_sync,
            r.config_data == config_data,
            r.spec_paging() == Map::<Seq<char>, u64>::empty(),
    {
        Config { is_sync, config_data, paging_positions: StrKeyMap::new() }
    }

    /// The archived account's handle.
    pub fn screen_name(&self) -> (r: &String)
        ensures
            *r == self.config_data.spec_username(),
    {
        &self.config_data.username
    }

    /// The archived account's id.
    pub fn user_id(&self) -> (r: u64)
        ensures
            r == self.config_data.spec_user_id(),
    {
        self.config_data.user_id
    }

    pub fn crawl_options(&self) -> (r: &CrawlOptions)
        ensures
            *r == self.config_data.spec_crawl_options(),
    {
        &self.config_data.crawl_options
    }

    pub fn set_crawl_options(&mut self, options: &CrawlOptions)
        ensures
            final(self).config_data.spec_crawl_options() == *options,
            final(self).config_data.spec_username() == old(self).config_data.spec_username(),
            final(self).config_data.spec_user_id() == old(self).config_data.spec_user_id(),
            final(self).config_data.spec_key() == old(self).config_data.spec_key(),
            final(self).config_data.spec_secret() == old(self).config_data.spec_secret(),
            final(self).is_sync == old(self).is_sync,
            final(self).spec_paging() == old(self).spec_paging(),
            final(self).wf() == old(self).wf(),
    {
        self.config_data.crawl_options = *options;
    }

    /// The saved resume position for an endpoint, if one is saved.
    pub fn paging_position(&self, key: &str) -> (r: Option<u64>)
        requires
            self.wf(),
        ensures
            r == spec_resume_position(self.spec_paging(), key@),
    {
        match self.paging_positions.get(key) {
            Some(v) => Some(*v),
            None => None,
        }
    }

    /// Save (`Some`) or clear (`None`) the resume position for an endpoint.
    pub fn set_paging_position(&mut self, key: &str, value: Option<u64>)
        requires
            old(self).wf(),
        ensures
            final(self).wf(),
            final(self).spec_paging() == match value {
                Some(v) => old(self).spec_paging().insert(key@, v),
                None => old(self).spec_paging().remove(key@),
            },
            final(self).is_sync == old(self).is_sync,
            final(self).config_data == old(self).config_data,
    {
        match value {
            Some(v) => self.paging_positions.insert(key.to_owned(), v),
            None => self.paging_positions.remove(key),
        }
    }
}

/// Where a phase for the endpoint keyed `key` resumes: at the saved
/// position if one is saved, else at the beginning.
pub open spec fn spec_resume_position(paging: Map<Seq<char>, u64>, key: Seq<char>) -> Option<u64> {
    if paging.contains_key(key) {
        Some(paging[key])
    } else {
        None
    }
}

/// Saving a position and then asking where to resume yields that position:
/// a phase restarted after an interruption picks up where it left off.
pub proof fn lemma_resume_after_save(paging: Map<Seq<char>, u64>, key: Seq<char>, pos: u64)
    ensures
        spec_resume_position(paging.insert(key, pos), key) == Some(pos),
{
}

/// Clearing a position makes the phase start from the beginning again.
pub proof fn lemma_resume_after_clear(paging: Map<Seq<char>, u64>, key: Seq<char>)
    ensures
        spec_resume_position(paging.remove(key), key).is_none(),
{
}

} // verus!
