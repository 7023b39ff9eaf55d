//! The archived aggregate: everything gathered for one account, plus the
//! handle that maps media URLs to local artifact paths.
//!
//! Reading and writing the archive on disk stays outside the library; the
//! engine mutates this in-memory value and hands it back for persisting
//! after each completed phase.

use crate::store::{IdKeyMap, StrKeyMap};
use crate::types::{Profile, Tweet};
use vstd::prelude::*;

verus! {

pub type UserId = u64;

pub type TweetId = u64;

pub type UrlString = String;

/// A list the account owns, with its remote description and the ids of
/// its members.
#[derive(Debug)]
pub struct List {
    pub name: String,
    pub list: ListInfo,
    pub members: Vec<UserId>,
}

/// What the engine reads of a remote list description.
#[derive(Clone, Debug, PartialEq, Eq)]
pub struct ListInfo {
    pub id: u64,
    pub name: String,
    pub full_name: String,
    pub slug: String,
    pub description: String,
    pub subscriber_count: u64,
    pub member_count: u64,
}

/// Everything archived so far for one account.
#[derive(Debug)]
pub struct Data {
    /// The profile of the archived account itself.
    pub profile: Profile,
    /// The account's own posts, newest first.
    pub tweets: Vec<Tweet>,
    /// Mentions of the account, newest first.
    pub mentions: Vec<Tweet>,
    /// Replies found for the account's own posts, keyed by the post id.
    pub responses: IdKeyMap<Vec<Tweet>>,
    /// Profiles gathered along the way, keyed by account id.
    pub profiles: IdKeyMap<Profile>,
    /// Ids of accounts following the archived account.
    pub followers: Vec<UserId>,
    /// Ids of accounts the archived account follows.
    pub follows: Vec<UserId>,
    /// Lists the account owns.
    pub lists: Vec<List>,
    /// Downloaded media, keyed by source URL, valued by the local file
    /// name inside the media directory.
    pub media: StrKeyMap<String>,
    /// The account's liked posts.
    pub likes: Vec<Tweet>,
}

impl Data {
    /// The keyed tables all have pairwise-distinct keys.
    pub open spec fn wf(self) -> bool {
        self.responses.wf() && self.profiles.wf() && self.media.wf()
    }

    /// Whether some archived post collection holds a post with this id.
    pub open spec fn spec_has_tweet(self, id: TweetId) -> bool {
        spec_seq_has_tweet(self.tweets@, id) || spec_seq_has_tweet(self.mentions@, id)
            || spec_seq_has_tweet(self.likes@, id) || exists|j: int|
            0 <= j < self.responses.spec_pairs().len() && spec_seq_has_tweet(
                (#[trigger] self.responses.spec_pairs()[j]).1@,
                id,
            )
    }

    /// An archive holding nothing but the account's profile.
    pub fn empty(profile: Profile) -> (r: Self)
        ensures
            r.wf(),
            r.profile == profile,
            r.tweets@.len() == 0,
            r.mentions@.len() == 0,
            r.responses@ == Map::<u64, Vec<Tweet>>::empty(),
            r.profiles@ == Map::<u64, Profile>::empty(),
            r.followers@.len() == 0,
            r.follows@.len() == 0,
            r.lists@.len() == 0,
            r.media@ == Map::<Seq<char>, String>::empty(),
            r.likes@.len() == 0,
    {
        Data {
            profile,
            tweets: Vec::new(),
            mentions: Vec::new(),
            responses: IdKeyMap::new(),
            profiles: IdKeyMap::new(),
            followers: Vec::new(),
            follows: Vec::new(),
            lists: Vec::new(),
            media: StrKeyMap::new(),
            likes: Vec::new(),
        }
    }

    /// Find a post with the given id in any archived collection: the
    /// account's own posts, its mentions, its likes, or a reply thread.
    pub fn any_tweet(&self, id: TweetId) -> (r: Option<&Tweet>)
        ensures
            match r {
                Some(t) => t.id == id && self.spec_has_tweet(id),
                None => !self.spec_has_tweet(id),
            },
    {
        if let Some(t) = find_tweet_in(&self.tweets, id) {
            return Some(t);
        }
        if let Some(t) = find_tweet_in(&self.mentions, id) {
            return Some(t);
        }
        if let Some(t) = find_tweet_in(&self.likes, id) {
            return Some(t);
        }
        let n = self.responses.len();
        let mut j: usize = 0;
        while j < n
            invariant
                n == self.responses.spec_pairs().len(),
                j <= n,
                forall|a: int|
                    0 <= a < j ==> !spec_seq_has_tweet(
                        (#[trigger] self.responses.spec_pairs()[a]).1@,
                        id,
                    ),
            decreases n - j,
        {
            if let Some(t) = find_tweet_in(self.responses.value_at(j), id) {
                return Some(t);
            }
            j += 1;
        }
        None
    }
}

/// Whether a post sequence holds a post with this id.
pub open spec fn spec_seq_has_tweet(posts: Seq<Tweet>, id: TweetId) -> bool {
    exists|i: int| 0 <= i < posts.len() && (#[trigger] posts[i]).id == id
}

/// Find a post by id in one collection.
fn find_tweet_in(posts: &Vec<Tweet>, id: TweetId) -> (r: Option<&Tweet>)
    ensures
        match r {
            Some(t) => t.id == id && spec_seq_has_tweet(posts@, id),
            None => !spec_seq_has_tweet(posts@, id),
        },
{
    let n = posts.len();
    let mut i: usize = 0;
    while i < n
        invariant
            n == posts@.len(),
            i <= n,
            forall|a: int| 0 <= a < i ==> (#[trigger] posts@[a]).id != id,
        decreases n - i,
    {
        if posts[i].id == id {
            return Some(&posts[i]);
        }
        i += 1;
    }
    None
}

/// The archive bound to its place on disk: a root directory that holds
/// the document file and a media subdirectory.
#[derive(Debug)]
pub struct Storage {
    pub root_folder: String,
    pub data: Data,
}

impl Storage {
    /// A fresh archive for `profile`, rooted at `root_folder`. The caller
    /// creates the directory and the media subdirectory beneath it.
    pub fn new(profile: Profile, root_folder: String) -> (r: Self)
        ensures
            r.data.wf(),
            r.data.profile == profile,
            r.data.tweets@.len() == 0,
            r.data.mentions@.len() == 0,
            r.data.followers@.len() == 0,
            r.data.follows@.len() == 0,
            r.data.lists@.len() == 0,
            r.data.likes@.len() == 0,
            r.data.media@ == Map::<Seq<char>, String>::empty(),
            r.root_folder == root_folder,
    {
        Storage { root_folder, data: Data::empty(profile) }
    }

    /// Where a media file of this name lives, below the archive root.
    pub fn media_path(&self, filename: &str) -> (r: String)
        ensures
            r@ == self.root_folder@ + "/media/"@ + filename@,
    {
        let mut path = self.root_folder.clone();
        path.append("/media/");
        path.append(filename);
        path
    }

    pub fn data(&self) -> (r: &Data)
        ensures
            r == &self.data,
    {
        &self.data
    }

    pub fn data_mut(&mut self) -> (r: &mut Data)
        ensures
            *r == old(self).data,
            final(self).data == *final(r),
            final(self).root_folder == old(self).root_folder,
    {
        &mut self.data
    }

    /// A handle that resolves media URLs to local paths.
    pub fn resolver(&self) -> (r: MediaResolver<'_>)
        ensures
            r.root_folder@ == self.root_folder@ + "/media"@,
            r.media == &self.data.media,
    {
        let mut root = self.root_folder.clone();
        root.append("/media");
        MediaResolver { root_folder: root, media: &self.data.media }
    }
}

/// Maps a media URL to the full local path of the downloaded artifact.
pub struct MediaResolver<'a> {
    pub root_folder: String,
    pub media: &'a StrKeyMap<String>,
}

impl<'a> MediaResolver<'a> {
    /// The local path for a URL whose artifact has been downloaded.
    pub fn resolve(&self, url: &str) -> (r: Option<String>)
        requires
            self.media.wf(),
        ensures
            match r {
                Some(p) => self.media@.contains_key(url@) && p@ == self.root_folder@ + "/"@
                    + self.media@[url@]@,
                None => !self.media@.contains_key(url@),
            },
    {
        match self.media.get(url) {
            Some(found) => {
                let mut path = self.root_folder.clone();
                path.append("/");
                path.append(found.as_str());
                Some(path)
            },
            None => None,
        }
    }
}

/// What the engine reports while it runs and when it ends.
#[derive(Debug)]
pub enum Message {
    Initial,
    Finished(Storage),
    Loading(String),
    Error(String),
}

impl Message {
    /// A short description, for progress logs.
    pub fn describe(&self) -> (r: String)
        ensures
            match self {
                Message::Loading(s) => r@ == s@,
                Message::Error(s) => r@ == s@,
                Message::Initial => r@ == "Initial"@,
                Message::Finished(_) => r@ == "Finished"@,
            },
    {
        match self {
            Message::Initial => "Initial".to_owned(),
            Message::Finished(_) => "Finished".to_owned(),
            Message::Loading(s) => s.clone(),
            Message::Error(s) => s.clone(),
        }
    }
}

} // verus!
