//! Post inspection: what secondary work one crawled post generates.
//!
//! Each kept post is inspected once: its media (and the media of its
//! quoted and retweeted posts, to any nesting depth) become download
//! instructions, unknown author profiles become profile-fetch requests,
//! and the account's own posts may trigger a reply search. The inspection
//! only decides; the caller performs the fetches.

use crate::config::CrawlOptions;
use crate::media::{spec_media_instructions, DownloadInstruction};
use crate::storage::{TweetId, UserId};
use crate::types::Tweet;
use vstd::prelude::*;

verus! {

/// The media instructions one post's own entities ask for.
pub open spec fn spec_post_media(t: Tweet) -> Seq<DownloadInstruction> {
    match t.extended_entities {
        Some(ee) => spec_media_instructions(ee.media@),
        None => Seq::empty(),
    }
}

/// The media instructions a post asks for, its own entities first, then
/// its quoted post's, then its retweeted post's, each to any depth.
pub open spec fn spec_tweet_instructions(t: Tweet) -> Seq<DownloadInstruction>
    decreases t,
{
    spec_post_media(t) + (match t.quoted_status {
        Some(q) => spec_tweet_instructions(*q),
        None => Seq::empty(),
    }) + (match t.retweeted_status {
        Some(rt) => spec_tweet_instructions(*rt),
        None => Seq::empty(),
    })
}

/// The author profile one post asks to fetch: its author, when author
/// profiles are wanted and the author is someone other than the archived
/// account itself.
pub open spec fn spec_post_author(t: Tweet, options: CrawlOptions, own: UserId) -> Seq<UserId> {
    if options.tweet_profiles && (t.user matches Some(u) && u.id != own) {
        seq![t.user.unwrap().id]
    } else {
        Seq::empty()
    }
}

/// The author profiles a post asks to fetch, its own author first, then
/// its quoted post's, then its retweeted post's, each to any depth.
pub open spec fn spec_tweet_authors(t: Tweet, options: CrawlOptions, own: UserId) -> Seq<UserId>
    decreases t,
{
    spec_post_author(t, options, own) + (match t.quoted_status {
        Some(q) => spec_tweet_authors(*q, options, own),
        None => Seq::empty(),
    }) + (match t.retweeted_status {
        Some(rt) => spec_tweet_authors(*rt, options, own),
        None => Seq::empty(),
    })
}

/// Whether a post triggers a reply search: only when reply crawling is on
/// and the post is the archived account's own (or carries no author, as
/// archive-imported posts do).
pub open spec fn spec_wants_replies(t: Tweet, options: CrawlOptions, own: UserId) -> bool {
    options.tweet_responses && (t.user is None || t.user.unwrap().id == own)
}

/// Everything one inspected post asks the caller to do.
#[derive(Debug)]
pub struct TweetInspection {
    /// Media to hand to the download dispatcher, in discovery order.
    pub instructions: Vec<DownloadInstruction>,
    /// Author ids whose profiles to fetch, unless already archived.
    pub profiles_to_fetch: Vec<UserId>,
    /// Search for replies to this post.
    pub fetch_replies: bool,
}

/// Inspect one kept post.
pub fn inspect_tweet(tweet: &Tweet, options: &CrawlOptions, own_user_id: UserId) -> (r:
    TweetInspection)
    ensures
        r.instructions@ == spec_tweet_instructions(*tweet),
        r.profiles_to_fetch@ == spec_tweet_authors(*tweet, *options, own_user_id),
        r.fetch_replies == spec_wants_replies(*tweet, *options, own_user_id),
{
    let mut instructions: Vec<DownloadInstruction> = Vec::new();
    let mut profiles: Vec<UserId> = Vec::new();
    collect_inspection(tweet, options, own_user_id, &mut instructions, &mut profiles);
    let fetch_replies = options.tweet_responses && (match &tweet.user {
        Some(u) => u.id == own_user_id,
        None => true,
    });
    TweetInspection { instructions, profiles_to_fetch: profiles, fetch_replies }
}

/// Walk a post and its embedded posts, gathering media instructions and
/// author ids in discovery order.
fn collect_inspection(
    tweet: &Tweet,
    options: &CrawlOptions,
    own: UserId,
    instructions: &mut Vec<DownloadInstruction>,
    profiles: &mut Vec<UserId>,
)
    ensures
        final(instructions)@ == old(instructions)@ + spec_tweet_instructions(*tweet),
        final(profiles)@ == old(profiles)@ + spec_tweet_authors(*tweet, *options, own),
    decreases *tweet,
{
    match crate::media::media_in_tweet(tweet) {
        Some(mut media) => {
            instructions.append(&mut media);
        },
        None => {},
    }
    if options.tweet_profiles {
        match &tweet.user {
            Some(u) => {
                if u.id != own {
                    profiles.push(u.id);
                }
            },
            None => {},
        }
    }
    proof {
        assert(instructions@ =~= old(instructions)@ + spec_post_media(*tweet));
        assert(profiles@ =~= old(profiles)@ + spec_post_author(*tweet, *options, own));
    }
    match &tweet.quoted_status {
        Some(q) => {
            collect_inspection(q, options, own, instructions, profiles);
        },
        None => {},
    }
    match &tweet.retweeted_status {
        Some(rt) => {
            collect_inspection(rt, options, own, instructions, profiles);
        },
        None => {},
    }
    proof {
        assert(instructions@ =~= old(instructions)@ + spec_tweet_instructions(*tweet));
        assert(profiles@ =~= old(profiles)@ + spec_tweet_authors(*tweet, *options, own));
    }
}

/// The posts of a search result page that explicitly reply to `target`,
/// in page order: a reply search casts a wide net, and only the direct
/// replies are archived under the post.
pub open spec fn spec_replies_to(posts: Seq<Tweet>, target: TweetId) -> Seq<Tweet>
    decreases posts.len(),
{
    if posts.len() == 0 {
        Seq::empty()
    } else {
        let rest = spec_replies_to(posts.drop_last(), target);
        if posts.last().in_reply_to_status_id == Some(target) {
            rest.push(posts.last())
        } else {
            rest
        }
    }
}

/// Keep the posts that explicitly reply to `target`.
pub fn filter_replies_to(posts: Vec<Tweet>, target: TweetId) -> (r: Vec<Tweet>)
    ensures
        r@ == spec_replies_to(posts@, target),
{
    let n = posts.len();
    let mut posts = posts;
    let mut out: Vec<Tweet> = Vec::new();
    let ghost orig = posts@;
    let mut i: usize = 0;
    while i < n
        invariant
            n == orig.len(),
            i <= n,
            posts@ == orig.subrange(i as int, n as int),
            out@ == spec_replies_to(orig.subrange(0, i as int), target),
        decreases n - i,
    {
        let ghost prefix = orig.subrange(0, i as int);
        let t = posts.remove(0);
        let keep = match t.in_reply_to_status_id {
            Some(id) => id == target,
            None => false,
        };
        if keep {
            out.push(t);
        }
        i += 1;
        proof {
            assert(posts@ =~= orig.subrange(i as int, n as int));
            let longer = orig.subrange(0, i as int);
            assert(longer.drop_last() =~= prefix);
            assert(longer.last() == orig[i - 1]);
        }
    }
    out
}

} // verus!
