//! The run plan: which endpoint crawlers a run executes, in what order,
//! and how pointing the pipeline at another account narrows the options.
//!
//! The phases themselves run one at a time, each persisting the archive
//! when it completes; the caller walks the plan and drives each phase's
//! fetch loop.

use crate::config::CrawlOptions;
use crate::storage::UserId;
use vstd::prelude::*;

verus! {

/// The endpoint crawlers, in their fixed run order.
#[derive(Clone, Copy, Debug, PartialEq, Eq, Structural)]
pub enum PhaseKind {
    Tweets,
    Mentions,
    Followers,
    Follows,
    Lists,
}

/// The phases a run executes: one per enabled collection, always in the
/// order own posts, mentions, followers, follows, lists.
pub open spec fn spec_enabled_phases(options: CrawlOptions) -> Seq<PhaseKind> {
    (if options.tweets {
        seq![PhaseKind::Tweets]
    } else {
        Seq::empty()
    }) + (if options.mentions {
        seq![PhaseKind::Mentions]
    } else {
        Seq::empty()
    }) + (if options.followers {
        seq![PhaseKind::Followers]
    } else {
        Seq::empty()
    }) + (if options.follows {
        seq![PhaseKind::Follows]
    } else {
        Seq::empty()
    }) + (if options.lists {
        seq![PhaseKind::Lists]
    } else {
        Seq::empty()
    })
}

/// Plan a run from the configured options.
pub fn enabled_phases(options: &CrawlOptions) -> (r: Vec<PhaseKind>)
    ensures
        r@ == spec_enabled_phases(*options),
{
    let mut plan: Vec<PhaseKind> = Vec::new();
    if options.tweets {
        plan.push(PhaseKind::Tweets);
    }
    if options.mentions {
        plan.push(PhaseKind::Mentions);
    }
    if options.followers {
        plan.push(PhaseKind::Followers);
    }
    if options.follows {
        plan.push(PhaseKind::Follows);
    }
    if options.lists {
        plan.push(PhaseKind::Lists);
    }
    proof {
        assert(plan@ =~= spec_enabled_phases(*options));
    }
    plan
}

/// The options for crawling `subject`'s account: pointing the pipeline at
/// an account other than the authenticated one disables mentions and
/// reply searches, which are meaningless for a third party without
/// elevated access; crawling one's own account leaves the options alone.
pub fn options_for_subject(options: &CrawlOptions, subject: UserId, own: UserId) -> (r:
    CrawlOptions)
    ensures
        subject == own ==> r == *options,
        subject != own ==> r == (CrawlOptions {
            mentions: false,
            tweet_responses: false,
            ..*options
        }),
{
    if subject == own {
        *options
    } else {
        let mut adjusted = *options;
        adjusted.mentions = false;
        adjusted.tweet_responses = false;
        adjusted
    }
}

} // verus!
