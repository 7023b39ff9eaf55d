use twitvault::config::{Config, ConfigData, CrawlOptions};
use twitvault::governor::{wait_seconds, RateLimit};
use twitvault::phase::{first_tweet_id, CursorPhase, TimelinePhase};
use twitvault::types::{Tweet, TweetEntities};

fn config_data() -> ConfigData {
    ConfigData::new(
        "archived_account".to_string(),
        77,
        "key".to_string(),
        "secret".to_string(),
        CrawlOptions::default(),
    )
}

fn post(id: u64) -> Tweet {
    Tweet {
        id,
        created_at: 0,
        text: format!("post {id}"),
        user: None,
        entities: TweetEntities {
            hashtags: Vec::new(),
            urls: Vec::new(),
            user_mentions: Vec::new(),
            media: None,
        },
        extended_entities: None,
        favorite_count: 0,
        favorited: None,
        retweet_count: 0,
        truncated: false,
        lang: None,
        source: None,
        display_text_range: None,
        in_reply_to_screen_name: None,
        in_reply_to_status_id: None,
        in_reply_to_user_id: None,
        quoted_status_id: None,
        quoted_status: None,
        retweeted_status: None,
    }
}

fn ids(posts: &[Tweet]) -> Vec<u64> {
    posts.iter().map(|t| t.id).collect()
}

fn fresh_limit() -> RateLimit {
    RateLimit { limit: 100, remaining: 50, reset: 0 }
}

#[test]
fn resume_starts_from_saved_position() {
    let mut config = Config::new(config_data(), false);
    config.set_paging_position("user_tweets", Some(42));
    let (_phase, position) = TimelinePhase::start("user_tweets".to_string(), None, &config);
    assert_eq!(position, Some(42));

    config.set_paging_position("followers", Some(9000));
    let (_cursor_phase, cursor) = CursorPhase::start("followers".to_string(), Vec::new(), &config);
    assert_eq!(cursor, 9000);
}

#[test]
fn resume_starts_from_beginning_without_saved_position() {
    let config = Config::new(config_data(), false);
    let (_phase, position) = TimelinePhase::start("user_tweets".to_string(), None, &config);
    assert_eq!(position, None);
    let (_cursor_phase, cursor) = CursorPhase::start("followers".to_string(), Vec::new(), &config);
    assert_eq!(cursor, -1);
}

#[test]
fn resume_position_cleared_on_finish() {
    let mut config = Config::new(config_data(), false);
    config.set_paging_position("user_tweets", Some(42));
    let (phase, _) = TimelinePhase::start("user_tweets".to_string(), None, &config);
    let mut into: Vec<Tweet> = Vec::new();
    phase.finish(&mut into, &mut config);
    assert_eq!(config.paging_position("user_tweets"), None);
}

#[test]
fn sync_boundary_stops_before_known_item() {
    // The archive already starts at item X = 3; the endpoint returns
    // [A=10, B=9, X=3, C=2] on its first page.
    let mut config = Config::new(config_data(), true);
    let mut existing = vec![post(3), post(1)];
    let boundary = first_tweet_id(&existing);
    assert_eq!(boundary, Some(3));

    let (mut phase, position) =
        TimelinePhase::start("user_tweets".to_string(), boundary, &config);
    assert_eq!(position, None);

    let page = vec![post(10), post(9), post(3), post(2)];
    let outcome = phase.on_page(page, Some(2), &fresh_limit(), 1_000, &mut config);
    assert!(outcome.stop);
    assert_eq!(outcome.kept, 2);
    assert_eq!(ids(&phase.collected), vec![10, 9]);

    phase.finish(&mut existing, &mut config);
    assert_eq!(ids(&existing), vec![10, 9, 3, 1]);
    assert_eq!(config.paging_position("user_tweets"), None);
}

#[test]
fn full_mode_drains_endpoint_across_three_fetches() {
    let mut config = Config::new(config_data(), false);
    let (mut phase, _) = TimelinePhase::start("user_tweets".to_string(), None, &config);

    let mut fetches = 0;
    let pages = vec![vec![post(4), post(3)], vec![post(2), post(1)], vec![]];
    let mut stopped = false;
    for page in pages {
        assert!(!stopped, "the loop must still be running");
        fetches += 1;
        let next = page.last().map(|t| t.id);
        let outcome = phase.on_page(page, next, &fresh_limit(), 1_000, &mut config);
        stopped = outcome.stop;
    }
    assert!(stopped);
    assert_eq!(fetches, 3);

    let mut existing = vec![post(99)];
    phase.finish(&mut existing, &mut config);
    assert_eq!(ids(&existing), vec![99, 4, 3, 2, 1]);
}

#[test]
fn exhausted_rate_limit_suspends_until_reset() {
    let limit = RateLimit { limit: 100, remaining: 1, reset: 1_100 };
    assert_eq!(wait_seconds(&limit, 1_000), Some(110));
}

#[test]
fn remaining_rate_limit_does_not_suspend() {
    let limit = RateLimit { limit: 100, remaining: 10, reset: 1_100 };
    assert_eq!(wait_seconds(&limit, 1_000), None);
}

#[test]
fn rate_limit_wait_never_below_margin() {
    let limit = RateLimit { limit: 100, remaining: 0, reset: 500 };
    assert_eq!(wait_seconds(&limit, 1_000), Some(10));
}

#[test]
fn zero_cursor_terminates_phase() {
    let mut config = Config::new(config_data(), false);
    let (mut phase, cursor) = CursorPhase::start("followers".to_string(), Vec::new(), &config);
    assert_eq!(cursor, -1);
    let (outcome, unknown) =
        phase.on_page(vec![5, 6], 0, &fresh_limit(), 1_000, &mut config);
    assert!(outcome.stop);
    assert_eq!(unknown, vec![5, 6]);
    let ids = phase.finish(&mut config);
    assert_eq!(ids, vec![5, 6]);
}

#[test]
fn cursor_sync_stops_on_mixed_page_and_prepends_unknown() {
    let mut config = Config::new(config_data(), true);
    let existing = vec![7, 8];
    let (mut phase, _) = CursorPhase::start("followers".to_string(), existing, &config);
    // page mixes two unknown ids with one known id: keep the unknown ones,
    // then stop, because the chase reached archived ground
    let (outcome, unknown) =
        phase.on_page(vec![5, 7, 6], 33, &fresh_limit(), 1_000, &mut config);
    assert!(outcome.stop);
    assert_eq!(unknown, vec![5, 6]);
    let ids = phase.finish(&mut config);
    assert_eq!(ids, vec![5, 6, 7, 8]);
}

#[test]
fn cursor_full_mode_appends_and_continues() {
    let mut config = Config::new(config_data(), false);
    let (mut phase, _) = CursorPhase::start("follows".to_string(), vec![7], &config);
    let (outcome, unknown) =
        phase.on_page(vec![5, 7, 6], 33, &fresh_limit(), 1_000, &mut config);
    assert!(!outcome.stop);
    assert_eq!(unknown, vec![5, 6]);
    assert_eq!(config.paging_position("follows"), Some(33));
    let ids = phase.finish(&mut config);
    assert_eq!(ids, vec![7, 5, 6]);
    assert_eq!(config.paging_position("follows"), None);
}

#[test]
fn empty_page_stops_without_position_update() {
    let mut config = Config::new(config_data(), false);
    config.set_paging_position("user_mentions", Some(5));
    let (mut phase, _) = TimelinePhase::start("user_mentions".to_string(), None, &config);
    let outcome = phase.on_page(Vec::new(), Some(4), &fresh_limit(), 1_000, &mut config);
    assert!(outcome.stop);
    assert_eq!(outcome.kept, 0);
    assert_eq!(config.paging_position("user_mentions"), Some(5));
}
