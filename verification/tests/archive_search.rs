use twitvault::config::{Config, ConfigData, CrawlOptions};
use twitvault::inspect::{filter_replies_to, inspect_tweet};
use twitvault::lists::{list_paging_key, should_skip_list};
use twitvault::media::DownloadInstruction;
use twitvault::orchestrator::{enabled_phases, options_for_subject, PhaseKind};
use twitvault::search::{search, Kind, Options};
use twitvault::storage::{Data, List, ListInfo, Message, Storage};
use twitvault::types::{Profile, Tweet, TweetEntities};

fn profile(id: u64, screen_name: &str) -> Profile {
    Profile {
        id,
        name: format!("Account {id}"),
        screen_name: screen_name.to_string(),
        description: None,
        status: None,
        profile_image_url_https: format!("https://pic.example/{id}/avatar.png"),
        profile_banner_url: None,
        profile_background_image_url_https: None,
    }
}

fn post(id: u64, text: &str) -> Tweet {
    Tweet {
        id,
        created_at: 0,
        text: text.to_string(),
        user: None,
        entities: TweetEntities {
            hashtags: Vec::new(),
            urls: Vec::new(),
            user_mentions: Vec::new(),
            media: None,
        },
        extended_entities: None,
        favorite_count: 0,
        favorited: None,
        retweet_count: 0,
        truncated: false,
        lang: None,
        source: None,
        display_text_range: None,
        in_reply_to_screen_name: None,
        in_reply_to_status_id: None,
        in_reply_to_user_id: None,
        quoted_status_id: None,
        quoted_status: None,
        retweeted_status: None,
    }
}

#[test]
fn search_finds_post_with_exact_highlight() {
    let mut data = Data::empty(profile(1, "owner"));
    data.tweets.push(post(11, "Hello world"));
    data.tweets.push(post(12, "nothing to see"));

    let results = search("hello".to_string(), &data, Options::default());
    assert_eq!(results.len(), 1);
    assert_eq!(results[0].kind, Kind::Tweet(11));
    assert_eq!(results[0].desc.len(), 1);
    assert_eq!(results[0].desc[0].content, "Hello world");
    assert_eq!(results[0].desc[0].highlights, vec![(0, 5)]);
    assert_eq!(results[0].rank, 4);
}

#[test]
fn search_quoted_phrase_matches_whole_phrase_only() {
    let mut data = Data::empty(profile(1, "owner"));
    data.tweets.push(post(21, "alpha beta"));
    data.tweets.push(post(22, "beta alpha"));

    let results = search("\"alpha beta\"".to_string(), &data, Options::default());
    assert_eq!(results.len(), 1);
    assert_eq!(results[0].kind, Kind::Tweet(21));
}

#[test]
fn search_words_match_any_word() {
    let mut data = Data::empty(profile(1, "owner"));
    data.tweets.push(post(31, "alpha only"));
    data.tweets.push(post(32, "beta only"));
    data.tweets.push(post(33, "gamma only"));

    let mut kinds: Vec<Kind> =
        search("alpha beta".to_string(), &data, Options::default())
            .into_iter()
            .map(|r| r.kind)
            .collect();
    kinds.sort_by_key(|k| match k {
        Kind::Tweet(id) => *id,
        Kind::Profile(id) => *id,
    });
    assert_eq!(kinds, vec![Kind::Tweet(31), Kind::Tweet(32)]);
}

#[test]
fn search_profiles_and_ranking_order() {
    let mut data = Data::empty(profile(1, "owner"));
    data.profiles.insert(50, profile(50, "match_handle"));
    data.tweets.push(post(41, "match in text"));

    let results = search("match".to_string(), &data, Options::default());
    assert_eq!(results.len(), 2);
    // the profile result (screen-name rank 2) sorts before the post
    // result (text rank 4)
    assert_eq!(results[0].kind, Kind::Profile(50));
    assert_eq!(results[1].kind, Kind::Tweet(41));
    assert!(results[0].rank <= results[1].rank);
}

#[test]
fn search_honours_collection_toggles() {
    let mut data = Data::empty(profile(1, "owner"));
    data.tweets.push(post(61, "findable"));
    let off = Options { tweets: false, mentions: true, responses: true, profiles: true };
    assert!(search("findable".to_string(), &data, off).is_empty());
}

#[test]
fn search_empty_term_finds_nothing() {
    let mut data = Data::empty(profile(1, "owner"));
    data.tweets.push(post(71, "anything"));
    assert!(search("   ".to_string(), &data, Options::default()).is_empty());
}

#[test]
fn any_tweet_looks_through_all_collections() {
    let mut data = Data::empty(profile(1, "owner"));
    data.tweets.push(post(1, "own"));
    data.mentions.push(post(2, "mention"));
    data.likes.push(post(3, "liked"));
    data.responses.insert(1, vec![post(4, "reply")]);

    assert_eq!(data.any_tweet(1).map(|t| t.text.as_str()), Some("own"));
    assert_eq!(data.any_tweet(2).map(|t| t.text.as_str()), Some("mention"));
    assert_eq!(data.any_tweet(3).map(|t| t.text.as_str()), Some("liked"));
    assert_eq!(data.any_tweet(4).map(|t| t.text.as_str()), Some("reply"));
    assert!(data.any_tweet(5).is_none());
}

#[test]
fn resolver_maps_recorded_urls_to_local_paths() {
    let mut storage = Storage::new(profile(1, "owner"), "/tmp/archive".to_string());
    storage
        .data_mut()
        .media
        .insert("https://pic.example/a.png".to_string(), "123.png".to_string());

    assert_eq!(storage.media_path("123.png"), "/tmp/archive/media/123.png");
    let resolver = storage.resolver();
    assert_eq!(
        resolver.resolve("https://pic.example/a.png"),
        Some("/tmp/archive/media/123.png".to_string())
    );
    assert_eq!(resolver.resolve("https://pic.example/missing.png"), None);
}

#[test]
fn crawl_options_changed_returns_adjusted_copy() {
    let options = CrawlOptions::default();
    let without_media = options.changed(|mut o| {
        o.media = false;
        o
    });
    assert!(!without_media.media);
    assert!(options.media, "the starting options stay as they were");
}

#[test]
fn custom_subject_disables_mention_dependent_phases() {
    let options = CrawlOptions::default();
    let own = options_for_subject(&options, 7, 7);
    assert_eq!(own, options);
    let other = options_for_subject(&options, 8, 7);
    assert!(!other.mentions);
    assert!(!other.tweet_responses);
    assert_eq!(other.tweets, options.tweets);
}

#[test]
fn phase_plan_follows_fixed_order() {
    let mut options = CrawlOptions::default();
    options.lists = true;
    let plan = enabled_phases(&options);
    assert_eq!(
        plan,
        vec![
            PhaseKind::Tweets,
            PhaseKind::Mentions,
            PhaseKind::Followers,
            PhaseKind::Follows,
            PhaseKind::Lists,
        ]
    );
    options.mentions = false;
    options.follows = false;
    let plan = enabled_phases(&options);
    assert_eq!(plan, vec![PhaseKind::Tweets, PhaseKind::Followers, PhaseKind::Lists]);
}

#[test]
fn sync_skips_already_archived_lists() {
    let info = ListInfo {
        id: 5,
        name: "friends".to_string(),
        full_name: "@owner/friends".to_string(),
        slug: "friends".to_string(),
        description: String::new(),
        subscriber_count: 0,
        member_count: 2,
    };
    let lists = vec![List { name: "friends".to_string(), list: info, members: vec![1, 2] }];
    assert!(should_skip_list(&lists, 5, true));
    assert!(!should_skip_list(&lists, 5, false));
    assert!(!should_skip_list(&lists, 6, true));
}

#[test]
fn list_paging_keys_embed_the_list_id() {
    assert_eq!(list_paging_key(5), "list-5");
    assert_eq!(list_paging_key(123456), "list-123456");
}

#[test]
fn paging_positions_survive_roundtrip() {
    let config_data = ConfigData::new(
        "owner".to_string(),
        7,
        "k".to_string(),
        "s".to_string(),
        CrawlOptions::default(),
    );
    let mut config = Config::new(config_data, false);
    assert_eq!(config.paging_position("user_tweets"), None);
    config.set_paging_position("user_tweets", Some(10));
    config.set_paging_position("followers", Some(20));
    assert_eq!(config.paging_position("user_tweets"), Some(10));
    config.set_paging_position("user_tweets", Some(11));
    assert_eq!(config.paging_position("user_tweets"), Some(11));
    assert_eq!(config.paging_position("followers"), Some(20));
    config.set_paging_position("user_tweets", None);
    assert_eq!(config.paging_position("user_tweets"), None);
    assert_eq!(config.paging_position("followers"), Some(20));
}

#[test]
fn inspection_gathers_media_and_authors() {
    let mut author = profile(9, "author");
    author.profile_banner_url = None;
    let mut inner = post(80, "quoted");
    inner.user = Some(Box::new(profile(10, "quoted_author")));
    let mut outer = post(81, "outer");
    outer.user = Some(Box::new(author));
    outer.quoted_status = Some(Box::new(inner));

    let options = CrawlOptions::default();
    let inspection = inspect_tweet(&outer, &options, 7);
    assert_eq!(inspection.profiles_to_fetch, vec![9, 10]);
    assert!(!inspection.fetch_replies, "responses are off by default");
    assert!(inspection.instructions.is_empty());

    let mut wants_replies = options;
    wants_replies.tweet_responses = true;
    let own_post = post(82, "mine");
    let inspection = inspect_tweet(&own_post, &wants_replies, 7);
    assert!(inspection.fetch_replies, "authorless posts count as the account's own");
}

#[test]
fn reply_filter_keeps_direct_replies_only() {
    let mut direct = post(91, "direct reply");
    direct.in_reply_to_status_id = Some(90);
    let mut indirect = post(92, "unrelated");
    indirect.in_reply_to_status_id = Some(89);
    let none = post(93, "no reply");

    let replies = filter_replies_to(vec![direct, indirect, none], 90);
    let ids: Vec<u64> = replies.iter().map(|t| t.id).collect();
    assert_eq!(ids, vec![91]);
}

#[test]
fn messages_describe_themselves() {
    assert_eq!(Message::Initial.describe(), "Initial");
    assert_eq!(Message::Loading("Lists".to_string()).describe(), "Lists");
    assert_eq!(Message::Error("boom".to_string()).describe(), "boom");
    let storage = Storage::new(profile(1, "owner"), "/tmp/a".to_string());
    assert_eq!(Message::Finished(storage).describe(), "Finished");
}

#[test]
fn instruction_stream_keeps_one_instruction_per_reference() {
    // two posts referencing the same avatar produce two instructions; the
    // dispatcher, not the producer, enforces the at-most-once fetch
    let avatar = "https://pic.example/shared/avatar.png".to_string();
    let a = DownloadInstruction::ProfileMedia(avatar.clone());
    let b = DownloadInstruction::ProfileMedia(avatar);
    assert_eq!(a, b);
}
