use twitvault::importer::{
    archive_payload_start, merge_imported, parse_i32_field, parse_u64_digits, parse_u64_field,
    post_from_archive, sort_posts_desc, ArchiveEntities, ArchiveTweet,
};
use twitvault::types::{Tweet, TweetEntities};

fn post(id: u64) -> Tweet {
    Tweet {
        id,
        created_at: 0,
        text: format!("post {id}"),
        user: None,
        entities: TweetEntities {
            hashtags: Vec::new(),
            urls: Vec::new(),
            user_mentions: Vec::new(),
            media: None,
        },
        extended_entities: None,
        favorite_count: 0,
        favorited: None,
        retweet_count: 0,
        truncated: false,
        lang: None,
        source: None,
        display_text_range: None,
        in_reply_to_screen_name: None,
        in_reply_to_status_id: None,
        in_reply_to_user_id: None,
        quoted_status_id: None,
        quoted_status: None,
        retweeted_status: None,
    }
}

fn archive_tweet(id: &str) -> ArchiveTweet {
    ArchiveTweet {
        source: Some("web".to_string()),
        entities: ArchiveEntities {
            hashtags: Vec::new(),
            user_mentions: Vec::new(),
            urls: Vec::new(),
            media: None,
        },
        display_text_range: None,
        favorite_count: "12".to_string(),
        truncated: false,
        retweet_count: "3".to_string(),
        id: id.to_string(),
        extended_entities: None,
        created_at: "Wed Nov 23 08:23:27 +0000 2022".to_string(),
        favorited: Some(false),
        full_text: "an archived post".to_string(),
        lang: Some("en".to_string()),
        in_reply_to_screen_name: None,
        in_reply_to_status_id: Some("41".to_string()),
        in_reply_to_user_id: None,
        quoted_status_id: None,
    }
}

#[test]
fn digit_parsing_is_exact() {
    assert_eq!(parse_u64_digits("0"), Some(0));
    assert_eq!(parse_u64_digits("123"), Some(123));
    assert_eq!(parse_u64_digits("18446744073709551615"), Some(u64::MAX));
    assert_eq!(parse_u64_digits("18446744073709551616"), None);
    assert_eq!(parse_u64_digits(""), None);
    assert_eq!(parse_u64_digits("12a"), None);
    assert_eq!(parse_u64_digits("+12"), None);
}

#[test]
fn deleted_account_id_parses_to_zero() {
    assert_eq!(parse_u64_field("-1"), Some(0));
    assert_eq!(parse_u64_field("-2"), None);
    assert_eq!(parse_u64_field("17"), Some(17));
}

#[test]
fn count_parsing_is_exact() {
    assert_eq!(parse_i32_field("0"), Some(0));
    assert_eq!(parse_i32_field("-5"), Some(-5));
    assert_eq!(parse_i32_field("2147483647"), Some(i32::MAX));
    assert_eq!(parse_i32_field("2147483648"), None);
    assert_eq!(parse_i32_field("-2147483648"), Some(i32::MIN));
    assert_eq!(parse_i32_field("-2147483649"), None);
    assert_eq!(parse_i32_field("-"), None);
    assert_eq!(parse_i32_field(""), None);
}

#[test]
fn archive_post_converts_field_by_field() {
    let converted = post_from_archive(archive_tweet("4242")).expect("well-formed archive post");
    assert_eq!(converted.id, 4242);
    assert_eq!(converted.created_at, 1_669_191_807);
    assert_eq!(converted.text, "an archived post");
    assert_eq!(converted.favorite_count, 12);
    assert_eq!(converted.retweet_count, 3);
    assert_eq!(converted.in_reply_to_status_id, Some(41));
    assert_eq!(converted.lang.as_deref(), Some("en"));
    assert!(converted.user.is_none());
    assert!(converted.quoted_status.is_none());
}

#[test]
fn malformed_archive_post_is_dropped() {
    let mut bad = archive_tweet("not-a-number");
    bad.favorite_count = "12".to_string();
    assert!(post_from_archive(bad).is_none());

    let mut bad_date = archive_tweet("1");
    bad_date.created_at = "yesterday".to_string();
    assert!(post_from_archive(bad_date).is_none());
}

#[test]
fn payload_starts_one_byte_before_first_bracket() {
    let bytes: Vec<u8> = b"window.YTD.part0 = [ {\"tweet\": {}} ]".to_vec();
    let start = archive_payload_start(&bytes).expect("payload bracket present");
    assert_eq!(bytes[start + 1], b'[');
    assert_eq!(start, 18);
    assert_eq!(archive_payload_start(&b"no bracket here".to_vec()), None);
    // a bracket at the very first byte does not count as the payload
    assert_eq!(archive_payload_start(&b"[only first".to_vec()), None);
}

#[test]
fn merge_skips_known_ids_and_sorts_newest_first() {
    let existing = vec![post(30), post(10)];
    let imported = vec![post(20), post(10), post(40)];
    let merged = merge_imported(existing, imported);
    let ids: Vec<u64> = merged.iter().map(|t| t.id).collect();
    assert_eq!(ids, vec![40, 30, 20, 10]);
}

#[test]
fn sorting_is_newest_first_and_keeps_every_post() {
    let posts = vec![post(2), post(9), post(4), post(9), post(1)];
    let sorted = sort_posts_desc(posts);
    let ids: Vec<u64> = sorted.iter().map(|t| t.id).collect();
    assert_eq!(ids, vec![9, 9, 4, 2, 1]);
}
