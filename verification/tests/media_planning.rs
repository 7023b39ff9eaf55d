use twitvault::media::{
    extension_for_url, media_in_tweet, plan_download, profile_media_instructions, select_variant,
    u64_dec_string, DownloadInstruction,
};
use twitvault::store::StrKeyMap;
use twitvault::types::{
    AspectRatio, EntityRange, ExtendedTweetEntities, MediaEntity, MediaSize, MediaSizes,
    MediaType, Profile, ResizeMode, Tweet, TweetEntities, VideoInfo, VideoVariant,
};

fn variant(subtype: &str, bitrate: Option<u64>) -> VideoVariant {
    VideoVariant {
        bitrate,
        content_type: format!("video/{subtype}"),
        url: format!("https://video.example/{subtype}/{}.bin", bitrate.unwrap_or(0)),
    }
}

fn size() -> MediaSize {
    MediaSize { w: 100, h: 100, resize: ResizeMode::Fit }
}

fn media_entity(video: Option<VideoInfo>) -> MediaEntity {
    MediaEntity {
        id: 1,
        display_url: "pic.example/1".to_string(),
        expanded_url: "https://pic.example/1".to_string(),
        media_url: "http://pic.example/media/1.jpg".to_string(),
        media_url_https: "https://pic.example/media/1.jpg".to_string(),
        url: "https://t.example/abc".to_string(),
        media_type: if video.is_some() { MediaType::Video } else { MediaType::Photo },
        sizes: MediaSizes { thumb: size(), small: size(), medium: size(), large: size() },
        video_info: video,
        ext_alt_text: None,
        range: EntityRange { start: 0, end: 10 },
    }
}

fn post_with_media(media: Vec<MediaEntity>) -> Tweet {
    Tweet {
        id: 5,
        created_at: 0,
        text: "a post".to_string(),
        user: None,
        entities: TweetEntities {
            hashtags: Vec::new(),
            urls: Vec::new(),
            user_mentions: Vec::new(),
            media: None,
        },
        extended_entities: Some(ExtendedTweetEntities { media }),
        favorite_count: 0,
        favorited: None,
        retweet_count: 0,
        truncated: false,
        lang: None,
        source: None,
        display_text_range: None,
        in_reply_to_screen_name: None,
        in_reply_to_status_id: None,
        in_reply_to_user_id: None,
        quoted_status_id: None,
        quoted_status: None,
        retweeted_status: None,
    }
}

#[test]
fn same_url_downloads_at_most_once() {
    let mut media: StrKeyMap<String> = StrKeyMap::new();
    let instruction =
        DownloadInstruction::Image("https://pic.example/media/shared.png".to_string());

    let first = plan_download(&media, &instruction, true).expect("first dispatch must fetch");
    assert_eq!(first.url, "https://pic.example/media/shared.png");

    // the worker records the artifact; every later dispatch of the same
    // URL, from whatever post, fetches nothing
    media.insert(first.url.clone(), first.file_name.clone());
    for _ in 0..5 {
        assert!(plan_download(&media, &instruction, true).is_none());
    }
}

#[test]
fn same_url_maps_to_same_file_name() {
    let media: StrKeyMap<String> = StrKeyMap::new();
    let instruction = DownloadInstruction::Image("https://pic.example/media/a.jpg".to_string());
    let a = plan_download(&media, &instruction, true).unwrap();
    let b = plan_download(&media, &instruction, true).unwrap();
    assert_eq!(a.file_name, b.file_name);
    assert!(a.file_name.ends_with(".jpg"));
}

#[test]
fn media_toggle_off_fetches_nothing() {
    let media: StrKeyMap<String> = StrKeyMap::new();
    let instructions = vec![
        DownloadInstruction::Image("https://pic.example/media/a.jpg".to_string()),
        DownloadInstruction::Movie(
            "video/mp4".to_string(),
            "https://video.example/v.mp4".to_string(),
        ),
        DownloadInstruction::ProfileMedia("https://pic.example/avatar.png".to_string()),
    ];
    for instruction in &instructions {
        assert!(plan_download(&media, instruction, false).is_none());
    }
}

#[test]
fn done_instruction_fetches_nothing() {
    let media: StrKeyMap<String> = StrKeyMap::new();
    assert!(plan_download(&media, &DownloadInstruction::Done, true).is_none());
}

#[test]
fn selects_highest_bitrate_mp4_variant() {
    let variants = vec![
        variant("mp4", Some(800_000)),
        variant("mp4", Some(1_200_000)),
        variant("webm", Some(2_000_000)),
    ];
    assert_eq!(select_variant(&variants), Some(1));
}

#[test]
fn selects_first_variant_without_mp4() {
    let variants = vec![variant("webm", Some(500)), variant("ogg", Some(900))];
    assert_eq!(select_variant(&variants), Some(0));
    assert_eq!(select_variant(&Vec::new()), None);
}

#[test]
fn upper_case_mp4_still_selected() {
    let shouting = VideoVariant {
        bitrate: Some(100),
        content_type: "video/MP4".to_string(),
        url: "https://video.example/m".to_string(),
    };
    let variants = vec![variant("webm", Some(900)), shouting];
    assert_eq!(select_variant(&variants), Some(1));
}

#[test]
fn movie_instruction_carries_selected_variant() {
    let video = VideoInfo {
        aspect_ratio: AspectRatio { x: 16, y: 9 },
        duration_millis: Some(1000),
        variants: vec![variant("mp4", Some(800)), variant("mp4", Some(1200))],
    };
    let post = post_with_media(vec![media_entity(Some(video))]);
    let instructions = media_in_tweet(&post).expect("extended entities present");
    assert_eq!(instructions.len(), 1);
    match &instructions[0] {
        DownloadInstruction::Movie(ct, url) => {
            assert_eq!(ct, "video/mp4");
            assert_eq!(url, "https://video.example/mp4/1200.bin");
        }
        other => panic!("expected a movie instruction, got {other:?}"),
    }
}

#[test]
fn image_instruction_for_still_media() {
    let post = post_with_media(vec![media_entity(None)]);
    let instructions = media_in_tweet(&post).unwrap();
    assert_eq!(
        instructions,
        vec![DownloadInstruction::Image("https://pic.example/media/1.jpg".to_string())]
    );
}

#[test]
fn no_instructions_without_extended_entities() {
    let mut post = post_with_media(Vec::new());
    post.extended_entities = None;
    assert!(media_in_tweet(&post).is_none());
}

#[test]
fn extension_follows_url_path() {
    assert_eq!(extension_for_url("https://pic.example/a/b/photo.jpg"), "jpg");
    assert_eq!(extension_for_url("https://pic.example/archive.tar.gz"), "gz");
    // no usable extension: the generic image extension
    assert_eq!(extension_for_url("https://pic.example/a/photo"), "png");
    assert_eq!(extension_for_url("not a url"), "png");
    assert_eq!(extension_for_url("https://pic.example/a/.hidden"), "png");
}

#[test]
fn movie_extension_follows_container() {
    let media: StrKeyMap<String> = StrKeyMap::new();
    let job = plan_download(
        &media,
        &DownloadInstruction::Movie(
            "video/mp4".to_string(),
            "https://video.example/clip".to_string(),
        ),
        true,
    )
    .unwrap();
    assert!(job.file_name.ends_with(".mp4"));

    let job = plan_download(
        &media,
        &DownloadInstruction::Movie(
            "video/x-m4v".to_string(),
            "https://video.example/clip.m4v".to_string(),
        ),
        true,
    )
    .unwrap();
    // an unknown container falls back to the URL's extension
    assert!(job.file_name.ends_with(".m4v"));
}

#[test]
fn decimal_rendering_is_exact() {
    assert_eq!(u64_dec_string(0), "0");
    assert_eq!(u64_dec_string(7), "7");
    assert_eq!(u64_dec_string(1_234_567_890), "1234567890");
    assert_eq!(u64_dec_string(u64::MAX), "18446744073709551615");
}

#[test]
fn profile_media_instructions_in_order() {
    let profile = Profile {
        id: 9,
        name: "Name".to_string(),
        screen_name: "handle".to_string(),
        description: None,
        status: None,
        profile_image_url_https: "https://pic.example/avatar.png".to_string(),
        profile_banner_url: Some("https://pic.example/banner.png".to_string()),
        profile_background_image_url_https: None,
    };
    let instructions = profile_media_instructions(&profile);
    assert_eq!(
        instructions,
        vec![
            DownloadInstruction::ProfileMedia("https://pic.example/banner.png".to_string()),
            DownloadInstruction::ProfileMedia("https://pic.example/avatar.png".to_string()),
        ]
    );
}
