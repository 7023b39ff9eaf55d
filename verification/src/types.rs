//! The archive's view of posts, profiles and their embedded entities.
//!
//! Every field is a plain value, so the crawl and import logic over these
//! types can be specified and verified directly. The network layer converts
//! the transport crate's types into these before handing them to the engine.

use vstd::prelude::*;

verus! {

/// How an image entity asks to be resized.
#[derive(Clone, Copy, Debug, PartialEq, Eq)]
pub enum ResizeMode {
    Fit,
    Crop,
}

/// The broad kind of a media entity.
#[derive(Clone, Copy, Debug, PartialEq, Eq)]
pub enum MediaType {
    Photo,
    Video,
    Gif,
}

/// A half-open character range into a post's text.
#[derive(Clone, Copy, Debug, PartialEq, Eq)]
pub struct EntityRange {
    pub start: usize,
    pub end: usize,
}

/// The aspect ratio of a video, width to height.
#[derive(Clone, Copy, Debug, PartialEq, Eq)]
pub struct AspectRatio {
    pub x: i32,
    pub y: i32,
}

/// One rendition size of a media entity.
#[derive(Clone, Copy, Debug, PartialEq, Eq)]
pub struct MediaSize {
    pub w: i32,
    pub h: i32,
    pub resize: ResizeMode,
}

/// The four standard renditions of a media entity.
#[derive(Clone, Copy, Debug, PartialEq, Eq)]
pub struct MediaSizes {
    pub thumb: MediaSize,
    pub small: MediaSize,
    pub medium: MediaSize,
    pub large: MediaSize,
}

/// One encoded variant of a video, with its container type written as the
/// lower-case mime essence (for example `video/mp4`).
#[derive(Clone, Debug, PartialEq, Eq)]
pub struct VideoVariant {
    pub bitrate: Option<u64>,
    pub content_type: String,
    pub url: String,
}

/// The video payload of a media entity.
#[derive(Clone, Debug, PartialEq, Eq)]
pub struct VideoInfo {
    pub aspect_ratio: AspectRatio,
    pub duration_millis: Option<i64>,
    pub variants: Vec<VideoVariant>,
}

/// A media entity embedded in a post.
#[derive(Clone, Debug, PartialEq, Eq)]
pub struct MediaEntity {
    pub id: u64,
    pub display_url: String,
    pub expanded_url: String,
    pub media_url: String,
    pub media_url_https: String,
    pub url: String,
    pub media_type: MediaType,
    pub sizes: MediaSizes,
    pub video_info: Option<VideoInfo>,
    pub ext_alt_text: Option<String>,
    pub range: EntityRange,
}

/// A hashtag entity embedded in a post.
#[derive(Clone, Debug, PartialEq, Eq)]
pub struct HashtagEntity {
    pub text: String,
    pub range: EntityRange,
}

/// A shortened URL entity embedded in a post.
#[derive(Clone, Debug, PartialEq, Eq)]
pub struct UrlEntity {
    pub url: String,
    pub expanded_url: Option<String>,
    pub display_url: String,
    pub range: EntityRange,
}

/// A user-mention entity embedded in a post.
#[derive(Clone, Debug, PartialEq, Eq)]
pub struct MentionEntity {
    pub id: u64,
    pub name: String,
    pub screen_name: String,
    pub range: EntityRange,
}

/// The entity lists attached to a post.
#[derive(Clone, Debug, PartialEq, Eq)]
pub struct TweetEntities {
    pub hashtags: Vec<HashtagEntity>,
    pub urls: Vec<UrlEntity>,
    pub user_mentions: Vec<MentionEntity>,
    pub media: Option<Vec<MediaEntity>>,
}

/// The extended media entities of a post; when present these supersede the
/// media list in [`TweetEntities`] for download purposes.
#[derive(Clone, Debug, PartialEq, Eq)]
pub struct ExtendedTweetEntities {
    pub media: Vec<MediaEntity>,
}

/// An archived account profile.
///
/// `status` may embed the account's most recent post, which in turn may
/// embed further profiles; the nesting is finite by construction.
#[derive(Debug)]
pub struct Profile {
    pub id: u64,
    pub name: String,
    pub screen_name: String,
    pub description: Option<String>,
    pub status: Option<Box<Tweet>>,
    pub profile_image_url_https: String,
    pub profile_banner_url: Option<String>,
    pub profile_background_image_url_https: Option<String>,
}

/// An archived post. Quoted and retweeted posts are embedded one level in,
/// mirroring what the remote service returns.
#[derive(Debug)]
pub struct Tweet {
    pub id: u64,
    /// Seconds since the Unix epoch.
    pub created_at: i64,
    pub text: String,
    pub user: Option<Box<Profile>>,
    pub entities: TweetEntities,
    pub extended_entities: Option<ExtendedTweetEntities>,
    pub favorite_count: i32,
    pub favorited: Option<bool>,
    pub retweet_count: i32,
    pub truncated: bool,
    pub lang: Option<String>,
    pub source: Option<String>,
    pub display_text_range: Option<EntityRange>,
    pub in_reply_to_screen_name: Option<String>,
    pub in_reply_to_status_id: Option<u64>,
    pub in_reply_to_user_id: Option<u64>,
    pub quoted_status_id: Option<u64>,
    pub quoted_status: Option<Box<Tweet>>,
    pub retweeted_status: Option<Box<Tweet>>,
}

} // verus!
