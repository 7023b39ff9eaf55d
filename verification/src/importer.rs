//! Importing a service-provided account archive.
//!
//! Such an archive writes every number as a string and wraps posts in its
//! own shapes. This module parses those fields, converts archive posts to
//! the library's posts (dropping malformed items, never the whole
//! import), finds where the archive file's payload starts, and merges the
//! imported posts into the archived list, newest id first.

use crate::storage::spec_seq_has_tweet;
use crate::types::{
    AspectRatio, EntityRange, ExtendedTweetEntities, HashtagEntity, MediaEntity, MediaSize,
    MediaSizes, MediaType, MentionEntity, ResizeMode, Tweet, TweetEntities, UrlEntity,
    VideoInfo, VideoVariant,
};
use vstd::prelude::*;

verus! {

// ---------------------------------------------------------------------
// Decimal parsing
// ---------------------------------------------------------------------
pub open spec fn spec_is_digit(c: char) -> bool {
    48 <= c as u32 <= 57
}

pub open spec fn spec_digit_val(c: char) -> int {
    c as u32 - 48
}

pub open spec fn spec_all_digits(s: Seq<char>) -> bool {
    forall|i: int| 0 <= i < s.len() ==> spec_is_digit(#[trigger] s[i])
}

/// The number a digit string denotes.
pub open spec fn spec_dec_value(s: Seq<char>) -> int
    decreases s.len(),
{
    if s.len() == 0 {
        0
    } else {
        spec_dec_value(s.drop_last()) * 10 + spec_digit_val(s.last())
    }
}

proof fn lemma_dec_value_nonneg(s: Seq<char>)
    requires
        spec_all_digits(s),
    ensures
        spec_dec_value(s) >= 0,
    decreases s.len(),
{
    if s.len() > 0 {
        assert(spec_all_digits(s.drop_last())) by {
            assert(forall|i: int|
                0 <= i < s.len() - 1 ==> #[trigger] s.drop_last()[i] == s[i]);
        }
        lemma_dec_value_nonneg(s.drop_last());
    }
}

/// Digit strings only grow: a prefix never denotes more than the whole.
proof fn lemma_dec_value_prefix(s: Seq<char>, i: int)
    requires
        spec_all_digits(s),
        0 <= i <= s.len(),
    ensures
        spec_dec_value(s.subrange(0, i)) <= spec_dec_value(s),
    decreases s.len() - i,
{
    if i < s.len() {
        lemma_dec_value_prefix(s, i + 1);
        let shorter = s.subrange(0, i);
        let longer = s.subrange(0, i + 1);
        assert(longer.drop_last() =~= shorter);
        assert(spec_all_digits(shorter));
        lemma_dec_value_nonneg(shorter);
        assert(spec_is_digit(longer.last()));
        assert(spec_dec_value(longer) == spec_dec_value(shorter) * 10 + spec_digit_val(
            longer.last(),
        ));
    } else {
        assert(s.subrange(0, i) =~= s);
    }
}

/// What a plain digit string parses to: its value, provided the string is
/// nonempty, all digits, and in range.
pub open spec fn spec_parse_u64_digits(s: Seq<char>) -> Option<u64> {
    if s.len() > 0 && spec_all_digits(s) && spec_dec_value(s) <= u64::MAX {
        Some(spec_dec_value(s) as u64)
    } else {
        None
    }
}

/// Parse a plain digit string.
pub fn parse_u64_digits(s: &str) -> (r: Option<u64>)
    ensures
        r == spec_parse_u64_digits(s@),
{
    let n = s.unicode_len();
    if n == 0 {
        return None;
    }
    let mut v: u64 = 0;
    let mut i: usize = 0;
    proof {
        assert(s@.subrange(0, 0) =~= Seq::<char>::empty());
    }
    while i < n
        invariant
            n == s@.len(),
            i <= n,
            spec_all_digits(s@.subrange(0, i as int)),
            v == spec_dec_value(s@.subrange(0, i as int)),
        decreases n - i,
    {
        let ghost prefix = s@.subrange(0, i as int);
        let c = s.get_char(i);
        let u = c as u32;
        if u < 48 || u > 57 {
            proof {
                assert(!spec_is_digit(s@[i as int]));
                assert(!spec_all_digits(s@));
            }
            return None;
        }
        let d: u64 = (u - 48) as u64;
        let ghost longer = s@.subrange(0, i as int + 1);
        proof {
            assert(longer.drop_last() =~= prefix);
            assert(longer.last() == s@[i as int]);
            lemma_dec_value_nonneg(prefix);
        }
        let stepped = match v.checked_mul(10) {
            Some(m) => m.checked_add(d),
            None => None,
        };
        match stepped {
            Some(next) => {
                v = next;
            },
            None => {
                proof {
                    assert(spec_dec_value(longer) > u64::MAX);
                    assert(spec_all_digits(longer));
                    if spec_all_digits(s@) {
                        lemma_dec_value_prefix(s@, i as int + 1);
                    }
                }
                return None;
            },
        }
        i += 1;
    }
    proof {
        assert(s@.subrange(0, n as int) =~= s@);
    }
    Some(v)
}

/// What an archive id field parses to: the service writes a deleted
/// account's id as -1, which the archive stores as account id zero.
pub open spec fn spec_parse_u64_field(s: Seq<char>) -> Option<u64> {
    if s == seq!['-', '1'] {
        Some(0u64)
    } else {
        spec_parse_u64_digits(s)
    }
}

/// Parse an archive id field.
pub fn parse_u64_field(s: &str) -> (r: Option<u64>)
    ensures
        r == spec_parse_u64_field(s@),
{
    let n = s.unicode_len();
    if n == 2 {
        if s.get_char(0) == '-' && s.get_char(1) == '1' {
            proof {
                assert(s@ =~= seq!['-', '1']);
            }
            return Some(0);
        }
    }
    proof {
        assert(seq!['-', '1'].len() == 2);
        if s@ == seq!['-', '1'] {
            assert(s@[0] == '-' && s@[1] == '1');
        }
    }
    parse_u64_digits(s)
}

/// What an archive count field parses to: an optionally negated decimal
/// that fits an i32.
pub open spec fn spec_parse_i32_field(s: Seq<char>) -> Option<i32> {
    if s.len() > 0 && s[0] == '-' {
        let rest = s.drop_first();
        if rest.len() > 0 && spec_all_digits(rest) && spec_dec_value(rest) <= 0x8000_0000 {
            Some((-spec_dec_value(rest)) as i32)
        } else {
            None
        }
    } else if s.len() > 0 && spec_all_digits(s) && spec_dec_value(s) <= i32::MAX {
        Some(spec_dec_value(s) as i32)
    } else {
        None
    }
}

/// Parse an archive count field.
pub fn parse_i32_field(s: &str) -> (r: Option<i32>)
    ensures
        r == spec_parse_i32_field(s@),
{
    let n = s.unicode_len();
    if n == 0 {
        return None;
    }
    if s.get_char(0) == '-' {
        let rest = s.substring_char(1, n);
        proof {
            assert(rest@ =~= s@.drop_first());
        }
        match parse_u64_digits(rest) {
            Some(v) => {
                proof {
                    lemma_dec_value_nonneg(rest@);
                }
                if v <= 0x8000_0000 {
                    Some((-(v as i64)) as i32)
                } else {
                    None
                }
            },
            None => None,
        }
    } else {
        match parse_u64_digits(s) {
            Some(v) => {
                proof {
                    lemma_dec_value_nonneg(s@);
                }
                if v <= i32::MAX as u64 {
                    Some(v as i32)
                } else {
                    None
                }
            },
            None => None,
        }
    }
}

/// What an archive index field parses to, as a machine offset.
pub open spec fn spec_parse_usize(s: Seq<char>) -> Option<usize> {
    match spec_parse_u64_digits(s) {
        Some(v) => if v <= usize::MAX as u64 {
            Some(v as usize)
        } else {
            None
        },
        None => None,
    }
}

/// Parse an archive index field.
pub fn parse_usize_field(s: &str) -> (r: Option<usize>)
    ensures
        r == spec_parse_usize(s@),
{
    match parse_u64_digits(s) {
        Some(v) => {
            if v <= usize::MAX as u64 {
                Some(v as usize)
            } else {
                None
            }
        },
        None => None,
    }
}

// ---------------------------------------------------------------------
// Archive date parsing
// ---------------------------------------------------------------------
/// The epoch second an archive date string denotes, under the archive's
/// fixed date format; a function of the string alone.
pub uninterp spec fn archive_epoch_of(s: Seq<char>) -> Option<i64>;

/// Relies on chrono's DateTime::parse_from_str and DateTime::timestamp:
/// parsing the archive's fixed date format (weekday, month, day, time,
/// zone offset, year) and reading the result as seconds since the epoch.
#[verifier::external_body]
pub(crate) fn parse_archive_date(s: &str) -> (r: Option<i64>)
    ensures
        match r {
            Some(t) => archive_epoch_of(s@) == Some(t),
            None => archive_epoch_of(s@) is None,
        },
{
    match chrono::DateTime::parse_from_str(s, "%a %b %d %H:%M:%S %z %Y") {
        Ok(d) => Some(d.timestamp()),
        Err(_) => None,
    }
}

// ---------------------------------------------------------------------
// Archive shapes
// ---------------------------------------------------------------------
/// A post as the account archive writes it: numbers as strings, indices
/// as string arrays.
#[derive(Debug)]
pub struct ArchiveTweet {
    pub source: Option<String>,
    pub entities: ArchiveEntities,
    pub display_text_range: Option<Vec<String>>,
    pub favorite_count: String,
    pub truncated: bool,
    pub retweet_count: String,
    pub id: String,
    pub extended_entities: Option<ArchiveExtendedEntities>,
    pub created_at: String,
    pub favorited: Option<bool>,
    pub full_text: String,
    pub lang: Option<String>,
    pub in_reply_to_screen_name: Option<String>,
    pub in_reply_to_status_id: Option<String>,
    pub in_reply_to_user_id: Option<String>,
    pub quoted_status_id: Option<u64>,
}

#[derive(Debug)]
pub struct ArchiveEntities {
    pub hashtags: Vec<ArchiveHashtag>,
    pub user_mentions: Vec<ArchiveMention>,
    pub urls: Vec<ArchiveUrl>,
    pub media: Option<Vec<ArchiveMedia>>,
}

#[derive(Debug)]
pub struct ArchiveExtendedEntities {
    pub media: Vec<ArchiveMedia>,
}

#[derive(Debug)]
pub struct ArchiveHashtag {
    pub text: String,
    pub indices: Vec<String>,
}

#[derive(Debug)]
pub struct ArchiveMention {
    pub name: String,
    pub screen_name: String,
    pub indices: Vec<String>,
    pub id: String,
}

#[derive(Debug)]
pub struct ArchiveUrl {
    pub url: String,
    pub expanded_url: Option<String>,
    pub display_url: String,
    pub indices: Vec<String>,
}

#[derive(Debug)]
pub struct ArchiveMedia {
    pub display_url: String,
    pub expanded_url: String,
    pub id: String,
    pub indices: Vec<String>,
    pub media_url: String,
    pub media_url_https: String,
    pub sizes: ArchiveMediaSizes,
    pub media_type: String,
    pub url: String,
    pub video_info: Option<ArchiveVideoInfo>,
    pub ext_alt_text: Option<String>,
}

#[derive(Debug)]
pub struct ArchiveMediaSizes {
    pub thumb: ArchiveMediaSize,
    pub small: ArchiveMediaSize,
    pub medium: ArchiveMediaSize,
    pub large: ArchiveMediaSize,
}

#[derive(Debug, Clone)]
pub struct ArchiveMediaSize {
    pub w: String,
    pub h: String,
    pub resize: String,
}

#[derive(Debug)]
pub struct ArchiveVideoInfo {
    pub aspect_ratio: Vec<String>,
    pub duration_millis: Option<String>,
    pub variants: Vec<ArchiveVideoVariant>,
}

#[derive(Debug)]
pub struct ArchiveVideoVariant {
    pub bitrate: Option<String>,
    pub content_type: String,
    pub url: String,
}

// ---------------------------------------------------------------------
// Conversions, one per archive shape
// ---------------------------------------------------------------------
/// An archive index pair as a character range.
pub open spec fn spec_range_from(indices: Seq<String>) -> Option<EntityRange> {
    if indices.len() >= 2 {
        match (spec_parse_usize(indices[0]@), spec_parse_usize(indices[1]@)) {
            (Some(a), Some(b)) => Some(EntityRange { start: a, end: b }),
            _ => None,
        }
    } else {
        None
    }
}

pub fn range_from(indices: &Vec<String>) -> (r: Option<EntityRange>)
    ensures
        r == spec_range_from(indices@),
{
    if indices.len() < 2 {
        return None;
    }
    match (parse_usize_field(indices[0].as_str()), parse_usize_field(indices[1].as_str())) {
        (Some(a), Some(b)) => Some(EntityRange { start: a, end: b }),
        _ => None,
    }
}

pub open spec fn spec_hashtag_from(h: ArchiveHashtag) -> Option<HashtagEntity> {
    match spec_range_from(h.indices@) {
        Some(range) => Some(HashtagEntity { text: h.text, range }),
        None => None,
    }
}

fn hashtag_from(h: ArchiveHashtag) -> (r: Option<HashtagEntity>)
    ensures
        r == spec_hashtag_from(h),
{
    match range_from(&h.indices) {
        Some(range) => Some(HashtagEntity { text: h.text, range }),
        None => None,
    }
}

pub open spec fn spec_mention_from(m: ArchiveMention) -> Option<MentionEntity> {
    match (spec_parse_u64_field(m.id@), spec_range_from(m.indices@)) {
        (Some(id), Some(range)) => Some(
            MentionEntity { id, name: m.name, screen_name: m.screen_name, range },
        ),
        _ => None,
    }
}

fn mention_from(m: ArchiveMention) -> (r: Option<MentionEntity>)
    ensures
        r == spec_mention_from(m),
{
    match (parse_u64_field(m.id.as_str()), range_from(&m.indices)) {
        (Some(id), Some(range)) => Some(
            MentionEntity { id, name: m.name, screen_name: m.screen_name, range },
        ),
        _ => None,
    }
}

pub open spec fn spec_url_from(u: ArchiveUrl) -> Option<UrlEntity> {
    match spec_range_from(u.indices@) {
        Some(range) => Some(
            UrlEntity { url: u.url, expanded_url: u.expanded_url, display_url: u.display_url, range },
        ),
        None => None,
    }
}

fn url_from(u: ArchiveUrl) -> (r: Option<UrlEntity>)
    ensures
        r == spec_url_from(u),
{
    match range_from(&u.indices) {
        Some(range) => Some(
            UrlEntity { url: u.url, expanded_url: u.expanded_url, display_url: u.display_url, range },
        ),
        None => None,
    }
}

pub open spec fn spec_resize_from(s: Seq<char>) -> Option<ResizeMode> {
    if s == "fit"@ {
        Some(ResizeMode::Fit)
    } else if s == "crop"@ {
        Some(ResizeMode::Crop)
    } else {
        None
    }
}

pub open spec fn spec_media_size_from(m: ArchiveMediaSize) -> Option<MediaSize> {
    match (spec_parse_i32_field(m.w@), spec_parse_i32_field(m.h@), spec_resize_from(m.resize@)) {
        (Some(w), Some(h), Some(resize)) => Some(MediaSize { w, h, resize }),
        _ => None,
    }
}

fn media_size_from(m: &ArchiveMediaSize) -> (r: Option<MediaSize>)
    ensures
        r == spec_media_size_from(*m),
{
    let fit: String = "fit".to_owned();
    let crop: String = "crop".to_owned();
    let resize = if m.resize == fit {
        Some(ResizeMode::Fit)
    } else if m.resize == crop {
        Some(ResizeMode::Crop)
    } else {
        None
    };
    match (parse_i32_field(m.w.as_str()), parse_i32_field(m.h.as_str()), resize) {
        (Some(w), Some(h), Some(resize)) => Some(MediaSize { w, h, resize }),
        _ => None,
    }
}

pub open spec fn spec_sizes_from(s: ArchiveMediaSizes) -> Option<MediaSizes> {
    match (
        spec_media_size_from(s.thumb),
        spec_media_size_from(s.small),
        spec_media_size_from(s.medium),
        spec_media_size_from(s.large),
    ) {
        (Some(thumb), Some(small), Some(medium), Some(large)) => Some(
            MediaSizes { thumb, small, medium, large },
        ),
        _ => None,
    }
}

fn sizes_from(s: &ArchiveMediaSizes) -> (r: Option<MediaSizes>)
    ensures
        r == spec_sizes_from(*s),
{
    match (
        media_size_from(&s.thumb),
        media_size_from(&s.small),
        media_size_from(&s.medium),
        media_size_from(&s.large),
    ) {
        (Some(thumb), Some(small), Some(medium), Some(large)) => Some(
            MediaSizes { thumb, small, medium, large },
        ),
        _ => None,
    }
}

pub open spec fn spec_variant_from(v: ArchiveVideoVariant) -> Option<VideoVariant> {
    match v.bitrate {
        None => Some(VideoVariant { bitrate: None, content_type: v.content_type, url: v.url }),
        Some(b) => match spec_parse_u64_digits(b@) {
            Some(rate) => Some(
                VideoVariant { bitrate: Some(rate), content_type: v.content_type, url: v.url },
            ),
            None => None,
        },
    }
}

fn variant_from(v: ArchiveVideoVariant) -> (r: Option<VideoVariant>)
    ensures
        r == spec_variant_from(v),
{
    match &v.bitrate {
        None => Some(VideoVariant { bitrate: None, content_type: v.content_type, url: v.url }),
        Some(b) => match parse_u64_digits(b.as_str()) {
            Some(rate) => Some(
                VideoVariant { bitrate: Some(rate), content_type: v.content_type, url: v.url },
            ),
            None => None,
        },
    }
}

/// The parseable variants of a video, in order.
pub open spec fn spec_variants_from(vs: Seq<ArchiveVideoVariant>) -> Seq<VideoVariant>
    decreases vs.len(),
{
    if vs.len() == 0 {
        Seq::empty()
    } else {
        let rest = spec_variants_from(vs.drop_last());
        match spec_variant_from(vs.last()) {
            Some(v) => rest.push(v),
            None => rest,
        }
    }
}

/// Whether a video's duration field parses.
pub open spec fn spec_video_duration_ok(vi: ArchiveVideoInfo) -> bool {
    match vi.duration_millis {
        None => true,
        Some(d) => match spec_parse_u64_digits(d@) {
            Some(v) => v <= i64::MAX as u64,
            None => false,
        },
    }
}

/// A video's parsed duration, in milliseconds.
pub open spec fn spec_video_duration(vi: ArchiveVideoInfo) -> Option<i64> {
    match vi.duration_millis {
        None => None,
        Some(d) => Some(spec_parse_u64_digits(d@).unwrap() as i64),
    }
}

/// Whether an archive video converts: its aspect ratio parses and fits,
/// and its duration parses.
pub open spec fn spec_video_ok(vi: ArchiveVideoInfo) -> bool {
    spec_video_duration_ok(vi) && (spec_range_from(vi.aspect_ratio@) matches Some(ar)
        && ar.start <= i32::MAX as usize && ar.end <= i32::MAX as usize)
}

/// How a converted video relates to its archive shape, field by field.
pub open spec fn spec_video_matches(vi: ArchiveVideoInfo, info: VideoInfo) -> bool {
    &&& spec_video_ok(vi)
    &&& info.aspect_ratio == (AspectRatio {
        x: spec_range_from(vi.aspect_ratio@).unwrap().start as i32,
        y: spec_range_from(vi.aspect_ratio@).unwrap().end as i32,
    })
    &&& info.duration_millis == spec_video_duration(vi)
    &&& info.variants@ == spec_variants_from(vi.variants@)
}

fn video_info_from(vi: ArchiveVideoInfo) -> (r: Option<VideoInfo>)
    ensures
        match r {
            Some(info) => spec_video_matches(vi, info),
            None => !spec_video_ok(vi),
        },
{
    let duration: Option<Option<i64>> = match &vi.duration_millis {
        None => Some(None),
        Some(d) => match parse_u64_digits(d.as_str()) {
            Some(v) => {
                if v <= i64::MAX as u64 {
                    Some(Some(v as i64))
                } else {
                    None
                }
            },
            None => None,
        },
    };
    let ar = range_from(&vi.aspect_ratio);
    match (ar, duration) {
        (Some(ar), Some(duration_millis)) => {
            if ar.start <= i32::MAX as usize && ar.end <= i32::MAX as usize {
                let n = vi.variants.len();
                let ghost orig = vi.variants@;
                let mut vs = vi.variants;
                let mut variants: Vec<VideoVariant> = Vec::new();
                let mut i: usize = 0;
                while i < n
                    invariant
                        n == orig.len(),
                        i <= n,
                        vs@ == orig.subrange(i as int, n as int),
                        variants@ == spec_variants_from(orig.subrange(0, i as int)),
                    decreases n - i,
                {
                    let ghost prefix = orig.subrange(0, i as int);
                    let v = vs.remove(0);
                    match variant_from(v) {
                        Some(converted) => {
                            variants.push(converted);
                        },
                        None => {},
                    }
                    i += 1;
                    proof {
                        assert(vs@ =~= orig.subrange(i as int, n as int));
                        let longer = orig.subrange(0, i as int);
                        assert(longer.drop_last() =~= prefix);
                        assert(longer.last() == orig[i - 1]);
                    }
                }
                proof {
                    assert(orig.subrange(0, n as int) =~= orig);
                }
                Some(
                    VideoInfo {
                        aspect_ratio: AspectRatio { x: ar.start as i32, y: ar.end as i32 },
                        duration_millis,
                        variants,
                    },
                )
            } else {
                None
            }
        },
        _ => None,
    }
}

pub open spec fn spec_media_type_from(s: Seq<char>) -> Option<MediaType> {
    if s == "photo"@ {
        Some(MediaType::Photo)
    } else if s == "video"@ {
        Some(MediaType::Video)
    } else if s == "animated_gif"@ {
        Some(MediaType::Gif)
    } else {
        None
    }
}

/// Whether an archive media entity converts: its id, indices, sizes and
/// kind all parse.
pub open spec fn spec_media_ok(m: ArchiveMedia) -> bool {
    &&& spec_parse_u64_field(m.id@) is Some
    &&& spec_range_from(m.indices@) is Some
    &&& spec_sizes_from(m.sizes) is Some
    &&& spec_media_type_from(m.media_type@) is Some
}

/// How a converted media entity relates to its archive shape, field by
/// field. A video payload that fails to convert is dropped from the
/// entity; the entity itself stays.
pub open spec fn spec_media_matches(m: ArchiveMedia, me: MediaEntity) -> bool {
    &&& spec_media_ok(m)
    &&& me.id == spec_parse_u64_field(m.id@).unwrap()
    &&& me.display_url == m.display_url
    &&& me.expanded_url == m.expanded_url
    &&& me.media_url == m.media_url
    &&& me.media_url_https == m.media_url_https
    &&& me.url == m.url
    &&& Some(me.media_type) == spec_media_type_from(m.media_type@)
    &&& Some(me.sizes) == spec_sizes_from(m.sizes)
    &&& (match (m.video_info, me.video_info) {
        (Some(avi), Some(info)) => spec_video_matches(avi, info),
        (Some(avi), None) => !spec_video_ok(avi),
        (None, None) => true,
        (None, Some(_)) => false,
    })
    &&& me.ext_alt_text == m.ext_alt_text
    &&& Some(me.range) == spec_range_from(m.indices@)
}

fn media_from(m: ArchiveMedia) -> (r: Option<MediaEntity>)
    ensures
        match r {
            Some(me) => spec_media_matches(m, me),
            None => !spec_media_ok(m),
        },
{
    let photo: String = "photo".to_owned();
    let video: String = "video".to_owned();
    let gif: String = "animated_gif".to_owned();
    let media_type = if m.media_type == photo {
        Some(MediaType::Photo)
    } else if m.media_type == video {
        Some(MediaType::Video)
    } else if m.media_type == gif {
        Some(MediaType::Gif)
    } else {
        None
    };
    match (parse_u64_field(m.id.as_str()), range_from(&m.indices), sizes_from(&m.sizes), media_type) {
        (Some(id), Some(range), Some(sizes), Some(media_type)) => Some(
            MediaEntity {
                id,
                display_url: m.display_url,
                expanded_url: m.expanded_url,
                media_url: m.media_url,
                media_url_https: m.media_url_https,
                url: m.url,
                media_type,
                sizes,
                video_info: match m.video_info {
                    Some(vi) => video_info_from(vi),
                    None => None,
                },
                ext_alt_text: m.ext_alt_text,
                range,
            },
        ),
        _ => None,
    }
}

/// How a converted media list relates to its archive list: exactly the
/// convertible entities, converted, in order.
pub open spec fn spec_media_list_matches(ms: Seq<ArchiveMedia>, out: Seq<MediaEntity>) -> bool
    decreases ms.len(),
{
    if ms.len() == 0 {
        out.len() == 0
    } else {
        if spec_media_ok(ms.last()) {
            out.len() > 0 && spec_media_matches(ms.last(), out.last()) && spec_media_list_matches(
                ms.drop_last(),
                out.drop_last(),
            )
        } else {
            spec_media_list_matches(ms.drop_last(), out)
        }
    }
}

fn media_list_from(ms: Vec<ArchiveMedia>) -> (r: Vec<MediaEntity>)
    ensures
        spec_media_list_matches(ms@, r@),
{
    let n = ms.len();
    let ghost orig = ms@;
    let mut ms = ms;
    let mut out: Vec<MediaEntity> = Vec::new();
    let mut i: usize = 0;
    while i < n
        invariant
            n == orig.len(),
            i <= n,
            ms@ == orig.subrange(i as int, n as int),
            spec_media_list_matches(orig.subrange(0, i as int), out@),
        decreases n - i,
    {
        let ghost prefix = orig.subrange(0, i as int);
        let ghost out_before = out@;
        let m = ms.remove(0);
        let ghost m_spec = m;
        match media_from(m) {
            Some(converted) => {
                out.push(converted);
            },
            None => {},
        }
        i += 1;
        proof {
            assert(ms@ =~= orig.subrange(i as int, n as int));
            let longer = orig.subrange(0, i as int);
            assert(longer.drop_last() =~= prefix);
            assert(longer.last() == orig[i - 1]);
            if spec_media_ok(orig[i - 1]) {
                assert(out@.drop_last() =~= out_before);
            }
        }
    }
    proof {
        assert(orig.subrange(0, n as int) =~= orig);
    }
    out
}

/// The convertible hashtags, in order.
pub open spec fn spec_hashtags_from(hs: Seq<ArchiveHashtag>) -> Seq<HashtagEntity>
    decreases hs.len(),
{
    if hs.len() == 0 {
        Seq::empty()
    } else {
        let rest = spec_hashtags_from(hs.drop_last());
        match spec_hashtag_from(hs.last()) {
            Some(h) => rest.push(h),
            None => rest,
        }
    }
}

/// The convertible mentions, in order.
pub open spec fn spec_mentions_from(ms: Seq<ArchiveMention>) -> Seq<MentionEntity>
    decreases ms.len(),
{
    if ms.len() == 0 {
        Seq::empty()
    } else {
        let rest = spec_mentions_from(ms.drop_last());
        match spec_mention_from(ms.last()) {
            Some(m) => rest.push(m),
            None => rest,
        }
    }
}

/// The convertible URL entities, in order.
pub open spec fn spec_urls_from(us: Seq<ArchiveUrl>) -> Seq<UrlEntity>
    decreases us.len(),
{
    if us.len() == 0 {
        Seq::empty()
    } else {
        let rest = spec_urls_from(us.drop_last());
        match spec_url_from(us.last()) {
            Some(u) => rest.push(u),
            None => rest,
        }
    }
}

fn entities_from(e: ArchiveEntities) -> (r: TweetEntities)
    ensures
        r.hashtags@ == spec_hashtags_from(e.hashtags@),
        r.urls@ == spec_urls_from(e.urls@),
        r.user_mentions@ == spec_mentions_from(e.user_mentions@),
        match (r.media, e.media) {
            (Some(converted), Some(ms)) => spec_media_list_matches(ms@, converted@),
            (None, None) => true,
            _ => false,
        },
{
    let n = e.hashtags.len();
    let ghost horig = e.hashtags@;
    let mut hs = e.hashtags;
    let mut hashtags: Vec<HashtagEntity> = Vec::new();
    let mut i: usize = 0;
    while i < n
        invariant
            n == horig.len(),
            i <= n,
            hs@ == horig.subrange(i as int, n as int),
            hashtags@ == spec_hashtags_from(horig.subrange(0, i as int)),
        decreases n - i,
    {
        let ghost prefix = horig.subrange(0, i as int);
        let h = hs.remove(0);
        match hashtag_from(h) {
            Some(converted) => {
                hashtags.push(converted);
            },
            None => {},
        }
        i += 1;
        proof {
            assert(hs@ =~= horig.subrange(i as int, n as int));
            let longer = horig.subrange(0, i as int);
            assert(longer.drop_last() =~= prefix);
            assert(longer.last() == horig[i - 1]);
        }
    }
    proof {
        assert(horig.subrange(0, n as int) =~= horig);
    }
    let n = e.user_mentions.len();
    let ghost morig = e.user_mentions@;
    let mut ms = e.user_mentions;
    let mut user_mentions: Vec<MentionEntity> = Vec::new();
    let mut i: usize = 0;
    while i < n
        invariant
            n == morig.len(),
            i <= n,
            ms@ == morig.subrange(i as int, n as int),
            user_mentions@ == spec_mentions_from(morig.subrange(0, i as int)),
        decreases n - i,
    {
        let ghost prefix = morig.subrange(0, i as int);
        let m = ms.remove(0);
        match mention_from(m) {
            Some(converted) => {
                user_mentions.push(converted);
            },
            None => {},
        }
        i += 1;
        proof {
            assert(ms@ =~= morig.subrange(i as int, n as int));
            let longer = morig.subrange(0, i as int);
            assert(longer.drop_last() =~= prefix);
            assert(longer.last() == morig[i - 1]);
        }
    }
    proof {
        assert(morig.subrange(0, n as int) =~= morig);
    }
    let n = e.urls.len();
    let ghost uorig = e.urls@;
    let mut us = e.urls;
    let mut urls: Vec<UrlEntity> = Vec::new();
    let mut i: usize = 0;
    while i < n
        invariant
            n == uorig.len(),
            i <= n,
            us@ == uorig.subrange(i as int, n as int),
            urls@ == spec_urls_from(uorig.subrange(0, i as int)),
        decreases n - i,
    {
        let ghost prefix = uorig.subrange(0, i as int);
        let u = us.remove(0);
        match url_from(u) {
            Some(converted) => {
                urls.push(converted);
            },
            None => {},
        }
        i += 1;
        proof {
            assert(us@ =~= uorig.subrange(i as int, n as int));
            let longer = uorig.subrange(0, i as int);
            assert(longer.drop_last() =~= prefix);
            assert(longer.last() == uorig[i - 1]);
        }
    }
    proof {
        assert(uorig.subrange(0, n as int) =~= uorig);
    }
    let media = match e.media {
        Some(ms) => Some(media_list_from(ms)),
        None => None,
    };
    TweetEntities { hashtags, urls, user_mentions, media }
}

/// Whether an archive post converts: its id, date and counts all parse.
pub open spec fn spec_archive_tweet_ok(a: ArchiveTweet) -> bool {
    &&& spec_parse_u64_field(a.id@) is Some
    &&& archive_epoch_of(a.created_at@) is Some
    &&& spec_parse_i32_field(a.favorite_count@) is Some
    &&& spec_parse_i32_field(a.retweet_count@) is Some
}

/// Convert one archive post; a post whose id, date or counts do not parse
/// is dropped (the import goes on without it). Nothing embeds in an
/// archive post: the converted post carries no author, no quoted or
/// retweeted post.
pub fn post_from_archive(a: ArchiveTweet) -> (r: Option<Tweet>)
    ensures
        match r {
            Some(t) => {
                &&& spec_archive_tweet_ok(a)
                &&& t.id == spec_parse_u64_field(a.id@).unwrap()
                &&& t.created_at == archive_epoch_of(a.created_at@).unwrap()
                &&& t.text == a.full_text
                &&& t.user is None
                &&& t.entities.hashtags@ == spec_hashtags_from(a.entities.hashtags@)
                &&& t.entities.urls@ == spec_urls_from(a.entities.urls@)
                &&& t.entities.user_mentions@ == spec_mentions_from(a.entities.user_mentions@)
                &&& (match (t.entities.media, a.entities.media) {
                    (Some(tm), Some(ms)) => spec_media_list_matches(ms@, tm@),
                    (None, None) => true,
                    _ => false,
                })
                &&& (match (t.extended_entities, a.extended_entities) {
                    (Some(te), Some(ae)) => spec_media_list_matches(ae.media@, te.media@),
                    (None, None) => true,
                    _ => false,
                })
                &&& t.favorite_count == spec_parse_i32_field(a.favorite_count@).unwrap()
                &&& t.favorited == a.favorited
                &&& t.retweet_count == spec_parse_i32_field(a.retweet_count@).unwrap()
                &&& t.truncated == a.truncated
                &&& t.lang == a.lang
                &&& t.source == a.source
                &&& t.display_text_range == (match a.display_text_range {
                    Some(ind) => spec_range_from(ind@),
                    None => None,
                })
                &&& t.in_reply_to_screen_name == a.in_reply_to_screen_name
                &&& t.in_reply_to_status_id == (match a.in_reply_to_status_id {
                    Some(s) => spec_parse_u64_field(s@),
                    None => None,
                })
                &&& t.in_reply_to_user_id == (match a.in_reply_to_user_id {
                    Some(s) => spec_parse_u64_field(s@),
                    None => None,
                })
                &&& t.quoted_status_id == a.quoted_status_id
                &&& t.quoted_status is None
                &&& t.retweeted_status is None
            },
            None => !spec_archive_tweet_ok(a),
        },
{
    let id = parse_u64_field(a.id.as_str());
    let created_at = parse_archive_date(a.created_at.as_str());
    let favorite_count = parse_i32_field(a.favorite_count.as_str());
    let retweet_count = parse_i32_field(a.retweet_count.as_str());
    match (id, created_at, favorite_count, retweet_count) {
        (Some(id), Some(created_at), Some(favorite_count), Some(retweet_count)) => {
            let display_text_range = match &a.display_text_range {
                Some(ind) => range_from(ind),
                None => None,
            };
            let in_reply_to_status_id = match &a.in_reply_to_status_id {
                Some(s) => parse_u64_field(s.as_str()),
                None => None,
            };
            let in_reply_to_user_id = match &a.in_reply_to_user_id {
                Some(s) => parse_u64_field(s.as_str()),
                None => None,
            };
            let extended_entities = match a.extended_entities {
                Some(ee) => Some(ExtendedTweetEntities { media: media_list_from(ee.media) }),
                None => None,
            };
            let entities = entities_from(a.entities);
            Some(
                Tweet {
                    id,
                    created_at,
                    text: a.full_text,
                    user: None,
                    entities,
                    extended_entities,
                    favorite_count,
                    favorited: a.favorited,
                    retweet_count,
                    truncated: a.truncated,
                    lang: a.lang,
                    source: a.source,
                    display_text_range,
                    in_reply_to_screen_name: a.in_reply_to_screen_name,
                    in_reply_to_status_id,
                    in_reply_to_user_id,
                    quoted_status_id: a.quoted_status_id,
                    quoted_status: None,
                    retweeted_status: None,
                },
            )
        },
        _ => None,
    }
}

// ---------------------------------------------------------------------
// Payload location and merging
// ---------------------------------------------------------------------
/// Where an archive file's payload starts: the archive wraps its array in
/// an assignment, so reading begins one byte before the first bracket
/// found past the file's first byte. Nothing to read when no such bracket
/// exists.
pub fn archive_payload_start(bytes: &Vec<u8>) -> (r: Option<usize>)
    ensures
        match r {
            Some(s) => s + 1 < bytes@.len() && bytes@[s as int + 1] == '[' as u8 && forall|j: int|
                1 <= j < s + 1 ==> bytes@[j] != '[' as u8,
            None => forall|j: int| 1 <= j < bytes@.len() ==> bytes@[j] != '[' as u8,
        },
{
    let n = bytes.len();
    let mut i: usize = 1;
    while i < n
        invariant
            n == bytes@.len(),
            1 <= i,
            i <= n || n == 0,
            forall|j: int| 1 <= j < i ==> bytes@[j] != '[' as u8,
        decreases n - i,
    {
        if bytes[i] == '[' as u8 {
            return Some(i - 1);
        }
        i += 1;
    }
    None
}

/// The imported posts whose ids the archive does not already hold, in
/// import order.
pub open spec fn spec_unknown_posts(imported: Seq<Tweet>, known: Seq<Tweet>) -> Seq<Tweet>
    decreases imported.len(),
{
    if imported.len() == 0 {
        Seq::empty()
    } else {
        let rest = spec_unknown_posts(imported.drop_last(), known);
        if spec_seq_has_tweet(known, imported.last().id) {
            rest
        } else {
            rest.push(imported.last())
        }
    }
}

/// Posts sorted newest id first.
pub open spec fn spec_sorted_desc(posts: Seq<Tweet>) -> bool {
    forall|i: int, j: int| 0 <= i < j < posts.len() ==> posts[i].id >= posts[j].id
}

/// Whether some post in the list carries this id.
pub fn has_tweet_with_id(posts: &Vec<Tweet>, id: u64) -> (r: bool)
    ensures
        r == spec_seq_has_tweet(posts@, id),
{
    let n = posts.len();
    let mut i: usize = 0;
    while i < n
        invariant
            n == posts@.len(),
            i <= n,
            forall|j: int| 0 <= j < i ==> (#[trigger] posts@[j]).id != id,
        decreases n - i,
    {
        if posts[i].id == id {
            proof {
                assert(spec_seq_has_tweet(posts@, id));
            }
            return true;
        }
        i += 1;
    }
    false
}

/// The position of a post with the highest id.
fn max_id_index(posts: &Vec<Tweet>) -> (r: usize)
    requires
        posts@.len() > 0,
    ensures
        r < posts@.len(),
        forall|j: int| 0 <= j < posts@.len() ==> (#[trigger] posts@[j]).id <= posts@[r as int].id,
{
    let n = posts.len();
    let mut best: usize = 0;
    let mut i: usize = 1;
    while i < n
        invariant
            n == posts@.len(),
            1 <= i <= n,
            best < i,
            forall|j: int| 0 <= j < i ==> (#[trigger] posts@[j]).id <= posts@[best as int].id,
        decreases n - i,
    {
        if posts[i].id > posts[best].id {
            best = i;
        }
        i += 1;
    }
    best
}

/// Sort posts newest id first. The result holds exactly the given posts.
pub fn sort_posts_desc(posts: Vec<Tweet>) -> (r: Vec<Tweet>)
    ensures
        r@.to_multiset() == posts@.to_multiset(),
        spec_sorted_desc(r@),
{
    broadcast use vstd::seq_lib::group_to_multiset_ensures;

    let ghost orig = posts@;
    let mut rest = posts;
    let mut out: Vec<Tweet> = Vec::new();
    while rest.len() > 0
        invariant
            out@.to_multiset().add(rest@.to_multiset()) == orig.to_multiset(),
            spec_sorted_desc(out@),
            forall|a: int, b: int|
                0 <= a < out@.len() && 0 <= b < rest@.len() ==> (#[trigger] out@[a]).id >= (
                #[trigger] rest@[b]).id,
        decreases rest@.len(),
    {
        let ghost rest_before = rest@;
        let ghost out_before = out@;
        let m = max_id_index(&rest);
        let t = rest.remove(m);
        out.push(t);
        proof {
            broadcast use vstd::seq_lib::group_to_multiset_ensures;
            broadcast use vstd::multiset::group_multiset_axioms;

            assert(rest@ == rest_before.remove(m as int));
            assert(rest_before.remove(m as int).to_multiset() =~= rest_before.to_multiset().remove(
                rest_before[m as int],
            ));
            assert(rest@.to_multiset() =~= rest_before.to_multiset().remove(t));
            assert(out@ == out_before.push(t));
            assert(out_before.push(t).to_multiset() =~= out_before.to_multiset().insert(t));
            assert(out@.to_multiset() =~= out_before.to_multiset().insert(t));
            assert(rest_before.to_multiset().count(t) > 0) by {
                assert(rest_before.contains(t)) by {
                    assert(rest_before[m as int] == t);
                }
            }
            assert(out@.to_multiset().add(rest@.to_multiset()) =~= orig.to_multiset());
            assert forall|a: int, b: int|
                0 <= a < out@.len() && 0 <= b < rest@.len() implies (#[trigger] out@[a]).id >= (
            #[trigger] rest@[b]).id by {
                let b0 = if b < m {
                    b
                } else {
                    b + 1
                };
                assert(rest@[b] == rest_before[b0]);
                if a < out@.len() - 1 {
                    assert(out@[a] == out_before[a]);
                } else {
                    assert(out@[a] == t);
                }
            }
            assert(spec_sorted_desc(out@));
        }
    }
    out
}

/// Merge imported posts into the archived list: keep only imports whose
/// ids the archive does not already hold, and return everything ordered
/// newest id first.
pub fn merge_imported(existing: Vec<Tweet>, imported: Vec<Tweet>) -> (r: Vec<Tweet>)
    ensures
        r@.to_multiset() == (existing@ + spec_unknown_posts(imported@, existing@)).to_multiset(),
        spec_sorted_desc(r@),
{
    let n = imported.len();
    let ghost iorig = imported@;
    let mut imported = imported;
    let mut unknown: Vec<Tweet> = Vec::new();
    let mut i: usize = 0;
    while i < n
        invariant
            n == iorig.len(),
            i <= n,
            imported@ == iorig.subrange(i as int, n as int),
            unknown@ == spec_unknown_posts(iorig.subrange(0, i as int), existing@),
        decreases n - i,
    {
        let ghost prefix = iorig.subrange(0, i as int);
        let t = imported.remove(0);
        if !has_tweet_with_id(&existing, t.id) {
            unknown.push(t);
        }
        i += 1;
        proof {
            assert(imported@ =~= iorig.subrange(i as int, n as int));
            let longer = iorig.subrange(0, i as int);
            assert(longer.drop_last() =~= prefix);
            assert(longer.last() == iorig[i - 1]);
        }
    }
    proof {
        assert(iorig.subrange(0, n as int) =~= iorig);
    }
    let mut combined = existing;
    combined.append(&mut unknown);
    sort_posts_desc(combined)
}

} // verus!
