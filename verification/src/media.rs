//! Media download planning.
//!
//! Crawled posts and profiles yield download instructions; the dispatcher
//! turns an instruction into at most one fetch job. The planning rules —
//! pick the best video variant, derive a stable local file name from the
//! URL, fetch each URL at most once, fetch nothing with the media toggle
//! off — all live here. The network fetch itself stays with the caller.

use crate::store::StrKeyMap;
use crate::types::{MediaEntity, Profile, Tweet, VideoVariant};
use vstd::prelude::*;

verus! {

/// One unit of media work: what to fetch and how to classify it. `Done`
/// is the sentinel the orchestrator sends once every phase has run, upon
/// which the dispatcher drains its queue and stops.
#[derive(Debug, Clone, PartialEq, Eq)]
pub enum DownloadInstruction {
    /// A still image, by URL.
    Image(String),
    /// A video: the chosen variant's mime essence and its URL.
    Movie(String, String),
    /// An avatar, banner or background image, by URL.
    ProfileMedia(String),
    /// End of the instruction stream.
    Done,
}

/// The URL an instruction asks to fetch, if it asks for one.
pub open spec fn spec_instruction_url(inst: DownloadInstruction) -> Option<Seq<char>> {
    match inst {
        DownloadInstruction::Image(u) => Some(u@),
        DownloadInstruction::Movie(_ct, u) => Some(u@),
        DownloadInstruction::ProfileMedia(u) => Some(u@),
        DownloadInstruction::Done => None,
    }
}

// ---------------------------------------------------------------------
// Lower-casing and mime subtypes
// ---------------------------------------------------------------------
/// ASCII lower-casing of one character.
pub open spec fn spec_lower_char(c: char) -> char {
    if 65 <= c as u32 <= 90 {
        (((c as u32) + 32) as u8) as char
    } else {
        c
    }
}

/// ASCII lower-casing of a character sequence.
pub open spec fn spec_lower(s: Seq<char>) -> Seq<char> {
    s.map_values(|c: char| spec_lower_char(c))
}

fn lower_char(c: char) -> (r: char)
    ensures
        r == spec_lower_char(c),
{
    let u = c as u32;
    if 65 <= u && u <= 90 {
        ((u + 32) as u8) as char
    } else {
        c
    }
}

/// Where the subtype of a mime essence starts: one past the first slash,
/// or the end when there is no slash.
pub open spec fn spec_subtype_start(s: Seq<char>) -> int
    decreases s.len(),
{
    if s.len() == 0 {
        0
    } else if s[0] == '/' {
        1
    } else {
        1 + spec_subtype_start(s.drop_first())
    }
}

pub proof fn lemma_subtype_start_in_range(s: Seq<char>)
    ensures
        0 <= spec_subtype_start(s) <= s.len(),
    decreases s.len(),
{
    if s.len() > 0 && s[0] != '/' {
        lemma_subtype_start_in_range(s.drop_first());
    }
}

/// The subtype of a mime essence: what follows the first slash.
pub open spec fn spec_subtype_of(s: Seq<char>) -> Seq<char> {
    s.subrange(spec_subtype_start(s), s.len() as int)
}

/// One past the first slash of `ct`, or its length when it has no slash.
fn subtype_start(ct: &str) -> (r: usize)
    ensures
        r == spec_subtype_start(ct@),
        r <= ct@.len(),
{
    proof {
        lemma_subtype_start_in_range(ct@);
    }
    let n = ct.unicode_len();
    let mut i: usize = 0;
    proof {
        assert(ct@.subrange(0, n as int) =~= ct@);
    }
    while i < n
        invariant
            n == ct@.len(),
            i <= n,
            spec_subtype_start(ct@) == i + spec_subtype_start(ct@.subrange(i as int, n as int)),
        decreases n - i,
    {
        let c = ct.get_char(i);
        let ghost suffix = ct@.subrange(i as int, n as int);
        if c == '/' {
            proof {
                assert(suffix[0] == '/');
                assert(spec_subtype_start(suffix) == 1);
            }
            return i + 1;
        }
        i += 1;
        proof {
            assert(suffix[0] != '/');
            assert(suffix.drop_first() =~= ct@.subrange(i as int, n as int));
        }
    }
    proof {
        assert(ct@.subrange(n as int, n as int) =~= Seq::<char>::empty());
    }
    n
}

/// Whether the lower-cased subtype of `ct` is the three characters
/// `p0 p1 p2`.
fn subtype_lower_is(ct: &str, p0: char, p1: char, p2: char) -> (r: bool)
    ensures
        r == (spec_lower(spec_subtype_of(ct@)) == seq![p0, p1, p2]),
{
    let n = ct.unicode_len();
    let start = subtype_start(ct);
    let ghost sub = spec_subtype_of(ct@);
    proof {
        assert(sub.len() == n - start);
        assert(spec_lower(sub).len() == sub.len());
        assert(seq![p0, p1, p2].len() == 3);
    }
    if n - start != 3 {
        return false;
    }
    let c0 = lower_char(ct.get_char(start));
    let c1 = lower_char(ct.get_char(start + 1));
    let c2 = lower_char(ct.get_char(start + 2));
    let r = c0 == p0 && c1 == p1 && c2 == p2;
    proof {
        assert(sub[0] == ct@[start as int]);
        assert(sub[1] == ct@[start as int + 1]);
        assert(sub[2] == ct@[start as int + 2]);
        assert(spec_lower(sub)[0] == c0);
        assert(spec_lower(sub)[1] == c1);
        assert(spec_lower(sub)[2] == c2);
        if r {
            assert(spec_lower(sub) =~= seq![p0, p1, p2]);
        }
    }
    r
}

// ---------------------------------------------------------------------
// Video variant selection
// ---------------------------------------------------------------------
/// Whether a variant is MP4-typed.
pub open spec fn spec_is_mp4(v: VideoVariant) -> bool {
    spec_lower(spec_subtype_of(v.content_type@)) == seq!['m', 'p', '4']
}

/// A variant's bitrate for comparison; an absent bitrate ranks below any
/// stated one.
pub open spec fn spec_bitrate_rank(v: VideoVariant) -> int {
    match v.bitrate {
        Some(b) => b as int,
        None => -1,
    }
}

/// The earliest MP4-typed variant of highest bitrate, if any is MP4.
pub open spec fn spec_best_mp4(vars: Seq<VideoVariant>) -> Option<int>
    decreases vars.len(),
{
    if vars.len() == 0 {
        None
    } else {
        let prev = spec_best_mp4(vars.drop_last());
        let last = vars.len() - 1;
        if spec_is_mp4(vars[last]) {
            match prev {
                None => Some(last),
                Some(p) => if spec_bitrate_rank(vars[last]) > spec_bitrate_rank(vars[p]) {
                    Some(last)
                } else {
                    Some(p)
                },
            }
        } else {
            prev
        }
    }
}

/// Which variant a video downloads as: the MP4 variant with the highest
/// bitrate when the video has an MP4 variant, else the first variant.
pub open spec fn spec_selected_variant(vars: Seq<VideoVariant>) -> Option<int> {
    match spec_best_mp4(vars) {
        Some(i) => Some(i),
        None => if vars.len() > 0 {
            Some(0int)
        } else {
            None
        },
    }
}

proof fn lemma_best_mp4_props(vars: Seq<VideoVariant>)
    ensures
        match spec_best_mp4(vars) {
            Some(i) => 0 <= i < vars.len() && spec_is_mp4(vars[i]) && forall|j: int|
                0 <= j < vars.len() && spec_is_mp4(#[trigger] vars[j]) ==> spec_bitrate_rank(
                    vars[j],
                ) <= spec_bitrate_rank(vars[i]),
            None => forall|j: int| 0 <= j < vars.len() ==> !spec_is_mp4(#[trigger] vars[j]),
        },
    decreases vars.len(),
{
    if vars.len() > 0 {
        lemma_best_mp4_props(vars.drop_last());
        assert forall|j: int| 0 <= j < vars.len() - 1 implies vars.drop_last()[j] == vars[j] by {}
    }
}

/// The selection rule: whenever a video offers an MP4-typed variant, the
/// selected variant is MP4-typed and no MP4-typed variant has a higher
/// bitrate.
pub proof fn lemma_variant_selection_prefers_mp4(vars: Seq<VideoVariant>)
    requires
        exists|i: int| 0 <= i < vars.len() && spec_is_mp4(#[trigger] vars[i]),
    ensures
        spec_selected_variant(vars) is Some,
        ({
            let s = spec_selected_variant(vars).unwrap();
            &&& 0 <= s < vars.len()
            &&& spec_is_mp4(vars[s])
            &&& forall|j: int|
                0 <= j < vars.len() && spec_is_mp4(#[trigger] vars[j]) ==> spec_bitrate_rank(
                    vars[j],
                ) <= spec_bitrate_rank(vars[s])
        }),
{
    lemma_best_mp4_props(vars);
}

/// Pick the variant to download, by index: the best MP4 when there is
/// one, else the first variant; nothing only when there is no variant.
pub fn select_variant(variants: &Vec<VideoVariant>) -> (r: Option<usize>)
    ensures
        match r {
            Some(i) => spec_selected_variant(variants@) == Some(i as int) && i < variants@.len(),
            None => variants@.len() == 0,
        },
{
    let n = variants.len();
    let mut best: Option<usize> = None;
    let mut i: usize = 0;
    while i < n
        invariant
            n == variants@.len(),
            i <= n,
            match best {
                Some(b) => spec_best_mp4(variants@.subrange(0, i as int)) == Some(b as int) && b
                    < i,
                None => spec_best_mp4(variants@.subrange(0, i as int)) is None,
            },
        decreases n - i,
    {
        let ghost prefix = variants@.subrange(0, i as int);
        let v_is_mp4 = subtype_lower_is(variants[i].content_type.as_str(), 'm', 'p', '4');
        let take: bool = if v_is_mp4 {
            match best {
                None => true,
                Some(b) => bitrate_gt(&variants[i].bitrate, &variants[b].bitrate),
            }
        } else {
            false
        };
        if take {
            best = Some(i);
        }
        i += 1;
        proof {
            let longer = variants@.subrange(0, i as int);
            assert(longer.drop_last() =~= prefix);
            assert(longer.last() == variants@[i - 1]);
        }
    }
    proof {
        assert(variants@.subrange(0, n as int) =~= variants@);
        lemma_best_mp4_props(variants@);
    }
    match best {
        Some(b) => Some(b),
        None => if n > 0 {
            Some(0)
        } else {
            None
        },
    }
}

/// An absent bitrate ranks below any stated one.
fn bitrate_gt(a: &Option<u64>, b: &Option<u64>) -> (r: bool)
    ensures
        r == (spec_opt_bitrate(*a) > spec_opt_bitrate(*b)),
{
    match (a, b) {
        (Some(x), Some(y)) => *x > *y,
        (Some(_), None) => true,
        _ => false,
    }
}

/// A bitrate option as a rank; absent ranks below any stated bitrate.
pub open spec fn spec_opt_bitrate(o: Option<u64>) -> int {
    match o {
        Some(b) => b as int,
        None => -1,
    }
}

// ---------------------------------------------------------------------
// Instructions from posts and profiles
// ---------------------------------------------------------------------
/// What one media entity asks to download: the selected variant of its
/// video, or the entity's still image; a video with no variants asks for
/// nothing.
pub open spec fn spec_entity_instructions(m: MediaEntity) -> Seq<DownloadInstruction> {
    match m.video_info {
        Some(vi) => match spec_selected_variant(vi.variants@) {
            Some(i) => seq![
                DownloadInstruction::Movie(vi.variants@[i].content_type, vi.variants@[i].url),
            ],
            None => Seq::empty(),
        },
        None => seq![DownloadInstruction::Image(m.media_url_https)],
    }
}

/// What a list of media entities asks to download, in entity order.
pub open spec fn spec_media_instructions(media: Seq<MediaEntity>) -> Seq<DownloadInstruction>
    decreases media.len(),
{
    if media.len() == 0 {
        Seq::empty()
    } else {
        spec_media_instructions(media.drop_last()) + spec_entity_instructions(media.last())
    }
}

/// The download instructions a post's extended media entities ask for;
/// `None` when the post carries no extended entities.
pub fn media_in_tweet(tweet: &Tweet) -> (r: Option<Vec<DownloadInstruction>>)
    ensures
        match r {
            Some(v) => tweet.extended_entities matches Some(ee) && v@ == spec_media_instructions(
                ee.media@,
            ),
            None => tweet.extended_entities is None,
        },
{
    let entities = match &tweet.extended_entities {
        Some(e) => e,
        None => {
            return None;
        },
    };
    let n = entities.media.len();
    let mut out: Vec<DownloadInstruction> = Vec::new();
    let mut i: usize = 0;
    while i < n
        invariant
            n == entities.media@.len(),
            i <= n,
            tweet.extended_entities matches Some(ee) && ee.media == entities.media,
            out@ == spec_media_instructions(entities.media@.subrange(0, i as int)),
        decreases n - i,
    {
        let ghost prefix = entities.media@.subrange(0, i as int);
        let m = &entities.media[i];
        match &m.video_info {
            Some(vi) => {
                match select_variant(&vi.variants) {
                    Some(v) => {
                        out.push(
                            DownloadInstruction::Movie(
                                vi.variants[v].content_type.clone(),
                                vi.variants[v].url.clone(),
                            ),
                        );
                    },
                    None => {},
                }
            },
            None => {
                out.push(DownloadInstruction::Image(m.media_url_https.clone()));
            },
        }
        i += 1;
        proof {
            let longer = entities.media@.subrange(0, i as int);
            assert(longer.drop_last() =~= prefix);
            assert(longer.last() == entities.media@[i - 1]);
            assert(out@ =~= spec_media_instructions(longer));
        }
    }
    proof {
        assert(entities.media@.subrange(0, n as int) =~= entities.media@);
    }
    Some(out)
}

/// The downloads a profile asks for: its background image and banner when
/// present, and always its avatar, in that order.
pub open spec fn spec_profile_media(p: Profile) -> Seq<DownloadInstruction> {
    (match p.profile_background_image_url_https {
        Some(u) => seq![DownloadInstruction::ProfileMedia(u)],
        None => Seq::empty(),
    }) + (match p.profile_banner_url {
        Some(u) => seq![DownloadInstruction::ProfileMedia(u)],
        None => Seq::empty(),
    }) + seq![DownloadInstruction::ProfileMedia(p.profile_image_url_https)]
}

/// The download instructions a profile asks for.
pub fn profile_media_instructions(profile: &Profile) -> (r: Vec<DownloadInstruction>)
    ensures
        r@ == spec_profile_media(*profile),
{
    let mut out: Vec<DownloadInstruction> = Vec::new();
    match &profile.profile_background_image_url_https {
        Some(u) => {
            out.push(DownloadInstruction::ProfileMedia(u.clone()));
        },
        None => {},
    }
    match &profile.profile_banner_url {
        Some(u) => {
            out.push(DownloadInstruction::ProfileMedia(u.clone()));
        },
        None => {},
    }
    out.push(DownloadInstruction::ProfileMedia(profile.profile_image_url_https.clone()));
    proof {
        assert(out@ =~= spec_profile_media(*profile));
    }
    out
}

// ---------------------------------------------------------------------
// Local artifact names
// ---------------------------------------------------------------------
/// The 64-bit FNV-1a offset basis.
pub const FNV_OFFSET_BASIS: u64 = 0xcbf2_9ce4_8422_2325;

/// The 64-bit FNV-1a prime.
pub const FNV_PRIME: u64 = 0x100_0000_01b3;

/// The FNV-1a hash of a character sequence, folding each character's code
/// point in from the left.
pub open spec fn spec_fnv1a(s: Seq<char>) -> u64
    decreases s.len(),
{
    if s.len() == 0 {
        FNV_OFFSET_BASIS
    } else {
        vstd::wrapping::u64_specs::wrapping_mul(
            spec_fnv1a(s.drop_last()) ^ (s.last() as u64),
            FNV_PRIME,
        )
    }
}

/// Hash a URL. The same URL always hashes the same, across runs and
/// machines, so the artifact name derived from it is stable and restarts
/// need not re-download.
pub fn fnv1a_str(s: &str) -> (r: u64)
    ensures
        r == spec_fnv1a(s@),
{
    let n = s.unicode_len();
    let mut h: u64 = FNV_OFFSET_BASIS;
    let mut i: usize = 0;
    while i < n
        invariant
            n == s@.len(),
            i <= n,
            h == spec_fnv1a(s@.subrange(0, i as int)),
        decreases n - i,
    {
        let ghost prefix = s@.subrange(0, i as int);
        let c = s.get_char(i);
        h = (h ^ (c as u64)).wrapping_mul(FNV_PRIME);
        i += 1;
        proof {
            let longer = s@.subrange(0, i as int);
            assert(longer.drop_last() =~= prefix);
            assert(longer.last() == s@[i - 1]);
        }
    }
    proof {
        assert(s@.subrange(0, n as int) =~= s@);
    }
    h
}

/// The character of one decimal digit.
pub open spec fn spec_digit_char(d: int) -> char {
    if d == 0 {
        '0'
    } else if d == 1 {
        '1'
    } else if d == 2 {
        '2'
    } else if d == 3 {
        '3'
    } else if d == 4 {
        '4'
    } else if d == 5 {
        '5'
    } else if d == 6 {
        '6'
    } else if d == 7 {
        '7'
    } else if d == 8 {
        '8'
    } else {
        '9'
    }
}

/// The decimal digits of a number, most significant first.
pub open spec fn spec_dec_digits(n: int) -> Seq<char>
    decreases n,
{
    if n < 10 {
        seq![spec_digit_char(n)]
    } else {
        spec_dec_digits(n / 10).push(spec_digit_char(n % 10))
    }
}

/// One decimal digit as a string.
fn digit_string(d: u64) -> (r: String)
    requires
        d < 10,
    ensures
        r@ == seq![spec_digit_char(d as int)],
{
    let s: &str = if d == 0 {
        "0"
    } else if d == 1 {
        "1"
    } else if d == 2 {
        "2"
    } else if d == 3 {
        "3"
    } else if d == 4 {
        "4"
    } else if d == 5 {
        "5"
    } else if d == 6 {
        "6"
    } else if d == 7 {
        "7"
    } else if d == 8 {
        "8"
    } else {
        "9"
    };
    proof {
        reveal_strlit("0");
        reveal_strlit("1");
        reveal_strlit("2");
        reveal_strlit("3");
        reveal_strlit("4");
        reveal_strlit("5");
        reveal_strlit("6");
        reveal_strlit("7");
        reveal_strlit("8");
        reveal_strlit("9");
        assert(s@ =~= seq![spec_digit_char(d as int)]);
    }
    s.to_owned()
}

/// A number in decimal.
pub fn u64_dec_string(n: u64) -> (r: String)
    ensures
        r@ == spec_dec_digits(n as int),
    decreases n,
{
    if n < 10 {
        digit_string(n)
    } else {
        let mut s = u64_dec_string(n / 10);
        let d = digit_string(n % 10);
        s.append(d.as_str());
        proof {
            assert(s@ =~= spec_dec_digits(n as int));
        }
        s
    }
}

// ---------------------------------------------------------------------
// URL path segments and file extensions
// ---------------------------------------------------------------------
/// The final segment of a URL's path, as the `url` crate parses it; a
/// function of the URL string alone.
pub uninterp spec fn last_path_segment_of(url: Seq<char>) -> Option<Seq<char>>;

/// Relies on url::Url::parse and url::Url::path_segments: the final path
/// segment of a parsed URL, or nothing when the string does not parse as
/// a URL or the URL cannot be a base.
#[verifier::external_body]
fn url_last_path_segment(url: &str) -> (r: Option<String>)
    ensures
        match r {
            Some(s) => last_path_segment_of(url@) == Some(s@),
            None => last_path_segment_of(url@) is None,
        },
{
    match url::Url::parse(url) {
        Ok(parsed) => match parsed.path_segments() {
            Some(segments) => segments.last().map(|s| s.to_string()),
            None => None,
        },
        Err(_) => None,
    }
}

/// Where the last dot of a name sits, or -1 with no dot.
pub open spec fn spec_last_dot(name: Seq<char>) -> int
    decreases name.len(),
{
    if name.len() == 0 {
        -1
    } else if name.last() == '.' {
        name.len() - 1
    } else {
        spec_last_dot(name.drop_last())
    }
}

/// A file name's extension: what follows its last dot, provided the dot
/// is neither the name's first nor its last character.
pub open spec fn spec_extension_of(name: Seq<char>) -> Option<Seq<char>> {
    let d = spec_last_dot(name);
    if 0 < d && d < name.len() - 1 {
        Some(name.subrange(d + 1, name.len() as int))
    } else {
        None
    }
}

/// The extension of a file name.
fn extension_of_segment(seg: &str) -> (r: Option<String>)
    ensures
        match r {
            Some(e) => spec_extension_of(seg@) == Some(e@),
            None => spec_extension_of(seg@) is None,
        },
{
    let n = seg.unicode_len();
    let mut i: usize = n;
    proof {
        assert(seg@.subrange(0, n as int) =~= seg@);
    }
    while i > 0
        invariant
            n == seg@.len(),
            i <= n,
            spec_last_dot(seg@) == spec_last_dot(seg@.subrange(0, i as int)),
        decreases i,
    {
        let c = seg.get_char(i - 1);
        let ghost prefix = seg@.subrange(0, i as int);
        if c == '.' {
            proof {
                assert(prefix.last() == '.');
                assert(spec_last_dot(seg@) == i - 1);
            }
            if i - 1 > 0 && i < n {
                let e = seg.substring_char(i, n);
                return Some(e.to_owned());
            } else {
                return None;
            }
        }
        i -= 1;
        proof {
            assert(prefix.last() != '.');
            assert(prefix.drop_last() =~= seg@.subrange(0, i as int));
        }
    }
    proof {
        assert(seg@.subrange(0, 0) =~= Seq::<char>::empty());
        assert(spec_last_dot(seg@) == -1);
    }
    None
}

/// The generic image extension used when none can be determined.
fn png_default() -> (r: String)
    ensures
        r@ == seq!['p', 'n', 'g'],
{
    let s: String = "png".to_owned();
    proof {
        reveal_strlit("png");
        assert(s@ =~= seq!['p', 'n', 'g']);
    }
    s
}

/// The file extension an image URL implies: the extension of the last
/// path segment, defaulting to the generic image extension whenever the
/// URL or its last segment yields none.
pub open spec fn spec_extension_for_url(url: Seq<char>) -> Seq<char> {
    match last_path_segment_of(url) {
        Some(seg) => match spec_extension_of(seg) {
            Some(e) => e,
            None => seq!['p', 'n', 'g'],
        },
        None => seq!['p', 'n', 'g'],
    }
}

/// The file extension to store a URL's artifact under.
pub fn extension_for_url(url: &str) -> (r: String)
    ensures
        r@ == spec_extension_for_url(url@),
{
    let seg = match url_last_path_segment(url) {
        Some(s) => s,
        None => {
            return png_default();
        },
    };
    match extension_of_segment(seg.as_str()) {
        Some(e) => e,
        None => png_default(),
    }
}

/// The file extension for a video: its mime subtype when that is a known
/// container, else whatever the URL implies.
pub open spec fn spec_movie_extension(ct: Seq<char>, url: Seq<char>) -> Seq<char> {
    let sub = spec_lower(spec_subtype_of(ct));
    if sub == seq!['m', 'p', '4'] {
        seq!['m', 'p', '4']
    } else if sub == seq!['a', 'v', 'i'] {
        seq!['a', 'v', 'i']
    } else if sub == seq!['3', 'g', 'p'] {
        seq!['3', 'g', 'p']
    } else if sub == seq!['m', 'o', 'v'] {
        seq!['m', 'o', 'v']
    } else {
        spec_extension_for_url(url)
    }
}

/// The file extension to store a video variant under.
pub fn movie_extension(ct: &str, url: &str) -> (r: String)
    ensures
        r@ == spec_movie_extension(ct@, url@),
{
    if subtype_lower_is(ct, 'm', 'p', '4') {
        let s: String = "mp4".to_owned();
        proof {
            reveal_strlit("mp4");
            assert(s@ =~= seq!['m', 'p', '4']);
        }
        s
    } else if subtype_lower_is(ct, 'a', 'v', 'i') {
        let s: String = "avi".to_owned();
        proof {
            reveal_strlit("avi");
            assert(s@ =~= seq!['a', 'v', 'i']);
        }
        s
    } else if subtype_lower_is(ct, '3', 'g', 'p') {
        let s: String = "3gp".to_owned();
        proof {
            reveal_strlit("3gp");
            assert(s@ =~= seq!['3', 'g', 'p']);
        }
        s
    } else if subtype_lower_is(ct, 'm', 'o', 'v') {
        let s: String = "mov".to_owned();
        proof {
            reveal_strlit("mov");
            assert(s@ =~= seq!['m', 'o', 'v']);
        }
        s
    } else {
        extension_for_url(url)
    }
}

// ---------------------------------------------------------------------
// The download planner
// ---------------------------------------------------------------------
/// The extension an instruction's artifact is stored under.
pub open spec fn spec_instruction_extension(inst: DownloadInstruction) -> Seq<char> {
    match inst {
        DownloadInstruction::Image(u) => spec_extension_for_url(u@),
        DownloadInstruction::ProfileMedia(u) => spec_extension_for_url(u@),
        DownloadInstruction::Movie(ct, u) => spec_movie_extension(ct@, u@),
        DownloadInstruction::Done => Seq::empty(),
    }
}

/// The stable local file name for an instruction's artifact: the URL's
/// hash in decimal, a dot, and the extension.
pub open spec fn spec_artifact_name(inst: DownloadInstruction) -> Seq<char> {
    match spec_instruction_url(inst) {
        Some(u) => spec_dec_digits(spec_fnv1a(u) as int) + seq!['.'] + spec_instruction_extension(
            inst,
        ),
        None => Seq::empty(),
    }
}

/// Which URL an instruction actually fetches: none with the media toggle
/// off, none for the end-of-stream sentinel, and none when the archive
/// already maps the URL to an artifact — each URL is fetched at most once
/// per run.
pub open spec fn spec_download_url(
    media: Map<Seq<char>, String>,
    inst: DownloadInstruction,
    enabled: bool,
) -> Option<Seq<char>> {
    if !enabled {
        None
    } else {
        match spec_instruction_url(inst) {
            Some(u) => if media.contains_key(u) {
                None
            } else {
                Some(u)
            },
            None => None,
        }
    }
}

/// One fetch job: the URL to get and the local file name to store it
/// under. The caller fetches the bytes, writes the file below the media
/// directory, and records the URL against the file name in the archive.
#[derive(Debug, Clone, PartialEq, Eq)]
pub struct DownloadJob {
    pub url: String,
    pub file_name: String,
}

/// Plan one instruction against the archive's media table.
pub fn plan_download(
    media: &StrKeyMap<String>,
    instruction: &DownloadInstruction,
    media_enabled: bool,
) -> (r: Option<DownloadJob>)
    requires
        media.wf(),
    ensures
        match r {
            Some(job) => spec_download_url(media@, *instruction, media_enabled) == Some(job.url@)
                && job.file_name@ == spec_artifact_name(*instruction),
            None => spec_download_url(media@, *instruction, media_enabled) is None,
        },
{
    if !media_enabled {
        return None;
    }
    let (url, ext): (String, String) = match instruction {
        DownloadInstruction::Image(u) => (u.clone(), extension_for_url(u.as_str())),
        DownloadInstruction::Movie(ct, u) => (u.clone(), movie_extension(ct.as_str(), u.as_str())),
        DownloadInstruction::ProfileMedia(u) => (u.clone(), extension_for_url(u.as_str())),
        DownloadInstruction::Done => {
            return None;
        },
    };
    if media.contains(url.as_str()) {
        return None;
    }
    let hash = fnv1a_str(url.as_str());
    let mut name = u64_dec_string(hash);
    name.append(".");
    name.append(ext.as_str());
    proof {
        reveal_strlit(".");
        assert(name@ =~= spec_artifact_name(*instruction));
    }
    Some(DownloadJob { url, file_name: name })
}

/// Dispatching an instruction for a URL whose artifact is already
/// recorded downloads nothing: over a run, each URL is fetched at most
/// once, and one URL maps to at most one artifact, however many
/// instructions name it.
pub proof fn lemma_download_idempotent(
    media: Map<Seq<char>, String>,
    inst: DownloadInstruction,
    path: String,
    enabled: bool,
)
    requires
        spec_instruction_url(inst) is Some,
    ensures
        spec_download_url(
            media.insert(spec_instruction_url(inst).unwrap(), path),
            inst,
            enabled,
        ) is None,
{
}

/// With the media toggle off no instruction fetches anything, however
/// many instructions the crawl generates.
pub proof fn lemma_media_toggle_off(media: Map<Seq<char>, String>, inst: DownloadInstruction)
    ensures
        spec_download_url(media, inst, false) is None,
{
}

} // verus!
