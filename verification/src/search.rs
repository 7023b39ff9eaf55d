//! Local full-text search over the archive.
//!
//! A search term becomes one case-insensitive pattern: a phrase when the
//! trimmed term is quoted, otherwise an alternation of its words. The
//! pattern runs over posts, mentions, reply threads and profiles; each
//! matching item yields one result carrying its matched fields, ranked by
//! how telling those fields are (lower ranks sort first).

use crate::storage::Data;
use crate::store::IdKeyMap;
use crate::types::{Profile, Tweet};
use vstd::prelude::*;

verus! {

#[verifier::external_type_specification]
#[verifier::external_body]
pub struct ExRegex(regex::Regex);

/// Whether a pattern compiles as a regular expression; a function of the
/// pattern alone.
pub uninterp spec fn regex_ok(pattern: Seq<char>) -> bool;

/// The non-overlapping match ranges (byte offsets) a pattern finds in a
/// text, leftmost first; a function of pattern and text alone.
pub uninterp spec fn found_ranges(pattern: Seq<char>, text: Seq<char>) -> Seq<(usize, usize)>;

/// A compiled search pattern, kept beside the pattern text it was
/// compiled from.
pub(crate) struct Matcher {
    pattern: String,
    re: regex::Regex,
}

impl Matcher {
    /// The pattern this matcher was compiled from.
    pub closed spec fn spec_pattern(self) -> Seq<char> {
        self.pattern@
    }

    /// Relies on regex::Regex::new: a pattern string either compiles or
    /// does not, and the compiled matcher embodies exactly that pattern.
    #[verifier::external_body]
    pub(crate) fn new(pattern: String) -> (r: Option<Matcher>)
        ensures
            regex_ok(pattern@) == r is Some,
            match r {
                Some(m) => m.spec_pattern() == pattern@,
                None => true,
            },
    {
        match regex::Regex::new(pattern.as_str()) {
            Ok(re) => Some(Matcher { pattern, re }),
            Err(_) => None,
        }
    }

    /// Relies on regex::Regex::find_iter with Match::start and
    /// Match::end: the match ranges depend on the pattern and the text
    /// alone.
    #[verifier::external_body]
    pub(crate) fn find_ranges(&self, text: &str) -> (r: Vec<(usize, usize)>)
        ensures
            r@ == found_ranges(self.spec_pattern(), text@),
    {
        self.re.find_iter(text).map(|m| (m.start(), m.end())).collect()
    }
}

// ---------------------------------------------------------------------
// Building the pattern from the search term
// ---------------------------------------------------------------------
/// ASCII whitespace, as word separation sees it.
pub open spec fn spec_is_ws(c: char) -> bool {
    c == ' ' || c == '\t' || c == '\n' || c == '\r' || c as u32 == 12
}

fn is_ws(c: char) -> (r: bool)
    ensures
        r == spec_is_ws(c),
{
    c == ' ' || c == '\t' || c == '\n' || c == '\r' || c as u32 == 12
}

/// A term without its leading whitespace.
pub open spec fn spec_drop_leading_ws(s: Seq<char>) -> Seq<char>
    decreases s.len(),
{
    if s.len() == 0 {
        s
    } else if spec_is_ws(s[0]) {
        spec_drop_leading_ws(s.drop_first())
    } else {
        s
    }
}

/// A term without its trailing whitespace.
pub open spec fn spec_drop_trailing_ws(s: Seq<char>) -> Seq<char>
    decreases s.len(),
{
    if s.len() == 0 {
        s
    } else if spec_is_ws(s.last()) {
        spec_drop_trailing_ws(s.drop_last())
    } else {
        s
    }
}

/// A term without leading and trailing whitespace.
pub open spec fn spec_trim(s: Seq<char>) -> Seq<char> {
    spec_drop_trailing_ws(spec_drop_leading_ws(s))
}

/// Trim a term. The result is a slice of the input.
fn trim_chars<'a>(s: &'a str) -> (r: &'a str)
    ensures
        r@ == spec_trim(s@),
{
    let n = s.unicode_len();
    let mut a: usize = 0;
    proof {
        assert(s@.subrange(0, n as int) =~= s@);
    }
    while a < n && is_ws(s.get_char(a))
        invariant
            n == s@.len(),
            a <= n,
            spec_drop_leading_ws(s@) == spec_drop_leading_ws(s@.subrange(a as int, n as int)),
        decreases n - a,
    {
        let ghost suffix = s@.subrange(a as int, n as int);
        a += 1;
        proof {
            assert(suffix.drop_first() =~= s@.subrange(a as int, n as int));
        }
    }
    proof {
        let suffix = s@.subrange(a as int, n as int);
        if a < n {
            assert(suffix[0] == s@[a as int]);
        }
        assert(spec_drop_leading_ws(s@) == suffix);
    }
    let mut b: usize = n;
    while b > a && is_ws(s.get_char(b - 1))
        invariant
            n == s@.len(),
            a <= b <= n,
            spec_drop_leading_ws(s@) == s@.subrange(a as int, n as int),
            spec_drop_trailing_ws(s@.subrange(a as int, n as int)) == spec_drop_trailing_ws(
                s@.subrange(a as int, b as int),
            ),
        decreases b,
    {
        let ghost mid = s@.subrange(a as int, b as int);
        b -= 1;
        proof {
            assert(mid.last() == s@[b as int]);
            assert(mid.drop_last() =~= s@.subrange(a as int, b as int));
        }
    }
    proof {
        let mid = s@.subrange(a as int, b as int);
        if b > a {
            assert(mid.last() == s@[b as int - 1]);
        }
        assert(spec_drop_trailing_ws(mid) == mid);
    }
    s.substring_char(a, b)
}

/// The words of a term: its maximal whitespace-free runs, in order.
pub open spec fn spec_words(s: Seq<char>) -> Seq<Seq<char>>
    decreases s.len(),
{
    if s.len() == 0 {
        Seq::empty()
    } else {
        let c = s.last();
        let rest = spec_words(s.drop_last());
        if spec_is_ws(c) {
            rest
        } else if s.len() >= 2 && !spec_is_ws(s[s.len() - 2]) {
            rest.update(rest.len() - 1, rest.last().push(c))
        } else {
            rest.push(seq![c])
        }
    }
}

/// Split a term into its words. Each word is a slice of the term.
fn split_words(s: &str) -> (r: Vec<String>)
    ensures
        r@.map_values(|w: String| w@) == spec_words(s@),
{
    let n = s.unicode_len();
    let mut words: Vec<String> = Vec::new();
    // where the current word started, if a word is open
    let mut start: Option<usize> = None;
    let mut i: usize = 0;
    proof {
        assert(s@.subrange(0, 0) =~= Seq::<char>::empty());
        assert(words@.map_values(|w: String| w@) =~= spec_words(s@.subrange(0, 0)));
    }
    while i < n
        invariant
            n == s@.len(),
            i <= n,
            match start {
                Some(st) => st < i && !spec_is_ws(s@[i - 1]) && (st == 0 || spec_is_ws(
                    s@[st as int - 1],
                )) && (forall|j: int| st <= j < i ==> !spec_is_ws(#[trigger] s@[j]))
                    && spec_words(s@.subrange(0, i as int)) == words@.map_values(
                    |w: String| w@,
                ).push(s@.subrange(st as int, i as int)),
                None => (i == 0 || spec_is_ws(s@[i - 1])) && spec_words(s@.subrange(0, i as int))
                    == words@.map_values(|w: String| w@),
            },
        decreases n - i,
    {
        let ghost prefix = s@.subrange(0, i as int);
        let ghost words_before = words@;
        let c = s.get_char(i);
        let ws = is_ws(c);
        match start {
            Some(st) => {
                if ws {
                    let w = s.substring_char(st, i);
                    words.push(w.to_owned());
                    start = None;
                }
            },
            None => {
                if !ws {
                    start = Some(i);
                }
            },
        }
        i += 1;
        proof {
            let longer = s@.subrange(0, i as int);
            assert(longer.drop_last() =~= prefix);
            assert(longer.last() == s@[i - 1]);
            if i >= 2 {
                assert(longer[longer.len() - 2] == s@[i - 2]);
            }
            assert(words@.map_values(|w: String| w@).len() == words@.len());
            if !ws {
                match start {
                    Some(st) => {
                        if st == i - 1 {
                            assert(s@.subrange(st as int, i as int) =~= seq![s@[i - 1]]);
                        } else {
                            assert(s@.subrange(st as int, i as int) =~= s@.subrange(
                                st as int,
                                i as int - 1,
                            ).push(s@[i - 1]));
                            assert(words_before.map_values(|w: String| w@).push(
                                s@.subrange(st as int, i as int - 1),
                            ).update(
                                words_before.len() as int,
                                s@.subrange(st as int, i as int),
                            ) =~= words_before.map_values(|w: String| w@).push(
                                s@.subrange(st as int, i as int),
                            ));
                        }
                    },
                    None => {},
                }
            } else {
                match words_before.len() {
                    _ => {},
                }
                assert(words@.map_values(|w: String| w@) =~= spec_words(longer));
            }
        }
    }
    match start {
        Some(st) => {
            let w = s.substring_char(st, n);
            words.push(w.to_owned());
            proof {
                assert(s@.subrange(0, n as int) =~= s@);
                assert(words@.map_values(|w2: String| w2@) =~= spec_words(s@));
            }
        },
        None => {
            proof {
                assert(s@.subrange(0, n as int) =~= s@);
            }
        },
    }
    words
}

/// Words joined by the alternation bar.
pub open spec fn spec_joined(words: Seq<Seq<char>>) -> Seq<char>
    decreases words.len(),
{
    if words.len() == 0 {
        Seq::empty()
    } else if words.len() == 1 {
        words[0]
    } else {
        spec_joined(words.drop_last()) + seq!['|'] + words.last()
    }
}

/// The pattern a search term becomes: the quoted phrase itself, or an
/// alternation of the term's words, case-insensitive either way. A term
/// without words yields an uncompilable pattern, so such a search finds
/// nothing.
pub open spec fn spec_search_pattern(term: Seq<char>) -> Seq<char> {
    let refined = spec_trim(term);
    if refined.len() >= 2 && ((refined.first() == '"' && refined.last() == '"') || (refined.first()
        == '\'' && refined.last() == '\'')) {
        seq!['(', '?', 'i', ')'] + refined.subrange(1, refined.len() - 1)
    } else {
        let words = spec_words(term);
        if words.len() == 0 {
            seq!['(', '?', 'i', ')', ')']
        } else {
            seq!['(', '?', 'i', ')', '('] + spec_joined(words) + seq![')']
        }
    }
}

/// Build the matcher for a search term; nothing when the pattern does not
/// compile.
pub(crate) fn make_regex(term: &str) -> (r: Option<Matcher>)
    ensures
        regex_ok(spec_search_pattern(term@)) == r is Some,
        match r {
            Some(m) => m.spec_pattern() == spec_search_pattern(term@),
            None => true,
        },
{
    let refined = trim_chars(term);
    let rn = refined.unicode_len();
    let quoted = rn >= 2 && ((refined.get_char(0) == '"' && refined.get_char(rn - 1) == '"') || (
    refined.get_char(0) == '\'' && refined.get_char(rn - 1) == '\''));
    let mut pattern: String = "(?i)".to_owned();
    proof {
        reveal_strlit("(?i)");
        assert(pattern@ =~= seq!['(', '?', 'i', ')']);
    }
    if quoted {
        let inner = refined.substring_char(1, rn - 1);
        pattern.append(inner);
        proof {
            assert(pattern@ =~= spec_search_pattern(term@));
        }
        return Matcher::new(pattern);
    }
    let words = split_words(term);
    let wn = words.len();
    if wn == 0 {
        pattern.append(")");
        proof {
            reveal_strlit(")");
            assert(pattern@ =~= spec_search_pattern(term@));
        }
        return Matcher::new(pattern);
    }
    pattern.append("(");
    proof {
        reveal_strlit("(");
        assert(pattern@ =~= seq!['(', '?', 'i', ')', '(']);
    }
    let ghost word_views = words@.map_values(|w: String| w@);
    let mut i: usize = 0;
    while i < wn
        invariant
            wn == words@.len(),
            i <= wn,
            wn > 0,
            word_views == words@.map_values(|w: String| w@),
            word_views == spec_words(term@),
            pattern@ == seq!['(', '?', 'i', ')', '('] + (if i == 0 {
                Seq::<char>::empty()
            } else {
                spec_joined(word_views.subrange(0, i as int))
            }),
        decreases wn - i,
    {
        if i > 0 {
            pattern.append("|");
            proof {
                reveal_strlit("|");
            }
        }
        pattern.append(words[i].as_str());
        i += 1;
        proof {
            let sub = word_views.subrange(0, i as int);
            assert(sub.drop_last() =~= word_views.subrange(0, i as int - 1));
            assert(sub.last() == word_views[i - 1]);
            assert(word_views[i - 1] == words@[i - 1]@);
            if i == 1 {
                assert(spec_joined(sub) == sub[0]);
            }
            assert(pattern@ =~= seq!['(', '?', 'i', ')', '('] + spec_joined(sub));
        }
    }
    pattern.append(")");
    proof {
        reveal_strlit(")");
        assert(word_views.subrange(0, wn as int) =~= word_views);
        assert(pattern@ =~= spec_search_pattern(term@));
    }
    Matcher::new(pattern)
}

// ---------------------------------------------------------------------
// Results
// ---------------------------------------------------------------------
/// One matched field of an item: which field, its full text, the match
/// ranges inside it, and the field's rank (lower ranks are more telling).
#[derive(Debug)]
pub struct Description {
    pub field: &'static str,
    pub content: String,
    pub highlights: Vec<(usize, usize)>,
    pub rank: usize,
}

/// What a search result points at.
#[derive(Clone, Copy, Debug, Hash, PartialEq, Eq, Structural)]
pub enum Kind {
    Tweet(crate::storage::TweetId),
    Profile(crate::storage::UserId),
}

/// One matched item with its matched fields, ranked by their sum.
#[derive(Debug)]
pub struct SearchResult {
    pub kind: Kind,
    pub desc: Vec<Description>,
    pub rank: usize,
}

/// Which collections a search looks at.
#[derive(Clone, Copy, Debug, PartialEq, Eq, Structural)]
pub struct Options {
    pub tweets: bool,
    pub mentions: bool,
    pub responses: bool,
    pub profiles: bool,
}

impl Default for Options {
    /// A search looks everywhere by default.
    fn default() -> (r: Self)
        ensures
            r == (Options { tweets: true, mentions: true, responses: true, profiles: true }),
    {
        Options { tweets: true, mentions: true, responses: true, profiles: true }
    }
}

/// How one description relates to the field it describes.
pub open spec fn spec_desc_fields(
    pattern: Seq<char>,
    content: Seq<char>,
    rank: int,
    d: Description,
) -> bool {
    &&& d.content@ == content
    &&& d.highlights@ == found_ranges(pattern, content)
    &&& d.rank == rank
    &&& found_ranges(pattern, content).len() > 0
}

/// A description of `content` under `field` and `rank`, when the pattern
/// matches anywhere in it.
fn make_results(content: &str, matcher: &Matcher, field: &'static str, rank: usize) -> (r: Option<
    Description,
>)
    ensures
        match r {
            Some(d) => spec_desc_fields(matcher.spec_pattern(), content@, rank as int, d)
                && d.field == field,
            None => found_ranges(matcher.spec_pattern(), content@).len() == 0,
        },
{
    let highlights = matcher.find_ranges(content);
    if highlights.len() == 0 {
        None
    } else {
        Some(Description { field, content: content.to_owned(), highlights, rank })
    }
}

/// The searchable fields of an item, as content and rank, in the order
/// they are examined.
pub open spec fn spec_profile_candidates(user: Profile) -> Seq<(Seq<char>, int)> {
    seq![(user.screen_name@, 2int), (user.name@, 2int)] + (match user.description {
        Some(d) => seq![(d@, 1int)],
        None => Seq::empty(),
    }) + (match user.status {
        Some(s) => seq![(s.text@, 0int)],
        None => Seq::empty(),
    })
}

/// The searchable fields of a post itself.
pub open spec fn spec_tweet_candidates(t: Tweet) -> Seq<(Seq<char>, int)> {
    seq![(t.text@, 4int)] + (match t.quoted_status {
        Some(q) => seq![(q.text@, 1int)],
        None => Seq::empty(),
    })
}

/// Descriptions are exactly the matching candidates, in order.
pub open spec fn spec_descs_match(
    pattern: Seq<char>,
    candidates: Seq<(Seq<char>, int)>,
    descs: Seq<Description>,
) -> bool
    decreases candidates.len(),
{
    if candidates.len() == 0 {
        descs.len() == 0
    } else {
        let content = candidates.last().0;
        let rank = candidates.last().1;
        if found_ranges(pattern, content).len() > 0 {
            descs.len() > 0 && spec_desc_fields(pattern, content, rank, descs.last())
                && spec_descs_match(pattern, candidates.drop_last(), descs.drop_last())
        } else {
            spec_descs_match(pattern, candidates.drop_last(), descs)
        }
    }
}

/// Whether any candidate matches.
pub open spec fn spec_any_hit(pattern: Seq<char>, candidates: Seq<(Seq<char>, int)>) -> bool {
    exists|i: int|
        0 <= i < candidates.len() && found_ranges(pattern, (#[trigger] candidates[i]).0).len() > 0
}

/// Matching descriptions exist exactly when some candidate matches.
proof fn lemma_descs_match_len(
    pattern: Seq<char>,
    candidates: Seq<(Seq<char>, int)>,
    descs: Seq<Description>,
)
    requires
        spec_descs_match(pattern, candidates, descs),
    ensures
        (descs.len() > 0) == spec_any_hit(pattern, candidates),
        forall|i: int| 0 <= i < descs.len() ==> 0 <= (#[trigger] descs[i]).rank <= 4 || exists|j: int|
            0 <= j < candidates.len() && (#[trigger] candidates[j]).1 == descs[i].rank,
    decreases candidates.len(),
{
    if candidates.len() > 0 {
        let content = candidates.last().0;
        if found_ranges(pattern, content).len() > 0 {
            lemma_descs_match_len(pattern, candidates.drop_last(), descs.drop_last());
            assert(spec_any_hit(pattern, candidates)) by {
                assert(found_ranges(pattern, candidates[candidates.len() - 1].0).len() > 0);
            }
            assert forall|i: int| 0 <= i < descs.len() implies 0 <= (#[trigger] descs[i]).rank <= 4
                || exists|j: int|
                0 <= j < candidates.len() && (#[trigger] candidates[j]).1 == descs[i].rank by {
                if i < descs.len() - 1 {
                    assert(descs.drop_last()[i] == descs[i]);
                } else {
                    assert(candidates[candidates.len() - 1].1 == descs[i].rank);
                }
            }
        } else {
            lemma_descs_match_len(pattern, candidates.drop_last(), descs);
            if spec_any_hit(pattern, candidates) {
                let w = choose|i: int|
                    0 <= i < candidates.len() && found_ranges(
                        pattern,
                        (#[trigger] candidates[i]).0,
                    ).len() > 0;
                assert(w < candidates.len() - 1);
                assert(candidates.drop_last()[w] == candidates[w]);
                assert(spec_any_hit(pattern, candidates.drop_last()));
            }
        }
    }
}

/// Describe a profile's matching fields, appending to `descriptions`.
fn search_profile(matcher: &Matcher, user: &Profile, descriptions: &mut Vec<Description>)
    ensures
        final(descriptions)@.len() >= old(descriptions)@.len(),
        final(descriptions)@.subrange(0, old(descriptions)@.len() as int) == old(descriptions)@,
        spec_descs_match(
            matcher.spec_pattern(),
            spec_profile_candidates(*user),
            final(descriptions)@.subrange(
                old(descriptions)@.len() as int,
                final(descriptions)@.len() as int,
            ),
        ),
        final(descriptions)@.len() - old(descriptions)@.len() <= 4,
        forall|i: int|
            old(descriptions)@.len() <= i < final(descriptions)@.len()
                ==> (#[trigger] final(descriptions)@[i]).rank <= 2,
{
    let ghost p = matcher.spec_pattern();
    let ghost base = descriptions@.len() as int;
    let ghost empty_cands = Seq::<(Seq<char>, int)>::empty();
    let ghost cands0 = seq![(user.screen_name@, 2int)];
    proof {
        assert(spec_descs_match(p, empty_cands, Seq::<Description>::empty()));
    }
    match make_results(user.screen_name.as_str(), matcher, "Screen Name", 2) {
        Some(d) => {
            descriptions.push(d);
        },
        None => {},
    }
    let ghost added0 = descriptions@.subrange(base, descriptions@.len() as int);
    proof {
        assert(cands0.drop_last() =~= empty_cands);
        if found_ranges(p, user.screen_name@).len() > 0 {
            assert(added0 =~= seq![descriptions@[descriptions@.len() - 1]]);
            assert(added0.drop_last() =~= Seq::<Description>::empty());
        } else {
            assert(added0 =~= Seq::<Description>::empty());
        }
        assert(spec_descs_match(p, cands0, added0));
    }
    let ghost cands1 = cands0.push((user.name@, 2int));
    match make_results(user.name.as_str(), matcher, "Name", 2) {
        Some(d) => {
            descriptions.push(d);
        },
        None => {},
    }
    let ghost added1 = descriptions@.subrange(base, descriptions@.len() as int);
    proof {
        assert(cands1.drop_last() =~= cands0);
        if found_ranges(p, user.name@).len() > 0 {
            assert(added1.drop_last() =~= added0);
            assert(added1.last() == descriptions@[descriptions@.len() - 1]);
        } else {
            assert(added1 =~= added0);
        }
        assert(spec_descs_match(p, cands1, added1));
    }
    let ghost cands2 = (match &user.description {
        Some(d) => cands1.push((d@, 1int)),
        None => cands1,
    });
    match &user.description {
        Some(d) => {
            match make_results(d.as_str(), matcher, "Profile Description", 1) {
                Some(desc) => {
                    descriptions.push(desc);
                },
                None => {},
            }
            proof {
                let added = descriptions@.subrange(base, descriptions@.len() as int);
                assert(cands2.drop_last() =~= cands1);
                if found_ranges(p, d@).len() > 0 {
                    assert(added.drop_last() =~= added1);
                    assert(added.last() == descriptions@[descriptions@.len() - 1]);
                } else {
                    assert(added =~= added1);
                }
                assert(spec_descs_match(p, cands2, added));
            }
        },
        None => {},
    }
    let ghost added2 = descriptions@.subrange(base, descriptions@.len() as int);
    proof {
        assert(spec_descs_match(p, cands2, added2));
    }
    let ghost cands3 = (match &user.status {
        Some(s) => cands2.push((s.text@, 0int)),
        None => cands2,
    });
    match &user.status {
        Some(s) => {
            match make_results(s.text.as_str(), matcher, "Profile Status Tweet", 0) {
                Some(desc) => {
                    descriptions.push(desc);
                },
                None => {},
            }
            proof {
                let added = descriptions@.subrange(base, descriptions@.len() as int);
                assert(cands3.drop_last() =~= cands2);
                if found_ranges(p, s.text@).len() > 0 {
                    assert(added.drop_last() =~= added2);
                    assert(added.last() == descriptions@[descriptions@.len() - 1]);
                } else {
                    assert(added =~= added2);
                }
                assert(spec_descs_match(p, cands3, added));
            }
        },
        None => {},
    }
    proof {
        assert(cands3 =~= spec_profile_candidates(*user));
        assert(descriptions@.subrange(0, base) =~= old(descriptions)@);
    }
}

/// Describe a post's matching fields, appending to `descriptions`.
fn search_tweet(matcher: &Matcher, tweet: &Tweet, descriptions: &mut Vec<Description>)
    ensures
        final(descriptions)@.len() >= old(descriptions)@.len(),
        final(descriptions)@.subrange(0, old(descriptions)@.len() as int) == old(descriptions)@,
        spec_descs_match(
            matcher.spec_pattern(),
            spec_tweet_candidates(*tweet),
            final(descriptions)@.subrange(
                old(descriptions)@.len() as int,
                final(descriptions)@.len() as int,
            ),
        ),
        final(descriptions)@.len() - old(descriptions)@.len() <= 2,
        forall|i: int|
            old(descriptions)@.len() <= i < final(descriptions)@.len()
                ==> (#[trigger] final(descriptions)@[i]).rank <= 4,
{
    let ghost p = matcher.spec_pattern();
    let ghost base = descriptions@.len() as int;
    let ghost empty_cands = Seq::<(Seq<char>, int)>::empty();
    let ghost cands0 = seq![(tweet.text@, 4int)];
    proof {
        assert(spec_descs_match(p, empty_cands, Seq::<Description>::empty()));
    }
    match make_results(tweet.text.as_str(), matcher, "Tweet Text", 4) {
        Some(d) => {
            descriptions.push(d);
        },
        None => {},
    }
    let ghost added0 = descriptions@.subrange(base, descriptions@.len() as int);
    proof {
        assert(cands0.drop_last() =~= empty_cands);
        if found_ranges(p, tweet.text@).len() > 0 {
            assert(added0 =~= seq![descriptions@[descriptions@.len() - 1]]);
            assert(added0.drop_last() =~= Seq::<Description>::empty());
        } else {
            assert(added0 =~= Seq::<Description>::empty());
        }
        assert(spec_descs_match(p, cands0, added0));
    }
    let ghost cands1 = (match &tweet.quoted_status {
        Some(q) => cands0.push((q.text@, 1int)),
        None => cands0,
    });
    match &tweet.quoted_status {
        Some(q) => {
            match make_results(q.text.as_str(), matcher, "Tweet Quoted Text", 1) {
                Some(desc) => {
                    descriptions.push(desc);
                },
                None => {},
            }
            proof {
                let added = descriptions@.subrange(base, descriptions@.len() as int);
                assert(cands1.drop_last() =~= cands0);
                if found_ranges(p, q.text@).len() > 0 {
                    assert(added.drop_last() =~= added0);
                    assert(added.last() == descriptions@[descriptions@.len() - 1]);
                } else {
                    assert(added =~= added0);
                }
                assert(spec_descs_match(p, cands1, added));
            }
        },
        None => {},
    }
    proof {
        assert(cands1 =~= spec_tweet_candidates(*tweet));
        assert(descriptions@.subrange(0, base) =~= old(descriptions)@);
    }
}

// ---------------------------------------------------------------------
// Assembling and ordering results
// ---------------------------------------------------------------------
/// The sum of a list of description ranks.
pub open spec fn spec_rank_sum(descs: Seq<Description>) -> int
    decreases descs.len(),
{
    if descs.len() == 0 {
        0
    } else {
        spec_rank_sum(descs.drop_last()) + descs.last().rank
    }
}

/// Sum description ranks; the small bounds keep the sum well inside the
/// machine range.
fn rank_sum(descs: &Vec<Description>) -> (r: usize)
    requires
        descs@.len() <= 8,
        forall|i: int| 0 <= i < descs@.len() ==> (#[trigger] descs@[i]).rank <= 4,
    ensures
        r == spec_rank_sum(descs@),
{
    let n = descs.len();
    let mut sum: usize = 0;
    let mut i: usize = 0;
    proof {
        assert(descs@.subrange(0, 0) =~= Seq::<Description>::empty());
    }
    while i < n
        invariant
            n == descs@.len(),
            n <= 8,
            i <= n,
            forall|j: int| 0 <= j < descs@.len() ==> (#[trigger] descs@[j]).rank <= 4,
            sum == spec_rank_sum(descs@.subrange(0, i as int)),
            sum <= 4 * i,
        decreases n - i,
    {
        let ghost prefix = descs@.subrange(0, i as int);
        sum += descs[i].rank;
        i += 1;
        proof {
            let longer = descs@.subrange(0, i as int);
            assert(longer.drop_last() =~= prefix);
            assert(longer.last() == descs@[i - 1]);
        }
    }
    proof {
        assert(descs@.subrange(0, n as int) =~= descs@);
    }
    sum
}

/// Descriptions ordered by rank, most telling first.
pub open spec fn spec_sorted_by_rank(descs: Seq<Description>) -> bool {
    forall|i: int, j: int|
        0 <= i < j < descs.len() ==> (#[trigger] descs[i]).rank <= (#[trigger] descs[j]).rank
}

/// The position of a description with the lowest rank.
fn min_rank_index(descs: &Vec<Description>) -> (r: usize)
    requires
        descs@.len() > 0,
    ensures
        r < descs@.len(),
        forall|j: int| 0 <= j < descs@.len() ==> (#[trigger] descs@[j]).rank >= descs@[r as int].rank,
{
    let n = descs.len();
    let mut best: usize = 0;
    let mut i: usize = 1;
    while i < n
        invariant
            n == descs@.len(),
            1 <= i <= n,
            best < i,
            forall|j: int| 0 <= j < i ==> (#[trigger] descs@[j]).rank >= descs@[best as int].rank,
        decreases n - i,
    {
        if descs[i].rank < descs[best].rank {
            best = i;
        }
        i += 1;
    }
    best
}

/// Order descriptions by rank. The result holds exactly the given
/// descriptions.
fn sort_descriptions(descs: Vec<Description>) -> (r: Vec<Description>)
    ensures
        r@.to_multiset() == descs@.to_multiset(),
        r@.len() == descs@.len(),
        spec_sorted_by_rank(r@),
        forall|i: int| 0 <= i < r@.len() ==> descs@.contains(#[trigger] r@[i]),
{
    let ghost orig = descs@;
    let mut rest = descs;
    let mut out: Vec<Description> = Vec::new();
    proof {
        broadcast use vstd::seq_lib::group_to_multiset_ensures;
    }
    while rest.len() > 0
        invariant
            out@.to_multiset().add(rest@.to_multiset()) == orig.to_multiset(),
            out@.len() + rest@.len() == orig.len(),
            spec_sorted_by_rank(out@),
            forall|a: int, b: int|
                0 <= a < out@.len() && 0 <= b < rest@.len() ==> (#[trigger] out@[a]).rank <= (
                #[trigger] rest@[b]).rank,
            forall|a: int| 0 <= a < out@.len() ==> orig.contains(#[trigger] out@[a]),
            forall|b: int| 0 <= b < rest@.len() ==> orig.contains(#[trigger] rest@[b]),
        decreases rest@.len(),
    {
        let ghost rest_before = rest@;
        let ghost out_before = out@;
        let m = min_rank_index(&rest);
        let t = rest.remove(m);
        out.push(t);
        proof {
            broadcast use vstd::seq_lib::group_to_multiset_ensures;
            broadcast use vstd::multiset::group_multiset_axioms;

            assert(rest@ == rest_before.remove(m as int));
            assert(rest_before.remove(m as int).to_multiset() =~= rest_before.to_multiset().remove(
                rest_before[m as int],
            ));
            assert(out@ == out_before.push(t));
            assert(out_before.push(t).to_multiset() =~= out_before.to_multiset().insert(t));
            assert(rest_before.to_multiset().count(t) > 0) by {
                assert(rest_before.contains(t)) by {
                    assert(rest_before[m as int] == t);
                }
            }
            assert(out@.to_multiset().add(rest@.to_multiset()) =~= orig.to_multiset());
            assert(orig.contains(t)) by {
                assert(rest_before[m as int] == t);
            }
            assert forall|a: int, b: int|
                0 <= a < out@.len() && 0 <= b < rest@.len() implies (#[trigger] out@[a]).rank <= (
            #[trigger] rest@[b]).rank by {
                let b0 = if b < m {
                    b
                } else {
                    b + 1
                };
                assert(rest@[b] == rest_before[b0]);
                if a < out@.len() - 1 {
                    assert(out@[a] == out_before[a]);
                } else {
                    assert(out@[a] == t);
                }
            }
            assert forall|b: int| 0 <= b < rest@.len() implies orig.contains(
                #[trigger] rest@[b],
            ) by {
                let b0 = if b < m {
                    b
                } else {
                    b + 1
                };
                assert(rest@[b] == rest_before[b0]);
            }
            assert(spec_sorted_by_rank(out@));
        }
    }
    out
}

/// A search result carries at least one matched field, its descriptions
/// ordered by rank, and the sum of their ranks as its own rank.
pub open spec fn spec_result_wf(r: SearchResult) -> bool {
    &&& r.desc@.len() > 0
    &&& r.rank == spec_rank_sum(r.desc@)
    &&& spec_sorted_by_rank(r.desc@)
}

pub open spec fn spec_all_wf(rs: Seq<SearchResult>) -> bool {
    forall|i: int| 0 <= i < rs.len() ==> spec_result_wf(#[trigger] rs[i])
}

/// Whether some result points at this kind.
pub open spec fn spec_has_kind(rs: Seq<SearchResult>, k: Kind) -> bool {
    exists|i: int| 0 <= i < rs.len() && (#[trigger] rs[i]).kind == k
}

/// No two results point at the same item.
pub open spec fn spec_unique_kinds(rs: Seq<SearchResult>) -> bool {
    forall|i: int, j: int|
        0 <= i < j < rs.len() ==> (#[trigger] rs[i]).kind != (#[trigger] rs[j]).kind
}

/// Add a result, replacing any earlier result for the same item.
fn upsert_result(results: &mut Vec<SearchResult>, new: SearchResult)
    requires
        spec_unique_kinds(old(results)@),
    ensures
        spec_unique_kinds(final(results)@),
        final(results)@.len() <= old(results)@.len() + 1,
        forall|k: Kind|
            spec_has_kind(final(results)@, k) == (spec_has_kind(old(results)@, k) || k
                == new.kind),
        forall|i: int|
            0 <= i < final(results)@.len() ==> (#[trigger] final(results)@[i]) == new || old(
                results,
            )@.contains(final(results)@[i]),
{
    let ghost new_kind = new.kind;
    let n = results.len();
    let mut i: usize = 0;
    while i < n
        invariant
            *results == *old(results),
            spec_unique_kinds(results@),
            n == results@.len(),
            i <= n,
            forall|j: int| 0 <= j < i ==> (#[trigger] results@[j]).kind != new_kind,
            new.kind == new_kind,
        decreases n - i,
    {
        if results[i].kind == new.kind {
            let ghost before = results@;
            results[i] = new;
            proof {
                assert forall|a: int|
                    0 <= a < results@.len() implies (#[trigger] results@[a]).kind
                        == before[a].kind by {
                    if a != i {
                        assert(results@[a] == before[a]);
                    } else {
                        assert(before[a].kind == new_kind);
                    }
                }
                assert(spec_unique_kinds(results@));
                assert forall|k: Kind|
                    spec_has_kind(results@, k) == (spec_has_kind(before, k) || k
                        == new_kind) by {
                    if spec_has_kind(results@, k) {
                        let w = choose|w: int|
                            0 <= w < results@.len() && (#[trigger] results@[w]).kind == k;
                        if w != i {
                            assert(before[w].kind == k);
                        }
                    }
                    if spec_has_kind(before, k) {
                        let w = choose|w: int|
                            0 <= w < before.len() && (#[trigger] before[w]).kind == k;
                        if w != i {
                            assert(results@[w].kind == k);
                        } else {
                            assert(before[i as int].kind == new_kind);
                        }
                    }
                    if k == new_kind {
                        assert(results@[i as int].kind == k);
                    }
                }
                assert forall|a: int|
                    0 <= a < results@.len() implies (#[trigger] results@[a]) == new
                        || before.contains(results@[a]) by {
                    if a != i {
                        assert(results@[a] == before[a]);
                    }
                }
            }
            return ;
        }
        i += 1;
    }
    let ghost before = results@;
    results.push(new);
    proof {
        assert forall|k: Kind|
            spec_has_kind(results@, k) == (spec_has_kind(before, k) || k == new_kind) by {
            if spec_has_kind(results@, k) {
                let w = choose|w: int| 0 <= w < results@.len() && (#[trigger] results@[w]).kind == k;
                if w < results@.len() - 1 {
                    assert(before[w].kind == k);
                }
            }
            if spec_has_kind(before, k) {
                let w = choose|w: int| 0 <= w < before.len() && (#[trigger] before[w]).kind == k;
                assert(results@[w].kind == k);
            }
            if k == new_kind {
                assert(results@[results@.len() - 1].kind == k);
            }
        }
        assert forall|a: int|
            0 <= a < results@.len() implies (#[trigger] results@[a]) == new || before.contains(
            results@[a]) by {
            if a < results@.len() - 1 {
                assert(results@[a] == before[a]);
            }
        }
        assert(spec_unique_kinds(results@));
    }
}

/// All the fields one post is searched by: its author's fields when it
/// carries an author, then its own.
pub open spec fn spec_tweet_full_candidates(t: Tweet) -> Seq<(Seq<char>, int)> {
    (match t.user {
        Some(u) => spec_profile_candidates(*u),
        None => Seq::empty(),
    }) + spec_tweet_candidates(t)
}

/// Whether a post matches the pattern in any searched field.
pub open spec fn spec_tweet_hit(pattern: Seq<char>, t: Tweet) -> bool {
    spec_any_hit(pattern, spec_tweet_full_candidates(t))
}

/// Whether a profile matches the pattern in any searched field.
pub open spec fn spec_profile_hit(pattern: Seq<char>, u: Profile) -> bool {
    spec_any_hit(pattern, spec_profile_candidates(u))
}

/// Matching of concatenated candidate lists splits into matching parts.
proof fn lemma_descs_match_concat(
    p: Seq<char>,
    a: Seq<(Seq<char>, int)>,
    b: Seq<(Seq<char>, int)>,
    da: Seq<Description>,
    db: Seq<Description>,
)
    requires
        spec_descs_match(p, a, da),
        spec_descs_match(p, b, db),
    ensures
        spec_descs_match(p, a + b, da + db),
    decreases b.len(),
{
    if b.len() == 0 {
        assert(a + b =~= a);
        assert(da + db =~= da);
    } else {
        let content = b.last().0;
        assert((a + b).last() == b.last());
        assert((a + b).drop_last() =~= a + b.drop_last());
        if found_ranges(p, content).len() > 0 {
            lemma_descs_match_concat(p, a, b.drop_last(), da, db.drop_last());
            assert((da + db).last() == db.last());
            assert((da + db).drop_last() =~= da + db.drop_last());
        } else {
            lemma_descs_match_concat(p, a, b.drop_last(), da, db);
        }
    }
}

/// Search a post collection, adding or refreshing one result per matching
/// post.
fn search_tweets(matcher: &Matcher, tweets: &Vec<Tweet>, results: &mut Vec<SearchResult>)
    requires
        spec_unique_kinds(old(results)@),
        spec_all_wf(old(results)@),
    ensures
        spec_unique_kinds(final(results)@),
        spec_all_wf(final(results)@),
        forall|k: Kind|
            spec_has_kind(final(results)@, k) == (spec_has_kind(old(results)@, k) || exists|j: int|
                0 <= j < tweets@.len() && k == Kind::Tweet((#[trigger] tweets@[j]).id)
                    && spec_tweet_hit(matcher.spec_pattern(), tweets@[j])),
{
    let ghost p = matcher.spec_pattern();
    let n = tweets.len();
    let mut i: usize = 0;
    while i < n
        invariant
            n == tweets@.len(),
            i <= n,
            matcher.spec_pattern() == p,
            spec_unique_kinds(results@),
            spec_all_wf(results@),
            forall|k: Kind|
                spec_has_kind(results@, k) == (spec_has_kind(old(results)@, k) || exists|j: int|
                    0 <= j < i && k == Kind::Tweet((#[trigger] tweets@[j]).id) && spec_tweet_hit(
                        p,
                        tweets@[j],
                    )),
        decreases n - i,
    {
        let ghost results_before = results@;
        let tweet = &tweets[i];
        let mut descriptions: Vec<Description> = Vec::new();
        let ghost user_cands = (match &tweet.user {
            Some(u) => spec_profile_candidates(**u),
            None => Seq::<(Seq<char>, int)>::empty(),
        });
        match &tweet.user {
            Some(u) => {
                search_profile(matcher, u, &mut descriptions);
            },
            None => {},
        }
        let ghost user_descs = descriptions@;
        proof {
            assert(user_descs.subrange(0, user_descs.len() as int) =~= user_descs);
            if tweet.user is None {
                assert(spec_descs_match(p, user_cands, user_descs));
            }
        }
        search_tweet(matcher, tweet, &mut descriptions);
        proof {
            let own = descriptions@.subrange(user_descs.len() as int, descriptions@.len() as int);
            lemma_descs_match_concat(
                p,
                user_cands,
                spec_tweet_candidates(*tweet),
                user_descs,
                own,
            );
            assert(descriptions@ =~= user_descs + own);
            assert(user_cands + spec_tweet_candidates(*tweet) == spec_tweet_full_candidates(
                *tweet,
            ));
            assert(spec_descs_match(p, spec_tweet_full_candidates(*tweet), descriptions@));
            lemma_descs_match_len(p, spec_tweet_full_candidates(*tweet), descriptions@);
        }
        if descriptions.len() > 0 {
            let ghost raw = descriptions@;
            let sorted = sort_descriptions(descriptions);
            proof {
                assert forall|a: int|
                    0 <= a < sorted@.len() implies (#[trigger] sorted@[a]).rank <= 4 by {
                    assert(raw.contains(sorted@[a]));
                    let w = choose|w: int| 0 <= w < raw.len() && raw[w] == sorted@[a];
                }
            }
            let rank = rank_sum(&sorted);
            let new_result = SearchResult { kind: Kind::Tweet(tweet.id), desc: sorted, rank };
            upsert_result(results, new_result);
            proof {
                assert(spec_result_wf(new_result));
                assert forall|a: int|
                    0 <= a < results@.len() implies spec_result_wf(#[trigger] results@[a]) by {
                    if results@[a] != new_result {
                        assert(results_before.contains(results@[a]));
                        let w = choose|w: int|
                            0 <= w < results_before.len() && results_before[w] == results@[a];
                    }
                }
            }
        }
        i += 1;
        proof {
            assert forall|k: Kind|
                spec_has_kind(results@, k) == (spec_has_kind(old(results)@, k) || exists|j: int|
                    0 <= j < i && k == Kind::Tweet((#[trigger] tweets@[j]).id) && spec_tweet_hit(
                        p,
                        tweets@[j],
                    )) by {
                if spec_has_kind(results@, k) {
                }
                if exists|j: int|
                    0 <= j < i && k == Kind::Tweet((#[trigger] tweets@[j]).id) && spec_tweet_hit(
                        p,
                        tweets@[j],
                    ) {
                    let j = choose|j: int|
                        0 <= j < i && k == Kind::Tweet((#[trigger] tweets@[j]).id)
                            && spec_tweet_hit(p, tweets@[j]);
                    if j < i - 1 {
                        assert(spec_has_kind(results_before, k));
                    }
                }
            }
        }
    }
}

/// Search the profile table, adding or refreshing one result per matching
/// profile.
fn search_profiles(matcher: &Matcher, profiles: &IdKeyMap<Profile>, results: &mut Vec<SearchResult>)
    requires
        spec_unique_kinds(old(results)@),
        spec_all_wf(old(results)@),
    ensures
        spec_unique_kinds(final(results)@),
        spec_all_wf(final(results)@),
        forall|k: Kind|
            spec_has_kind(final(results)@, k) == (spec_has_kind(old(results)@, k) || exists|j: int|
                0 <= j < profiles.spec_pairs().len() && k == Kind::Profile(
                    (#[trigger] profiles.spec_pairs()[j]).1.id,
                ) && spec_profile_hit(matcher.spec_pattern(), profiles.spec_pairs()[j].1)),
{
    let ghost p = matcher.spec_pattern();
    let n = profiles.len();
    let mut i: usize = 0;
    while i < n
        invariant
            n == profiles.spec_pairs().len(),
            i <= n,
            matcher.spec_pattern() == p,
            spec_unique_kinds(results@),
            spec_all_wf(results@),
            forall|k: Kind|
                spec_has_kind(results@, k) == (spec_has_kind(old(results)@, k) || exists|j: int|
                    0 <= j < i && k == Kind::Profile(
                        (#[trigger] profiles.spec_pairs()[j]).1.id,
                    ) && spec_profile_hit(p, profiles.spec_pairs()[j].1)),
        decreases n - i,
    {
        let ghost results_before = results@;
        let user = profiles.value_at(i);
        let mut descriptions: Vec<Description> = Vec::new();
        search_profile(matcher, user, &mut descriptions);
        proof {
            assert(descriptions@.subrange(0, descriptions@.len() as int) =~= descriptions@);
            lemma_descs_match_len(p, spec_profile_candidates(*user), descriptions@);
        }
        if descriptions.len() > 0 {
            let ghost raw = descriptions@;
            let sorted = sort_descriptions(descriptions);
            proof {
                assert forall|a: int|
                    0 <= a < sorted@.len() implies (#[trigger] sorted@[a]).rank <= 4 by {
                    assert(raw.contains(sorted@[a]));
                    let w = choose|w: int| 0 <= w < raw.len() && raw[w] == sorted@[a];
                }
            }
            let rank = rank_sum(&sorted);
            let new_result = SearchResult { kind: Kind::Profile(user.id), desc: sorted, rank };
            upsert_result(results, new_result);
            proof {
                assert(spec_result_wf(new_result));
                assert forall|a: int|
                    0 <= a < results@.len() implies spec_result_wf(#[trigger] results@[a]) by {
                    if results@[a] != new_result {
                        assert(results_before.contains(results@[a]));
                        let w = choose|w: int|
                            0 <= w < results_before.len() && results_before[w] == results@[a];
                    }
                }
            }
        }
        i += 1;
        proof {
            assert forall|k: Kind|
                spec_has_kind(results@, k) == (spec_has_kind(old(results)@, k) || exists|j: int|
                    0 <= j < i && k == Kind::Profile(
                        (#[trigger] profiles.spec_pairs()[j]).1.id,
                    ) && spec_profile_hit(p, profiles.spec_pairs()[j].1)) by {
                if exists|j: int|
                    0 <= j < i && k == Kind::Profile(
                        (#[trigger] profiles.spec_pairs()[j]).1.id,
                    ) && spec_profile_hit(p, profiles.spec_pairs()[j].1) {
                    let j = choose|j: int|
                        0 <= j < i && k == Kind::Profile(
                            (#[trigger] profiles.spec_pairs()[j]).1.id,
                        ) && spec_profile_hit(p, profiles.spec_pairs()[j].1);
                    if j < i - 1 {
                        assert(spec_has_kind(results_before, k));
                    }
                }
            }
        }
    }
}

/// Results ordered by rank, most telling first.
pub open spec fn spec_results_sorted(rs: Seq<SearchResult>) -> bool {
    forall|i: int, j: int|
        0 <= i < j < rs.len() ==> (#[trigger] rs[i]).rank <= (#[trigger] rs[j]).rank
}

/// The position of a result with the lowest rank.
fn min_result_index(rs: &Vec<SearchResult>) -> (r: usize)
    requires
        rs@.len() > 0,
    ensures
        r < rs@.len(),
        forall|j: int| 0 <= j < rs@.len() ==> (#[trigger] rs@[j]).rank >= rs@[r as int].rank,
{
    let n = rs.len();
    let mut best: usize = 0;
    let mut i: usize = 1;
    while i < n
        invariant
            n == rs@.len(),
            1 <= i <= n,
            best < i,
            forall|j: int| 0 <= j < i ==> (#[trigger] rs@[j]).rank >= rs@[best as int].rank,
        decreases n - i,
    {
        if rs[i].rank < rs[best].rank {
            best = i;
        }
        i += 1;
    }
    best
}

/// Order results by rank: same results, same kinds, ascending rank.
fn sort_results(results: Vec<SearchResult>) -> (r: Vec<SearchResult>)
    requires
        spec_unique_kinds(results@),
        spec_all_wf(results@),
    ensures
        spec_results_sorted(r@),
        spec_unique_kinds(r@),
        spec_all_wf(r@),
        r@.len() == results@.len(),
        forall|k: Kind| spec_has_kind(r@, k) == spec_has_kind(results@, k),
{
    let ghost orig = results@;
    let mut rest = results;
    let mut out: Vec<SearchResult> = Vec::new();
    while rest.len() > 0
        invariant
            out@.len() + rest@.len() == orig.len(),
            spec_results_sorted(out@),
            spec_unique_kinds(out@),
            spec_unique_kinds(rest@),
            spec_all_wf(out@),
            spec_all_wf(rest@),
            forall|a: int, b: int|
                0 <= a < out@.len() && 0 <= b < rest@.len() ==> (#[trigger] out@[a]).rank <= (
                #[trigger] rest@[b]).rank,
            forall|a: int, b: int|
                0 <= a < out@.len() && 0 <= b < rest@.len() ==> (#[trigger] out@[a]).kind != (
                #[trigger] rest@[b]).kind,
            forall|k: Kind|
                (spec_has_kind(out@, k) || spec_has_kind(rest@, k)) == spec_has_kind(orig, k),
        decreases rest@.len(),
    {
        let ghost rest_before = rest@;
        let ghost out_before = out@;
        let m = min_result_index(&rest);
        let t = rest.remove(m);
        out.push(t);
        proof {
            assert(rest@ == rest_before.remove(m as int));
            assert(out@ == out_before.push(t));
            assert forall|b: int| 0 <= b < rest@.len() implies (#[trigger] rest@[b])
                == rest_before[rest_shift(b, m as int)] by {}
            assert forall|a: int, b: int|
                0 <= a < out@.len() && 0 <= b < rest@.len() implies (#[trigger] out@[a]).rank <= (
            #[trigger] rest@[b]).rank by {
                let b0 = rest_shift(b, m as int);
                assert(rest@[b] == rest_before[b0]);
                if a < out@.len() - 1 {
                    assert(out@[a] == out_before[a]);
                } else {
                    assert(out@[a] == t);
                }
            }
            assert forall|a: int, b: int|
                0 <= a < out@.len() && 0 <= b < rest@.len() implies (#[trigger] out@[a]).kind != (
            #[trigger] rest@[b]).kind by {
                let b0 = rest_shift(b, m as int);
                assert(rest@[b] == rest_before[b0]);
                if a < out@.len() - 1 {
                    assert(out@[a] == out_before[a]);
                } else {
                    assert(out@[a] == t);
                    assert(t == rest_before[m as int]);
                    if b0 < m {
                        assert(rest_before[b0].kind != rest_before[m as int].kind);
                    } else {
                        assert(rest_before[m as int].kind != rest_before[b0].kind);
                    }
                }
            }
            assert forall|a: int, b: int|
                0 <= a < b < out@.len() implies (#[trigger] out@[a]).kind != (
            #[trigger] out@[b]).kind by {
                if b < out@.len() - 1 {
                    assert(out@[a] == out_before[a] && out@[b] == out_before[b]);
                } else {
                    assert(out@[a] == out_before[a]);
                    assert(out@[b] == t);
                    assert(rest_before[m as int] == t);
                }
            }
            assert forall|a: int| 0 <= a < out@.len() implies spec_result_wf(
                #[trigger] out@[a],
            ) by {
                if a < out@.len() - 1 {
                    assert(out@[a] == out_before[a]);
                } else {
                    assert(out@[a] == t);
                    assert(rest_before[m as int] == t);
                }
            }
            assert forall|k: Kind|
                (spec_has_kind(out@, k) || spec_has_kind(rest@, k)) == spec_has_kind(orig, k) by {
                if spec_has_kind(out@, k) {
                    let w = choose|w: int| 0 <= w < out@.len() && (#[trigger] out@[w]).kind == k;
                    if w < out@.len() - 1 {
                        assert(out_before[w].kind == k);
                    } else {
                        assert(rest_before[m as int].kind == k);
                    }
                }
                if spec_has_kind(rest@, k) {
                    let w = choose|w: int| 0 <= w < rest@.len() && (#[trigger] rest@[w]).kind == k;
                    assert(rest_before[rest_shift(w, m as int)].kind == k);
                }
                if spec_has_kind(orig, k) {
                    if spec_has_kind(out_before, k) {
                        let w = choose|w: int|
                            0 <= w < out_before.len() && (#[trigger] out_before[w]).kind == k;
                        assert(out@[w].kind == k);
                    } else {
                        assert(spec_has_kind(rest_before, k));
                        let w = choose|w: int|
                            0 <= w < rest_before.len() && (#[trigger] rest_before[w]).kind == k;
                        if w == m {
                            assert(out@[out@.len() - 1].kind == k);
                        } else if w < m {
                            assert(rest@[w].kind == k);
                        } else {
                            assert(rest@[w - 1].kind == k);
                        }
                    }
                }
            }
            assert(spec_results_sorted(out@));
        }
    }
    out
}

/// Where a surviving element of a removal sat before it.
pub open spec fn rest_shift(b: int, m: int) -> int {
    if b < m {
        b
    } else {
        b + 1
    }
}

/// The kinds a search over `data` must report: one per matching item of
/// each searched collection.
pub open spec fn spec_kind_expected(
    pattern: Seq<char>,
    data: Data,
    options: Options,
    k: Kind,
) -> bool {
    ||| (options.tweets && exists|j: int|
        0 <= j < data.tweets@.len() && k == Kind::Tweet((#[trigger] data.tweets@[j]).id)
            && spec_tweet_hit(pattern, data.tweets@[j]))
    ||| (options.mentions && exists|j: int|
        0 <= j < data.mentions@.len() && k == Kind::Tweet((#[trigger] data.mentions@[j]).id)
            && spec_tweet_hit(pattern, data.mentions@[j]))
    ||| (options.responses && exists|a: int, b: int|
        0 <= a < data.responses.spec_pairs().len() && 0 <= b < (
        #[trigger] data.responses.spec_pairs()[a]).1@.len() && k == Kind::Tweet(
            (#[trigger] data.responses.spec_pairs()[a].1@[b]).id,
        ) && spec_tweet_hit(pattern, data.responses.spec_pairs()[a].1@[b]))
    ||| (options.profiles && exists|a: int|
        0 <= a < data.profiles.spec_pairs().len() && k == Kind::Profile(
            (#[trigger] data.profiles.spec_pairs()[a]).1.id,
        ) && spec_profile_hit(pattern, data.profiles.spec_pairs()[a].1))
}

/// Search the archive. When the term yields a usable pattern, the results
/// carry exactly one entry per matching item — ranked fields inside each
/// entry, entries ordered by rank; a term without a usable pattern finds
/// nothing.
pub fn search(term: String, data: &Data, options: Options) -> (r: Vec<SearchResult>)
    ensures
        ({
            let p = spec_search_pattern(term@);
            if regex_ok(p) {
                &&& spec_results_sorted(r@)
                &&& spec_unique_kinds(r@)
                &&& spec_all_wf(r@)
                &&& forall|k: Kind|
                    spec_has_kind(r@, k) == spec_kind_expected(p, *data, options, k)
            } else {
                r@.len() == 0
            }
        }),
{
    let ghost p = spec_search_pattern(term@);
    let matcher = match make_regex(term.as_str()) {
        Some(m) => m,
        None => {
            return Vec::new();
        },
    };
    let mut results: Vec<SearchResult> = Vec::new();
    let ghost after_none = results@;
    if options.tweets {
        search_tweets(&matcher, &data.tweets, &mut results);
    }
    let ghost after_tweets = results@;
    proof {
        assert forall|k: Kind|
            spec_has_kind(after_tweets, k) == (options.tweets && exists|j: int|
                0 <= j < data.tweets@.len() && k == Kind::Tweet((#[trigger] data.tweets@[j]).id)
                    && spec_tweet_hit(p, data.tweets@[j])) by {}
    }
    if options.mentions {
        search_tweets(&matcher, &data.mentions, &mut results);
    }
    let ghost after_mentions = results@;
    proof {
        assert forall|k: Kind|
            spec_has_kind(after_mentions, k) == ((options.tweets && exists|j: int|
                0 <= j < data.tweets@.len() && k == Kind::Tweet((#[trigger] data.tweets@[j]).id)
                    && spec_tweet_hit(p, data.tweets@[j])) || (options.mentions && exists|j: int|
                0 <= j < data.mentions@.len() && k == Kind::Tweet(
                    (#[trigger] data.mentions@[j]).id,
                ) && spec_tweet_hit(p, data.mentions@[j]))) by {}
    }
    if options.responses {
        let rn = data.responses.len();
        let mut j: usize = 0;
        while j < rn
            invariant
                rn == data.responses.spec_pairs().len(),
                j <= rn,
                matcher.spec_pattern() == p,
                spec_unique_kinds(results@),
                spec_all_wf(results@),
                forall|k: Kind|
                    spec_has_kind(results@, k) == (spec_has_kind(after_mentions, k) || exists|
                        a: int,
                        b: int,
                    |
                        0 <= a < j && 0 <= b < (
                        #[trigger] data.responses.spec_pairs()[a]).1@.len() && k == Kind::Tweet(
                            (#[trigger] data.responses.spec_pairs()[a].1@[b]).id,
                        ) && spec_tweet_hit(p, data.responses.spec_pairs()[a].1@[b])),
            decreases rn - j,
        {
            let ghost before = results@;
            let page = data.responses.value_at(j);
            search_tweets(&matcher, page, &mut results);
            j += 1;
            proof {
                let pairs = data.responses.spec_pairs();
                assert forall|k: Kind|
                    spec_has_kind(results@, k) == (spec_has_kind(after_mentions, k) || exists|
                        a: int,
                        b: int,
                    |
                        0 <= a < j && 0 <= b < (#[trigger] pairs[a]).1@.len() && k == Kind::Tweet(
                            (#[trigger] pairs[a].1@[b]).id,
                        ) && spec_tweet_hit(p, pairs[a].1@[b])) by {
                    if spec_has_kind(results@, k) && !spec_has_kind(after_mentions, k) {
                        if spec_has_kind(before, k) {
                            let (a, b) = choose|a: int, b: int|
                                0 <= a < j - 1 && 0 <= b < (#[trigger] pairs[a]).1@.len() && k
                                    == Kind::Tweet((#[trigger] pairs[a].1@[b]).id)
                                    && spec_tweet_hit(p, pairs[a].1@[b]);
                            assert(0 <= a < j && 0 <= b < pairs[a].1@.len() && k == Kind::Tweet(
                                pairs[a].1@[b].id,
                            ) && spec_tweet_hit(p, pairs[a].1@[b]));
                        } else {
                            let b = choose|b: int|
                                0 <= b < page@.len() && k == Kind::Tweet(
                                    (#[trigger] page@[b]).id,
                                ) && spec_tweet_hit(p, page@[b]);
                            assert(0 <= j - 1 < j && 0 <= b < pairs[j - 1].1@.len() && k
                                == Kind::Tweet(pairs[j - 1].1@[b].id) && spec_tweet_hit(
                                p,
                                pairs[j - 1].1@[b],
                            ));
                        }
                    }
                    if (spec_has_kind(after_mentions, k) || exists|a: int, b: int|
                        0 <= a < j && 0 <= b < (#[trigger] pairs[a]).1@.len() && k == Kind::Tweet(
                            (#[trigger] pairs[a].1@[b]).id,
                        ) && spec_tweet_hit(p, pairs[a].1@[b])) {
                        if spec_has_kind(after_mentions, k) {
                            assert(spec_has_kind(before, k));
                            assert(spec_has_kind(results@, k));
                        } else {
                            let (a, b) = choose|a: int, b: int|
                                0 <= a < j && 0 <= b < (#[trigger] pairs[a]).1@.len() && k
                                    == Kind::Tweet((#[trigger] pairs[a].1@[b]).id)
                                    && spec_tweet_hit(p, pairs[a].1@[b]);
                            if a < j - 1 {
                                assert(spec_has_kind(before, k));
                                assert(spec_has_kind(results@, k));
                            } else {
                                assert(0 <= b < page@.len() && k == Kind::Tweet(page@[b].id)
                                    && spec_tweet_hit(p, page@[b]));
                                assert(spec_has_kind(results@, k));
                            }
                        }
                    }
                }
            }
        }
    }
    let ghost after_responses = results@;
    proof {
        assert forall|k: Kind|
            spec_has_kind(after_responses, k) == (spec_has_kind(after_mentions, k) || (
            options.responses && exists|a: int, b: int|
                0 <= a < data.responses.spec_pairs().len() && 0 <= b < (
                #[trigger] data.responses.spec_pairs()[a]).1@.len() && k == Kind::Tweet(
                    (#[trigger] data.responses.spec_pairs()[a].1@[b]).id,
                ) && spec_tweet_hit(p, data.responses.spec_pairs()[a].1@[b]))) by {}
    }
    if options.profiles {
        search_profiles(&matcher, &data.profiles, &mut results);
    }
    proof {
        assert forall|k: Kind|
            spec_has_kind(results@, k) == spec_kind_expected(p, *data, options, k) by {}
    }
    let sorted = sort_results(results);
    sorted
}

} // verus!


