//! Identifiers and fetch plans of the MusicBrainz fetcher: UUID validation,
//! MBID extraction from raw input, and recognition of MusicBrainz URLs.
use crate::text::{
    chars_of, lemma_find_none, lemma_find_some, matches_at, split_first, split_second,
    split_second_string, string_of_range, trim, trim_bounds, trim_string,
};
use vstd::prelude::*;

verus! {

/// Which MusicBrainz entity an identifier names.
#[derive(Clone, Copy, Debug, PartialEq, Eq, Structural)]
pub enum EntityType {
    Release,
    ReleaseGroup,
}

/// What to fetch: a release, a release group, or every release of a release group.
#[derive(Clone, Copy, Debug, PartialEq, Eq, Structural)]
pub enum TargetKind {
    Release,
    ReleaseGroup,
    AllReleases,
}

/// Whether an existing output file may be replaced.
#[derive(Debug, Clone, Copy, PartialEq, Eq, Structural)]
pub enum OverwriteMode {
    Force,
    Preserve,
}

impl From<bool> for OverwriteMode {
    fn from(force: bool) -> (mode: Self) {
        if force {
            Self::Force
        } else {
            Self::Preserve
        }
    }
}

impl vstd::std_specs::convert::FromSpecImpl<bool> for OverwriteMode {
    open spec fn obeys_from_spec() -> bool {
        true
    }

    open spec fn from_spec(force: bool) -> Self {
        if force {
            OverwriteMode::Force
        } else {
            OverwriteMode::Preserve
        }
    }
}

/// A validated identifier together with what to fetch for it.
#[derive(Debug, Clone)]
pub struct FetchTarget {
    pub mbid: String,
    pub kind: TargetKind,
}

/// Everything one run of the fetcher needs to know.
#[derive(Debug, Clone)]
pub struct FetchPlan {
    pub target: FetchTarget,
    pub output_path: Option<String>,
    pub overwrite: OverwriteMode,
    pub retry_count: usize,
}

/// The number of characters of a UUID in its textual form.
pub const UUID_LENGTH: usize = 36;

/// Positions of the four hyphens in a textual UUID.
pub open spec fn is_hyphen_index(i: int) -> bool {
    i == 8 || i == 13 || i == 18 || i == 23
}

/// An ASCII hexadecimal digit.
pub open spec fn is_hex_digit(c: char) -> bool {
    ('0' <= c && c <= '9') || ('a' <= c && c <= 'f') || ('A' <= c && c <= 'F')
}

/// `s` has the shape `xxxxxxxx-xxxx-xxxx-xxxx-xxxxxxxxxxxx` with hexadecimal digits
/// (of either case) in place of the `x`.
pub open spec fn uuid_shaped(s: Seq<char>) -> bool {
    &&& s.len() == UUID_LENGTH
    &&& forall|i: int|
        0 <= i < UUID_LENGTH ==> if is_hyphen_index(i) {
            s[i] == '-'
        } else {
            is_hex_digit(#[trigger] s[i])
        }
}

/// Checks that `s` is a UUID in its 36-character textual form.
///
/// The check is byte-wise in spirit: a string that passes is pure ASCII, so its
/// length in characters and in bytes agree.
pub fn is_valid_uuid(s: &str) -> (b: bool)
    ensures
        b == uuid_shaped(s@),
{
    let cs = chars_of(s);
    if cs.len() != UUID_LENGTH {
        return false;
    }
    let mut i: usize = 0;
    while i < UUID_LENGTH
        invariant
            cs@ == s@,
            cs@.len() == UUID_LENGTH,
            i <= UUID_LENGTH,
            forall|j: int|
                0 <= j < i ==> if is_hyphen_index(j) {
                    cs@[j] == '-'
                } else {
                    is_hex_digit(#[trigger] cs@[j])
                },
        decreases UUID_LENGTH - i,
    {
        let c = cs[i];
        if i == 8 || i == 13 || i == 18 || i == 23 {
            if c != '-' {
                return false;
            }
        } else if !(('0' <= c && c <= '9') || ('a' <= c && c <= 'f') || ('A' <= c && c <= 'F')) {
            assert(!is_hex_digit(cs@[i as int]));
            return false;
        }
        i = i + 1;
    }
    true
}

/// Prefix of `cs` before the first `c`: `split(c).next()`.
pub fn prefix_before(cs: &Vec<char>, c: char) -> (r: Vec<char>)
    ensures
        r@ == split_first(cs@, seq![c]),
{
    let ghost p = seq![c];
    let mut i: usize = 0;
    while i < cs.len()
        invariant
            i <= cs@.len(),
            p == seq![c],
            forall|j: int| 0 <= j < i ==> #[trigger] cs@[j] != c,
        decreases cs@.len() - i,
    {
        if cs[i] == c {
            assert(cs@.subrange(i as int, i + 1) =~= p);
            assert forall|j: int| 0 <= j < i implies !matches_at(cs@, p, j) by {
                assert(cs@.subrange(j, j + 1)[0] == cs@[j]);
            }
            proof {
                lemma_find_some(cs@, p, i as int);
            }
            let mut r: Vec<char> = Vec::new();
            let mut k: usize = 0;
            while k < i
                invariant
                    k <= i < cs@.len(),
                    r@ == cs@.take(k as int),
                decreases i - k,
            {
                r.push(cs[k]);
                k = k + 1;
                assert(r@ =~= cs@.take(k as int));
            }
            return r;
        }
        i = i + 1;
    }
    assert forall|j: int| 0 <= j <= cs@.len() - 1 implies !matches_at(cs@, p, j) by {
        assert(cs@.subrange(j, j + 1)[0] == cs@[j]);
    }
    proof {
        lemma_find_none(cs@, p);
    }
    let mut r: Vec<char> = Vec::new();
    let mut k: usize = 0;
    while k < cs.len()
        invariant
            k <= cs@.len(),
            r@ == cs@.take(k as int),
        decreases cs@.len() - k,
    {
        r.push(cs[k]);
        k = k + 1;
        assert(r@ =~= cs@.take(k as int));
    }
    assert(r@ =~= cs@);
    r
}

/// The identifier part of a raw MBID or URL tail: everything before the first
/// `/`, `?` or `#`, with surrounding whitespace removed.
pub open spec fn mbid_core(raw: Seq<char>) -> Seq<char> {
    trim(split_first(split_first(split_first(raw, seq!['/']), seq!['?']), seq!['#']))
}

/// Extracts the MBID from a raw identifier that may carry a path, a query or a
/// fragment after it; `None` when nothing is left.
pub fn extract_mbid(raw: &str) -> (r: Option<String>)
    ensures
        match r {
            Some(id) => mbid_core(raw@).len() > 0 && id@ == mbid_core(raw@),
            None => mbid_core(raw@).len() == 0,
        },
{
    let cs = chars_of(raw);
    let a = prefix_before(&cs, '/');
    let b = prefix_before(&a, '?');
    let c = prefix_before(&b, '#');
    let (lo, hi) = trim_bounds(&c, 0, c.len());
    assert(c@.subrange(0, c@.len() as int) =~= c@);
    if lo == hi {
        None
    } else {
        Some(string_of_range(&c, lo, hi))
    }
}

/// The marker that introduces a release-group identifier in a MusicBrainz URL.
pub open spec fn release_group_marker() -> Seq<char> {
    "musicbrainz.org/release-group/"@
}

/// The marker that introduces a release identifier in a MusicBrainz URL.
pub open spec fn release_marker() -> Seq<char> {
    "musicbrainz.org/release/"@
}

/// Which entity a trimmed input names, and its identifier: a release-group URL
/// is recognised first; an empty identifier after a recognised marker gives
/// nothing.
pub open spec fn url_target(input: Seq<char>) -> Option<(Seq<char>, EntityType)> {
    let t = trim(input);
    match split_second(t, release_group_marker()) {
        Some(tail) => if mbid_core(tail).len() > 0 {
            Some((mbid_core(tail), EntityType::ReleaseGroup))
        } else {
            None
        },
        None => match split_second(t, release_marker()) {
            Some(tail) => if mbid_core(tail).len() > 0 {
                Some((mbid_core(tail), EntityType::Release))
            } else {
                None
            },
            None => None,
        },
    }
}

/// Recognises a MusicBrainz release or release-group URL and extracts its MBID.
pub fn parse_url(input: &str) -> (r: Option<(String, EntityType)>)
    ensures
        match r {
            Some((id, kind)) => url_target(input@) == Some((id@, kind)),
            None => url_target(input@) is None,
        },
{
    proof {
        reveal_strlit("musicbrainz.org/release-group/");
        reveal_strlit("musicbrainz.org/release/");
    }
    let trimmed = trim_string(input);
    if let Some(tail) = split_second_string(trimmed.as_str(), "musicbrainz.org/release-group/") {
        let id = extract_mbid(tail.as_str())?;
        return Some((id, EntityType::ReleaseGroup));
    }
    if let Some(tail) = split_second_string(trimmed.as_str(), "musicbrainz.org/release/") {
        let id = extract_mbid(tail.as_str())?;
        return Some((id, EntityType::Release));
    }
    None
}

} // verus!
