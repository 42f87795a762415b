//! Cover art for tag embedding: the content hash that tells covers apart, which
//! embedded picture stands for a file's cover, when the cover on disk must be
//! written again, and which pictures survive a rewrite.
use base64::Engine;
use vstd::prelude::*;

verus! {

/// The XXH64 hash of `data` with `seed`, as `xxhash_rust::xxh64::xxh64` computes it.
pub uninterp spec fn xxh64_of(data: Seq<u8>, seed: u64) -> u64;

/// Calls `xxhash_rust::xxh64::xxh64`; its result is named, not stated: XXH64 is
/// a function of the bytes and the seed alone.
#[verifier::external_body]
fn xxh64(data: &[u8], seed: u64) -> (h: u64)
    ensures
        h == xxh64_of(data@, seed),
{
    xxhash_rust::xxh64::xxh64(data, seed)
}

/// The character for a 6-bit value in the URL-safe base64 alphabet
/// `A-Z a-z 0-9 - _` (RFC 4648, section 5).
pub open spec fn b64_url_char(v: int) -> char {
    if v < 26 {
        (65 + v) as char
    } else if v < 52 {
        (97 + (v - 26)) as char
    } else if v < 62 {
        (48 + (v - 52)) as char
    } else if v == 62 {
        '-'
    } else {
        '_'
    }
}

/// URL-safe base64 without padding: every three bytes become four characters;
/// a trailing one or two bytes become two or three characters.
pub open spec fn base64_url_no_pad(bytes: Seq<u8>) -> Seq<char>
    decreases bytes.len(),
{
    if bytes.len() == 0 {
        Seq::empty()
    } else {
        let b0 = bytes[0] as int;
        let b1 = if bytes.len() > 1 {
            bytes[1] as int
        } else {
            0
        };
        let b2 = if bytes.len() > 2 {
            bytes[2] as int
        } else {
            0
        };
        let group = seq![
            b64_url_char(b0 / 4),
            b64_url_char((b0 % 4) * 16 + b1 / 16),
            b64_url_char((b1 % 16) * 4 + b2 / 64),
            b64_url_char(b2 % 64),
        ];
        if bytes.len() < 3 {
            group.take(bytes.len() + 1 as int)
        } else {
            group + base64_url_no_pad(bytes.skip(3))
        }
    }
}

/// Calls `Engine::encode` of `base64::engine::general_purpose::URL_SAFE_NO_PAD`,
/// which encodes with the URL-safe alphabet and no padding. The bound on the
/// length keeps the engine's size computation from overflowing, where it panics.
#[verifier::external_body]
fn encode_url_safe_no_pad(bytes: &[u8]) -> (s: String)
    requires
        bytes@.len() <= usize::MAX / 4,
    ensures
        s@ == base64_url_no_pad(bytes@),
{
    base64::engine::general_purpose::URL_SAFE_NO_PAD.encode(bytes)
}

/// The big-endian bytes of `h`, as `u64::to_be_bytes` gives them.
pub open spec fn be_bytes(h: u64) -> Seq<u8> {
    Seq::new(8, |k: int| (h >> ((56 - 8 * k) as u64)) as u8)
}

/// The seed the cover hash uses.
pub const HASH_SEED: u64 = 0;

/// The hash of a cover: the XXH64 of its bytes (seed 0), big-endian, in
/// URL-safe base64 without padding.
pub open spec fn cover_hash(data: Seq<u8>) -> Seq<char> {
    base64_url_no_pad(be_bytes(xxh64_of(data, HASH_SEED)))
}

/// Hashes cover bytes.
pub fn get_hash(data: &[u8]) -> (s: String)
    ensures
        s@ == cover_hash(data@),
{
    let h = xxh64(data, HASH_SEED);
    let mut bytes: Vec<u8> = Vec::new();
    let mut k: u64 = 0;
    while k < 8
        invariant
            k <= 8,
            bytes@ == be_bytes(h).take(k as int),
        decreases 8 - k,
    {
        bytes.push((h >> (56 - 8 * k)) as u8);
        k = k + 1;
        assert(bytes@ =~= be_bytes(h).take(k as int));
    }
    assert(bytes@ =~= be_bytes(h));
    encode_url_safe_no_pad(bytes.as_slice())
}

/// The picture that stands for a file's cover: the first front cover, or else
/// the first picture.
pub open spec fn cover_index(is_front: Seq<bool>) -> Option<int> {
    if exists|i: int| 0 <= i < is_front.len() && is_front[i] {
        Some(choose|i: int| 0 <= i < is_front.len() && is_front[i] && forall|j: int| 0 <= j < i ==> !is_front[j])
    } else if is_front.len() > 0 {
        Some(0)
    } else {
        None
    }
}

/// The first front cover is the picture standing for the cover.
pub proof fn lemma_cover_index_first(is_front: Seq<bool>, i: int)
    requires
        0 <= i < is_front.len(),
        is_front[i],
        forall|j: int| 0 <= j < i ==> !is_front[j],
    ensures
        cover_index(is_front) == Some(i),
{
    let c = choose|k: int| 0 <= k < is_front.len() && is_front[k] && forall|j: int| 0 <= j < k ==> !is_front[j];
    assert(c == i) by {
        if c < i {
            assert(!is_front[c]);
        } else if c > i {
            assert(!is_front[i]);
        }
    }
}

/// Without a front cover, the first picture stands for the cover.
pub proof fn lemma_cover_index_no_front(is_front: Seq<bool>)
    requires
        forall|j: int| 0 <= j < is_front.len() ==> !is_front[j],
    ensures
        cover_index(is_front) == (if is_front.len() > 0 { Some(0int) } else { None }),
{
}

/// Picks the picture whose hash identifies the embedded cover; `is_front[i]` tells
/// whether picture `i` is a front cover.
pub fn cover_picture_index(is_front: &Vec<bool>) -> (r: Option<usize>)
    ensures
        match r {
            Some(i) => cover_index(is_front@) == Some(i as int),
            None => cover_index(is_front@) is None,
        },
{
    let mut i: usize = 0;
    while i < is_front.len()
        invariant
            i <= is_front@.len(),
            forall|j: int| 0 <= j < i ==> !is_front@[j],
        decreases is_front@.len() - i,
    {
        if is_front[i] {
            proof {
                lemma_cover_index_first(is_front@, i as int);
            }
            return Some(i);
        }
        i = i + 1;
    }
    if is_front.len() > 0 {
        Some(0)
    } else {
        None
    }
}

/// Whether the embedded covers of the tracks are to be replaced by the cover on disk.
#[derive(Debug, Clone, Copy, PartialEq, Eq, Structural)]
pub enum CoverStatus {
    Update,
    Preserve,
}

/// What a file's tag shows of its cover: the hash of the picture standing for the
/// cover, and whether a front cover is among its pictures.
#[derive(Debug)]
pub struct EmbeddedCover {
    pub hash: Option<String>,
    pub has_front: bool,
}

/// A file needs the cover on disk when its cover hash differs from the disk
/// cover's, or when it has no front cover.
pub open spec fn needs_cover(disk_hash: Seq<char>, seen_hash: Option<Seq<char>>, has_front: bool) -> bool {
    seen_hash != Some(disk_hash) || !has_front
}

/// Whether one file calls for the cover on disk.
pub fn cover_needs_update(disk_hash: &str, seen: &EmbeddedCover) -> (b: bool)
    ensures
        b == needs_cover(disk_hash@, embedded_hash(*seen), seen.has_front),
{
    match &seen.hash {
        Some(h) => !crate::json::str_eq(h.as_str(), disk_hash) || !seen.has_front,
        None => true,
    }
}

/// Whether a picture survives a rewrite: with a new cover, other pictures go
/// entirely when others are deleted, else only the old front covers go; without
/// a new cover, deleting others keeps only the front covers.
pub open spec fn picture_kept(is_front: bool, new_cover: bool, delete_other: bool) -> bool {
    if new_cover {
        !delete_other && !is_front
    } else {
        !delete_other || is_front
    }
}

/// The indices, in order, of the pictures among the first `n` that survive.
pub open spec fn kept_pictures(is_front: Seq<bool>, n: int, new_cover: bool, delete_other: bool) -> Seq<usize>
    decreases n,
{
    if n <= 0 {
        Seq::empty()
    } else if picture_kept(is_front[n - 1], new_cover, delete_other) {
        kept_pictures(is_front, n - 1, new_cover, delete_other).push((n - 1) as usize)
    } else {
        kept_pictures(is_front, n - 1, new_cover, delete_other)
    }
}

/// The pictures that stay in a tag when it is rewritten; the new cover, if any,
/// goes after them.
pub fn surviving_pictures(is_front: &Vec<bool>, new_cover: bool, delete_other: bool) -> (kept: Vec<usize>)
    ensures
        kept@ == kept_pictures(is_front@, is_front@.len() as int, new_cover, delete_other),
{
    let mut kept: Vec<usize> = Vec::new();
    let mut i: usize = 0;
    while i < is_front.len()
        invariant
            i <= is_front@.len(),
            kept@ == kept_pictures(is_front@, i as int, new_cover, delete_other),
        decreases is_front@.len() - i,
    {
        let front = is_front[i];
        let keep = if new_cover {
            !delete_other && !front
        } else {
            !delete_other || front
        };
        if keep {
            kept.push(i);
        }
        i = i + 1;
    }
    kept
}

/// The front-cover flags of a tag's pictures, each given as its flag and its hash.
pub open spec fn fronts(pics: Seq<(bool, Seq<char>)>) -> Seq<bool> {
    Seq::new(pics.len(), |k: int| pics[k].0)
}

/// A tag's pictures after a rewrite: the survivors in order, then the new cover,
/// a front cover with hash `h`, when there is one.
pub open spec fn rewritten(pics: Seq<(bool, Seq<char>)>, new_cover: Option<Seq<char>>, delete_other: bool) -> Seq<
    (bool, Seq<char>),
> {
    let kept = kept_pictures(fronts(pics), pics.len() as int, new_cover is Some, delete_other);
    let rest = Seq::new(kept.len(), |k: int| pics[kept[k] as int]);
    match new_cover {
        Some(h) => rest.push((true, h)),
        None => rest,
    }
}

/// What reading a tag with these pictures shows of its cover: the hash of the
/// picture standing for the cover, and whether a front cover is among them.
pub open spec fn read_back(pics: Seq<(bool, Seq<char>)>) -> (Option<Seq<char>>, bool) {
    (
        match cover_index(fronts(pics)) {
            Some(i) => Some(pics[i].1),
            None => None,
        },
        fronts(pics).contains(true),
    )
}

/// The cover on disk is embedded only when the covers are to be updated and
/// there is a cover on disk.
pub fn writes_new_cover(status: CoverStatus, has_disk_cover: bool) -> (b: bool)
    ensures
        b == (status == CoverStatus::Update && has_disk_cover),
{
    status == CoverStatus::Update && has_disk_cover
}

/// Whether the covers are to be updated: only when there is a cover on disk and
/// some track's embedded cover calls for it.
pub open spec fn cover_status(disk_hash: Option<Seq<char>>, seen: Seq<EmbeddedCover>) -> CoverStatus {
    match disk_hash {
        None => CoverStatus::Preserve,
        Some(d) => if exists|i: int|
            0 <= i < seen.len() && needs_cover(
                d,
                #[trigger] embedded_hash(seen[i]),
                seen[i].has_front,
            ) {
            CoverStatus::Update
        } else {
            CoverStatus::Preserve
        },
    }
}

/// The text of an embedded cover hash.
pub open spec fn embedded_hash(e: EmbeddedCover) -> Option<Seq<char>> {
    match e.hash {
        Some(h) => Some(h@),
        None => None,
    }
}

/// Decides whether the cover on disk is to be embedded, from what the tracks'
/// tags show of their covers.
pub fn resolve_cover_status(disk_hash: Option<&str>, seen: &Vec<EmbeddedCover>) -> (s: CoverStatus)
    ensures
        s == cover_status(
            match disk_hash {
                Some(d) => Some(d@),
                None => None,
            },
            seen@,
        ),
{
    let disk = match disk_hash {
        Some(d) => d,
        None => return CoverStatus::Preserve,
    };
    let mut i: usize = 0;
    while i < seen.len()
        invariant
            i <= seen@.len(),
            disk_hash == Some(disk),
            forall|j: int|
                0 <= j < i ==> !needs_cover(
                    disk@,
                    #[trigger] embedded_hash(seen@[j]),
                    seen@[j].has_front,
                ),
        decreases seen@.len() - i,
    {
        if cover_needs_update(disk, &seen[i]) {
            assert(needs_cover(disk@, embedded_hash(seen@[i as int]), seen@[i as int].has_front));
            return CoverStatus::Update;
        }
        i = i + 1;
    }
    CoverStatus::Preserve
}

} // verus!
