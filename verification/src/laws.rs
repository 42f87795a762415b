//! Properties that hold across calls of the library's functions.
use crate::collect_models::{AlbumView, TrackView};
use crate::collect_musicbrainz::{
    artist_credits, best_release, credit_name, credits_text, first_matching, has_tracks,
    is_official, media_tracks, medium_disc, medium_has_tracks, medium_track_list, medium_tracks,
    release_matches, text_or_empty, track_from,
};
use crate::cover::{
    b64_url_char, base64_url_no_pad, be_bytes, cover_hash, cover_index, cover_status,
    embedded_hash, fronts, kept_pictures, lemma_cover_index_first, needs_cover, read_back,
    rewritten, CoverStatus, EmbeddedCover,
};
use crate::decimal::decimal;
use crate::fetch_cli::{kind_for, ResolveError};
use crate::fetch_models::{
    is_hex_digit, is_hyphen_index, mbid_core, uuid_shaped, EntityType, TargetKind,
};
use crate::json::Json;
use crate::manifest::{
    album_lines, join_lines, metadata_toml, multi_disc, number_line, quoted_line, text_or_none,
    track_lines, tracks_lines,
};
use crate::requests::{retry_step, Attempt, RetryAction, RetryState};
use crate::tags::{canonical, key_to_write_spec, tag_map, TagItem};
use crate::text::{
    is_ws, lemma_split_first_absent, lemma_split_first_char, lemma_trim_idempotent,
    lemma_trim_range, split_first, trim,
};
use vstd::prelude::*;

verus! {

/// The three cuts of `mbid_core` leave no `/`, `?` or `#`.
proof fn lemma_cuts_clean(raw: Seq<char>)
    ensures
        ({
            let u = split_first(split_first(split_first(raw, seq!['/']), seq!['?']), seq!['#']);
            forall|j: int| 0 <= j < u.len() ==> u[j] != '/' && u[j] != '?' && u[j] != '#'
        }),
{
    let u1 = split_first(raw, seq!['/']);
    let u2 = split_first(u1, seq!['?']);
    let u3 = split_first(u2, seq!['#']);
    lemma_split_first_char(raw, '/');
    lemma_split_first_char(u1, '?');
    lemma_split_first_char(u2, '#');
    assert forall|j: int| 0 <= j < u3.len() implies u3[j] != '/' && u3[j] != '?' && u3[j] != '#' by {
        assert(u3[j] == u2[j]);
        assert(u2[j] == u1[j]);
    }
}

/// A string without `/`, `?`, `#` passes the three cuts unchanged.
proof fn lemma_cuts_absent(s: Seq<char>)
    requires
        forall|j: int| 0 <= j < s.len() ==> s[j] != '/' && s[j] != '?' && s[j] != '#',
    ensures
        split_first(split_first(split_first(s, seq!['/']), seq!['?']), seq!['#']) == s,
{
    lemma_split_first_absent(s, '/');
    lemma_split_first_absent(s, '?');
    lemma_split_first_absent(s, '#');
}

/// Extracting an MBID from an extracted MBID gives it back unchanged.
pub proof fn extract_mbid_is_idempotent(raw: Seq<char>)
    ensures
        mbid_core(mbid_core(raw)) == mbid_core(raw),
{
    let u = split_first(split_first(split_first(raw, seq!['/']), seq!['?']), seq!['#']);
    lemma_cuts_clean(raw);
    let (a, b) = lemma_trim_range(u);
    let m = trim(u);
    assert forall|j: int| 0 <= j < m.len() implies m[j] != '/' && m[j] != '?' && m[j] != '#' by {
        assert(m[j] == u[a + j]);
    }
    lemma_cuts_absent(m);
    lemma_trim_idempotent(u);
}

/// A well-formed UUID is its own MBID: nothing is cut from it.
pub proof fn valid_uuid_is_its_own_mbid(s: Seq<char>)
    requires
        uuid_shaped(s),
    ensures
        mbid_core(s) == s,
{
    assert forall|j: int| 0 <= j < s.len() implies s[j] != '/' && s[j] != '?' && s[j] != '#' && !is_ws(s[j]) by {
        if is_hyphen_index(j) {
            assert(s[j] == '-');
        } else {
            assert(is_hex_digit(s[j]));
        }
    }
    lemma_cuts_absent(s);
    assert(!is_ws(s[0]) && !is_ws(s.last()));
    crate::text::lemma_trim_fixed(s);
}

/// The state and the number of retries after a run of request outcomes.
pub open spec fn retry_run(s: RetryState, outcomes: Seq<Attempt>) -> (RetryState, nat)
    decreases outcomes.len(),
{
    if outcomes.len() == 0 {
        (s, 0)
    } else {
        let (next, act) = retry_step(s, outcomes[0]);
        let (fin, n) = retry_run(next, outcomes.drop_first());
        (fin, if act == RetryAction::RetryLater {
            n + 1
        } else {
            n
        })
    }
}

/// However requests turn out, no more retries happen than the budget allows,
/// and every retry is counted in the attempts.
pub proof fn retries_stay_within_budget(s: RetryState, outcomes: Seq<Attempt>)
    requires
        s.attempts <= s.retry_count,
    ensures
        retry_run(s, outcomes).0.attempts == s.attempts + retry_run(s, outcomes).1,
        retry_run(s, outcomes).0.attempts <= s.retry_count,
        retry_run(s, outcomes).0.retry_count == s.retry_count,
    decreases outcomes.len(),
{
    if outcomes.len() > 0 {
        retries_stay_within_budget(retry_step(s, outcomes[0]).0, outcomes.drop_first());
    }
}

/// A successful response is always read, whatever retries were spent.
pub proof fn success_is_always_read(s: RetryState, status: u16)
    requires
        200 <= status <= 299,
    ensures
        retry_step(s, Attempt::Response(status)) == (s, RetryAction::ReadBody),
{
}

/// Every character of a URL-safe base64 text is a letter, a digit, `-` or `_`.
pub open spec fn url_safe(c: char) -> bool {
    ('A' <= c && c <= 'Z') || ('a' <= c && c <= 'z') || ('0' <= c && c <= '9') || c == '-' || c
        == '_'
}

proof fn lemma_b64_char_url_safe(v: int)
    requires
        0 <= v < 64,
    ensures
        url_safe(b64_url_char(v)),
{
}

/// Length and alphabet of URL-safe base64 without padding.
proof fn lemma_base64_shape(bytes: Seq<u8>)
    ensures
        base64_url_no_pad(bytes).len() == (if bytes.len() % 3 == 0 {
            bytes.len() / 3 * 4
        } else {
            bytes.len() / 3 * 4 + bytes.len() % 3 + 1
        }),
        forall|i: int|
            0 <= i < base64_url_no_pad(bytes).len() ==> url_safe(
                #[trigger] base64_url_no_pad(bytes)[i],
            ),
    decreases bytes.len(),
{
    if bytes.len() > 0 {
        let b0 = bytes[0] as int;
        let b1 = if bytes.len() > 1 {
            bytes[1] as int
        } else {
            0
        };
        let b2 = if bytes.len() > 2 {
            bytes[2] as int
        } else {
            0
        };
        lemma_b64_char_url_safe(b0 / 4);
        lemma_b64_char_url_safe((b0 % 4) * 16 + b1 / 16);
        lemma_b64_char_url_safe((b1 % 16) * 4 + b2 / 64);
        lemma_b64_char_url_safe(b2 % 64);
        let group = seq![
            b64_url_char(b0 / 4),
            b64_url_char((b0 % 4) * 16 + b1 / 16),
            b64_url_char((b1 % 16) * 4 + b2 / 64),
            b64_url_char(b2 % 64),
        ];
        if bytes.len() >= 3 {
            lemma_base64_shape(bytes.skip(3));
            let rest = base64_url_no_pad(bytes.skip(3));
            assert(base64_url_no_pad(bytes) == group + rest);
            assert forall|i: int| 0 <= i < (group + rest).len() implies url_safe(
                #[trigger] (group + rest)[i],
            ) by {
                if i >= 4 {
                    assert((group + rest)[i] == rest[i - 4]);
                }
            }
        }
    }
}

/// A cover hash is eleven characters of the URL-safe base64 alphabet.
pub proof fn cover_hash_has_fixed_shape(data: Seq<u8>)
    ensures
        cover_hash(data).len() == 11,
        forall|i: int| 0 <= i < 11 ==> url_safe(#[trigger] cover_hash(data)[i]),
{
    let h = crate::cover::xxh64_of(data, crate::cover::HASH_SEED);
    lemma_base64_shape(be_bytes(h));
}

/// Every key of a tag's text map carries a non-empty text, and is the canonical
/// key of some item with text.
pub proof fn tag_map_values_are_nonempty(items: Seq<TagItem>, lyrics: u64, unsync_lyrics: u64)
    ensures
        forall|k: u64| #[trigger]
            tag_map(items, lyrics, unsync_lyrics).contains_key(k) ==> tag_map(items, lyrics, unsync_lyrics)[k].len() > 0
                && exists|i: int|
                0 <= i < items.len() && canonical(items[i].key, lyrics, unsync_lyrics) == k
                    && items[i].text is Some,
    decreases items.len(),
{
    if items.len() > 0 {
        let d = items.drop_last();
        tag_map_values_are_nonempty(d, lyrics, unsync_lyrics);
        assert forall|k: u64| #[trigger] tag_map(items, lyrics, unsync_lyrics).contains_key(k) implies tag_map(
            items,
            lyrics,
            unsync_lyrics,
        )[k].len() > 0 && exists|i: int|
            0 <= i < items.len() && canonical(items[i].key, lyrics, unsync_lyrics) == k
                && items[i].text is Some by {
            if tag_map(d, lyrics, unsync_lyrics).contains_key(k) {
                let i = choose|i: int|
                    0 <= i < d.len() && canonical(d[i].key, lyrics, unsync_lyrics) == k
                        && d[i].text is Some;
                assert(items[i] == d[i]);
            } else {
                assert(canonical(items[items.len() - 1].key, lyrics, unsync_lyrics) == k);
            }
        }
    }
}

/// A text written under a key is read back under that key's canonical key:
/// lyrics written into an ID3v2 unsynchronised-lyrics frame read back as lyrics.
pub proof fn written_text_reads_back_under_its_key(
    key: u64,
    lyrics: u64,
    unsync_lyrics: u64,
    is_id3v2: bool,
)
    ensures
        canonical(key_to_write_spec(key, lyrics, unsync_lyrics, is_id3v2), lyrics, unsync_lyrics)
            == canonical(key, lyrics, unsync_lyrics),
{
}

/// When some release has tracks, the representative release has tracks; when
/// some official release has tracks, the representative one is official too.
pub proof fn best_release_prefers_tracks_and_official(rs: Seq<Json>)
    ensures
        (exists|i: int| 0 <= i < rs.len() && has_tracks(#[trigger] rs[i])) ==> (best_release(rs) matches Some(b) && 0 <= b < rs.len() && has_tracks(rs[b])),
        (exists|i: int| 0 <= i < rs.len() && has_tracks(#[trigger] rs[i]) && is_official(rs[i])) ==> (best_release(rs) matches Some(b) && 0 <= b < rs.len() && has_tracks(rs[b]) && is_official(rs[b])),
        rs.len() > 0 ==> best_release(rs) is Some,
{
    lemma_first_matching_found(rs, true);
    lemma_first_matching_found(rs, false);
}

/// `first_matching` finds a matching release whenever one exists.
proof fn lemma_first_matching_found(rs: Seq<Json>, official: bool)
    ensures
        (exists|i: int| 0 <= i < rs.len() && crate::collect_musicbrainz::release_matches(#[trigger] rs[i], official)) ==> (crate::collect_musicbrainz::first_matching(rs, official) matches Some(b) && 0 <= b < rs.len() && crate::collect_musicbrainz::release_matches(rs[b], official)),
        crate::collect_musicbrainz::first_matching(rs, official) matches Some(b) ==> 0 <= b < rs.len() && crate::collect_musicbrainz::release_matches(rs[b], official),
    decreases rs.len(),
{
    if rs.len() > 0 {
        let t = rs.drop_first();
        lemma_first_matching_found(t, official);
        if exists|i: int| 0 <= i < rs.len() && crate::collect_musicbrainz::release_matches(#[trigger] rs[i], official) {
            let i = choose|i: int| 0 <= i < rs.len() && crate::collect_musicbrainz::release_matches(#[trigger] rs[i], official);
            if i > 0 && !crate::collect_musicbrainz::release_matches(rs[0], official) {
                assert(t[i - 1] == rs[i]);
            }
        }
        if let Some(b) = crate::collect_musicbrainz::first_matching(t, official) {
            assert(t[b] == rs[b + 1]);
        }
    }
}

/// Survivors are listed in order, each an index below `n` of a picture kept by the rule.
proof fn lemma_kept_members(is_front: Seq<bool>, n: int, new_cover: bool, delete_other: bool)
    requires
        0 <= n <= is_front.len() <= usize::MAX,
    ensures
        forall|k: int|
            0 <= k < kept_pictures(is_front, n, new_cover, delete_other).len() ==> {
                let i = #[trigger] kept_pictures(is_front, n, new_cover, delete_other)[k] as int;
                0 <= i < n && crate::cover::picture_kept(is_front[i], new_cover, delete_other)
            },
        kept_pictures(is_front, n, new_cover, delete_other).len() <= n,
    decreases n,
{
    if n > 0 {
        lemma_kept_members(is_front, n - 1, new_cover, delete_other);
        let prev = kept_pictures(is_front, n - 1, new_cover, delete_other);
        let cur = kept_pictures(is_front, n, new_cover, delete_other);
        assert forall|k: int| 0 <= k < cur.len() implies {
            let i = #[trigger] cur[k] as int;
            0 <= i < n && crate::cover::picture_kept(is_front[i], new_cover, delete_other)
        } by {
            if k < prev.len() {
                assert(cur[k] == prev[k]);
            }
        }
    }
}

/// When a new cover is written, no old front cover survives, so the file ends
/// with exactly the new one; deleting other pictures as well leaves nothing old;
/// a rewrite without a new cover keeps every picture, or only the front covers
/// when other pictures are deleted.
pub proof fn rewritten_pictures(is_front: Seq<bool>, n: int)
    requires
        0 <= n <= is_front.len() <= usize::MAX,
    ensures
        forall|k: int| 0 <= k < kept_pictures(is_front, n, true, false).len() ==> !is_front[#[trigger] kept_pictures(is_front, n, true, false)[k] as int],
        kept_pictures(is_front, n, true, true).len() == 0,
        kept_pictures(is_front, n, false, false) == Seq::new(n as nat, |k: int| k as usize),
        forall|k: int| 0 <= k < kept_pictures(is_front, n, false, true).len() ==> is_front[#[trigger] kept_pictures(is_front, n, false, true)[k] as int],
    decreases n,
{
    lemma_kept_members(is_front, n, true, false);
    lemma_kept_members(is_front, n, true, true);
    lemma_kept_members(is_front, n, false, true);
    if n > 0 {
        rewritten_pictures(is_front, n - 1);
        assert(kept_pictures(is_front, n, false, false) =~= Seq::new(n as nat, |k: int| k as usize));
    }
}

/// Once a new cover is appended, it is the picture that stands for the cover:
/// reading the rewritten tag finds the new cover's hash and a front cover.
pub proof fn new_cover_is_read_back(pics: Seq<(bool, Seq<char>)>, h: Seq<char>, delete_other: bool)
    requires
        pics.len() <= usize::MAX,
    ensures
        cover_index(fronts(rewritten(pics, Some(h), delete_other))) == Some(
            rewritten(pics, Some(h), delete_other).len() - 1,
        ),
        read_back(rewritten(pics, Some(h), delete_other)) == (Some(h), true),
{
    let f = fronts(pics);
    let n = pics.len() as int;
    lemma_kept_members(f, n, true, delete_other);
    let kept = kept_pictures(f, n, true, delete_other);
    let after = rewritten(pics, Some(h), delete_other);
    let fa = fronts(after);
    let last = after.len() - 1;
    assert(last == kept.len());
    assert forall|j: int| 0 <= j < last implies !fa[j] by {
        let i = kept[j] as int;
        assert(after[j] == pics[i]);
        assert(f[i] == pics[i].0);
    }
    assert(fa[last]);
    lemma_cover_index_first(fa, last);
    assert(fa.contains(true));
}

/// When every file was rewritten with the cover on disk as its new cover, a
/// second run finds nothing to update.
pub proof fn second_run_preserves_cover(
    d: Seq<char>,
    pictures: Seq<Seq<(bool, Seq<char>)>>,
    delete_other: bool,
    seen: Seq<EmbeddedCover>,
)
    requires
        seen.len() == pictures.len(),
        forall|i: int|
            0 <= i < seen.len() ==> pictures[i].len() <= usize::MAX && (
            embedded_hash(#[trigger] seen[i]),
            seen[i].has_front,
        ) == read_back(rewritten(pictures[i], Some(d), delete_other)),
    ensures
        cover_status(Some(d), seen) == CoverStatus::Preserve,
{
    assert forall|i: int| 0 <= i < seen.len() implies !needs_cover(
        d,
        #[trigger] embedded_hash(seen[i]),
        seen[i].has_front,
    ) by {
        new_cover_is_read_back(pictures[i], d, delete_other);
    }
}

/// A response is read exactly when its status is 2xx. A server error (500 to
/// 599) or 429 Too Many Requests is retried while retries remain, spending one
/// of them; any other status is given up at once, and so is a retryable one
/// once the retries are spent.
pub proof fn response_statuses_decide_the_retry(s: RetryState, status: u16)
    ensures
        200 <= status <= 299 ==> retry_step(s, Attempt::Response(status)) == (
            s,
            RetryAction::ReadBody,
        ),
        ((500 <= status <= 599) || status == 429) && s.attempts < s.retry_count ==> retry_step(
            s,
            Attempt::Response(status),
        ) == (
            RetryState { attempts: (s.attempts + 1) as usize, retry_count: s.retry_count },
            RetryAction::RetryLater,
        ),
        ((500 <= status <= 599) || status == 429) && s.attempts >= s.retry_count ==> retry_step(
            s,
            Attempt::Response(status),
        ) == (s, RetryAction::GiveUpStatus),
        !(200 <= status <= 299) && !(500 <= status <= 599) && status != 429 ==> retry_step(
            s,
            Attempt::Response(status),
        ) == (s, RetryAction::GiveUpStatus),
{
}

/// A request that got no response is retried while retries remain, spending
/// one of them, and given up once they are spent.
pub proof fn failed_requests_are_retried_within_budget(s: RetryState)
    ensures
        s.attempts < s.retry_count ==> retry_step(s, Attempt::Failed) == (
            RetryState { attempts: (s.attempts + 1) as usize, retry_count: s.retry_count },
            RetryAction::RetryLater,
        ),
        s.attempts >= s.retry_count ==> retry_step(s, Attempt::Failed) == (
            s,
            RetryAction::GiveUpRequest,
        ),
{
}

/// A requested target, when accepted, is the kind fetched. A release accepts
/// only the target `release`; a release group accepts every target but
/// `release`. Asking for no target is the same as asking for the entity's own
/// kind: a release for a release, a release group for a release group.
pub proof fn requested_target_is_fetched(entity: EntityType, target: TargetKind)
    ensures
        kind_for(entity, Some(target)) matches Ok(k) ==> k == target,
        entity == EntityType::Release ==> (kind_for(entity, Some(target)) is Ok <==> target
            == TargetKind::Release),
        entity == EntityType::ReleaseGroup ==> (kind_for(entity, Some(target)) is Ok <==> target
            != TargetKind::Release),
        kind_for(EntityType::Release, None) == kind_for(
            EntityType::Release,
            Some(TargetKind::Release),
        ),
        kind_for(EntityType::Release, None) == Ok::<TargetKind, ResolveError>(TargetKind::Release),
        kind_for(EntityType::ReleaseGroup, None) == kind_for(
            EntityType::ReleaseGroup,
            Some(TargetKind::ReleaseGroup),
        ),
        kind_for(EntityType::ReleaseGroup, None) == Ok::<TargetKind, ResolveError>(
            TargetKind::ReleaseGroup,
        ),
{
}

/// `first_matching` finds nothing matching before the index it gives.
proof fn lemma_first_matching_is_least(rs: Seq<Json>, official: bool)
    ensures
        first_matching(rs, official) matches Some(b) ==> forall|j: int|
            0 <= j < b ==> !release_matches(#[trigger] rs[j], official),
    decreases rs.len(),
{
    if rs.len() > 0 && !release_matches(rs[0], official) {
        let t = rs.drop_first();
        lemma_first_matching_is_least(t, official);
        lemma_first_matching_found(rs, official);
        if let Some(b) = first_matching(rs, official) {
            assert forall|j: int| 0 <= j < b implies !release_matches(#[trigger] rs[j], official) by {
                if j > 0 {
                    assert(rs[j] == t[j - 1]);
                }
            }
        }
    }
}

/// When some release with tracks has the status text `Official`, exactly that
/// text, the representative release is the first such release: it has tracks,
/// its status is `Official`, and no release before it has both.
pub proof fn first_official_release_with_tracks_is_chosen(rs: Seq<Json>, i: int)
    requires
        0 <= i < rs.len(),
        has_tracks(rs[i]),
        match rs[i].field("status"@) {
            Some(st) => st.text() == Some("Official"@),
            None => false,
        },
    ensures
        best_release(rs) matches Some(b) && 0 <= b <= i && has_tracks(rs[b]) && (match rs[b].field(
            "status"@,
        ) {
            Some(st) => st.text() == Some("Official"@),
            None => false,
        }) && forall|j: int|
            0 <= j < b ==> !(has_tracks(#[trigger] rs[j]) && match rs[j].field("status"@) {
                Some(st) => st.text() == Some("Official"@),
                None => false,
            }),
{
    assert(release_matches(rs[i], true));
    lemma_first_matching_found(rs, true);
    lemma_first_matching_is_least(rs, true);
    let b = first_matching(rs, true)->0;
    assert(b <= i) by {
        if b > i {
            assert(!release_matches(rs[i], true));
        }
    }
    assert forall|j: int| 0 <= j < b implies !(has_tracks(#[trigger] rs[j]) && match rs[j].field(
        "status"@,
    ) {
        Some(st) => st.text() == Some("Official"@),
        None => false,
    }) by {
        assert(!release_matches(rs[j], true));
    }
}

/// The number a `position` field gives: its value when it is an integer that fits
/// in a `u32`, else the one-based place `idx + 1`.
pub open spec fn position_or(v: Option<Json>, idx: int) -> int {
    match v {
        Some(Json::Number(Some(n))) => if n <= u32::MAX {
            n as int
        } else {
            idx + 1
        },
        _ => idx + 1,
    }
}

/// A track shows entry `j` of medium `i`: the entry's title; the entry's
/// position as track number and the medium's position as disc number (each
/// falling back to the one-based place); and as artist the entry's formatted
/// artist credit exactly when that credit is non-empty and differs, as text,
/// from the album artist, otherwise no artist.
pub open spec fn shows_entry(t: TrackView, media: Seq<Json>, i: int, j: int, albumartist: Seq<char>) -> bool {
    let entry = medium_track_list(media[i])->0[j];
    let credit = artist_credits(entry.field("artist-credit"@));
    &&& t.title == text_or_empty(entry.field("title"@))
    &&& j + 1 <= u32::MAX ==> t.tracknumber == position_or(entry.field("position"@), j)
    &&& i + 1 <= u32::MAX ==> t.discnumber == position_or(media[i].field("position"@), i)
    &&& (credit.len() > 0 && credit != albumartist) ==> t.artist == Some(credit)
    &&& (credit.len() == 0 || credit == albumartist) ==> t.artist is None
}

/// Entry `j` of medium `i`'s track list, when there is one.
pub open spec fn entry_at(media: Seq<Json>, i: int, j: int) -> Option<Json> {
    if 0 <= i < media.len() {
        match medium_track_list(media[i]) {
            Some(ts) => if 0 <= j < ts.len() {
                Some(ts[j])
            } else {
                None
            },
            None => None,
        }
    } else {
        None
    }
}

/// The medium and entry that the `k`-th extracted track was built from.
proof fn track_source(media: Seq<Json>, albumartist: Seq<char>, k: int) -> (ij: (int, int))
    requires
        0 <= k < media_tracks(media, albumartist).len(),
    ensures
        entry_at(media, ij.0, ij.1) is Some,
        shows_entry(media_tracks(media, albumartist)[k], media, ij.0, ij.1, albumartist),
    decreases media.len(),
{
    let d = media.drop_last();
    let pre = media_tracks(d, albumartist);
    let n = media.len() - 1;
    assert(media_tracks(media, albumartist) == pre + medium_tracks(media[n], n, albumartist));
    if k < pre.len() {
        let ij = track_source(d, albumartist, k);
        assert(d[ij.0] == media[ij.0]);
        assert(entry_at(media, ij.0, ij.1) == entry_at(d, ij.0, ij.1));
        ij
    } else {
        let j = k - pre.len();
        let ts = medium_track_list(media[n])->0;
        assert(medium_track_list(media[n]) is Some);
        assert(media_tracks(media, albumartist)[k] == track_from(ts[j], medium_disc(media[n], n), j, albumartist));
        assert(entry_at(media, n, j) == Some(ts[j]));
        (n, j)
    }
}

/// Track `k` of the tracks extracted from `media` shows some entry of some
/// medium's track list.
pub open spec fn shows_some_entry(media: Seq<Json>, albumartist: Seq<char>, k: int) -> bool {
    exists|i: int, j: int|
        #[trigger] entry_at(media, i, j) is Some && shows_entry(
            media_tracks(media, albumartist)[k],
            media,
            i,
            j,
            albumartist,
        )
}

/// Every extracted track shows an entry of some medium's track list: it carries
/// that entry's title and position, the medium's position, and as artist the
/// entry's formatted artist credit exactly when that credit is non-empty and
/// differs, as text, from the album artist; otherwise it has no artist.
pub proof fn track_artists_follow_credits(media: Seq<Json>, albumartist: Seq<char>)
    ensures
        forall|k: int|
            0 <= k < media_tracks(media, albumartist).len() ==> #[trigger] shows_some_entry(
                media,
                albumartist,
                k,
            ),
{
    assert forall|k: int| 0 <= k < media_tracks(media, albumartist).len() implies #[trigger] shows_some_entry(
        media,
        albumartist,
        k,
    ) by {
        let ij = track_source(media, albumartist, k);
        assert(entry_at(media, ij.0, ij.1) is Some);
    }
}

/// Joining more lines after some lines keeps the join of the first ones in front.
proof fn lemma_join_keeps_prefix(a: Seq<Seq<char>>, b: Seq<Seq<char>>)
    requires
        a.len() > 0,
    ensures
        join_lines(a + b).len() >= join_lines(a).len(),
        join_lines(a + b).subrange(0, join_lines(a).len() as int) == join_lines(a),
    decreases b.len(),
{
    if b.len() == 0 {
        assert(a + b =~= a);
    } else {
        let c = a + b;
        assert(c.drop_last() =~= a + b.drop_last());
        lemma_join_keeps_prefix(a, b.drop_last());
        let p = join_lines(c.drop_last());
        assert(join_lines(c) == p + "\n"@ + c.last());
        assert(join_lines(c).subrange(0, join_lines(a).len() as int) =~= p.subrange(
            0,
            join_lines(a).len() as int,
        ));
    }
}

/// One more line joins after a newline.
proof fn lemma_join_step(a: Seq<Seq<char>>, k: int)
    requires
        1 <= k < a.len(),
    ensures
        join_lines(a.take(k + 1)) == join_lines(a.take(k)) + "\n"@ + a[k],
{
    assert(a.take(k + 1).drop_last() =~= a.take(k));
}

/// The album table joined: header, blank line, the three quoted texts, an empty
/// genre and a closing blank line.
proof fn lemma_album_table_text(escaped: AlbumView)
    ensures
        join_lines(album_lines(escaped)) == "[album]\n\nalbumartist = \""@ + escaped.albumartist
            + "\"\nalbum = \""@ + escaped.album + "\"\ndate = \""@ + escaped.date
            + "\"\ngenre = \"\"\n"@,
{
    reveal_strlit("[album]\n\nalbumartist = \"");
    reveal_strlit("\"\nalbum = \"");
    reveal_strlit("\"\ndate = \"");
    reveal_strlit("\"\ngenre = \"\"\n");
    reveal_strlit("[album]");
    reveal_strlit("albumartist");
    reveal_strlit("album");
    reveal_strlit("date");
    reveal_strlit(" = \"");
    reveal_strlit("\"");
    reveal_strlit("genre = \"\"");
    reveal_strlit("\n");
    let a = album_lines(escaped);
    assert(a.take(1) =~= seq![a[0]]);
    assert(join_lines(a.take(1)) == a[0]);
    lemma_join_step(a, 1);
    lemma_join_step(a, 2);
    lemma_join_step(a, 3);
    lemma_join_step(a, 4);
    lemma_join_step(a, 5);
    lemma_join_step(a, 6);
    assert(a.take(7) =~= a);
    assert(join_lines(a) =~= "[album]\n\nalbumartist = \""@ + escaped.albumartist
        + "\"\nalbum = \""@ + escaped.album + "\"\ndate = \""@ + escaped.date
        + "\"\ngenre = \"\"\n"@);
}

/// `metadata.toml` opens with the album table written from the escaped texts:
/// the header, a blank line, then `albumartist`, `album` and `date` quoted as
/// escaped, and an empty `genre`, whatever the collected texts are.
pub proof fn metadata_opens_with_escaped_album_table(data: AlbumView, escaped: AlbumView)
    ensures
        ({
            let head = "[album]\n\nalbumartist = \""@ + escaped.albumartist + "\"\nalbum = \""@
                + escaped.album + "\"\ndate = \""@ + escaped.date + "\"\ngenre = \"\"\n"@;
            &&& metadata_toml(data, escaped).len() >= head.len()
            &&& metadata_toml(data, escaped).subrange(0, head.len() as int) == head
        }),
{
    let a = album_lines(escaped);
    let t = tracks_lines(data.tracks, escaped.tracks, multi_disc(data.tracks), data.albumartist);
    lemma_join_keeps_prefix(a, t);
    lemma_album_table_text(escaped);
}

/// A release has tracks exactly when its `media` value is an array holding a
/// medium whose `tracks` value is a non-empty array.
pub proof fn releases_with_tracks(r: Json)
    ensures
        has_tracks(r) <==> ({
            &&& r.field("media"@) is Some
            &&& r.field("media"@)->0.items() is Some
            &&& exists|k: int|
                0 <= k < r.field("media"@)->0.items()->0.len() && {
                    let tracks = (#[trigger] r.field("media"@)->0.items()->0[k]).field("tracks"@);
                    &&& tracks is Some
                    &&& tracks->0.items() is Some
                    &&& tracks->0.items()->0.len() > 0
                }
        }),
{
    if r.field("media"@) is Some && r.field("media"@)->0.items() is Some {
        let ms = r.field("media"@)->0.items()->0;
        assert forall|k: int| 0 <= k < ms.len() implies (medium_has_tracks(#[trigger] ms[k]) <==> {
            let tracks = ms[k].field("tracks"@);
            &&& tracks is Some
            &&& tracks->0.items() is Some
            &&& tracks->0.items()->0.len() > 0
        }) by {}
    }
}

/// Without an official release with tracks, the representative release is the
/// first release with tracks; without any release with tracks, it is the first
/// release; and a release group without releases has none.
pub proof fn release_choice_falls_back(rs: Seq<Json>)
    ensures
        (forall|j: int|
            0 <= j < rs.len() ==> !(has_tracks(#[trigger] rs[j]) && match rs[j].field("status"@) {
                Some(st) => st.text() == Some("Official"@),
                None => false,
            })) ==> (forall|i: int|
            0 <= i < rs.len() && has_tracks(#[trigger] rs[i]) && (forall|j: int|
                0 <= j < i ==> !has_tracks(#[trigger] rs[j])) ==> best_release(rs) == Some(i)),
        (forall|j: int| 0 <= j < rs.len() ==> !has_tracks(#[trigger] rs[j])) ==> best_release(rs)
            == (if rs.len() > 0 {
            Some(0int)
        } else {
            None
        }),
{
    lemma_first_matching_found(rs, true);
    lemma_first_matching_found(rs, false);
    lemma_first_matching_is_least(rs, false);
    if forall|j: int|
        0 <= j < rs.len() ==> !(has_tracks(#[trigger] rs[j]) && match rs[j].field("status"@) {
            Some(st) => st.text() == Some("Official"@),
            None => false,
        }) {
        assert(first_matching(rs, true) is None) by {
            if let Some(b) = first_matching(rs, true) {
                assert(release_matches(rs[b], true));
                assert(!(has_tracks(rs[b]) && is_official(rs[b])));
            }
        }
        assert forall|i: int|
            0 <= i < rs.len() && has_tracks(#[trigger] rs[i]) && (forall|j: int|
                0 <= j < i ==> !has_tracks(#[trigger] rs[j])) implies best_release(rs) == Some(i) by {
            assert(release_matches(rs[i], false));
            let b = first_matching(rs, false)->0;
            if b < i {
                assert(!has_tracks(rs[b]));
            } else if b > i {
                assert(!release_matches(rs[i], false));
            }
        }
    }
    if forall|j: int| 0 <= j < rs.len() ==> !has_tracks(#[trigger] rs[j]) {
        assert(first_matching(rs, true) is None) by {
            if let Some(b) = first_matching(rs, true) {
                assert(release_matches(rs[b], true));
            }
        }
        assert(first_matching(rs, false) is None) by {
            if let Some(b) = first_matching(rs, false) {
                assert(release_matches(rs[b], false));
            }
        }
    }
}

/// The artist text of a credit list is the credits' texts one after another:
/// each credit gives its `name` (or its artist's `name`) and then its join
/// phrase, and two lists run together give their texts run together.
pub proof fn credit_texts_concatenate(xs: Seq<Json>, ys: Seq<Json>)
    ensures
        credits_text(xs + ys) == credits_text(xs) + credits_text(ys),
        forall|c: Json|
            #[trigger] credits_text(seq![c]) == (match c.field("name"@) {
                Some(n) => text_or_empty(Some(n)),
                None => match c.field("artist"@) {
                    Some(a) => text_or_empty(a.field("name"@)),
                    None => Seq::empty(),
                },
            }) + text_or_empty(c.field("joinphrase"@)),
    decreases ys.len(),
{
    if ys.len() == 0 {
        assert(xs + ys =~= xs);
        assert(credits_text(ys) =~= Seq::<char>::empty());
        assert(credits_text(xs) + credits_text(ys) =~= credits_text(xs));
    } else {
        assert((xs + ys).drop_last() =~= xs + ys.drop_last());
        credit_texts_concatenate(xs, ys.drop_last());
        assert(credits_text(xs + ys) =~= credits_text(xs) + credits_text(ys));
    }
    assert forall|c: Json| #[trigger] credits_text(seq![c]) == (match c.field("name"@) {
        Some(n) => text_or_empty(Some(n)),
        None => match c.field("artist"@) {
            Some(a) => text_or_empty(a.field("name"@)),
            None => Seq::empty(),
        },
    }) + text_or_empty(c.field("joinphrase"@)) by {
        assert(seq![c].drop_last() =~= Seq::<Json>::empty());
        assert(credits_text(Seq::<Json>::empty()) == Seq::<char>::empty());
        assert(credits_text(seq![c]) =~= Seq::<char>::empty() + credit_name(c) + text_or_empty(
            c.field("joinphrase"@),
        ));
    }
}

/// A track table: its header, the disc number when the album spans several
/// discs, the track number, the escaped title, the escaped artist only when the
/// track's artist differs from the album artist, and a closing blank line.
pub proof fn track_table_lines(t: TrackView, escaped: TrackView, multi: bool, albumartist: Seq<char>)
    ensures
        ({
            let l = track_lines(t, escaped, multi, albumartist);
            let o: int = if multi { 1 } else { 0 };
            let credited = t.artist matches Some(a) && a != albumartist;
            &&& l.len() == (if credited { 5 + o } else { 4 + o })
            &&& l[0] == "[[tracks]]"@
            &&& multi ==> l[1] == "discnumber = "@ + decimal(t.discnumber as nat)
            &&& l[1 + o] == "tracknumber = "@ + decimal(t.tracknumber as nat)
            &&& l[2 + o] == "title = \""@ + escaped.title + "\""@
            &&& credited ==> l[3 + o] == "artist = \""@ + text_or_none(escaped.artist) + "\""@
            &&& l[l.len() - 1] == Seq::<char>::empty()
        }),
{
    reveal_strlit("discnumber = ");
    reveal_strlit("discnumber");
    reveal_strlit("tracknumber = ");
    reveal_strlit("tracknumber");
    reveal_strlit("title = \"");
    reveal_strlit("title");
    reveal_strlit("artist = \"");
    reveal_strlit("artist");
    reveal_strlit(" = \"");
    reveal_strlit(" = ");
    reveal_strlit("\"");
    let l = track_lines(t, escaped, multi, albumartist);
    let o: int = if multi { 1 } else { 0 };
    assert(quoted_line("title"@, escaped.title) =~= "title = \""@ + escaped.title + "\""@);
    assert(quoted_line("artist"@, text_or_none(escaped.artist)) =~= "artist = \""@ + text_or_none(
        escaped.artist,
    ) + "\""@);
    assert(number_line("tracknumber"@, t.tracknumber) =~= "tracknumber = "@ + decimal(
        t.tracknumber as nat,
    ));
    assert(number_line("discnumber"@, t.discnumber) =~= "discnumber = "@ + decimal(
        t.discnumber as nat,
    ));
}

} // verus!
