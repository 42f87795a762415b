//! Filling an album from MusicBrainz JSON: artist credits, tracks of the media
//! of a release, the choice of a representative release of a release group,
//! and the request URLs of the web service.
use crate::collect_models::{opt_text, track_views, AlbumData, AlbumView, Track, TrackView};
use crate::decimal::{decimal, push_decimal};
use crate::fetch_models::{parse_url, url_target, EntityType};
use crate::json::{str_eq, Json};
use crate::text::{trim, trim_string};
use vstd::prelude::*;
use vstd::string::*;

verus! {

/// A MusicBrainz URL recognised by the collector.
#[derive(Debug)]
pub enum MbTargetUrl {
    Release(String),
    ReleaseGroup(String),
}

/// Recognises a MusicBrainz release or release-group URL.
pub fn parse_musicbrainz_url(opts: &str) -> (r: Option<MbTargetUrl>)
    ensures
        match url_target(opts@) {
            Some((id, EntityType::Release)) => r matches Some(MbTargetUrl::Release(x)) && x@ == id,
            Some((id, EntityType::ReleaseGroup)) => r matches Some(MbTargetUrl::ReleaseGroup(x))
                && x@ == id,
            None => r is None,
        },
{
    match parse_url(opts) {
        Some((id, EntityType::Release)) => Some(MbTargetUrl::Release(id)),
        Some((id, EntityType::ReleaseGroup)) => Some(MbTargetUrl::ReleaseGroup(id)),
        None => None,
    }
}

/// The value an optional borrowed JSON value refers to.
pub open spec fn deref_json(r: Option<&Json>) -> Option<Json> {
    match r {
        Some(x) => Some(*x),
        None => None,
    }
}

/// `v.and_then(Value::as_str).unwrap_or("")`.
pub open spec fn text_or_empty(v: Option<Json>) -> Seq<char> {
    match v {
        Some(j) => match j.text() {
            Some(t) => t,
            None => Seq::empty(),
        },
        None => Seq::empty(),
    }
}

/// The name of one artist credit: its own `name`, or else the `name` of its
/// `artist`.
pub open spec fn credit_name(item: Json) -> Seq<char> {
    match item.field("name"@) {
        Some(n) => text_or_empty(Some(n)),
        None => match item.field("artist"@) {
            Some(a) => text_or_empty(a.field("name"@)),
            None => Seq::empty(),
        },
    }
}

/// Names and join phrases of a list of artist credits, run together.
pub open spec fn credits_text(items: Seq<Json>) -> Seq<char>
    decreases items.len(),
{
    if items.len() == 0 {
        Seq::empty()
    } else {
        credits_text(items.drop_last()) + credit_name(items.last()) + text_or_empty(
            items.last().field("joinphrase"@),
        )
    }
}

/// The artist string of an `artist-credit` array, trimmed; empty when the value
/// is missing or not an array.
pub open spec fn artist_credits(val: Option<Json>) -> Seq<char> {
    match val {
        Some(v) => match v.items() {
            Some(arr) => trim(credits_text(arr)),
            None => Seq::empty(),
        },
        None => Seq::empty(),
    }
}

/// Appends the text of a JSON string to `out`; nothing for other values.
fn push_text(out: &mut String, v: Option<&Json>)
    ensures
        final(out)@ == old(out)@ + text_or_empty(deref_json(v)),
{
    if let Some(j) = v {
        if let Some(t) = j.as_str() {
            out.append(t);
            return ;
        }
    }
    assert(old(out)@ + Seq::<char>::empty() =~= old(out)@);
}

/// The text of a JSON string, or the empty string.
pub fn string_or_empty(v: Option<&Json>) -> (s: String)
    ensures
        s@ == text_or_empty(deref_json(v)),
{
    let mut s = String::new();
    push_text(&mut s, v);
    assert(Seq::<char>::empty() + text_or_empty(deref_json(v)) =~= text_or_empty(deref_json(v)));
    s
}

/// Formats an `artist-credit` array into one artist string.
pub fn format_mb_artist_credits(val: Option<&Json>) -> (s: String)
    ensures
        s@ == artist_credits(deref_json(val)),
{
    let arr = match val {
        Some(v) => match v.as_array() {
            Some(a) => a,
            None => return String::new(),
        },
        None => return String::new(),
    };
    let mut out = String::new();
    let mut i: usize = 0;
    while i < arr.len()
        invariant
            i <= arr@.len(),
            out@ == credits_text(arr@.take(i as int)),
        decreases arr@.len() - i,
    {
        let item = &arr[i];
        let ghost before = out@;
        match item.get("name") {
            Some(n) => push_text(&mut out, Some(n)),
            None => match item.get("artist") {
                Some(a) => push_text(&mut out, a.get("name")),
                None => {},
            },
        }
        assert(out@ =~= before + credit_name(*item));
        push_text(&mut out, item.get("joinphrase"));
        assert(arr@.take(i + 1).drop_last() =~= arr@.take(i as int));
        i = i + 1;
    }
    assert(arr@.take(arr@.len() as int) =~= arr@);
    trim_string(out.as_str())
}

/// A JSON number read as a `u32` when it is one, else `fallback`.
pub open spec fn number_or(v: Option<Json>, fallback: u32) -> u32 {
    match v {
        Some(j) => match j.unsigned() {
            Some(n) => if n <= u32::MAX {
                n as u32
            } else {
                fallback
            },
            None => fallback,
        },
        None => fallback,
    }
}

/// The one-based ordinal of index `idx`, saturating at `u32::MAX`.
pub open spec fn ordinal(idx: int) -> u32 {
    if idx + 1 <= u32::MAX {
        (idx + 1) as u32
    } else {
        u32::MAX
    }
}

/// The track built from entry `idx` of a medium's track list; the track artist is
/// kept only when it is non-empty and differs from the album artist.
pub open spec fn track_from(track: Json, disc: u32, idx: int, albumartist: Seq<char>) -> TrackView {
    let credit = artist_credits(track.field("artist-credit"@));
    TrackView {
        discnumber: disc,
        tracknumber: number_or(track.field("position"@), ordinal(idx)),
        title: text_or_empty(track.field("title"@)),
        artist: if credit.len() > 0 && credit != albumartist {
            Some(credit)
        } else {
            None
        },
    }
}

/// The disc number of medium `idx`.
pub open spec fn medium_disc(medium: Json, idx: int) -> u32 {
    number_or(medium.field("position"@), ordinal(idx))
}

/// The `tracks` array of a medium, when it is an array.
pub open spec fn medium_track_list(medium: Json) -> Option<Seq<Json>> {
    match medium.field("tracks"@) {
        Some(t) => t.items(),
        None => None,
    }
}

/// The tracks of medium `idx`; none when it has no `tracks` array.
pub open spec fn medium_tracks(medium: Json, idx: int, albumartist: Seq<char>) -> Seq<TrackView> {
    match medium_track_list(medium) {
        Some(ts) => Seq::new(
            ts.len(),
            |j: int| track_from(ts[j], medium_disc(medium, idx), j, albumartist),
        ),
        None => Seq::empty(),
    }
}

/// The tracks of a list of media, medium after medium.
pub open spec fn media_tracks(media: Seq<Json>, albumartist: Seq<char>) -> Seq<TrackView>
    decreases media.len(),
{
    if media.len() == 0 {
        Seq::empty()
    } else {
        media_tracks(media.drop_last(), albumartist) + medium_tracks(
            media.last(),
            media.len() - 1,
            albumartist,
        )
    }
}

/// The tracks of a `media` value; none when it is missing or not an array.
pub open spec fn tracks_from_media(val: Option<Json>, albumartist: Seq<char>) -> Seq<TrackView> {
    match val {
        Some(v) => match v.items() {
            Some(media) => media_tracks(media, albumartist),
            None => Seq::empty(),
        },
        None => Seq::empty(),
    }
}

/// `number_or` on a borrowed value.
fn read_number_or(v: Option<&Json>, fallback: u32) -> (n: u32)
    ensures
        n == number_or(deref_json(v), fallback),
{
    match v {
        Some(j) => match j.as_u64() {
            Some(p) => if p <= u32::MAX as u64 {
                p as u32
            } else {
                fallback
            },
            None => fallback,
        },
        None => fallback,
    }
}

/// `ordinal` of a machine index.
fn ordinal_of(idx: usize) -> (n: u32)
    ensures
        n == ordinal(idx as int),
{
    if idx < u32::MAX as usize {
        (idx + 1) as u32
    } else {
        u32::MAX
    }
}

/// The track built from entry `idx` of a medium.
fn build_track(track: &Json, disc: u32, idx: usize, albumartist: &str) -> (t: Track)
    ensures
        t@ == track_from(*track, disc, idx as int, albumartist@),
{
    let track_no = read_number_or(track.get("position"), ordinal_of(idx));
    let title = string_or_empty(track.get("title"));
    let artist_credit = format_mb_artist_credits(track.get("artist-credit"));
    let keep = !artist_credit.as_str().is_empty() && !str_eq(artist_credit.as_str(), albumartist);
    let artist = if keep {
        Some(artist_credit)
    } else {
        None
    };
    Track { discnumber: disc, tracknumber: track_no, title, artist }
}

/// Builds the track list of a release from its `media` value.
pub fn extract_tracks_from_media(media_val: Option<&Json>, albumartist: &str) -> (tracks: Vec<
    Track,
>)
    ensures
        track_views(tracks@) == tracks_from_media(deref_json(media_val), albumartist@),
{
    let mut tracks: Vec<Track> = Vec::new();
    let media_arr = match media_val {
        Some(v) => match v.as_array() {
            Some(a) => a,
            None => return tracks,
        },
        None => return tracks,
    };
    let mut i: usize = 0;
    while i < media_arr.len()
        invariant
            i <= media_arr@.len(),
            track_views(tracks@) == media_tracks(media_arr@.take(i as int), albumartist@),
        decreases media_arr@.len() - i,
    {
        let medium = &media_arr[i];
        let disc_no = read_number_or(medium.get("position"), ordinal_of(i));
        let ghost base = track_views(tracks@);
        assert(media_arr@.take(i + 1).drop_last() =~= media_arr@.take(i as int));
        if let Some(tl) = medium.get("tracks") {
            if let Some(track_arr) = tl.as_array() {
                let mut j: usize = 0;
                while j < track_arr.len()
                    invariant
                        j <= track_arr@.len(),
                        medium_track_list(*medium) == Some(track_arr@),
                        disc_no == medium_disc(*medium, i as int),
                        track_views(tracks@) == base + Seq::new(
                            j as nat,
                            |k: int| track_from(track_arr@[k], disc_no, k, albumartist@),
                        ),
                    decreases track_arr@.len() - j,
                {
                    let t = build_track(&track_arr[j], disc_no, j, albumartist);
                    let ghost before = tracks@;
                    tracks.push(t);
                    assert(track_views(tracks@) =~= track_views(before).push(t@));
                    assert(track_views(tracks@) =~= base + Seq::new(
                        (j + 1) as nat,
                        |k: int| track_from(track_arr@[k], disc_no, k, albumartist@),
                    ));
                    j = j + 1;
                }
                assert(track_views(tracks@) =~= media_tracks(
                    media_arr@.take(i + 1),
                    albumartist@,
                ));
                i = i + 1;
                continue;
            }
        }
        assert(medium_tracks(*medium, i as int, albumartist@) =~= Seq::<TrackView>::empty());
        assert(track_views(tracks@) =~= media_tracks(media_arr@.take(i + 1), albumartist@));
        i = i + 1;
    }
    assert(media_arr@.take(media_arr@.len() as int) =~= media_arr@);
    tracks
}

/// The first index of `rs` holding a release with tracks, official ones only
/// when `official` is set.
pub open spec fn first_matching(rs: Seq<Json>, official: bool) -> Option<int>
    decreases rs.len(),
{
    if rs.len() == 0 {
        None
    } else if release_matches(rs[0], official) {
        Some(0)
    } else {
        match first_matching(rs.drop_first(), official) {
            Some(k) => Some(k + 1),
            None => None,
        }
    }
}

/// `first_matching` is the least index whose release matches.
pub proof fn lemma_first_matching(rs: Seq<Json>, official: bool, k: int)
    requires
        0 <= k <= rs.len(),
        forall|j: int| 0 <= j < k ==> !release_matches(#[trigger] rs[j], official),
        k < rs.len() ==> release_matches(rs[k], official),
    ensures
        first_matching(rs, official) == (if k < rs.len() {
            Some(k)
        } else {
            None::<int>
        }),
    decreases k,
{
    if k > 0 {
        assert(!release_matches(rs[0], official));
        let t = rs.drop_first();
        assert forall|j: int| 0 <= j < k - 1 implies !release_matches(#[trigger] t[j], official) by {
            assert(t[j] == rs[j + 1]);
        }
        lemma_first_matching(t, official, k - 1);
    }
}

/// A release with tracks, and official too when `official` is set.
pub open spec fn release_matches(r: Json, official: bool) -> bool {
    if official {
        has_tracks(r) && is_official(r)
    } else {
        has_tracks(r)
    }
}

/// A medium with a non-empty `tracks` array.
pub open spec fn medium_has_tracks(m: Json) -> bool {
    match medium_track_list(m) {
        Some(ts) => ts.len() > 0,
        None => false,
    }
}

/// A release whose `media` array holds a medium with tracks.
pub open spec fn has_tracks(r: Json) -> bool {
    match r.field("media"@) {
        Some(m) => match m.items() {
            Some(ms) => exists|k: int| 0 <= k < ms.len() && medium_has_tracks(#[trigger] ms[k]),
            None => false,
        },
        None => false,
    }
}

/// A release whose `status` is `Official`.
pub open spec fn is_official(r: Json) -> bool {
    match r.field("status"@) {
        Some(s) => s.text() == Some("Official"@),
        None => false,
    }
}

/// The release that represents a release group: the first official release with
/// tracks, else the first release with tracks, else the first release.
pub open spec fn best_release(rs: Seq<Json>) -> Option<int> {
    match first_matching(rs, true) {
        Some(i) => Some(i),
        None => match first_matching(rs, false) {
            Some(i) => Some(i),
            None => if rs.len() > 0 {
                Some(0)
            } else {
                None
            },
        },
    }
}

/// Whether a release has a medium with tracks.
fn release_has_tracks(r: &Json) -> (b: bool)
    ensures
        b == has_tracks(*r),
{
    let media = match r.get("media") {
        Some(m) => match m.as_array() {
            Some(a) => a,
            None => return false,
        },
        None => return false,
    };
    let mut k: usize = 0;
    while k < media.len()
        invariant
            k <= media@.len(),
            r.field("media"@) is Some,
            r.field("media"@).unwrap().items() == Some(media@),
            forall|j: int| 0 <= j < k ==> !medium_has_tracks(#[trigger] media@[j]),
        decreases media@.len() - k,
    {
        let found = match media[k].get("tracks") {
            Some(t) => match t.as_array() {
                Some(ts) => ts.len() > 0,
                None => false,
            },
            None => false,
        };
        if found {
            assert(medium_has_tracks(r.field("media"@).unwrap().items().unwrap()[k as int]));
            return true;
        }
        k = k + 1;
    }
    false
}

/// Whether a release is official.
fn release_is_official(r: &Json) -> (b: bool)
    ensures
        b == is_official(*r),
{
    match r.get("status") {
        Some(s) => match s.as_str() {
            Some(t) => str_eq(t, "Official"),
            None => false,
        },
        None => false,
    }
}

/// Picks the release that represents a release group.
pub fn select_best_release(releases: &[Json]) -> (r: Option<&Json>)
    ensures
        match r {
            Some(v) => best_release(releases@) matches Some(i) && 0 <= i < releases@.len() && *v
                == releases@[i],
            None => best_release(releases@) is None,
        },
{
    let mut first_with_tracks: Option<usize> = None;
    let mut i: usize = 0;
    while i < releases.len()
        invariant
            i <= releases@.len(),
            forall|j: int| 0 <= j < i ==> !release_matches(#[trigger] releases@[j], true),
            match first_with_tracks {
                Some(k) => k < i && release_matches(releases@[k as int], false) && forall|j: int|
                    0 <= j < k ==> !release_matches(#[trigger] releases@[j], false),
                None => forall|j: int| 0 <= j < i ==> !release_matches(#[trigger] releases@[j], false),
            },
        decreases releases@.len() - i,
    {
        let with_tracks = release_has_tracks(&releases[i]);
        if with_tracks && release_is_official(&releases[i]) {
            proof {
                lemma_first_matching(releases@, true, i as int);
            }
            return Some(&releases[i]);
        }
        if with_tracks && first_with_tracks.is_none() {
            first_with_tracks = Some(i);
        }
        i = i + 1;
    }
    proof {
        lemma_first_matching(releases@, true, releases@.len() as int);
    }
    match first_with_tracks {
        Some(k) => {
            proof {
                lemma_first_matching(releases@, false, k as int);
            }
            Some(&releases[k])
        },
        None => {
            proof {
                lemma_first_matching(releases@, false, releases@.len() as int);
            }
            if releases.len() > 0 {
                Some(&releases[0])
            } else {
                None
            }
        },
    }
}

/// The album a release describes: title, artist credit, date and the tracks of
/// its media.
pub open spec fn album_from_release(release: Json) -> AlbumView {
    let albumartist = artist_credits(release.field("artist-credit"@));
    AlbumView {
        albumartist,
        album: text_or_empty(release.field("title"@)),
        date: text_or_empty(release.field("date"@)),
        tracks: tracks_from_media(release.field("media"@), albumartist),
    }
}

/// Fills the album from a release.
pub fn fill_from_mb_release(release_val: &Json, data: &mut AlbumData)
    ensures
        final(data)@ == album_from_release(*release_val),
{
    data.album = string_or_empty(release_val.get("title"));
    data.albumartist = format_mb_artist_credits(release_val.get("artist-credit"));
    data.date = string_or_empty(release_val.get("date"));
    data.tracks = extract_tracks_from_media(release_val.get("media"), data.albumartist.as_str());
}

/// The release group whose first release date is to be looked up after a
/// release was read: only when the release gave no date.
pub open spec fn date_lookup_group(data: AlbumView, release: Json) -> Option<Seq<char>> {
    if data.date.len() == 0 {
        match release.field("release-group"@) {
            Some(rg) => match rg.field("id"@) {
                Some(id) => id.text(),
                None => None,
            },
            None => None,
        }
    } else {
        None
    }
}

/// The release-group identifier to consult for a date, if any.
pub fn release_group_for_date(data: &AlbumData, release_val: &Json) -> (r: Option<String>)
    ensures
        opt_text(r) == date_lookup_group(data@, *release_val),
{
    if !data.date.as_str().is_empty() {
        return None;
    }
    match release_val.get("release-group") {
        Some(rg) => match rg.get("id") {
            Some(id) => match id.as_str() {
                Some(s) => Some(s.to_owned()),
                None => None,
            },
            None => None,
        },
        None => None,
    }
}

/// Takes the date from the `first-release-date` of a release group, when it has
/// one.
pub fn apply_first_release_date(data: &mut AlbumData, rg_val: &Json)
    ensures
        final(data)@ == (match rg_val.field("first-release-date"@) {
            Some(d) => match d.text() {
                Some(t) => AlbumView { date: t, ..old(data)@ },
                None => old(data)@,
            },
            None => old(data)@,
        }),
{
    if let Some(d) = rg_val.get("first-release-date") {
        if let Some(t) = d.as_str() {
            data.date = t.to_owned();
        }
    }
}

/// Fills title, artist credit and first release date from a release group; the
/// tracks are left as they are.
pub fn fill_from_release_group(rg_val: &Json, data: &mut AlbumData)
    ensures
        final(data)@ == (AlbumView {
            album: text_or_empty(rg_val.field("title"@)),
            albumartist: artist_credits(rg_val.field("artist-credit"@)),
            date: text_or_empty(rg_val.field("first-release-date"@)),
            tracks: old(data)@.tracks,
        }),
{
    data.album = string_or_empty(rg_val.get("title"));
    data.albumartist = format_mb_artist_credits(rg_val.get("artist-credit"));
    data.date = string_or_empty(rg_val.get("first-release-date"));
}

/// The album after the representative release of a group was chosen: its tracks
/// (credited against the album artist already set) and, when no date is known
/// yet, its date.
pub open spec fn with_best_release(data: AlbumView, releases: Seq<Json>) -> AlbumView {
    match best_release(releases) {
        Some(i) => {
            let best = releases[i];
            let tracks = tracks_from_media(best.field("media"@), data.albumartist);
            let date = if data.date.len() == 0 {
                match best.field("date"@) {
                    Some(d) => match d.text() {
                        Some(t) => t,
                        None => data.date,
                    },
                    None => data.date,
                }
            } else {
                data.date
            };
            AlbumView { tracks, date, ..data }
        },
        None => data,
    }
}

/// Takes tracks (and a missing date) from the best release of a release group.
pub fn apply_best_release(data: &mut AlbumData, releases: &[Json])
    ensures
        final(data)@ == with_best_release(old(data)@, releases@),
{
    if let Some(best) = select_best_release(releases) {
        data.tracks = extract_tracks_from_media(best.get("media"), data.albumartist.as_str());
        if data.date.as_str().is_empty() {
            if let Some(d) = best.get("date") {
                if let Some(t) = d.as_str() {
                    data.date = t.to_owned();
                }
            }
        }
    }
}

/// The lookup URL of a release, with everything the collector reads.
pub open spec fn release_url_text(mbid: Seq<char>) -> Seq<char> {
    "https://musicbrainz.org/ws/2/release/"@ + mbid
        + "?inc=recordings+artist-credits+labels+discids+isrcs+media+release-groups+genres+tags+ratings+aliases+annotation+url-rels&fmt=json"@
}

/// The lookup URL of a release group.
pub open spec fn release_group_url_text(mbid: Seq<char>) -> Seq<char> {
    "https://musicbrainz.org/ws/2/release-group/"@ + mbid
        + "?inc=artists+ratings+genres+tags+aliases+annotation+url-rels&fmt=json"@
}

/// The browse URL of one page of the releases of a release group.
pub open spec fn browse_url_text(rg: Seq<char>, limit: nat, offset: nat) -> Seq<char> {
    "https://musicbrainz.org/ws/2/release?release-group="@ + rg
        + "&inc=media+recordings+artist-credits+labels+discids+isrcs+release-groups+genres+tags+ratings+aliases&limit="@
        + decimal(limit) + "&offset="@ + decimal(offset) + "&fmt=json"@
}

/// Lookup URL of a release.
pub fn release_url(mbid: &str) -> (u: String)
    ensures
        u@ == release_url_text(mbid@),
{
    let mut u = String::new();
    u.append("https://musicbrainz.org/ws/2/release/");
    u.append(mbid);
    u.append(
        "?inc=recordings+artist-credits+labels+discids+isrcs+media+release-groups+genres+tags+ratings+aliases+annotation+url-rels&fmt=json",
    );
    assert(u@ =~= release_url_text(mbid@));
    u
}

/// Lookup URL of a release group.
pub fn release_group_url(mbid: &str) -> (u: String)
    ensures
        u@ == release_group_url_text(mbid@),
{
    let mut u = String::new();
    u.append("https://musicbrainz.org/ws/2/release-group/");
    u.append(mbid);
    u.append("?inc=artists+ratings+genres+tags+aliases+annotation+url-rels&fmt=json");
    assert(u@ =~= release_group_url_text(mbid@));
    u
}

/// Browse URL of one page of the releases of a release group.
pub fn browse_releases_url(rg: &str, limit: u64, offset: u64) -> (u: String)
    ensures
        u@ == browse_url_text(rg@, limit as nat, offset as nat),
{
    let mut u = String::new();
    u.append("https://musicbrainz.org/ws/2/release?release-group=");
    u.append(rg);
    u.append(
        "&inc=media+recordings+artist-credits+labels+discids+isrcs+release-groups+genres+tags+ratings+aliases&limit=",
    );
    push_decimal(&mut u, limit);
    u.append("&offset=");
    push_decimal(&mut u, offset);
    u.append("&fmt=json");
    assert(u@ =~= browse_url_text(rg@, limit as nat, offset as nat));
    u
}

} // verus!
