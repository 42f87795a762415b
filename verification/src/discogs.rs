//! Filling an album from a Discogs master or release, once positions and
//! artist credits have been read from the service's records.
use crate::collect_models::{opt_text, track_views, AlbumData, AlbumView, Track, TrackView};
use crate::decimal::{decimal, decimal_string};
use vstd::prelude::*;

verus! {

/// One tracklist entry whose position was parsed into disc and track numbers,
/// with the formatted credit of its own artists, if it had any.
#[derive(Debug)]
pub struct DiscogsTrackEntry {
    pub disc: u32,
    pub track: u32,
    pub title: String,
    pub credit: Option<String>,
}

/// A tracklist entry counts as a track only when it has a non-empty position
/// (headings and index entries have none).
pub fn position_counts(position: &Option<String>) -> (b: bool)
    ensures
        b == (position matches Some(p) && p@.len() > 0),
{
    match position {
        Some(p) => !p.as_str().is_empty(),
        None => false,
    }
}

/// The track an entry becomes: a credit is kept only when it is not empty.
pub open spec fn discogs_track_view(e: DiscogsTrackEntry) -> TrackView {
    TrackView {
        discnumber: e.disc,
        tracknumber: e.track,
        title: e.title@,
        artist: match e.credit {
            Some(c) => if c@.len() > 0 {
                Some(c@)
            } else {
                None
            },
            None => None,
        },
    }
}

/// The date of a Discogs record: its year, or empty when it has none.
pub open spec fn year_text(year: Option<u64>) -> Seq<char> {
    match year {
        Some(y) => decimal(y as nat),
        None => Seq::empty(),
    }
}

/// The album after a Discogs record was read: its title and year; its artist
/// credit when it has artists (else the album artist stays); its tracks.
pub open spec fn album_from_discogs(
    data: AlbumView,
    title: Seq<char>,
    year: Option<u64>,
    credit: Option<Seq<char>>,
    entries: Seq<DiscogsTrackEntry>,
) -> AlbumView {
    AlbumView {
        album: title,
        date: year_text(year),
        albumartist: match credit {
            Some(c) => c,
            None => data.albumartist,
        },
        tracks: entries.map_values(|e: DiscogsTrackEntry| discogs_track_view(e)),
    }
}

/// Fills the album from a Discogs master or release.
pub fn fill_from_discogs(
    data: &mut AlbumData,
    title: String,
    year: Option<u64>,
    credit: Option<String>,
    entries: Vec<DiscogsTrackEntry>,
)
    ensures
        final(data)@ == album_from_discogs(
            old(data)@,
            title@,
            year,
            opt_text(credit),
            entries@,
        ),
{
    data.album = title;
    data.date = match year {
        Some(y) => decimal_string(y),
        None => String::new(),
    };
    if let Some(c) = credit {
        data.albumartist = c;
    }
    let ghost all = entries@;
    assert(all.skip(0) =~= all);
    let mut tracks: Vec<Track> = Vec::new();
    let mut rest = entries;
    while rest.len() > 0
        invariant
            rest@.len() <= all.len(),
            rest@ == all.skip(all.len() - rest@.len()),
            track_views(tracks@) == all.take(all.len() - rest@.len()).map_values(
                |e: DiscogsTrackEntry| discogs_track_view(e),
            ),
        decreases rest@.len(),
    {
        let ghost done = all.len() - rest@.len();
        let e = rest.remove(0);
        assert(e == all[done]);
        assert(rest@ =~= all.skip(done + 1));
        let artist = match e.credit {
            Some(c) => if !c.as_str().is_empty() {
                Some(c)
            } else {
                None
            },
            None => None,
        };
        let t = Track { discnumber: e.disc, tracknumber: e.track, title: e.title, artist };
        let ghost before = tracks@;
        tracks.push(t);
        assert(track_views(tracks@) =~= track_views(before).push(t@));
        assert(all.take(done + 1) =~= all.take(done).push(all[done]));
        assert(track_views(tracks@) =~= all.take(all.len() - rest@.len()).map_values(
            |e: DiscogsTrackEntry| discogs_track_view(e),
        ));
    }
    assert(all.take(all.len() as int) =~= all);
    data.tracks = tracks;
}

} // verus!
