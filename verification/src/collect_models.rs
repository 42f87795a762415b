//! The album record that the collector fills from a metadata service and turns
//! into manifests.
use vstd::prelude::*;

verus! {

/// How the album directory is named: a template in which `{albumartist}` and
/// `{album}` stand for those fields.
pub struct FormattingConfig {
    pub album: String,
}

/// One track of an album.
pub struct Track {
    pub discnumber: u32,
    pub tracknumber: u32,
    pub title: String,
    pub artist: Option<String>,
}

/// The album as collected.
pub struct AlbumData {
    pub albumartist: String,
    pub album: String,
    pub date: String,
    pub tracks: Vec<Track>,
}

/// A track with its text as character sequences.
pub struct TrackView {
    pub discnumber: u32,
    pub tracknumber: u32,
    pub title: Seq<char>,
    pub artist: Option<Seq<char>>,
}

/// An album with its text as character sequences.
pub struct AlbumView {
    pub albumartist: Seq<char>,
    pub album: Seq<char>,
    pub date: Seq<char>,
    pub tracks: Seq<TrackView>,
}

/// The text of an optional string.
pub open spec fn opt_text(s: Option<String>) -> Option<Seq<char>> {
    match s {
        Some(x) => Some(x@),
        None => None,
    }
}

impl View for Track {
    type V = TrackView;

    open spec fn view(&self) -> TrackView {
        TrackView {
            discnumber: self.discnumber,
            tracknumber: self.tracknumber,
            title: self.title@,
            artist: opt_text(self.artist),
        }
    }
}

/// The views of a sequence of tracks.
pub open spec fn track_views(ts: Seq<Track>) -> Seq<TrackView> {
    ts.map_values(|t: Track| t@)
}

impl View for AlbumData {
    type V = AlbumView;

    open spec fn view(&self) -> AlbumView {
        AlbumView {
            albumartist: self.albumartist@,
            album: self.album@,
            date: self.date@,
            tracks: track_views(self.tracks@),
        }
    }
}

impl Default for AlbumData {
    fn default() -> (d: AlbumData)
        ensures
            d@.albumartist.len() == 0,
            d@.album.len() == 0,
            d@.date.len() == 0,
            d@.tracks.len() == 0,
    {
        AlbumData {
            albumartist: String::new(),
            album: String::new(),
            date: String::new(),
            tracks: Vec::new(),
        }
    }
}

impl AlbumData {
    /// Enough was collected to name the album: neither the album artist nor the
    /// album title is empty.
    pub fn is_sufficient(&self) -> (b: bool)
        ensures
            b == (self@.albumartist.len() > 0 && self@.album.len() > 0),
    {
        !self.albumartist.as_str().is_empty() && !self.album.as_str().is_empty()
    }
}

} // verus!
