//! The album directory name and the TOML manifests written into it.
//!
//! Text that goes between quotes in a manifest arrives already escaped for TOML:
//! the functions here take the album twice, as collected (for numbers and
//! comparisons) and with every text field escaped (for what is written).
use crate::collect_models::{AlbumData, AlbumView, FormattingConfig, TrackView};
use crate::decimal::{decimal, push_decimal};
use crate::text::{replace_all, replace_string};
use vstd::prelude::*;
use vstd::string::*;

verus! {

/// The directory name a template gives: `{albumartist}` is replaced first, then
/// `{album}` in the result.
pub open spec fn dir_name(template: Seq<char>, albumartist: Seq<char>, album: Seq<char>) -> Seq<
    char,
> {
    replace_all(replace_all(template, "{albumartist}"@, albumartist), "{album}"@, album)
}

/// Fills the directory-name template with the album artist and title.
pub fn album_dir_name(formatting: &FormattingConfig, data: &AlbumData) -> (name: String)
    ensures
        name@ == dir_name(formatting.album@, data.albumartist@, data.album@),
{
    proof {
        reveal_strlit("{albumartist}");
        reveal_strlit("{album}");
    }
    let step = replace_string(formatting.album.as_str(), "{albumartist}", data.albumartist.as_str());
    replace_string(step.as_str(), "{album}", data.album.as_str())
}

/// `key = "value"`.
pub open spec fn quoted_line(key: Seq<char>, value: Seq<char>) -> Seq<char> {
    key + " = \""@ + value + "\""@
}

/// `key = 12`.
pub open spec fn number_line(key: Seq<char>, n: u32) -> Seq<char> {
    key + " = "@ + decimal(n as nat)
}

/// Lines joined by newlines.
pub open spec fn join_lines(lines: Seq<Seq<char>>) -> Seq<char>
    decreases lines.len(),
{
    if lines.len() == 0 {
        Seq::empty()
    } else if lines.len() == 1 {
        lines[0]
    } else {
        join_lines(lines.drop_last()) + "\n"@ + lines.last()
    }
}

/// Some track lies beyond the first disc, so disc numbers are written.
pub open spec fn multi_disc(tracks: Seq<TrackView>) -> bool {
    exists|i: int| 0 <= i < tracks.len() && #[trigger] tracks[i].discnumber > 1
}

/// The text of an optional field, empty when absent.
pub open spec fn text_or_none(s: Option<Seq<char>>) -> Seq<char> {
    match s {
        Some(x) => x,
        None => Seq::empty(),
    }
}

/// The lines of the album table.
pub open spec fn album_lines(escaped: AlbumView) -> Seq<Seq<char>> {
    seq![
        "[album]"@,
        Seq::empty(),
        quoted_line("albumartist"@, escaped.albumartist),
        quoted_line("album"@, escaped.album),
        quoted_line("date"@, escaped.date),
        "genre = \"\""@,
        Seq::empty(),
    ]
}

/// The lines of one track table; the track artist is written only when it
/// differs from the album artist.
pub open spec fn track_lines(t: TrackView, escaped: TrackView, multi: bool, albumartist: Seq<
    char,
>) -> Seq<Seq<char>> {
    seq!["[[tracks]]"@] + (if multi {
        seq![number_line("discnumber"@, t.discnumber)]
    } else {
        Seq::empty()
    }) + seq![
        number_line("tracknumber"@, t.tracknumber),
        quoted_line("title"@, escaped.title),
    ] + (if t.artist matches Some(a) && a != albumartist {
        seq![quoted_line("artist"@, text_or_none(escaped.artist))]
    } else {
        Seq::empty()
    }) + seq![Seq::empty()]
}

/// The track tables of the first `tracks.len()` tracks.
pub open spec fn tracks_lines(
    tracks: Seq<TrackView>,
    escaped: Seq<TrackView>,
    multi: bool,
    albumartist: Seq<char>,
) -> Seq<Seq<char>>
    decreases tracks.len(),
{
    if tracks.len() == 0 {
        Seq::empty()
    } else {
        tracks_lines(tracks.drop_last(), escaped, multi, albumartist) + track_lines(
            tracks.last(),
            escaped[tracks.len() - 1],
            multi,
            albumartist,
        )
    }
}

/// The content of `metadata.toml`.
pub open spec fn metadata_toml(data: AlbumView, escaped: AlbumView) -> Seq<char> {
    join_lines(
        album_lines(escaped) + tracks_lines(
            data.tracks,
            escaped.tracks,
            multi_disc(data.tracks),
            data.albumartist,
        ),
    )
}

/// The content of `history.toml`, stamped with the time the album was added.
pub open spec fn history_toml(escaped: AlbumView, now: Seq<char>) -> Seq<char> {
    "[album]\n\nalbumartist = \""@ + escaped.albumartist + "\"\nalbum = \""@ + escaped.album
        + "\"\ndate = \""@ + escaped.date + "\"\n\ndate_added_dale = "@ + now + "\n"@
}

/// The content of `virtual.toml`.
pub open spec fn virtual_toml() -> Seq<char> {
    "[album]\n\nvirtual = true\n"@
}

/// The views of a list of lines.
pub open spec fn line_texts(lines: Seq<String>) -> Seq<Seq<char>> {
    lines.map_values(|l: String| l@)
}

/// `key = "value"`.
fn quoted(key: &str, value: &str) -> (line: String)
    ensures
        line@ == quoted_line(key@, value@),
{
    let mut line = String::new();
    line.append(key);
    line.append(" = \"");
    line.append(value);
    line.append("\"");
    assert(line@ =~= quoted_line(key@, value@));
    line
}

/// `key = n`.
fn numbered(key: &str, n: u32) -> (line: String)
    ensures
        line@ == number_line(key@, n),
{
    let mut line = String::new();
    line.append(key);
    line.append(" = ");
    push_decimal(&mut line, n as u64);
    assert(line@ =~= number_line(key@, n));
    line
}

/// A string holding one literal.
fn literal(s: &str) -> (r: String)
    ensures
        r@ == s@,
{
    let mut r = String::new();
    r.append(s);
    assert(r@ =~= s@);
    r
}

/// Adds a line to a list of lines.
fn push_line(lines: &mut Vec<String>, line: String)
    ensures
        line_texts(final(lines)@) == line_texts(old(lines)@).push(line@),
{
    lines.push(line);
    assert(line_texts(final(lines)@) =~= line_texts(old(lines)@).push(line@));
}

/// Joins lines with newlines, as `lines.join("\n")` does.
pub fn join_with_newlines(lines: &Vec<String>) -> (s: String)
    ensures
        s@ == join_lines(line_texts(lines@)),
{
    let mut s = String::new();
    let mut i: usize = 0;
    while i < lines.len()
        invariant
            i <= lines@.len(),
            s@ == join_lines(line_texts(lines@.take(i as int))),
        decreases lines@.len() - i,
    {
        let ghost before = s@;
        if i > 0 {
            s.append("\n");
        }
        s.append(lines[i].as_str());
        assert(line_texts(lines@.take(i + 1)).drop_last() =~= line_texts(lines@.take(i as int)));
        assert(line_texts(lines@.take(i + 1)).last() == lines@[i as int]@);
        assert(s@ =~= join_lines(line_texts(lines@.take(i + 1))));
        i = i + 1;
    }
    assert(lines@.take(lines@.len() as int) =~= lines@);
    s
}

/// Whether some track lies beyond the first disc.
pub fn has_multiple_discs(data: &AlbumData) -> (b: bool)
    ensures
        b == multi_disc(data@.tracks),
{
    let mut i: usize = 0;
    while i < data.tracks.len()
        invariant
            i <= data.tracks@.len(),
            forall|j: int| 0 <= j < i ==> #[trigger] data.tracks@[j].discnumber <= 1,
        decreases data.tracks@.len() - i,
    {
        if data.tracks[i].discnumber > 1 {
            assert(data@.tracks[i as int].discnumber > 1);
            return true;
        }
        i = i + 1;
    }
    assert forall|j: int| 0 <= j < data@.tracks.len() implies #[trigger] data@.tracks[j].discnumber
        <= 1 by {
        assert(data@.tracks[j] == data.tracks@[j]@);
    }
    false
}

/// Renders `metadata.toml`.
pub fn render_metadata_toml(data: &AlbumData, escaped: &AlbumData) -> (content: String)
    requires
        escaped.tracks@.len() == data.tracks@.len(),
    ensures
        content@ == metadata_toml(data@, escaped@),
{
    let mut lines: Vec<String> = Vec::new();
    push_line(&mut lines, literal("[album]"));
    push_line(&mut lines, String::new());
    push_line(&mut lines, quoted("albumartist", escaped.albumartist.as_str()));
    push_line(&mut lines, quoted("album", escaped.album.as_str()));
    push_line(&mut lines, quoted("date", escaped.date.as_str()));
    push_line(&mut lines, literal("genre = \"\""));
    push_line(&mut lines, String::new());
    assert(line_texts(lines@) =~= album_lines(escaped@));
    let multi = has_multiple_discs(data);
    let mut i: usize = 0;
    while i < data.tracks.len()
        invariant
            i <= data.tracks@.len(),
            escaped.tracks@.len() == data.tracks@.len(),
            multi == multi_disc(data@.tracks),
            line_texts(lines@) == album_lines(escaped@) + tracks_lines(
                data@.tracks.take(i as int),
                escaped@.tracks,
                multi,
                data@.albumartist,
            ),
        decreases data.tracks@.len() - i,
    {
        let t = &data.tracks[i];
        let et = &escaped.tracks[i];
        let ghost before = line_texts(lines@);
        push_line(&mut lines, literal("[[tracks]]"));
        if multi {
            push_line(&mut lines, numbered("discnumber", t.discnumber));
        }
        push_line(&mut lines, numbered("tracknumber", t.tracknumber));
        push_line(&mut lines, quoted("title", et.title.as_str()));
        let mut differs = false;
        if let Some(art) = &t.artist {
            if !crate::json::str_eq(art.as_str(), data.albumartist.as_str()) {
                differs = true;
            }
        }
        if differs {
            let shown = match &et.artist {
                Some(a) => quoted("artist", a.as_str()),
                None => quoted("artist", ""),
            };
            proof {
                reveal_strlit("");
            }
            push_line(&mut lines, shown);
        }
        push_line(&mut lines, String::new());
        assert(data@.tracks.take(i + 1).drop_last() =~= data@.tracks.take(i as int));
        assert(data@.tracks.take(i + 1).last() == t@);
        assert(escaped@.tracks[i as int] == et@);
        assert(line_texts(lines@) =~= before + track_lines(
            t@,
            et@,
            multi,
            data@.albumartist,
        ));
        i = i + 1;
    }
    assert(data@.tracks.take(data@.tracks.len() as int) =~= data@.tracks);
    join_with_newlines(&lines)
}

/// Renders `history.toml`; `now` is the time of the addition in RFC 3339 form.
pub fn render_history_toml(escaped: &AlbumData, now: &str) -> (content: String)
    ensures
        content@ == history_toml(escaped@, now@),
{
    let mut s = String::new();
    s.append("[album]\n\nalbumartist = \"");
    s.append(escaped.albumartist.as_str());
    s.append("\"\nalbum = \"");
    s.append(escaped.album.as_str());
    s.append("\"\ndate = \"");
    s.append(escaped.date.as_str());
    s.append("\"\n\ndate_added_dale = ");
    s.append(now);
    s.append("\n");
    assert(s@ =~= history_toml(escaped@, now@));
    s
}

/// Renders `virtual.toml`.
pub fn render_virtual_toml() -> (content: String)
    ensures
        content@ == virtual_toml(),
{
    literal("[album]\n\nvirtual = true\n")
}

} // verus!
