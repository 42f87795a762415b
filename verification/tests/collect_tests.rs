use dale_actions::collect_models::{AlbumData, FormattingConfig, Track};
use dale_actions::collect_musicbrainz::{
    apply_best_release, apply_first_release_date, extract_tracks_from_media, fill_from_mb_release,
    fill_from_release_group, format_mb_artist_credits, parse_musicbrainz_url,
    release_group_for_date, select_best_release, MbTargetUrl,
};
use dale_actions::decimal::decimal_string;
use dale_actions::discogs::{fill_from_discogs, position_counts, DiscogsTrackEntry};
use dale_actions::json::Json;
use dale_actions::manifest::{
    album_dir_name, join_with_newlines, render_history_toml, render_metadata_toml,
    render_virtual_toml,
};

fn s(x: &str) -> Json {
    Json::Str(x.to_string())
}

fn n(x: u64) -> Json {
    Json::Number(Some(x))
}

fn obj(members: Vec<(&str, Json)>) -> Json {
    Json::Object(members.into_iter().map(|(k, v)| (k.to_string(), v)).collect())
}

fn arr(items: Vec<Json>) -> Json {
    Json::Array(items)
}

fn credit(name: &str, join: &str) -> Json {
    obj(vec![("name", s(name)), ("joinphrase", s(join))])
}

fn album(artist: &str, title: &str, date: &str, tracks: Vec<Track>) -> AlbumData {
    AlbumData {
        albumartist: artist.to_string(),
        album: title.to_string(),
        date: date.to_string(),
        tracks,
    }
}

fn track(disc: u32, no: u32, title: &str, artist: Option<&str>) -> Track {
    Track {
        discnumber: disc,
        tracknumber: no,
        title: title.to_string(),
        artist: artist.map(|a| a.to_string()),
    }
}

#[test]
fn musicbrainz_url_kinds() {
    match parse_musicbrainz_url("https://musicbrainz.org/release-group/abc?x") {
        Some(MbTargetUrl::ReleaseGroup(id)) => assert_eq!(id, "abc"),
        other => panic!("unexpected {:?}", other),
    }
    match parse_musicbrainz_url(" https://musicbrainz.org/release/def#t ") {
        Some(MbTargetUrl::Release(id)) => assert_eq!(id, "def"),
        other => panic!("unexpected {:?}", other),
    }
    assert!(parse_musicbrainz_url("https://www.discogs.com/release/1").is_none());
}

#[test]
fn artist_credits_joined_and_trimmed() {
    let v = arr(vec![
        credit("Simon", " & "),
        obj(vec![("artist", obj(vec![("name", s("Garfunkel"))])), ("joinphrase", s(" "))]),
    ]);
    assert_eq!(format_mb_artist_credits(Some(&v)), "Simon & Garfunkel");
}

#[test]
fn artist_credits_name_takes_precedence() {
    // A present but non-string `name` gives an empty name; the artist is not consulted.
    let v = arr(vec![obj(vec![
        ("name", Json::Null),
        ("artist", obj(vec![("name", s("Hidden"))])),
        ("joinphrase", s("x")),
    ])]);
    assert_eq!(format_mb_artist_credits(Some(&v)), "x");
}

#[test]
fn artist_credits_missing() {
    assert_eq!(format_mb_artist_credits(None), "");
    assert_eq!(format_mb_artist_credits(Some(&s("A"))), "");
    assert_eq!(format_mb_artist_credits(Some(&arr(vec![]))), "");
}

fn medium(position: Option<u64>, tracks: Option<Vec<Json>>) -> Json {
    let mut m = Vec::new();
    if let Some(p) = position {
        m.push(("position", n(p)));
    }
    if let Some(t) = tracks {
        m.push(("tracks", arr(t)));
    }
    obj(m)
}

fn mb_track(position: Option<Json>, title: &str, artist: Option<&str>) -> Json {
    let mut m = vec![("title", s(title))];
    if let Some(p) = position {
        m.push(("position", p));
    }
    if let Some(a) = artist {
        m.push(("artist-credit", arr(vec![credit(a, "")])));
    }
    obj(m)
}

#[test]
fn tracks_from_media_numbers_and_artists() {
    let media = arr(vec![
        medium(None, Some(vec![
            mb_track(Some(n(1)), "One", Some("Band")),
            mb_track(None, "Two", Some("Guest")),
        ])),
        medium(Some(3), None),
        medium(Some(7), Some(vec![mb_track(Some(n(5_000_000_000)), "Three", None)])),
    ]);
    let ts = extract_tracks_from_media(Some(&media), "Band");
    assert_eq!(ts.len(), 3);
    assert_eq!((ts[0].discnumber, ts[0].tracknumber, ts[0].title.as_str()), (1, 1, "One"));
    assert_eq!(ts[0].artist, None);
    assert_eq!((ts[1].discnumber, ts[1].tracknumber), (1, 2));
    assert_eq!(ts[1].artist.as_deref(), Some("Guest"));
    // Medium 3 has no track list; the third medium keeps its own position and the
    // out-of-range track position falls back to the ordinal.
    assert_eq!((ts[2].discnumber, ts[2].tracknumber), (7, 1));
    assert_eq!(ts[2].title, "Three");
}

#[test]
fn tracks_from_missing_media() {
    assert!(extract_tracks_from_media(None, "").is_empty());
    assert!(extract_tracks_from_media(Some(&obj(vec![])), "").is_empty());
}

fn release(status: &str, with_tracks: bool, date: &str) -> Json {
    let tracks = if with_tracks { vec![mb_track(None, "t", None)] } else { vec![] };
    obj(vec![
        ("status", s(status)),
        ("date", s(date)),
        ("media", arr(vec![medium(Some(1), Some(tracks))])),
    ])
}

#[test]
fn best_release_prefers_official_with_tracks() {
    let rs = vec![
        release("Official", false, "a"),
        release("Bootleg", true, "b"),
        release("Official", true, "c"),
    ];
    let best = select_best_release(&rs).unwrap();
    assert_eq!(best.get("date").and_then(|d| d.as_str()), Some("c"));
}

#[test]
fn best_release_falls_back() {
    let rs = vec![release("Official", false, "a"), release("Bootleg", true, "b")];
    assert_eq!(select_best_release(&rs).unwrap().get("date").and_then(|d| d.as_str()), Some("b"));
    let rs = vec![release("Official", false, "a"), release("Promotion", false, "b")];
    assert_eq!(select_best_release(&rs).unwrap().get("date").and_then(|d| d.as_str()), Some("a"));
    assert!(select_best_release(&[]).is_none());
}

#[test]
fn fill_from_release_all_fields() {
    let rel = obj(vec![
        ("title", s("Album")),
        ("date", s("1999")),
        ("artist-credit", arr(vec![credit("Band", "")])),
        ("media", arr(vec![medium(Some(1), Some(vec![mb_track(Some(n(1)), "Song", Some("Band"))]))])),
    ]);
    let mut data = AlbumData::default();
    fill_from_mb_release(&rel, &mut data);
    assert_eq!(data.album, "Album");
    assert_eq!(data.albumartist, "Band");
    assert_eq!(data.date, "1999");
    assert_eq!(data.tracks.len(), 1);
    assert_eq!(data.tracks[0].artist, None);
    assert!(data.is_sufficient());
    assert!(release_group_for_date(&data, &rel).is_none());
}

#[test]
fn release_without_date_asks_group() {
    let rel = obj(vec![("title", s("A")), ("release-group", obj(vec![("id", s("rg-1"))]))]);
    let mut data = AlbumData::default();
    fill_from_mb_release(&rel, &mut data);
    assert_eq!(data.date, "");
    assert!(!data.is_sufficient());
    assert_eq!(release_group_for_date(&data, &rel).as_deref(), Some("rg-1"));
    apply_first_release_date(&mut data, &obj(vec![("first-release-date", s("2001-02-03"))]));
    assert_eq!(data.date, "2001-02-03");
    apply_first_release_date(&mut data, &obj(vec![]));
    assert_eq!(data.date, "2001-02-03");
}

#[test]
fn release_group_then_best_release() {
    let rg = obj(vec![("title", s("G")), ("artist-credit", arr(vec![credit("Band", "")]))]);
    let mut data = AlbumData::default();
    fill_from_release_group(&rg, &mut data);
    assert_eq!((data.album.as_str(), data.albumartist.as_str(), data.date.as_str()), ("G", "Band", ""));
    let rs = vec![release("Bootleg", false, "x"), release("Official", true, "2010")];
    apply_best_release(&mut data, &rs);
    assert_eq!(data.date, "2010");
    assert_eq!(data.tracks.len(), 1);
    let mut dated = album("Band", "G", "1990", vec![]);
    apply_best_release(&mut dated, &rs);
    assert_eq!(dated.date, "1990");
    let mut untouched = album("Band", "G", "", vec![]);
    apply_best_release(&mut untouched, &[]);
    assert!(untouched.tracks.is_empty());
}

#[test]
fn dir_name_from_template() {
    let f = FormattingConfig { album: "{albumartist} - {album}".to_string() };
    assert_eq!(album_dir_name(&f, &album("Artist", "Album", "", vec![])), "Artist - Album");
    let f = FormattingConfig { album: "{album} ({album})".to_string() };
    assert_eq!(album_dir_name(&f, &album("X", "Y", "", vec![])), "Y (Y)");
    // The artist is substituted first, so a placeholder inside it is filled too.
    let f = FormattingConfig { album: "{albumartist}".to_string() };
    assert_eq!(album_dir_name(&f, &album("{album}", "Z", "", vec![])), "Z");
}

#[test]
fn metadata_single_disc() {
    let data = album("Artist", "Album", "2024", vec![track(1, 1, "Track 1", None), track(1, 2, "T2", Some("Other"))]);
    let out = render_metadata_toml(&data, &data);
    assert_eq!(
        out,
        "[album]\n\nalbumartist = \"Artist\"\nalbum = \"Album\"\ndate = \"2024\"\ngenre = \"\"\n\n[[tracks]]\ntracknumber = 1\ntitle = \"Track 1\"\n\n[[tracks]]\ntracknumber = 2\ntitle = \"T2\"\nartist = \"Other\"\n"
    );
}

#[test]
fn metadata_multi_disc_and_escaped() {
    let data = album("A", "B", "", vec![track(1, 1, "x\"y", Some("A")), track(2, 1, "z", None)]);
    let escaped = album("A", "B", "", vec![track(1, 1, "x\\\"y", Some("A")), track(2, 1, "z", None)]);
    let out = render_metadata_toml(&data, &escaped);
    assert_eq!(
        out,
        "[album]\n\nalbumartist = \"A\"\nalbum = \"B\"\ndate = \"\"\ngenre = \"\"\n\n[[tracks]]\ndiscnumber = 1\ntracknumber = 1\ntitle = \"x\\\"y\"\n\n[[tracks]]\ndiscnumber = 2\ntracknumber = 1\ntitle = \"z\"\n"
    );
}

#[test]
fn metadata_no_tracks() {
    let data = album("A", "B", "C", vec![]);
    assert_eq!(
        render_metadata_toml(&data, &data),
        "[album]\n\nalbumartist = \"A\"\nalbum = \"B\"\ndate = \"C\"\ngenre = \"\"\n"
    );
}

#[test]
fn history_and_virtual() {
    let data = album("A", "B", "2000", vec![]);
    assert_eq!(
        render_history_toml(&data, "2024-01-02T03:04:05.678Z"),
        "[album]\n\nalbumartist = \"A\"\nalbum = \"B\"\ndate = \"2000\"\n\ndate_added_dale = 2024-01-02T03:04:05.678Z\n"
    );
    assert_eq!(render_virtual_toml(), "[album]\n\nvirtual = true\n");
}

#[test]
fn join_lines_like_std() {
    let lines: Vec<String> = vec!["a".into(), "".into(), "b".into()];
    assert_eq!(join_with_newlines(&lines), lines.join("\n"));
    assert_eq!(join_with_newlines(&vec![]), "");
}

#[test]
fn decimals() {
    assert_eq!(decimal_string(0), "0");
    assert_eq!(decimal_string(1050), "1050");
    assert_eq!(decimal_string(u64::MAX), u64::MAX.to_string());
}

#[test]
fn discogs_fill() {
    assert!(!position_counts(&None));
    assert!(!position_counts(&Some(String::new())));
    assert!(position_counts(&Some("A1".to_string())));
    let mut data = album("Keep", "", "", vec![]);
    let entries = vec![
        DiscogsTrackEntry { disc: 1, track: 1, title: "a".into(), credit: Some(String::new()) },
        DiscogsTrackEntry { disc: 2, track: 1, title: "b".into(), credit: Some("Guest".into()) },
    ];
    fill_from_discogs(&mut data, "T".into(), Some(1977), None, entries);
    assert_eq!((data.album.as_str(), data.date.as_str(), data.albumartist.as_str()), ("T", "1977", "Keep"));
    assert_eq!(data.tracks.len(), 2);
    assert_eq!(data.tracks[0].artist, None);
    assert_eq!(data.tracks[1].artist.as_deref(), Some("Guest"));
    assert_eq!((data.tracks[1].discnumber, data.tracks[1].tracknumber), (2, 1));
    fill_from_discogs(&mut data, "U".into(), None, Some("New".into()), vec![]);
    assert_eq!((data.date.as_str(), data.albumartist.as_str()), ("", "New"));
    assert!(data.tracks.is_empty());
}
