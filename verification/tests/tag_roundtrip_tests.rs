use dale_actions::tags::{extract_tag_map, TagItem};
use lofty::id3::v2::{Frame, FrameId, Id3v2Tag};
use lofty::tag::{ItemKey, ItemValue, Tag, TagType};
use std::borrow::Cow;

/// Reads a lofty tag's items into the library's items, numbering keys (lyrics
/// first, then unsynchronised lyrics), and returns the text map keyed by lofty
/// keys again.
fn tag_map_of(tag: &Tag) -> Vec<(ItemKey, String)> {
    let mut keys: Vec<ItemKey> = vec![ItemKey::Lyrics, ItemKey::UnsyncLyrics];
    let mut items = Vec::new();
    for item in tag.items() {
        let key = item.key();
        let id = match keys.iter().position(|k| *k == key) {
            Some(i) => i,
            None => {
                keys.push(key);
                keys.len() - 1
            }
        };
        let text = match item.value() {
            ItemValue::Text(t) | ItemValue::Locator(t) => Some(t.clone()),
            ItemValue::Binary(_) => None,
        };
        items.push(TagItem { key: id as u64, text });
    }
    extract_tag_map(&items, 0, 1)
        .into_iter()
        .map(|(id, text)| (keys[id as usize], text))
        .collect()
}

fn lookup(map: &[(ItemKey, String)], key: ItemKey) -> Option<&str> {
    map.iter().find(|(k, _)| *k == key).map(|(_, v)| v.as_str())
}

#[test]
fn test_id3v2_ufid_roundtrip() {
    let rec_id = "01234567-89ab-cdef-0123-456789abcdef";
    let mut tag = Tag::new(TagType::Id3v2);
    tag.insert_text(ItemKey::MusicBrainzRecordingId, rec_id.to_string());

    let id3v2: Id3v2Tag = tag.into();
    let ufid_frame = id3v2.get(&FrameId::Valid(Cow::Borrowed("UFID")));
    assert!(matches!(ufid_frame, Some(Frame::UniqueFileIdentifier(_))));

    let roundtrip_tag: Tag = id3v2.into();
    let tag_map = tag_map_of(&roundtrip_tag);
    assert_eq!(lookup(&tag_map, ItemKey::MusicBrainzRecordingId), Some(rec_id));
}

#[test]
fn test_id3v2_tipl_roundtrip() {
    let mut tag = Tag::new(TagType::Id3v2);
    tag.insert_text(ItemKey::Producer, "Test Producer".to_string());
    tag.insert_text(ItemKey::Arranger, "Test Arranger".to_string());
    tag.insert_text(ItemKey::Engineer, "Test Engineer".to_string());
    tag.insert_text(ItemKey::MixDj, "Test DJ".to_string());
    tag.insert_text(ItemKey::MixEngineer, "Test Mixer".to_string());

    let id3v2: Id3v2Tag = tag.into();
    let tipl_frame = id3v2.get(&FrameId::Valid(Cow::Borrowed("TIPL")));
    assert!(tipl_frame.is_some());

    let roundtrip_tag: Tag = id3v2.into();
    let tag_map = tag_map_of(&roundtrip_tag);
    assert_eq!(lookup(&tag_map, ItemKey::Producer), Some("Test Producer"));
    assert_eq!(lookup(&tag_map, ItemKey::Arranger), Some("Test Arranger"));
    assert_eq!(lookup(&tag_map, ItemKey::Engineer), Some("Test Engineer"));
    assert_eq!(lookup(&tag_map, ItemKey::MixDj), Some("Test DJ"));
    assert_eq!(lookup(&tag_map, ItemKey::MixEngineer), Some("Test Mixer"));
}

#[test]
fn test_id3v2_mbids_and_color() {
    let mut tag = Tag::new(TagType::Id3v2);
    tag.insert_text(ItemKey::MusicBrainzTrackId, "mb-track-1".to_string());
    tag.insert_text(ItemKey::MusicBrainzReleaseId, "mb-release-2".to_string());
    tag.insert_text(ItemKey::MusicBrainzReleaseGroupId, "mb-rg-3".to_string());
    tag.insert_text(ItemKey::MusicBrainzArtistId, "mb-artist-4".to_string());
    tag.insert_text(ItemKey::Color, "#334455".to_string());

    let id3v2: Id3v2Tag = tag.into();
    let roundtrip_tag: Tag = id3v2.into();
    let tag_map = tag_map_of(&roundtrip_tag);
    assert_eq!(lookup(&tag_map, ItemKey::MusicBrainzTrackId), Some("mb-track-1"));
    assert_eq!(lookup(&tag_map, ItemKey::MusicBrainzReleaseId), Some("mb-release-2"));
    assert_eq!(lookup(&tag_map, ItemKey::MusicBrainzReleaseGroupId), Some("mb-rg-3"));
    assert_eq!(lookup(&tag_map, ItemKey::MusicBrainzArtistId), Some("mb-artist-4"));
    assert_eq!(lookup(&tag_map, ItemKey::Color), Some("#334455"));
}

#[test]
fn test_id3v2_lyrics_roundtrip() {
    let lyrics_content = "Verse 1\nLine 2";
    let mut tag = Tag::new(TagType::Id3v2);
    tag.insert_text(ItemKey::UnsyncLyrics, lyrics_content.to_string());

    let id3v2: Id3v2Tag = tag.into();
    let uslt_frame = id3v2.get(&FrameId::Valid(Cow::Borrowed("USLT")));
    assert!(matches!(uslt_frame, Some(Frame::UnsynchronizedText(_))));

    let roundtrip_tag: Tag = id3v2.into();
    let tag_map = tag_map_of(&roundtrip_tag);
    assert_eq!(lookup(&tag_map, ItemKey::Lyrics), Some(lyrics_content));
}
