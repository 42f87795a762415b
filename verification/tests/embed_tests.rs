use base64::Engine;
use dale_actions::cover::{
    cover_needs_update, cover_picture_index, get_hash, resolve_cover_status, surviving_pictures,
    writes_new_cover, CoverStatus, EmbeddedCover,
};
use dale_actions::batch::{plan_batch, proceed};
use dale_actions::tags::{canonical_key, extract_tag_map, item_survives, key_to_write, TagItem};
use dale_actions::text::{replace_string, split_first_string, split_second_string, trim_string};

#[test]
fn hash_of_empty_input() {
    // XXH64 of no bytes with seed 0 is 0xEF46DB3751D8E999.
    assert_eq!(get_hash(b""), "70bbN1HY6Zk");
}

#[test]
fn hash_shape_and_determinism() {
    let h = get_hash(b"cover bytes");
    assert_eq!(h.len(), 11);
    assert!(h.chars().all(|c| c.is_ascii_alphanumeric() || c == '-' || c == '_'));
    assert_eq!(h, get_hash(b"cover bytes"));
    assert_ne!(h, get_hash(b"other bytes"));
    let expected = xxhash_rust::xxh64::xxh64(b"cover bytes", 0).to_be_bytes();
    assert_eq!(h, base64::engine::general_purpose::URL_SAFE_NO_PAD.encode(expected));
}

#[test]
fn cover_index_choice() {
    assert_eq!(cover_picture_index(&vec![false, true, true]), Some(1));
    assert_eq!(cover_picture_index(&vec![false, false]), Some(0));
    assert_eq!(cover_picture_index(&vec![]), None);
}

fn seen(hash: Option<&str>, front: bool) -> EmbeddedCover {
    EmbeddedCover { hash: hash.map(|h| h.to_string()), has_front: front }
}

#[test]
fn cover_update_decisions() {
    assert!(!cover_needs_update("h", &seen(Some("h"), true)));
    assert!(cover_needs_update("h", &seen(Some("h"), false)));
    assert!(cover_needs_update("h", &seen(Some("g"), true)));
    assert!(cover_needs_update("h", &seen(None, true)));
    let all_same = vec![seen(Some("h"), true), seen(Some("h"), true)];
    assert_eq!(resolve_cover_status(Some("h"), &all_same), CoverStatus::Preserve);
    let one_off = vec![seen(Some("h"), true), seen(None, false)];
    assert_eq!(resolve_cover_status(Some("h"), &one_off), CoverStatus::Update);
    assert_eq!(resolve_cover_status(None, &one_off), CoverStatus::Preserve);
    assert_eq!(resolve_cover_status(Some("h"), &vec![]), CoverStatus::Preserve);
    assert!(writes_new_cover(CoverStatus::Update, true));
    assert!(!writes_new_cover(CoverStatus::Update, false));
    assert!(!writes_new_cover(CoverStatus::Preserve, true));
}

#[test]
fn pictures_after_rewrite() {
    let fronts = vec![true, false, true, false];
    assert_eq!(surviving_pictures(&fronts, true, true), Vec::<usize>::new());
    assert_eq!(surviving_pictures(&fronts, true, false), vec![1, 3]);
    assert_eq!(surviving_pictures(&fronts, false, true), vec![0, 2]);
    assert_eq!(surviving_pictures(&fronts, false, false), vec![0, 1, 2, 3]);
}

fn item(key: u64, text: Option<&str>) -> TagItem {
    TagItem { key, text: text.map(|t| t.to_string()) }
}

#[test]
fn tag_map_merges_in_order() {
    let items = vec![
        item(1, Some(" Artist A ")),
        item(2, None),
        item(1, Some("Artist B")),
        item(3, Some("   ")),
        item(4, Some("x")),
        item(1, Some("\tC\n")),
    ];
    let mut map = extract_tag_map(&items, 100, 101);
    map.sort_by_key(|e| e.0);
    assert_eq!(map, vec![(1, "Artist A; Artist B; C".to_string()), (4, "x".to_string())]);
}

#[test]
fn tag_map_of_nothing() {
    assert!(extract_tag_map(&vec![], 100, 101).is_empty());
    assert!(extract_tag_map(&vec![item(9, None), item(9, Some(""))], 100, 101).is_empty());
}

#[test]
fn tag_retention_and_keys() {
    let always = vec![10, 11];
    let written = vec![1, 2];
    assert!(item_survives(10, &always, &written));
    assert!(item_survives(2, &always, &written));
    assert!(!item_survives(3, &always, &written));
    assert_eq!(key_to_write(5, 5, 6, true), 6);
    assert_eq!(key_to_write(5, 5, 6, false), 5);
    assert_eq!(key_to_write(7, 5, 6, true), 7);
}

#[test]
fn text_helpers_match_std() {
    for s in ["", "  a b  ", "\u{3000}x\u{a0}", "\u{2029}", "plain", " \t\n"] {
        assert_eq!(trim_string(s), s.trim());
    }
    for (s, p) in [("a/b/c", "/"), ("abc", "/"), ("xxabxxcd", "xx"), ("", "?")] {
        assert_eq!(split_first_string(s, p), s.split(p).next().unwrap());
        assert_eq!(split_second_string(s, p).as_deref(), s.split(p).nth(1));
    }
    for (s, p, r) in [("aaa", "aa", "b"), ("{a}{a}", "{a}", "x"), ("none", "z", "y"), ("", "a", "b")] {
        assert_eq!(replace_string(s, p, r), s.replace(p, r));
    }
}

#[test]
fn unsynchronised_lyrics_join_the_lyrics() {
    // Key 5 stands for lyrics, key 6 for unsynchronised lyrics.
    assert_eq!(canonical_key(6, 5, 6), 5);
    assert_eq!(canonical_key(5, 5, 6), 5);
    assert_eq!(canonical_key(7, 5, 6), 7);
    let items = vec![item(6, Some("Verse")), item(5, Some("Chorus")), item(7, Some("t"))];
    let mut map = extract_tag_map(&items, 5, 6);
    map.sort_by_key(|e| e.0);
    assert_eq!(map, vec![(5, "Verse; Chorus".to_string()), (7, "t".to_string())]);
    // Lyrics written into an ID3v2 tag read back as lyrics.
    assert_eq!(canonical_key(key_to_write(5, 5, 6, true), 5, 6), 5);
}

#[test]
fn batch_decisions() {
    let p = plan_batch(CoverStatus::Preserve, &vec![false, false]);
    assert!(!p.has_changes);
    assert!(!p.show_cover_diff);
    let p = plan_batch(CoverStatus::Preserve, &vec![false, true, false]);
    assert!(p.has_changes);
    assert!(!p.show_cover_diff);
    let p = plan_batch(CoverStatus::Update, &vec![]);
    assert!(p.has_changes);
    assert!(p.show_cover_diff);
    assert!(proceed(false, false));
    assert!(proceed(true, true));
    assert!(!proceed(true, false));
}
