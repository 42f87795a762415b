//! The text map read out of a file's tag: one entry per canonical key, the
//! trimmed texts of the key's items joined by `"; "`.
use crate::collect_models::opt_text;
use crate::text::{trim, trim_string};
use vstd::prelude::*;
use vstd::string::*;

verus! {

/// One item of a tag: its key, and its text when it is a text (or locator)
/// value; `None` for a binary value.
#[derive(Debug)]
pub struct TagItem {
    pub key: u64,
    pub text: Option<String>,
}

/// The key a tag item is reported under: unsynchronised lyrics are the lyrics;
/// every other key stands for itself.
pub open spec fn canonical(key: u64, lyrics: u64, unsync_lyrics: u64) -> u64 {
    if key == unsync_lyrics {
        lyrics
    } else {
        key
    }
}

/// The key a tag item is reported and compared under.
pub fn canonical_key(key: u64, lyrics: u64, unsync_lyrics: u64) -> (k: u64)
    ensures
        k == canonical(key, lyrics, unsync_lyrics),
{
    if key == unsync_lyrics {
        lyrics
    } else {
        key
    }
}

/// The map after one more item: binary items and items whose trimmed text is
/// empty change nothing; another text for a key already present is appended
/// after `"; "`.
pub open spec fn merge_item(m: Map<u64, Seq<char>>, key: u64, text: Option<Seq<char>>) -> Map<
    u64,
    Seq<char>,
> {
    match text {
        None => m,
        Some(t) => {
            let v = trim(t);
            if v.len() == 0 {
                m
            } else if m.contains_key(key) {
                m.insert(key, m[key] + "; "@ + v)
            } else {
                m.insert(key, v)
            }
        },
    }
}

/// The map of a list of items, taken in order, each under its canonical key.
pub open spec fn tag_map(items: Seq<TagItem>, lyrics: u64, unsync_lyrics: u64) -> Map<u64, Seq<char>>
    decreases items.len(),
{
    if items.len() == 0 {
        Map::empty()
    } else {
        merge_item(
            tag_map(items.drop_last(), lyrics, unsync_lyrics),
            canonical(items.last().key, lyrics, unsync_lyrics),
            opt_text(items.last().text),
        )
    }
}

/// The map an association list stands for.
pub open spec fn assoc_map(v: Seq<(u64, String)>) -> Map<u64, Seq<char>>
    decreases v.len(),
{
    if v.len() == 0 {
        Map::empty()
    } else {
        assoc_map(v.drop_last()).insert(v.last().0, v.last().1@)
    }
}

/// No key occurs twice.
pub open spec fn keys_unique(v: Seq<(u64, String)>) -> bool {
    forall|i: int, j: int| 0 <= i < j < v.len() ==> v[i].0 != v[j].0
}

/// The keys of an association list are the keys of its map, each with its text.
pub proof fn lemma_assoc_lookup(v: Seq<(u64, String)>, k: u64)
    requires
        keys_unique(v),
    ensures
        assoc_map(v).contains_key(k) <==> exists|i: int| 0 <= i < v.len() && v[i].0 == k,
        forall|i: int| 0 <= i < v.len() && v[i].0 == k ==> assoc_map(v)[k] == v[i].1@,
    decreases v.len(),
{
    if v.len() > 0 {
        let d = v.drop_last();
        assert forall|i: int, j: int| 0 <= i < j < d.len() implies d[i].0 != d[j].0 by {
            assert(d[i] == v[i] && d[j] == v[j]);
        }
        lemma_assoc_lookup(d, k);
        if assoc_map(v).contains_key(k) && v.last().0 != k {
            let i = choose|i: int| 0 <= i < d.len() && d[i].0 == k;
            assert(v[i] == d[i]);
        }
        assert forall|i: int| 0 <= i < v.len() && v[i].0 == k implies assoc_map(v)[k] == v[i].1@ by {
            if i < v.len() - 1 {
                assert(v[i] == d[i]);
            }
        }
        if exists|i: int| 0 <= i < v.len() && v[i].0 == k {
            let i = choose|i: int| 0 <= i < v.len() && v[i].0 == k;
            if i < v.len() - 1 {
                assert(d[i] == v[i]);
            }
        }
    }
}

/// Replacing the text of one entry replaces it in the map.
pub proof fn lemma_assoc_update(v: Seq<(u64, String)>, i: int, s: String)
    requires
        keys_unique(v),
        0 <= i < v.len(),
    ensures
        assoc_map(v.update(i, (v[i].0, s))) == assoc_map(v).insert(v[i].0, s@),
    decreases v.len(),
{
    let w = v.update(i, (v[i].0, s));
    let d = v.drop_last();
    if i == v.len() - 1 {
        assert(w.drop_last() =~= d);
        assert(assoc_map(w) =~= assoc_map(v).insert(v[i].0, s@));
    } else {
        assert forall|a: int, b: int| 0 <= a < b < d.len() implies d[a].0 != d[b].0 by {
            assert(d[a] == v[a] && d[b] == v[b]);
        }
        lemma_assoc_update(d, i, s);
        assert(w.drop_last() =~= d.update(i, (d[i].0, s)));
        assert(v.last().0 != v[i].0);
        assert(assoc_map(w) =~= assoc_map(v).insert(v[i].0, s@));
    }
}

/// Where `key` sits in the list, if it does.
fn position_of(v: &Vec<(u64, String)>, key: u64) -> (r: Option<usize>)
    ensures
        match r {
            Some(i) => i < v@.len() && v@[i as int].0 == key,
            None => forall|i: int| 0 <= i < v@.len() ==> v@[i].0 != key,
        },
{
    let mut i: usize = 0;
    while i < v.len()
        invariant
            i <= v@.len(),
            forall|j: int| 0 <= j < i ==> v@[j].0 != key,
        decreases v@.len() - i,
    {
        if v[i].0 == key {
            return Some(i);
        }
        i = i + 1;
    }
    None
}

/// Builds the text map of a tag's items, `lyrics` and `unsync_lyrics` being the
/// keys of lyrics and of unsynchronised lyrics; each key appears once in the result.
pub fn extract_tag_map(items: &Vec<TagItem>, lyrics: u64, unsync_lyrics: u64) -> (entries: Vec<(u64, String)>)
    ensures
        keys_unique(entries@),
        assoc_map(entries@) == tag_map(items@, lyrics, unsync_lyrics),
{
    let mut entries: Vec<(u64, String)> = Vec::new();
    let mut n: usize = 0;
    while n < items.len()
        invariant
            n <= items@.len(),
            keys_unique(entries@),
            assoc_map(entries@) == tag_map(items@.take(n as int), lyrics, unsync_lyrics),
        decreases items@.len() - n,
    {
        let item = &items[n];
        let key = canonical_key(item.key, lyrics, unsync_lyrics);
        let ghost m = assoc_map(entries@);
        assert(items@.take(n + 1).drop_last() =~= items@.take(n as int));
        assert(items@.take(n + 1).last() == *item);
        if let Some(text) = &item.text {
            let value = trim_string(text.as_str());
            if !value.as_str().is_empty() {
                proof {
                    lemma_assoc_lookup(entries@, key);
                }
                match position_of(&entries, key) {
                    Some(i) => {
                        let mut joined = entries[i].1.clone();
                        joined.append("; ");
                        joined.append(value.as_str());
                        proof {
                            lemma_assoc_update(entries@, i as int, joined);
                        }
                        let ghost before = entries@;
                        entries.set(i, (key, joined));
                        assert(entries@ =~= before.update(i as int, (before[i as int].0, joined)));
                        assert forall|a: int, b: int|
                            0 <= a < b < entries@.len() implies entries@[a].0 != entries@[b].0 by {
                            assert(entries@[a].0 == before[a].0 && entries@[b].0 == before[b].0);
                        }
                    },
                    None => {
                        let ghost before = entries@;
                        entries.push((key, value));
                        assert(entries@.drop_last() =~= before);
                        assert forall|a: int, b: int|
                            0 <= a < b < entries@.len() implies entries@[a].0 != entries@[b].0 by {
                            if b < before.len() {
                                assert(entries@[a] == before[a] && entries@[b] == before[b]);
                            } else {
                                assert(entries@[a] == before[a]);
                            }
                        }
                    },
                }
            }
        }
        n = n + 1;
    }
    assert(items@.take(items@.len() as int) =~= items@);
    entries
}

/// Whether `key` is among `keys`.
fn contains_key(keys: &Vec<u64>, key: u64) -> (b: bool)
    ensures
        b == keys@.contains(key),
{
    let mut i: usize = 0;
    while i < keys.len()
        invariant
            i <= keys@.len(),
            forall|j: int| 0 <= j < i ==> keys@[j] != key,
        decreases keys@.len() - i,
    {
        if keys[i] == key {
            assert(keys@[i as int] == key);
            return true;
        }
        i = i + 1;
    }
    false
}

/// When other tags are deleted, an item stays only if its key is one always kept
/// (the encoder keys) or one about to be written.
pub fn item_survives(key: u64, always_kept: &Vec<u64>, written: &Vec<u64>) -> (b: bool)
    ensures
        b == (always_kept@.contains(key) || written@.contains(key)),
{
    contains_key(always_kept, key) || contains_key(written, key)
}

/// The key a text is written under: ID3v2 keeps lyrics in its unsynchronised
/// lyrics frame.
pub open spec fn key_to_write_spec(key: u64, lyrics: u64, unsync_lyrics: u64, is_id3v2: bool) -> u64 {
    if key == lyrics && is_id3v2 {
        unsync_lyrics
    } else {
        key
    }
}

/// The key a text is written under.
pub fn key_to_write(key: u64, lyrics: u64, unsync_lyrics: u64, is_id3v2: bool) -> (k: u64)
    ensures
        k == key_to_write_spec(key, lyrics, unsync_lyrics, is_id3v2),
{
    if key == lyrics && is_id3v2 {
        unsync_lyrics
    } else {
        key
    }
}

} // verus!
