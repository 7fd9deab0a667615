use mcat::display::tag_info_lines;
use mcat::edit::{tag_writes, TagItem};
use mcat::services::{strip_tags_from_data, stripped_hash};
use mcat::{McatError, TagAttributes};

fn attrs(title: Option<&str>, album_artist: Option<&str>, genre: Option<&str>) -> TagAttributes {
    TagAttributes {
        title: title.map(|s| s.to_string()),
        artist: None,
        album: None,
        album_artist: album_artist.map(|s| s.to_string()),
        genre: genre.map(|s| s.to_string()),
    }
}

#[test]
fn tag_info_lines_show_none_for_missing_items() {
    let lines = tag_info_lines(&attrs(Some("Tempest"), Some("Bob Dylan"), None));
    assert_eq!(
        lines,
        vec![
            "==== Tag Info ====",
            "Title: Tempest",
            "Artist: None",
            "Album: None",
            "Album Artist: Bob Dylan",
            "Genre: None",
            "Album Artist: Bob Dylan",
        ]
    );
}

#[test]
fn tag_writes_of_an_edit() {
    assert_eq!(tag_writes(attrs(None, None, None)).unwrap_err(), McatError::AttrEmpty);
    let w = tag_writes(attrs(Some("T"), Some("AA"), Some("folk"))).unwrap();
    assert_eq!(w, vec![(TagItem::Title, "T".to_string()), (TagItem::Genre, "folk".to_string())]);
    // the album artist alone is an edit, but it writes nothing
    assert_eq!(tag_writes(attrs(None, Some("AA"), None)).unwrap(), vec![]);
}

fn chunk(id: &[u8; 4], body: &[u8]) -> Vec<u8> {
    let mut c = id.to_vec();
    c.extend_from_slice(&(body.len() as u32).to_le_bytes());
    c.extend_from_slice(body);
    if body.len() % 2 == 1 {
        c.push(0);
    }
    c
}

/// A small PCM WAV file, with a RIFF INFO tag holding a title if given.
fn wav(title: Option<&str>) -> Vec<u8> {
    let mut fmt = Vec::new();
    fmt.extend_from_slice(&1u16.to_le_bytes()); // PCM
    fmt.extend_from_slice(&1u16.to_le_bytes()); // mono
    fmt.extend_from_slice(&8000u32.to_le_bytes());
    fmt.extend_from_slice(&16000u32.to_le_bytes());
    fmt.extend_from_slice(&2u16.to_le_bytes());
    fmt.extend_from_slice(&16u16.to_le_bytes());
    let mut body = b"WAVE".to_vec();
    body.extend(chunk(b"fmt ", &fmt));
    body.extend(chunk(b"data", &[0u8; 64]));
    if let Some(t) = title {
        let mut info = b"INFO".to_vec();
        let mut name = t.as_bytes().to_vec();
        name.push(0);
        info.extend(chunk(b"INAM", &name));
        body.extend(chunk(b"LIST", &info));
    }
    chunk(b"RIFF", &body)
}

#[test]
fn stripping_tags_gives_a_stable_hash() {
    assert_eq!(strip_tags_from_data(b"not an audio file".to_vec()), Err(McatError::ReadFailed));
    assert_eq!(stripped_hash(b"not an audio file".to_vec()), Err(McatError::ReadFailed));
    // a file without tags: the tags cannot be stripped
    assert_eq!(strip_tags_from_data(wav(None)), Err(McatError::TagNotFound));
    assert_eq!(stripped_hash(wav(None)), Err(McatError::TagNotFound));

    let tagged = wav(Some("Saeglopur"));
    let stripped = strip_tags_from_data(tagged.clone()).expect("a readable tagged WAV file");
    assert_ne!(stripped, tagged);
    assert!(!stripped.windows(4).any(|w| w == b"INAM"));
    let hash = stripped_hash(tagged).unwrap();
    assert_eq!(hash, blake3::hash(&stripped).to_hex().to_string());
    // another title, the same audio: the same hash
    assert_eq!(stripped_hash(wav(Some("Other title"))).unwrap(), hash);
}
