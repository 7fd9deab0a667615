use mcat::cli::FilterArgs;
use mcat::commands::init::{first_of_each_core, same_core_exec};
use mcat::common::{build_table, compute_data_hash, reflect_rows, CellValue};
use mcat::config::{
    cover_dir_path, lrc_dir_path, media_dir_path, repo_backup_file_path, repo_file_path, Config,
};
use mcat::models::{
    Image, Lyrics, NewImage, NewLyrics, NewTrack, NewTrackFile, NewTrackMetadata, TagFields, Track,
    TrackFile, TrackFilter, TrackMetadataCore, TrackRow,
};
use mcat::services::{get_hash_from_vec, is_valid_blake3_hex};
use mcat::TagAttributes;

fn strings(v: &[&str]) -> Vec<String> {
    v.iter().map(|s| s.to_string()).collect()
}

fn core_of(title: &str, artist: Option<&str>, album: Option<&str>) -> TrackMetadataCore {
    TrackMetadataCore {
        title: title.to_string(),
        artist: artist.map(|s| s.to_string()),
        album: album.map(|s| s.to_string()),
        album_artist: None,
        recording_date: None,
        release_date: None,
        track_number: None,
        disc_number: None,
        genre: None,
        composer: None,
        lyricist: None,
    }
}

fn row(id: i64, title: &str, artist: &str, album: &str) -> TrackRow {
    TrackRow {
        id,
        core: core_of(title, Some(artist), Some(album)),
        lyrics_id: None,
        front_cover_id: None,
        file_id: Some(id),
    }
}

#[test]
fn listing_table_of_readme() {
    // mcat ls --title Tempest
    let cols = strings(&["id", "title", "artist", "album"]);
    let rows = reflect_rows(&vec![row(7, "Tempest", "Bob Dylan", "Tempest")], &cols);
    let expected = [
        "┌────┬─────────┬───────────┬─────────┐",
        "│ id │ title   │ artist    │ album   │",
        "├────┼─────────┼───────────┼─────────┤",
        "│ 7  │ Tempest │ Bob Dylan │ Tempest │",
        "└────┴─────────┴───────────┴─────────┘",
    ]
    .join("\n");
    assert_eq!(build_table(&rows, &cols), expected);
}

#[test]
fn listing_table_in_the_order_of_the_given_columns() {
    // mcat ls --column title --column album --column artist ...
    let cols = strings(&["title", "album", "artist"]);
    let rows = reflect_rows(
        &vec![
            row(2, "All We Cannot Say", "Ally Kerr", "Upgrade Me"),
            row(5, "Whatever Happens", "Ally Kerr", "Viva Melodia"),
        ],
        &cols,
    );
    let expected = [
        "┌───────────────────┬──────────────┬───────────┐",
        "│ title             │ album        │ artist    │",
        "├───────────────────┼──────────────┼───────────┤",
        "│ All We Cannot Say │ Upgrade Me   │ Ally Kerr │",
        "├───────────────────┼──────────────┼───────────┤",
        "│ Whatever Happens  │ Viva Melodia │ Ally Kerr │",
        "└───────────────────┴──────────────┴───────────┘",
    ]
    .join("\n");
    assert_eq!(build_table(&rows, &cols), expected);
}

#[test]
fn empty_listing_shows_only_the_header() {
    let cols = strings(&["id", "title", "artist", "album"]);
    let expected = [
        "┌────┬───────┬────────┬───────┐",
        "│ id │ title │ artist │ album │",
        "└────┴───────┴────────┴───────┘",
    ]
    .join("\n");
    assert_eq!(build_table(&vec![], &cols), expected);
}

#[test]
fn reflected_rows_follow_canonical_order() {
    let cols = strings(&["album", "track_number", "id", "artist"]);
    let mut r = row(3, "Toledo", "Ally Kerr", "Upgrade Me");
    r.core.artist = None;
    let rows = reflect_rows(&vec![r], &cols);
    assert_eq!(
        rows,
        vec![vec![
            ("id".to_string(), CellValue::Integer(3)),
            ("artist".to_string(), CellValue::Null),
            ("album".to_string(), CellValue::Text("Upgrade Me".to_string())),
            ("track_number".to_string(), CellValue::Null),
        ]]
    );
}

#[test]
fn hashes_are_blake3() {
    let data = b"some track file";
    assert_eq!(compute_data_hash(data), blake3::hash(data).as_bytes().to_vec());
    let hex = get_hash_from_vec(data);
    assert_eq!(hex, blake3::hash(data).to_hex().to_string());
    assert_eq!(hex.len(), 64);
    assert!(is_valid_blake3_hex(&hex));
    assert!(is_valid_blake3_hex(&hex.to_uppercase()));
    assert!(!is_valid_blake3_hex(&hex[1..]));
    assert!(!is_valid_blake3_hex(&format!("g{}", &hex[1..])));
    assert!(!is_valid_blake3_hex(&format!("é{}", &hex[2..])));
    assert!(!is_valid_blake3_hex("Tempest"));
}

#[test]
fn default_config_paths() {
    let c = Config::default();
    assert_eq!(c.mcat_dir, ".mcat/");
    assert_eq!(repo_file_path(&c), ".mcat/repo.toml");
    assert_eq!(repo_backup_file_path(&c), ".mcat/repo.bak");
    assert_eq!(cover_dir_path(&c), ".mcat/images/");
    assert_eq!(lrc_dir_path(&c), ".mcat/lyrics/");
    assert_eq!(media_dir_path(&c), "media/");
}

fn empty_tag() -> TagFields {
    TagFields {
        title: None,
        artist: None,
        album: None,
        album_artist: None,
        recording_date: None,
        release_date: None,
        track_number: None,
        disc_number: None,
        genre: None,
        composer: None,
        lyricist: None,
        lyrics: None,
        front_cover: None,
    }
}

#[test]
fn new_track_from_tag_items() {
    let mut tag = empty_tag();
    tag.title = Some("Shiver".to_string());
    tag.artist = Some("Lucy Rose".to_string());
    tag.track_number = Some("3".to_string());
    tag.disc_number = Some("1/2".to_string());
    tag.lyrics = Some(vec![1, 2, 3]);
    let t = NewTrack::from_tag(tag, "../new_tracks/Shiver - Lucy Rose.flac".to_string());
    assert_eq!(t.file.path, "../new_tracks/Shiver - Lucy Rose.flac");
    assert_eq!(t.metadata.core.title, "Shiver");
    assert_eq!(t.metadata.core.artist.as_deref(), Some("Lucy Rose"));
    assert_eq!(t.metadata.core.track_number, Some(3));
    assert_eq!(t.metadata.core.disc_number, None);
    assert_eq!(t.metadata.lyrics.as_ref().map(|l| l.data.clone()), Some(vec![1, 2, 3]));
    assert!(t.metadata.front_cover.is_none());

    let m = NewTrackMetadata::from_tag(empty_tag());
    assert_eq!(m.core.title, "");
    assert_eq!(m.core.track_number, None);
}

#[test]
fn stored_track_from_new_track() {
    let mut tag = empty_tag();
    tag.title = Some("Saeglopur".to_string());
    let new_track = NewTrack::from_tag(tag, "a.flac".to_string());
    let lyrics = Lyrics::from_new(NewLyrics { data: vec![9] }, 2, vec![7; 32]);
    assert_eq!(lyrics.id, 2);
    assert_eq!(lyrics.data, Some(vec![9]));
    let image = Image::from_new(NewImage { data: vec![8] }, 3, vec![6; 32]);
    assert_eq!(image.hash, vec![6; 32]);
    let file = TrackFile { id: 4, name: "a.flac".to_string(), hash: vec![5; 32] };
    let t = Track::from_new(new_track, 11, Some(lyrics), Some(image), file);
    assert_eq!(t.id, 11);
    assert_eq!(t.metadata.core.title, "Saeglopur");
    assert_eq!(t.metadata.lyrics.unwrap().id, 2);
    assert_eq!(t.metadata.front_cover.unwrap().id, 3);
    assert_eq!(t.file.id, 4);
    assert_eq!(NewTrackFile::from("x.mp3".to_string()).path, "x.mp3");
}

#[test]
fn tag_attributes_emptiness_and_copies() {
    let none = TagAttributes { title: None, artist: None, album: None, album_artist: None, genre: None };
    assert!(none.is_empty());
    let some = TagAttributes { genre: Some("folk".to_string()), ..none };
    assert!(!some.is_empty());
    let copy = some.duplicate();
    assert_eq!(copy.genre.as_deref(), Some("folk"));
    let c = core_of("t", None, Some("al")).duplicate();
    assert_eq!(c, core_of("t", None, Some("al")));
}

#[test]
fn init_stores_one_track_per_distinct_metadata() {
    let mut numbered = core_of("Tempest", Some("Bob Dylan"), Some("Tempest"));
    numbered.track_number = Some(10);
    let cores = vec![
        core_of("Tempest", Some("Bob Dylan"), Some("Tempest")),
        core_of("Shiver", Some("Lucy Rose"), None),
        core_of("Tempest", Some("Bob Dylan"), Some("Tempest")),
        numbered,
        core_of("Shiver", Some("Lucy Rose"), None),
    ];
    assert_eq!(first_of_each_core(&cores), vec![true, true, false, true, false]);
    assert!(same_core_exec(&cores[0], &cores[2]));
    assert!(!same_core_exec(&cores[0], &cores[3]));
    assert!(first_of_each_core(&vec![]).is_empty());
}

#[test]
fn filter_of_options_and_tag_acceptance() {
    let args = FilterArgs {
        ids: vec![],
        titles: vec!["A".to_string(), "B".to_string(), "A".to_string()],
        artists: vec!["X".to_string()],
        albums: vec![],
        album_artists: vec![],
        recording_dates: vec![],
        release_dates: vec![],
        track_numbers: vec![2, 2],
        disc_numbers: vec![],
        genres: vec![],
        composers: vec![],
        lyricists: vec![],
    };
    let f = TrackFilter::from_args(&args);
    assert_eq!(f.titles, vec!["A".to_string(), "B".to_string()]);
    assert_eq!(f.track_numbers, vec![2]);
    assert!(!f.is_empty());
    let tag = |t: &str, a: Option<&str>| TagAttributes {
        title: Some(t.to_string()),
        artist: a.map(|s| s.to_string()),
        album: None,
        album_artist: None,
        genre: None,
    };
    // an entry holds no track number, so a filter on it rejects every entry
    assert!(!f.accepts_tag(&tag("A", Some("X"))));
    let mut args2 = args;
    args2.track_numbers = vec![];
    let g = TrackFilter::from_args(&args2);
    assert!(g.accepts_tag(&tag("A", Some("X"))));
    assert!(g.accepts_tag(&tag("B", Some("X"))));
    assert!(!g.accepts_tag(&tag("C", Some("X"))));
    assert!(!g.accepts_tag(&tag("A", Some("Y"))));
    assert!(!g.accepts_tag(&tag("A", None)));
}
