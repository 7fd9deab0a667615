use rusqlite::{params_from_iter, types::Value, Connection};

use mcat::cli::FilterArgs;
use mcat::models::{Patch, TrackFilter, TrackMetadataCore};
use mcat::repos::track_repo::table_tracks::TableTracks;
use mcat::repos::SqlValue;

const SCHEMA: &str = "
    CREATE TABLE tracks (
        id              INTEGER PRIMARY KEY,
        title           TEXT NOT NULL,
        artist          TEXT,
        album           TEXT,
        album_artist    TEXT,
        recording_date  TEXT,
        release_date    TEXT,
        track_number    INTEGER,
        disc_number     INTEGER,
        genre           TEXT,
        composer        TEXT,
        lyricist        TEXT,
        lyrics_id       INTEGER,
        front_cover_id  INTEGER,
        file_id         INTEGER
    );";

fn values(params: &[SqlValue]) -> Vec<Value> {
    params
        .iter()
        .map(|v| match v {
            SqlValue::Null => Value::Null,
            SqlValue::Integer(n) => Value::Integer(*n),
            SqlValue::Text(s) => Value::Text(s.clone()),
            SqlValue::Blob(b) => Value::Blob(b.clone()),
        })
        .collect()
}

fn core_with(title: &str, artist: &str, album: &str, track_number: Option<i64>) -> TrackMetadataCore {
    TrackMetadataCore {
        title: title.to_string(),
        artist: Some(artist.to_string()),
        album: Some(album.to_string()),
        album_artist: None,
        recording_date: None,
        release_date: None,
        track_number,
        disc_number: None,
        genre: None,
        composer: None,
        lyricist: None,
    }
}

fn catalog() -> Connection {
    let conn = Connection::open_in_memory().unwrap();
    conn.execute_batch(SCHEMA).unwrap();
    let tracks = [
        core_with("Chimes Of Freedom", "Bob Dylan", "Another Side Of Bob Dylan", Some(1)),
        core_with("All We Cannot Say", "Ally Kerr", "Upgrade Me", Some(1)),
        core_with("Toledo", "Ally Kerr", "Upgrade Me", Some(2)),
        core_with("Upgrade Me", "Ally Kerr", "Upgrade Me", Some(3)),
        core_with("Whatever Happens", "Ally Kerr", "Viva Melodia", Some(1)),
        core_with("Saeglopur", "Sigur Rós", "We Play Endlessly", None),
    ];
    for (i, core) in tracks.iter().enumerate() {
        let (sql, params) = TableTracks::insert_statement(core, None, None, i as i64 + 1);
        conn.execute(&sql, params_from_iter(values(&params))).unwrap();
    }
    conn
}

fn no_filter_args() -> FilterArgs {
    FilterArgs {
        ids: vec![],
        titles: vec![],
        artists: vec![],
        albums: vec![],
        album_artists: vec![],
        recording_dates: vec![],
        release_dates: vec![],
        track_numbers: vec![],
        disc_numbers: vec![],
        genres: vec![],
        composers: vec![],
        lyricists: vec![],
    }
}

fn selected_titles(conn: &Connection, filter: &TrackFilter) -> Vec<String> {
    let (sql, params) = TableTracks::select_statement(filter);
    let mut stmt = conn.prepare(&sql).unwrap();
    let rows = stmt
        .query_map(params_from_iter(values(&params)), |row| row.get::<_, String>("title"))
        .unwrap();
    rows.map(|r| r.unwrap()).collect()
}

#[test]
fn categories_hold_together_and_values_of_one_category_are_alternatives() {
    let conn = catalog();
    // --artist="Ally Kerr" --artist="Bob Dylan" --album="Upgrade Me"
    let mut args = no_filter_args();
    args.artists = vec!["Ally Kerr".to_string(), "Bob Dylan".to_string()];
    args.albums = vec!["Upgrade Me".to_string()];
    let filter = TrackFilter::from_args(&args);
    assert_eq!(selected_titles(&conn, &filter), vec!["All We Cannot Say", "Toledo", "Upgrade Me"]);

    let mut args = no_filter_args();
    args.track_numbers = vec![1, 2];
    args.artists = vec!["Bob Dylan".to_string()];
    let filter = TrackFilter::from_args(&args);
    assert_eq!(selected_titles(&conn, &filter), vec!["Chimes Of Freedom"]);
}

#[test]
fn an_empty_filter_lists_every_track() {
    let conn = catalog();
    let filter = TrackFilter::from_args(&no_filter_args());
    assert_eq!(selected_titles(&conn, &filter).len(), 6);
}

#[test]
fn a_null_value_passes_no_category_that_holds_values() {
    let conn = catalog();
    let mut args = no_filter_args();
    args.track_numbers = vec![1, 2, 3];
    let filter = TrackFilter::from_args(&args);
    assert!(!selected_titles(&conn, &filter).contains(&"Saeglopur".to_string()));
    assert_eq!(selected_titles(&conn, &filter).len(), 5);
}

#[test]
fn update_and_remove_statements_run() {
    let conn = catalog();
    let mut args = no_filter_args();
    args.artists = vec!["Bob Dylan".to_string()];
    let filter = TrackFilter::from_args(&args);
    let cols = vec![
        ("artist".to_string(), Patch::Assign("bob dylan".to_string())),
        ("track_number".to_string(), Patch::Assign("7".to_string())),
        ("genre".to_string(), Patch::Clear),
    ];
    let (sql, params) = TableTracks::update_statement(&filter, &cols).unwrap();
    let mut stmt = conn.prepare(&sql).unwrap();
    let updated: Vec<(String, i64)> = stmt
        .query_map(params_from_iter(values(&params)), |row| {
            Ok((row.get::<_, String>("artist")?, row.get::<_, i64>("track_number")?))
        })
        .unwrap()
        .map(|r| r.unwrap())
        .collect();
    assert_eq!(updated, vec![("bob dylan".to_string(), 7)]);

    let mut args = no_filter_args();
    args.albums = vec!["Upgrade Me".to_string(), "Viva Melodia".to_string()];
    let filter = TrackFilter::from_args(&args);
    let (sql, params) = TableTracks::remove_statement(&filter);
    let mut stmt = conn.prepare(&sql).unwrap();
    let removed = stmt
        .query_map(params_from_iter(values(&params)), |row| row.get::<_, i64>("id"))
        .unwrap()
        .count();
    assert_eq!(removed, 4);
    drop(stmt);
    assert_eq!(selected_titles(&conn, &TrackFilter::from_args(&no_filter_args())).len(), 2);

    let (sql, params) = TableTracks::remove_by_id_statement("tracks", &vec![1, 6]).unwrap();
    assert_eq!(conn.execute(&sql, params_from_iter(values(&params))).unwrap(), 2);
}
