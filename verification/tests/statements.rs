use mcat::cli::FilterArgs;
use mcat::models::{NewImage, NewLyrics, Patch, TrackFilter, TrackMetadataCore};
use mcat::repos::track_repo::table_images::TableImages;
use mcat::repos::track_repo::table_lyrics::TableLyrics;
use mcat::repos::track_repo::table_track_files::TableTrackFiles;
use mcat::repos::track_repo::table_tracks::{TableTracks, UpdateStep, UpdateStepError};
use mcat::repos::track_repo::SetClauseError;
use mcat::repos::{SqlValue, TrackRepo};

fn no_filter_args() -> FilterArgs {
    FilterArgs {
        ids: vec![],
        titles: vec![],
        artists: vec![],
        albums: vec![],
        album_artists: vec![],
        recording_dates: vec![],
        release_dates: vec![],
        track_numbers: vec![],
        disc_numbers: vec![],
        genres: vec![],
        composers: vec![],
        lyricists: vec![],
    }
}

fn text(s: &str) -> SqlValue {
    SqlValue::Text(s.to_string())
}

fn patches(ps: Vec<(&str, Patch)>) -> Vec<(String, Patch)> {
    ps.into_iter().map(|(c, p)| (c.to_string(), p)).collect()
}

#[test]
fn where_clause_of_documented_example() {
    // mcat display --title="黄金时代" --title="鹤顶红" --artist="麦浚龙"
    let mut args = no_filter_args();
    args.titles = vec!["黄金时代".to_string(), "鹤顶红".to_string()];
    args.artists = vec!["麦浚龙".to_string()];
    let filter = TrackFilter::from_args(&args);
    let (clause, params) = TrackRepo::build_where_clause(&filter);
    assert_eq!(clause, "WHERE (title = ? OR title = ?) AND (artist = ?)");
    assert_eq!(params, vec![text("黄金时代"), text("鹤顶红"), text("麦浚龙")]);
}

#[test]
fn where_clause_of_empty_filter_is_empty() {
    let filter = TrackFilter::from_args(&no_filter_args());
    assert!(filter.is_empty());
    let (clause, params) = TrackRepo::build_where_clause(&filter);
    assert_eq!(clause, "");
    assert!(params.is_empty());
}

#[test]
fn where_clause_keeps_category_order_and_values_once() {
    let mut args = no_filter_args();
    args.lyricists = vec!["L".to_string()];
    args.track_numbers = vec![3, 5, 3];
    args.ids = vec![9, 9];
    let filter = TrackFilter::from_args(&args);
    let (clause, params) = TrackRepo::build_where_clause(&filter);
    assert_eq!(
        clause,
        "WHERE (id = ?) AND (track_number = ? OR track_number = ?) AND (lyricist = ?)"
    );
    assert_eq!(
        params,
        vec![SqlValue::Integer(9), SqlValue::Integer(3), SqlValue::Integer(5), text("L")]
    );
}

#[test]
fn set_clause_of_assignments_and_clears() {
    let cols = patches(vec![
        ("artist", Patch::Assign("bob dylan".to_string())),
        ("album", Patch::Keep),
        ("track_number", Patch::Assign("7".to_string())),
        ("genre", Patch::Clear),
    ]);
    let (clause, params) = TrackRepo::build_set_clause(&cols).unwrap();
    assert_eq!(clause, "SET artist = ?, track_number = ?, genre = ?");
    assert_eq!(params, vec![text("bob dylan"), SqlValue::Integer(7), SqlValue::Null]);
}

#[test]
fn set_clause_refuses_non_integer_number() {
    let cols = patches(vec![
        ("artist", Patch::Assign("x".to_string())),
        ("disc_number", Patch::Assign("two".to_string())),
        ("track_number", Patch::Assign("also bad".to_string())),
    ]);
    assert_eq!(
        TrackRepo::build_set_clause(&cols),
        Err(SetClauseError::NotAnInteger("two".to_string()))
    );
}

#[test]
fn set_clause_of_kept_columns_is_empty() {
    let cols = patches(vec![("title", Patch::Keep), ("artist", Patch::Keep)]);
    let (clause, params) = TrackRepo::build_set_clause(&cols).unwrap();
    assert_eq!(clause, "");
    assert!(params.is_empty());
}

#[test]
fn select_and_remove_statements() {
    let mut args = no_filter_args();
    args.ids = vec![9];
    let filter = TrackFilter::from_args(&args);
    let (sql, params) = TableTracks::select_statement(&filter);
    assert_eq!(sql, "SELECT * FROM tracks WHERE (id = ?)");
    assert_eq!(params, vec![SqlValue::Integer(9)]);
    let (sql, params) = TableTracks::remove_statement(&filter);
    assert_eq!(sql, "DELETE FROM tracks WHERE (id = ?) RETURNING *");
    assert_eq!(params, vec![SqlValue::Integer(9)]);

    let empty = TrackFilter::from_args(&no_filter_args());
    let (sql, params) = TableTracks::select_statement(&empty);
    assert_eq!(sql, "SELECT * FROM tracks ");
    assert!(params.is_empty());
}

#[test]
fn update_statement_of_readme_example() {
    // mcat update --artist="Bob Dylan" --set artist="bob dylan"
    let mut args = no_filter_args();
    args.artists = vec!["Bob Dylan".to_string()];
    let filter = TrackFilter::from_args(&args);
    let cols = patches(vec![("title", Patch::Keep), ("artist", Patch::Assign("bob dylan".to_string()))]);
    let (sql, params) = TableTracks::update_statement(&filter, &cols).unwrap();
    assert_eq!(sql, "UPDATE tracks SET artist = ? WHERE (artist = ?) RETURNING *");
    assert_eq!(params, vec![text("bob dylan"), text("Bob Dylan")]);
}

#[test]
fn update_statement_refuses_bad_number() {
    let filter = TrackFilter::from_args(&no_filter_args());
    let cols = patches(vec![("track_number", Patch::Assign("1/12".to_string()))]);
    assert_eq!(
        TableTracks::update_statement(&filter, &cols),
        Err(SetClauseError::NotAnInteger("1/12".to_string()))
    );
}

#[test]
fn remove_by_id_statement_checks_table() {
    let (sql, params) = TableTracks::remove_by_id_statement("lyrics", &vec![1, 2]).unwrap();
    assert_eq!(sql, "DELETE FROM lyrics WHERE id IN (?, ?)");
    assert_eq!(params, vec![SqlValue::Integer(1), SqlValue::Integer(2)]);
    assert!(TableTracks::remove_by_id_statement("songs", &vec![1]).is_none());
    assert!(TrackRepo::check_table_name("track_files"));
    assert!(!TrackRepo::check_table_name("Tracks"));
}

#[test]
fn insert_statement_binds_every_column() {
    let core = TrackMetadataCore {
        title: "Tempest".to_string(),
        artist: Some("Bob Dylan".to_string()),
        album: None,
        album_artist: None,
        recording_date: None,
        release_date: Some("2012".to_string()),
        track_number: Some(10),
        disc_number: None,
        genre: None,
        composer: None,
        lyricist: None,
    };
    let (sql, params) = TableTracks::insert_statement(&core, None, Some(4), 12);
    assert!(sql.starts_with("INSERT OR IGNORE INTO tracks (title, artist, album"));
    assert!(sql.ends_with("VALUES (?1, ?2, ?3, ?4, ?5, ?6, ?7, ?8, ?9, ?10, ?11, ?12, ?13, ?14)"));
    assert_eq!(
        params,
        vec![
            text("Tempest"),
            text("Bob Dylan"),
            SqlValue::Null,
            SqlValue::Null,
            SqlValue::Null,
            text("2012"),
            SqlValue::Integer(10),
            SqlValue::Null,
            SqlValue::Null,
            SqlValue::Null,
            SqlValue::Null,
            SqlValue::Null,
            SqlValue::Integer(4),
            SqlValue::Integer(12),
        ]
    );
}

#[test]
fn blob_statements_name_the_table() {
    let s = TableTracks::blob_statements("images", &vec![1, 2], &vec![3]);
    assert_eq!(s.insert_sql, "INSERT OR IGNORE INTO images (hash, data) VALUES (?, ?)");
    assert_eq!(s.insert_params, vec![SqlValue::Blob(vec![1, 2]), SqlValue::Blob(vec![3])]);
    assert_eq!(s.select_sql, "SELECT id FROM images WHERE hash = ?");
    assert_eq!(s.select_params, vec![SqlValue::Blob(vec![1, 2])]);
}

#[test]
fn image_and_lyrics_inserts_are_keyed_by_blake3() {
    let data = b"front cover bytes".to_vec();
    let expected = blake3::hash(&data).as_bytes().to_vec();
    let (hash, s) = TableImages::prepare_insert(&NewImage { data: data.clone() });
    assert_eq!(hash, expected);
    assert_eq!(s.insert_sql, "INSERT OR IGNORE INTO images (hash, data) VALUES (?1, ?2)");
    assert_eq!(s.insert_params, vec![SqlValue::Blob(expected.clone()), SqlValue::Blob(data.clone())]);
    assert_eq!(s.select_sql, "SELECT id FROM images WHERE hash = ?1");

    let (hash, s) = TableLyrics::prepare_insert(&NewLyrics { data: data.clone() });
    assert_eq!(hash, expected);
    assert_eq!(s.insert_sql, "INSERT OR IGNORE INTO lyrics (hash, data) VALUES (?1, ?2)");
    assert_eq!(s.select_params, vec![SqlValue::Blob(expected)]);
}

#[test]
fn track_file_insert() {
    let s = TableTrackFiles::prepare_insert(&"a.flac".to_string(), &vec![7, 7]);
    assert_eq!(s.insert_sql, "INSERT OR IGNORE INTO track_files (name, hash) VALUES (?1, ?2)");
    assert_eq!(s.insert_params, vec![text("a.flac"), SqlValue::Blob(vec![7, 7])]);
    assert_eq!(s.select_sql, "SELECT id FROM track_files WHERE hash = ?1");
    assert_eq!(s.select_params, vec![SqlValue::Blob(vec![7, 7])]);
}

#[test]
fn replace_patch_moves_a_blob_column_to_its_id() {
    let mut cols = patches(vec![
        ("lyrics", Patch::Assign("song.lrc".to_string())),
        ("artist", Patch::Keep),
    ]);
    assert_eq!(TableTracks::assigned_value(&cols, "lyrics"), Some("song.lrc".to_string()));
    assert_eq!(TableTracks::assigned_value(&cols, "artist"), None);
    TableTracks::replace_patch(&mut cols, "lyrics", "lyrics_id", 5);
    assert_eq!(
        cols,
        patches(vec![("artist", Patch::Keep), ("lyrics_id", Patch::Assign("5".to_string()))])
    );

    let mut cols = patches(vec![("file_id", Patch::Keep), ("track_file", Patch::Clear)]);
    TableTracks::replace_patch(&mut cols, "track_file", "file_id", -3);
    assert_eq!(cols, patches(vec![("file_id", Patch::Assign("-3".to_string()))]));
}

#[test]
fn copy_target_names() {
    assert_eq!(TableTracks::copy_target("a.flac", false), "media/a.flac");
    assert_eq!(TableTracks::copy_target("a.flac", true), "media/a(1).flac");
    assert_eq!(TableTracks::copy_target("archive.tar.gz", true), "media/archive.tar(1).gz");
    assert_eq!(TableTracks::copy_target(".hidden", true), "media/.hidden(1)");
    assert_eq!(TableTracks::copy_target("noext", true), "media/noext(1)");
}

#[test]
fn destination_paths() {
    assert_eq!(
        TableTracks::destination_path("../new_tracks/Tempest - Bob Dylan.flac"),
        Some("media/Tempest - Bob Dylan.flac".to_string())
    );
    assert_eq!(TableTracks::destination_path("dir/"), Some("media/dir".to_string()));
    assert_eq!(TableTracks::destination_path("x/.."), None);
}

#[test]
fn clearing_a_blob_column_clears_its_id() {
    let mut cols = patches(vec![("lyrics", Patch::Clear), ("front_cover", Patch::Keep)]);
    TableTracks::move_clear(&mut cols, "lyrics", "lyrics_id");
    assert_eq!(cols, patches(vec![("front_cover", Patch::Keep), ("lyrics_id", Patch::Clear)]));
    TableTracks::move_clear(&mut cols, "front_cover", "front_cover_id");
    assert_eq!(cols, patches(vec![("front_cover", Patch::Keep), ("lyrics_id", Patch::Clear)]));
    let (clause, params) = TrackRepo::build_set_clause(&cols).unwrap();
    assert_eq!(clause, "SET lyrics_id = ?");
    assert_eq!(params, vec![SqlValue::Null]);
}

#[test]
fn update_steps_store_blobs_then_the_track_file_then_run() {
    let filter = {
        let mut args = no_filter_args();
        args.ids = vec![3];
        TrackFilter::from_args(&args)
    };
    let mut cols = patches(vec![
        ("artist", Patch::Assign("x".to_string())),
        ("lyrics", Patch::Assign("a.lrc".to_string())),
        ("front_cover", Patch::Assign("c.png".to_string())),
        ("track_file", Patch::Assign("/in/t.flac".to_string())),
    ]);
    match TableTracks::next_update_step(&filter, &mut cols) {
        Ok(UpdateStep::StoreBlob { col, table, id_col, path }) => {
            assert_eq!((col.as_str(), table.as_str(), id_col.as_str(), path.as_str()),
                ("lyrics", "lyrics", "lyrics_id", "a.lrc"));
        }
        _ => panic!("expected the lyrics"),
    }
    TableTracks::replace_patch(&mut cols, "lyrics", "lyrics_id", 5);
    match TableTracks::next_update_step(&filter, &mut cols) {
        Ok(UpdateStep::StoreBlob { col, table, id_col, path }) => {
            assert_eq!((col.as_str(), table.as_str(), id_col.as_str(), path.as_str()),
                ("front_cover", "images", "front_cover_id", "c.png"));
        }
        _ => panic!("expected the front cover"),
    }
    TableTracks::replace_patch(&mut cols, "front_cover", "front_cover_id", 6);
    match TableTracks::next_update_step(&filter, &mut cols) {
        Ok(UpdateStep::StoreTrackFile { path, file_name }) => {
            assert_eq!((path.as_str(), file_name.as_str()), ("/in/t.flac", "t.flac"));
        }
        _ => panic!("expected the track file"),
    }
    TableTracks::replace_patch(&mut cols, "track_file", "file_id", 7);
    match TableTracks::next_update_step(&filter, &mut cols) {
        Ok(UpdateStep::Run { sql, params }) => {
            assert_eq!(
                sql,
                "UPDATE tracks SET artist = ?, lyrics_id = ?, front_cover_id = ?, file_id = ? WHERE (id = ?) RETURNING *"
            );
            assert_eq!(
                params,
                vec![text("x"), text("5"), text("6"), text("7"), SqlValue::Integer(3)]
            );
        }
        _ => panic!("expected the statement"),
    }
}

#[test]
fn update_steps_clear_blob_ids_and_fail_as_documented() {
    let filter = TrackFilter::from_args(&no_filter_args());
    let mut cols = patches(vec![("front_cover", Patch::Clear), ("genre", Patch::Keep)]);
    match TableTracks::next_update_step(&filter, &mut cols) {
        Ok(UpdateStep::Run { sql, params }) => {
            assert_eq!(sql, "UPDATE tracks SET front_cover_id = ?  RETURNING *");
            assert_eq!(params, vec![SqlValue::Null]);
        }
        _ => panic!("expected the statement"),
    }
    assert_eq!(cols, patches(vec![("genre", Patch::Keep), ("front_cover_id", Patch::Clear)]));

    let mut cols = patches(vec![("track_file", Patch::Assign("x/..".to_string()))]);
    assert!(matches!(
        TableTracks::next_update_step(&filter, &mut cols),
        Err(UpdateStepError::NoFileName(p)) if p == "x/.."
    ));
    let mut cols = patches(vec![("disc_number", Patch::Assign("one".to_string()))]);
    assert!(matches!(
        TableTracks::next_update_step(&filter, &mut cols),
        Err(UpdateStepError::NotAnInteger(v)) if v == "one"
    ));
}
