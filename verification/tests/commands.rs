use mcat::cli::{Cli, Commands, FilterArgs};
use mcat::commands::check::{compare, insert_text_sorted, sorted_difference, sorted_set};
use mcat::commands::display::execute;
use mcat::commands::edit::apply_edit;
use mcat::commands::{
    dedup_columns, list_columns, parse_update_kvs, run, validate_columns, Action, UpdateArgError,
};
use mcat::common::canonical_columns;
use mcat::models::{Patch, TrackFilter};
use mcat::repos::toml_repo::TomlDb;
use mcat::TagAttributes;

fn strings(v: &[&str]) -> Vec<String> {
    v.iter().map(|s| s.to_string()).collect()
}

fn no_filter_args() -> FilterArgs {
    FilterArgs {
        ids: vec![],
        titles: vec![],
        artists: vec![],
        albums: vec![],
        album_artists: vec![],
        recording_dates: vec![],
        release_dates: vec![],
        track_numbers: vec![],
        disc_numbers: vec![],
        genres: vec![],
        composers: vec![],
        lyricists: vec![],
    }
}

const UPDATE_COLUMNS: [&str; 14] = [
    "title",
    "artist",
    "album",
    "album_artist",
    "recording_date",
    "release_date",
    "track_number",
    "disc_number",
    "genre",
    "composer",
    "lyricist",
    "lyrics",
    "front_cover",
    "track_file",
];

fn patch_of<'a>(ps: &'a [(String, Patch)], col: &str) -> &'a Patch {
    &ps.iter().find(|(c, _)| c == col).unwrap().1
}

#[test]
fn update_of_readme_example_sets_one_column() {
    let ps = parse_update_kvs(strings(&["artist=bob dylan"]), vec![]).unwrap();
    let cols: Vec<&str> = ps.iter().map(|(c, _)| c.as_str()).collect();
    assert_eq!(cols, UPDATE_COLUMNS.to_vec());
    for (c, p) in &ps {
        if c == "artist" {
            assert_eq!(p, &Patch::Assign("bob dylan".to_string()));
        } else {
            assert_eq!(p, &Patch::Keep);
        }
    }
}

#[test]
fn update_value_may_hold_equals_and_last_value_wins() {
    let ps = parse_update_kvs(strings(&["genre=a=b", "album=x", "album=y"]), strings(&["lyrics"]))
        .unwrap();
    assert_eq!(patch_of(&ps, "genre"), &Patch::Assign("a=b".to_string()));
    assert_eq!(patch_of(&ps, "album"), &Patch::Assign("y".to_string()));
    assert_eq!(patch_of(&ps, "lyrics"), &Patch::Clear);
    assert_eq!(patch_of(&ps, "title"), &Patch::Keep);
}

#[test]
fn update_refuses_a_value_without_equals() {
    assert_eq!(
        parse_update_kvs(strings(&["artist=x", "artist"]), vec![]),
        Err(UpdateArgError::BadPattern("artist".to_string()))
    );
}

#[test]
fn update_refuses_unknown_columns() {
    assert_eq!(
        parse_update_kvs(strings(&["foo=1"]), vec![]),
        Err(UpdateArgError::InvalidColumn("foo".to_string()))
    );
    assert_eq!(
        parse_update_kvs(vec![], strings(&["artist", "id"])),
        Err(UpdateArgError::InvalidColumn("id".to_string()))
    );
}

#[test]
fn update_refuses_a_column_set_and_cleared() {
    assert_eq!(
        parse_update_kvs(strings(&["genre=rock"]), strings(&["genre"])),
        Err(UpdateArgError::SetAndCleared("genre".to_string()))
    );
}

#[test]
fn update_refuses_clearing_title_or_track_file() {
    assert_eq!(
        parse_update_kvs(vec![], strings(&["title"])),
        Err(UpdateArgError::NotClearable("title".to_string()))
    );
    assert_eq!(
        parse_update_kvs(vec![], strings(&["track_file"])),
        Err(UpdateArgError::NotClearable("track_file".to_string()))
    );
}

#[test]
fn list_columns_default_validated_and_deduplicated() {
    assert_eq!(list_columns(vec![]), Ok(strings(&["id", "title", "artist", "album"])));
    assert_eq!(
        list_columns(strings(&["title", "album", "artist", "title"])),
        Ok(strings(&["title", "album", "artist"]))
    );
    assert_eq!(list_columns(strings(&["title", "bogus", "nope"])), Err("bogus".to_string()));
}

#[test]
fn validate_and_dedup_columns() {
    let canon = canonical_columns();
    assert_eq!(canon.len(), 15);
    assert_eq!(canon[0], "id");
    assert_eq!(canon[14], "file_id");
    assert_eq!(validate_columns(&strings(&["file_id", "genre"]), &canon), Ok(()));
    assert_eq!(validate_columns(&strings(&["genre", "lyrics"]), &canon), Err("lyrics".to_string()));
    let mut cols = strings(&["b", "a", "b", "c", "a"]);
    dedup_columns(&mut cols);
    assert_eq!(cols, strings(&["b", "a", "c"]));
}

#[test]
fn run_dispatches_subcommands() {
    match run(Cli { cmd: Commands::Init { force: true } }) {
        Ok(Action::Init { forced }) => assert!(forced),
        _ => panic!("expected init"),
    }
    match run(Cli { cmd: Commands::Add { paths: strings(&["a", "b"]), recursive: true } }) {
        Ok(Action::Add { paths, recursive }) => {
            assert_eq!(paths, strings(&["a", "b"]));
            assert!(recursive);
        }
        _ => panic!("expected add"),
    }
    let mut args = no_filter_args();
    args.ids = vec![9, 9];
    match run(Cli { cmd: Commands::Remove { filter_args: Box::new(args), detailed: false } }) {
        Ok(Action::Remove { filter, detailed }) => {
            assert_eq!(filter.ids, vec![9]);
            assert!(!detailed);
        }
        _ => panic!("expected remove"),
    }
    // mcat rm: no track is removed by default
    match run(Cli { cmd: Commands::Remove { filter_args: Box::new(no_filter_args()), detailed: true } }) {
        Ok(Action::RemoveNone { detailed }) => assert!(detailed),
        _ => panic!("expected no removal"),
    }
    match run(Cli {
        cmd: Commands::List {
            json: true,
            filter_args: Box::new(no_filter_args()),
            columns: strings(&["title"]),
        },
    }) {
        Ok(Action::List { in_json, filter, columns }) => {
            assert!(in_json);
            assert!(filter.is_empty());
            assert_eq!(columns, strings(&["title"]));
        }
        _ => panic!("expected list"),
    }
}

#[test]
fn run_refuses_bad_update_arguments() {
    let cmd = Commands::Update {
        detailed: true,
        filter_args: Box::new(no_filter_args()),
        kvs_to_set: vec![],
        columns_to_clear: strings(&["title"]),
    };
    match run(Cli { cmd }) {
        Err(e) => assert_eq!(e, UpdateArgError::NotClearable("title".to_string())),
        _ => panic!("expected an error"),
    }
    let mut args = no_filter_args();
    args.artists = strings(&["Bob Dylan"]);
    let cmd = Commands::Update {
        detailed: true,
        filter_args: Box::new(args),
        kvs_to_set: strings(&["artist=x"]),
        columns_to_clear: vec![],
    };
    match run(Cli { cmd }) {
        Ok(Action::Update { columns_patched, detailed, filter }) => {
            assert!(detailed);
            assert_eq!(filter.artists, strings(&["Bob Dylan"]));
            assert_eq!(patch_of(&columns_patched, "artist"), &Patch::Assign("x".to_string()));
        }
        _ => panic!("expected update"),
    }
    // an update without filter options changes no track, once its arguments are valid
    let cmd = Commands::Update {
        detailed: false,
        filter_args: Box::new(no_filter_args()),
        kvs_to_set: strings(&["artist=x"]),
        columns_to_clear: vec![],
    };
    match run(Cli { cmd }) {
        Ok(Action::UpdateNone { detailed }) => assert!(!detailed),
        _ => panic!("expected no update"),
    }
}

#[test]
fn compare_reports_untracked_files_and_missing_files() {
    let known = strings(&["h3", "h1", "h2"]);
    let files = strings(&["h4", "h2", "h1", "h4"]);
    let (untracked, missing) = compare(&known, &files, false, false);
    assert_eq!(untracked, strings(&["h4"]));
    assert_eq!(missing, strings(&["h3"]));
    let (untracked, missing) = compare(&known, &files, true, false);
    assert_eq!(untracked, strings(&["h4"]));
    assert!(missing.is_empty());
    let (untracked, missing) = compare(&known, &files, false, true);
    assert!(untracked.is_empty());
    assert_eq!(missing, strings(&["h3"]));
}

#[test]
fn sorted_sets_and_differences() {
    let s = sorted_set(&strings(&["b", "a", "c", "a"]));
    assert_eq!(s, strings(&["a", "b", "c"]));
    assert_eq!(sorted_difference(&s, &strings(&["b", "z"])), strings(&["a", "c"]));
    let mut v = strings(&["a", "c"]);
    insert_text_sorted(&mut v, "b".to_string());
    insert_text_sorted(&mut v, "c".to_string());
    assert_eq!(v, strings(&["a", "b", "c"]));
}

#[test]
fn edit_replaces_only_given_attributes() {
    let held = TagAttributes {
        title: Some("Tempest".to_string()),
        artist: Some("Bob Dylan".to_string()),
        album: None,
        album_artist: Some("x".to_string()),
        genre: None,
    };
    let edit = TagAttributes {
        title: None,
        artist: Some("bob dylan".to_string()),
        album: Some("Tempest".to_string()),
        album_artist: None,
        genre: None,
    };
    let r = apply_edit(held, edit);
    assert_eq!(r.title.as_deref(), Some("Tempest"));
    assert_eq!(r.artist.as_deref(), Some("bob dylan"));
    assert_eq!(r.album.as_deref(), Some("Tempest"));
    assert_eq!(r.album_artist.as_deref(), Some("x"));
    assert_eq!(r.genre, None);
}

fn tag(title: &str, artist: &str) -> TagAttributes {
    TagAttributes {
        title: Some(title.to_string()),
        artist: Some(artist.to_string()),
        album: None,
        album_artist: None,
        genre: None,
    }
}

#[test]
fn display_selects_tracks_as_documented() {
    let mut db = TomlDb::new();
    db.insert_track("h1".to_string(), tag("黄金时代", "麦浚龙"));
    db.insert_track("h2".to_string(), tag("鹤顶红", "麦浚龙"));
    db.insert_track("h3".to_string(), tag("黄金时代", "someone else"));
    db.insert_track("h4".to_string(), tag("其他", "麦浚龙"));
    let mut args = no_filter_args();
    args.titles = strings(&["黄金时代", "鹤顶红"]);
    args.artists = strings(&["麦浚龙"]);
    let filter = TrackFilter::from_args(&args);
    assert_eq!(filter.apply(&db), strings(&["h1", "h2"]));
    let shown = execute(&filter, &db);
    let titles: Vec<&str> = shown.iter().map(|t| t.title.as_deref().unwrap()).collect();
    assert_eq!(titles, vec!["黄金时代", "鹤顶红"]);

    let all = TrackFilter::from_args(&no_filter_args());
    assert_eq!(execute(&all, &db).len(), 4);
    let mut ids_only = no_filter_args();
    ids_only.ids = vec![1];
    let none = TrackFilter::from_args(&ids_only);
    assert!(execute(&none, &db).is_empty());
}
