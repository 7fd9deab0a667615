//! Statements of table "tracks", and the steps of an update that stores
//! new BLOBs and track files before the tracks are changed.

use vstd::prelude::*;
use vstd::string::*;

use crate::models::{patches_view, Patch, PatchView, TrackFilter, TrackMetadataCore};
use crate::opt_view;
use crate::paths::{file_name_of, last_index, path_file_name, split_stem, stem_and_extension};
use crate::repos::track_repo::{
    group_conditions, group_params, int_values, params_view, set_parts, set_text, where_groups,
    where_text, InsertOrGet, SetClauseError, SqlValue, SqlValueView, TrackRepo,
};
use crate::text::{i64_decimal, i64_to_decimal, join, same_text, seq_join, views};

verus! {

/// Table "tracks".
pub struct TableTracks;

/// An optional text as a parameter: the text, or NULL.
pub open spec fn text_param(o: Option<String>) -> SqlValueView {
    match o {
        Some(s) => SqlValueView::Text(s@),
        None => SqlValueView::Null,
    }
}

/// An optional number as a parameter: the number, or NULL.
pub open spec fn int_param(o: Option<i64>) -> SqlValueView {
    match o {
        Some(n) => SqlValueView::Integer(n),
        None => SqlValueView::Null,
    }
}

fn text_param_of(o: &Option<String>) -> (r: SqlValue)
    ensures
        r@ == text_param(*o),
{
    match o {
        Some(s) => SqlValue::Text(s.clone()),
        None => SqlValue::Null,
    }
}

fn int_param_of(o: Option<i64>) -> (r: SqlValue)
    ensures
        r@ == int_param(o),
{
    match o {
        Some(n) => SqlValue::Integer(n),
        None => SqlValue::Null,
    }
}

/// The statement that stores a track row.
pub open spec fn insert_track_sql() -> Seq<char> {
    "INSERT OR IGNORE INTO tracks (title, artist, album, album_artist, recording_date, release_date, track_number, disc_number, genre, composer, lyricist, lyrics_id, front_cover_id, file_id) VALUES (?1, ?2, ?3, ?4, ?5, ?6, ?7, ?8, ?9, ?10, ?11, ?12, ?13, ?14)"@
}

/// The patches without those of column `col`.
pub open spec fn drop_column(p: Seq<(Seq<char>, PatchView)>, col: Seq<char>) -> Seq<
    (Seq<char>, PatchView),
>
    decreases p.len(),
{
    if p.len() == 0 {
        p
    } else if p.last().0 == col {
        drop_column(p.drop_last(), col)
    } else {
        drop_column(p.drop_last(), col).push(p.last())
    }
}

/// The patches with column `col` given patch `v`: in its place where the
/// column has a patch, at the end where it has none.
pub open spec fn put_column(p: Seq<(Seq<char>, PatchView)>, col: Seq<char>, v: PatchView) -> Seq<
    (Seq<char>, PatchView),
> {
    if exists|i: int| 0 <= i < p.len() && #[trigger] p[i].0 == col {
        p.map_values(
            |e: (Seq<char>, PatchView)|
                if e.0 == col {
                    (col, v)
                } else {
                    e
                },
        )
    } else {
        p.push((col, v))
    }
}

/// The value assigned to `col` by its last patch, if that patch assigns.
pub open spec fn assigned(p: Seq<(Seq<char>, PatchView)>, col: Seq<char>) -> Option<Seq<char>>
    decreases p.len(),
{
    if p.len() == 0 {
        None
    } else if p.last().0 == col {
        match p.last().1 {
            PatchView::Assign(v) => Some(v),
            _ => None,
        }
    } else {
        assigned(p.drop_last(), col)
    }
}

/// Whether the last patch of `col` clears it.
pub open spec fn cleared(p: Seq<(Seq<char>, PatchView)>, col: Seq<char>) -> bool
    decreases p.len(),
{
    if p.len() == 0 {
        false
    } else if p.last().0 == col {
        p.last().1 is Clear
    } else {
        cleared(p.drop_last(), col)
    }
}

/// The name a track file is copied under into "media/": its own name, or,
/// if a file of that name is there, the stem with "(1)" appended and the
/// extension kept.
pub open spec fn copy_name(file_name: Seq<char>, exists: bool) -> Seq<char> {
    if !exists {
        file_name
    } else {
        let se = stem_and_extension(file_name);
        match se.1 {
            Some(ext) => se.0 + "(1)."@ + ext,
            None => se.0 + "(1)"@,
        }
    }
}

/// The next step of an update that is carried out step by step.
pub enum UpdateStep {
    /// Read the BLOB at `path`, store it in `table`, and refer to it from
    /// column `id_col` in place of column `col`.
    StoreBlob { col: String, table: String, id_col: String, path: String },
    /// Copy the track file at `path`, whose file name is `file_name`, under
    /// "media/", store it, and refer to it from column "file_id".
    StoreTrackFile { path: String, file_name: String },
    /// Run the statement that updates the tracks and returns them.
    Run { sql: String, params: Vec<SqlValue> },
}

/// Why an update cannot go on.
#[derive(Debug, PartialEq, Eq)]
pub enum UpdateStepError {
    /// The path given for the track file has no file name.
    NoFileName(String),
    /// A value given to an integer column does not parse as an `i64`.
    NotAnInteger(String),
}

/// The view of the outcome of [`TableTracks::next_update_step`].
pub enum UpdateStepView {
    StoreBlob(Seq<char>, Seq<char>, Seq<char>, Seq<char>),
    StoreTrackFile(Seq<char>, Seq<char>),
    Run(Seq<char>, Seq<SqlValueView>),
    NoFileName(Seq<char>),
    NotAnInteger(Seq<char>),
}

/// The view of an outcome of a step.
pub open spec fn step_view(r: Result<UpdateStep, UpdateStepError>) -> UpdateStepView {
    match r {
        Ok(UpdateStep::StoreBlob { col, table, id_col, path }) => UpdateStepView::StoreBlob(
            col@,
            table@,
            id_col@,
            path@,
        ),
        Ok(UpdateStep::StoreTrackFile { path, file_name }) => UpdateStepView::StoreTrackFile(
            path@,
            file_name@,
        ),
        Ok(UpdateStep::Run { sql, params }) => UpdateStepView::Run(sql@, params_view(params@)),
        Err(UpdateStepError::NoFileName(p)) => UpdateStepView::NoFileName(p@),
        Err(UpdateStepError::NotAnInteger(v)) => UpdateStepView::NotAnInteger(v@),
    }
}

/// Where the last patch of `col` clears it, the clearing of `id_col` in
/// place of the patches of `col`.
pub open spec fn clear_moved(p: Seq<(Seq<char>, PatchView)>, col: Seq<char>, id_col: Seq<char>) -> Seq<
    (Seq<char>, PatchView),
> {
    if cleared(p, col) {
        put_column(drop_column(p, col), id_col, PatchView::Clear)
    } else {
        p
    }
}

/// The patches with a cleared BLOB column clearing the id that refers to
/// its BLOB.
pub open spec fn blob_clears_moved(p: Seq<(Seq<char>, PatchView)>) -> Seq<(Seq<char>, PatchView)> {
    clear_moved(clear_moved(p, "lyrics"@, "lyrics_id"@), "front_cover"@, "front_cover_id"@)
}

/// The next step of an update of the tracks passing `f` with patches `p`:
/// first storing the lyrics assigned, then the front cover (in table
/// "images"), then the track file; once none is left, running the UPDATE
/// statement. Fails where the track file's path has no file name, or
/// where the SET clause cannot be built.
pub open spec fn spec_update_step(f: TrackFilter, p: Seq<(Seq<char>, PatchView)>) -> UpdateStepView {
    match assigned(p, "lyrics"@) {
        Some(path) => UpdateStepView::StoreBlob("lyrics"@, "lyrics"@, "lyrics_id"@, path),
        None => match assigned(p, "front_cover"@) {
            Some(path) => UpdateStepView::StoreBlob(
                "front_cover"@,
                "images"@,
                "front_cover_id"@,
                path,
            ),
            None => match assigned(p, "track_file"@) {
                Some(path) => match path_file_name(path) {
                    Some(n) => UpdateStepView::StoreTrackFile(path, n),
                    None => UpdateStepView::NoFileName(path),
                },
                None => match set_parts(p) {
                    Ok(x) => UpdateStepView::Run(
                        "UPDATE tracks "@ + set_text(x.0) + " "@ + where_text(
                            group_conditions(where_groups(f)),
                        ) + " RETURNING *"@,
                        x.1 + group_params(where_groups(f)),
                    ),
                    Err(v) => UpdateStepView::NotAnInteger(v),
                },
            },
        },
    }
}

proof fn lemma_assigned_dropped(p: Seq<(Seq<char>, PatchView)>, col: Seq<char>)
    ensures
        assigned(drop_column(p, col), col) is None,
    decreases p.len(),
{
    if p.len() > 0 {
        lemma_assigned_dropped(p.drop_last(), col);
        if p.last().0 != col {
            let d = drop_column(p.drop_last(), col);
            assert(d.push(p.last()).drop_last() =~= d);
        }
    }
}

proof fn lemma_assigned_mapped(
    p: Seq<(Seq<char>, PatchView)>,
    id_col: Seq<char>,
    v: PatchView,
    col: Seq<char>,
)
    requires
        col != id_col,
    ensures
        assigned(
            p.map_values(
                |e: (Seq<char>, PatchView)|
                    if e.0 == id_col {
                        (id_col, v)
                    } else {
                        e
                    },
            ),
            col,
        ) == assigned(p, col),
    decreases p.len(),
{
    let f = |e: (Seq<char>, PatchView)|
        if e.0 == id_col {
            (id_col, v)
        } else {
            e
        };
    if p.len() > 0 {
        lemma_assigned_mapped(p.drop_last(), id_col, v, col);
        assert(p.map_values(f).drop_last() =~= p.drop_last().map_values(f));
        assert(p.map_values(f).last() == f(p.last()));
    }
}

/// A store step of an update ends: once the caller refers to what it
/// stored for column `col` from another column, `col` is assigned no
/// longer, so the next step is another one.
pub proof fn law_store_step_done(p: Seq<(Seq<char>, PatchView)>, col: Seq<char>, id_col: Seq<char>, id: i64)
    requires
        col != id_col,
    ensures
        assigned(put_column(drop_column(p, col), id_col, PatchView::Assign(i64_decimal(id))), col) is None,
{
    let q = drop_column(p, col);
    let v = PatchView::Assign(i64_decimal(id));
    lemma_assigned_dropped(p, col);
    if exists|i: int| 0 <= i < q.len() && #[trigger] q[i].0 == id_col {
        let f = |e: (Seq<char>, PatchView)|
            if e.0 == id_col {
                (id_col, v)
            } else {
                e
            };
        assert(put_column(q, id_col, v) =~= q.map_values(f));
        lemma_assigned_mapped(q, id_col, v, col);
    } else {
        assert(q.push((id_col, v)).drop_last() =~= q);
    }
}

proof fn lemma_last_index_bounds(s: Seq<char>, c: char)
    ensures
        -1 <= last_index(s, c) < s.len(),
    decreases s.len(),
{
    if s.len() > 0 && s.last() != c {
        lemma_last_index_bounds(s.drop_last(), c);
    }
}

/// A track file copied under "media/" keeps its name where no file of that
/// name is there, and otherwise never takes the name of the file that is
/// there.
pub proof fn law_copy_avoids_existing_name(file_name: Seq<char>)
    ensures
        copy_name(file_name, false) == file_name,
        copy_name(file_name, true) != file_name,
{
    lemma_last_index_bounds(file_name, '.');
    let d = last_index(file_name, '.');
    let se = stem_and_extension(file_name);
    if file_name == seq!['.', '.'] || d <= 0 {
        assert(se.0 == file_name && se.1 is None);
        assert(copy_name(file_name, true) == file_name + "(1)"@);
    } else {
        assert(se.0 == file_name.take(d) && se.1 == Some(file_name.skip(d + 1)));
        assert(se.0.len() + se.1->0.len() + 1 == file_name.len());
        assert(copy_name(file_name, true) == se.0 + "(1)."@ + se.1->0);
    }
    assert(copy_name(file_name, true).len() == file_name.len() + 3) by {
        reveal_strlit("(1)");
        reveal_strlit("(1).");
    }
}

impl TableTracks {
    /// Where a track file is copied to: its file name under "media/";
    /// nothing where the path has no file name (it ends in "..").
    pub fn destination_path(path: &str) -> (r: Option<String>)
        ensures
            opt_view(r) == match path_file_name(path@) {
                Some(n) => Some("media/"@ + n),
                None => None,
            },
    {
        match file_name_of(path) {
            Some(name) => {
                let mut p = String::from_str("media/");
                p.append(name.as_str());
                Some(p)
            },
            None => None,
        }
    }

    /// The statement that stores a track row and its parameters: the
    /// track's metadata, then the ids of its lyrics, front cover and file.
    pub fn insert_statement(
        core: &TrackMetadataCore,
        lyrics_id: Option<i64>,
        front_cover_id: Option<i64>,
        file_id: i64,
    ) -> (r: (String, Vec<SqlValue>))
        ensures
            r.0@ == insert_track_sql(),
            params_view(r.1@) == seq![
                SqlValueView::Text(core.title@),
                text_param(core.artist),
                text_param(core.album),
                text_param(core.album_artist),
                text_param(core.recording_date),
                text_param(core.release_date),
                int_param(core.track_number),
                int_param(core.disc_number),
                text_param(core.genre),
                text_param(core.composer),
                text_param(core.lyricist),
                int_param(lyrics_id),
                int_param(front_cover_id),
                SqlValueView::Integer(file_id),
            ],
    {
        let params = vec![
            SqlValue::Text(core.title.clone()),
            text_param_of(&core.artist),
            text_param_of(&core.album),
            text_param_of(&core.album_artist),
            text_param_of(&core.recording_date),
            text_param_of(&core.release_date),
            int_param_of(core.track_number),
            int_param_of(core.disc_number),
            text_param_of(&core.genre),
            text_param_of(&core.composer),
            text_param_of(&core.lyricist),
            int_param_of(lyrics_id),
            int_param_of(front_cover_id),
            SqlValue::Integer(file_id),
        ];
        let sql = String::from_str(
            "INSERT OR IGNORE INTO tracks (title, artist, album, album_artist, recording_date, release_date, track_number, disc_number, genre, composer, lyricist, lyrics_id, front_cover_id, file_id) VALUES (?1, ?2, ?3, ?4, ?5, ?6, ?7, ?8, ?9, ?10, ?11, ?12, ?13, ?14)",
        );
        assert(params_view(params@) =~= seq![
            SqlValueView::Text(core.title@),
            text_param(core.artist),
            text_param(core.album),
            text_param(core.album_artist),
            text_param(core.recording_date),
            text_param(core.release_date),
            int_param(core.track_number),
            int_param(core.disc_number),
            text_param(core.genre),
            text_param(core.composer),
            text_param(core.lyricist),
            int_param(lyrics_id),
            int_param(front_cover_id),
            SqlValueView::Integer(file_id),
        ]);
        (sql, params)
    }

    /// The statement that selects the tracks passing `filter`, and its
    /// parameters.
    pub fn select_statement(filter: &TrackFilter) -> (r: (String, Vec<SqlValue>))
        ensures
            r.0@ == "SELECT * FROM tracks "@ + where_text(group_conditions(where_groups(*filter))),
            params_view(r.1@) == group_params(where_groups(*filter)),
    {
        let (where_clause, params) = TrackRepo::build_where_clause(filter);
        let mut sql = String::from_str("SELECT * FROM tracks ");
        sql.append(where_clause.as_str());
        (sql, params)
    }

    /// The statement that deletes the tracks passing `filter` and returns
    /// them, and its parameters.
    pub fn remove_statement(filter: &TrackFilter) -> (r: (String, Vec<SqlValue>))
        ensures
            r.0@ == "DELETE FROM tracks "@ + where_text(group_conditions(where_groups(*filter)))
                + " RETURNING *"@,
            params_view(r.1@) == group_params(where_groups(*filter)),
    {
        let (where_clause, params) = TrackRepo::build_where_clause(filter);
        let mut sql = String::from_str("DELETE FROM tracks ");
        sql.append(where_clause.as_str());
        sql.append(" RETURNING *");
        (sql, params)
    }

    /// The statement that deletes the rows of `table_name` whose id is one
    /// of `ids`, and its parameters; nothing if `table_name` is not a table
    /// of the track repository.
    pub fn remove_by_id_statement(table_name: &str, ids: &Vec<i64>) -> (r: Option<
        (String, Vec<SqlValue>),
    >)
        ensures
            r is Some <== (table_name@ == "tracks"@ || table_name@ == "lyrics"@ || table_name@
                == "images"@ || table_name@ == "track_files"@),
            r is Some ==> (table_name@ == "tracks"@ || table_name@ == "lyrics"@ || table_name@
                == "images"@ || table_name@ == "track_files"@),
            r matches Some(x) ==> x.0@ == "DELETE FROM "@ + table_name@ + " WHERE id IN ("@
                + seq_join(Seq::new(ids@.len(), |i: int| "?"@), ", "@) + ")"@,
            r matches Some(x) ==> params_view(x.1@) == int_values(ids@),
    {
        if !TrackRepo::check_table_name(table_name) {
            return None;
        }
        let mut marks: Vec<String> = Vec::new();
        let mut params: Vec<SqlValue> = Vec::new();
        let mut i: usize = 0;
        while i < ids.len()
            invariant
                i <= ids@.len(),
                views(marks@) == Seq::new(i as nat, |j: int| "?"@),
                params_view(params@) == int_values(ids@.take(i as int)),
            decreases ids.len() - i,
        {
            let ghost m0 = views(marks@);
            let ghost p0 = params_view(params@);
            marks.push(String::from_str("?"));
            params.push(SqlValue::Integer(ids[i]));
            assert(views(marks@) =~= m0.push("?"@));
            assert(views(marks@) =~= Seq::new((i + 1) as nat, |j: int| "?"@));
            assert(params_view(params@) =~= p0.push(SqlValueView::Integer(ids@[i as int])));
            assert(int_values(ids@.take(i + 1)) =~= int_values(ids@.take(i as int)).push(
                SqlValueView::Integer(ids@[i as int]),
            ));
            i += 1;
        }
        assert(ids@.take(ids@.len() as int) =~= ids@);
        let mut sql = String::from_str("DELETE FROM ");
        sql.append(table_name);
        sql.append(" WHERE id IN (");
        let joined = join(&marks, ", ");
        sql.append(joined.as_str());
        sql.append(")");
        Some((sql, params))
    }

    /// The statement that updates the tracks passing `filter` with the
    /// patches and returns them, and its parameters: those of the SET
    /// clause, then those of the WHERE clause. Fails as
    /// [`TrackRepo::build_set_clause`] does.
    pub fn update_statement(filter: &TrackFilter, cols_patched: &Vec<(String, Patch)>) -> (r: Result<
        (String, Vec<SqlValue>),
        SetClauseError,
    >)
        ensures
            match r {
                Ok(x) => set_parts(patches_view(cols_patched@)) is Ok && x.0@ == "UPDATE tracks "@
                    + set_text(set_parts(patches_view(cols_patched@))->Ok_0.0) + " "@
                    + where_text(group_conditions(where_groups(*filter))) + " RETURNING *"@
                    && params_view(x.1@) == set_parts(patches_view(cols_patched@))->Ok_0.1
                    + group_params(where_groups(*filter)),
                Err(SetClauseError::NotAnInteger(v)) => set_parts(patches_view(cols_patched@))
                    == Err::<(Seq<Seq<char>>, Seq<SqlValueView>), Seq<char>>(v@),
            },
    {
        let (where_clause, where_params) = TrackRepo::build_where_clause(filter);
        let (set_clause, set_params) = match TrackRepo::build_set_clause(cols_patched) {
            Ok(x) => x,
            Err(e) => return Err(e),
        };
        let mut params: Vec<SqlValue> = Vec::new();
        let ghost sp = params_view(set_params@);
        let ghost wp = params_view(where_params@);
        let mut set_params = set_params;
        let mut where_params = where_params;
        params.append(&mut set_params);
        params.append(&mut where_params);
        assert(params_view(params@) =~= sp + wp);
        let mut sql = String::from_str("UPDATE tracks ");
        sql.append(set_clause.as_str());
        sql.append(" ");
        sql.append(where_clause.as_str());
        sql.append(" RETURNING *");
        Ok((sql, params))
    }

    /// The statements that store a BLOB in `table_name` by its hash: insert
    /// it unless a BLOB with the same hash is stored, then look up the id of
    /// the BLOB with that hash.
    pub fn blob_statements(table_name: &str, hash: &Vec<u8>, data: &Vec<u8>) -> (r: InsertOrGet)
        ensures
            r.insert_sql@ == "INSERT OR IGNORE INTO "@ + table_name@
                + " (hash, data) VALUES (?, ?)"@,
            params_view(r.insert_params@) == seq![
                SqlValueView::Blob(hash@),
                SqlValueView::Blob(data@),
            ],
            r.select_sql@ == "SELECT id FROM "@ + table_name@ + " WHERE hash = ?"@,
            params_view(r.select_params@) == seq![SqlValueView::Blob(hash@)],
    {
        let mut insert_sql = String::from_str("INSERT OR IGNORE INTO ");
        insert_sql.append(table_name);
        insert_sql.append(" (hash, data) VALUES (?, ?)");
        let mut select_sql = String::from_str("SELECT id FROM ");
        select_sql.append(table_name);
        select_sql.append(" WHERE hash = ?");
        let insert_params = vec![SqlValue::Blob(hash.clone()), SqlValue::Blob(data.clone())];
        let select_params = vec![SqlValue::Blob(hash.clone())];
        assert(params_view(insert_params@) =~= seq![
            SqlValueView::Blob(hash@),
            SqlValueView::Blob(data@),
        ]);
        assert(params_view(select_params@) =~= seq![SqlValueView::Blob(hash@)]);
        InsertOrGet { insert_sql, insert_params, select_sql, select_params }
    }

    /// The value assigned to `col`, if its patch assigns one.
    pub fn assigned_value(cols_patched: &Vec<(String, Patch)>, col: &str) -> (r: Option<String>)
        ensures
            opt_view(r) == assigned(patches_view(cols_patched@), col@),
    {
        let ghost pv = patches_view(cols_patched@);
        let mut found: Option<String> = None;
        let mut i: usize = 0;
        assert(pv.take(0) =~= Seq::<(Seq<char>, PatchView)>::empty());
        while i < cols_patched.len()
            invariant
                i <= cols_patched@.len(),
                pv == patches_view(cols_patched@),
                opt_view(found) == assigned(pv.take(i as int), col@),
            decreases cols_patched.len() - i,
        {
            assert(pv.take(i + 1).drop_last() =~= pv.take(i as int));
            assert(pv.take(i + 1).last() == (cols_patched@[i as int].0@, cols_patched@[i as int].1@));
            if same_text(cols_patched[i].0.as_str(), col) {
                found = match &cols_patched[i].1 {
                    Patch::Assign(v) => Some(v.clone()),
                    _ => None,
                };
            }
            i += 1;
        }
        assert(pv.take(cols_patched@.len() as int) =~= pv);
        found
    }

    /// Replaces the patches of `old_col` by the patch `patch` of `new_col`.
    fn move_patch(
        cols_patched: &mut Vec<(String, Patch)>,
        old_col: &str,
        new_col: &str,
        patch: Patch,
    )
        ensures
            patches_view(final(cols_patched)@) == put_column(
                drop_column(patches_view(old(cols_patched)@), old_col@),
                new_col@,
                patch@,
            ),
    {
        let ghost pv = patches_view(cols_patched@);
        let mut kept: Vec<(String, Patch)> = Vec::new();
        let mut i: usize = 0;
        assert(pv.take(0) =~= Seq::<(Seq<char>, PatchView)>::empty());
        assert(patches_view(kept@) =~= Seq::<(Seq<char>, PatchView)>::empty());
        while i < cols_patched.len()
            invariant
                i <= cols_patched@.len(),
                pv == patches_view(cols_patched@),
                patches_view(kept@) == drop_column(pv.take(i as int), old_col@),
            decreases cols_patched.len() - i,
        {
            assert(pv.take(i + 1).drop_last() =~= pv.take(i as int));
            assert(pv.take(i + 1).last() == (cols_patched@[i as int].0@, cols_patched@[i as int].1@));
            if !same_text(cols_patched[i].0.as_str(), old_col) {
                let ghost before = patches_view(kept@);
                let ghost e = (cols_patched@[i as int].0@, cols_patched@[i as int].1@);
                kept.push((cols_patched[i].0.clone(), cols_patched[i].1.duplicate()));
                assert(patches_view(kept@) =~= before.push(e));
            }
            i += 1;
        }
        assert(pv.take(cols_patched@.len() as int) =~= pv);
        let ghost dv = patches_view(kept@);
        let ghost nv = patch@;
        let mut out: Vec<(String, Patch)> = Vec::new();
        let mut present = false;
        let mut j: usize = 0;
        while j < kept.len()
            invariant
                j <= kept@.len(),
                dv == patches_view(kept@),
                nv == patch@,
                present == (exists|m: int| 0 <= m < j && #[trigger] dv[m].0 == new_col@),
                patches_view(out@) == dv.take(j as int).map_values(
                    |e: (Seq<char>, PatchView)|
                        if e.0 == new_col@ {
                            (new_col@, nv)
                        } else {
                            e
                        },
                ),
            decreases kept.len() - j,
        {
            let ghost before = patches_view(out@);
            assert(dv[j as int] == (kept@[j as int].0@, kept@[j as int].1@));
            let ghost mapped = if dv[j as int].0 == new_col@ {
                (new_col@, nv)
            } else {
                dv[j as int]
            };
            if same_text(kept[j].0.as_str(), new_col) {
                present = true;
                let name = kept[j].0.clone();
                assert(name@ == new_col@);
                out.push((name, patch.duplicate()));
                assert(patches_view(out@) =~= before.push(mapped));
            } else {
                out.push((kept[j].0.clone(), kept[j].1.duplicate()));
                assert(patches_view(out@) =~= before.push(mapped));
            }
            assert(dv.take(j + 1) =~= dv.take(j as int).push(dv[j as int]));
            assert(patches_view(out@) =~= dv.take(j + 1).map_values(
                |e: (Seq<char>, PatchView)|
                    if e.0 == new_col@ {
                        (new_col@, nv)
                    } else {
                        e
                    },
            ));
            j += 1;
        }
        assert(dv.take(kept@.len() as int) =~= dv);
        if !present {
            let ghost before = patches_view(out@);
            out.push((String::from_str(new_col), patch));
            assert(out@.len() == kept@.len() + 1);
            assert(before =~= dv) by {
                assert forall|m: int| 0 <= m < dv.len() implies before[m] == dv[m] by {
                    assert(dv[m].0 != new_col@);
                }
            }
            assert(patches_view(out@) =~= dv.push((new_col@, nv)));
        }
        *cols_patched = out;
    }

    /// Replaces the patch of `old_col` by the assignment of `id` to
    /// `new_col`: how an update refers to a stored BLOB or track file by
    /// its id.
    pub fn replace_patch(
        cols_patched: &mut Vec<(String, Patch)>,
        old_col: &str,
        new_col: &str,
        id: i64,
    )
        ensures
            patches_view(final(cols_patched)@) == put_column(
                drop_column(patches_view(old(cols_patched)@), old_col@),
                new_col@,
                PatchView::Assign(i64_decimal(id)),
            ),
    {
        let value = i64_to_decimal(id);
        Self::move_patch(cols_patched, old_col, new_col, Patch::Assign(value));
    }

    /// Where the last patch of `old_col` clears it, replaces the patches of
    /// `old_col` by the clearing of `new_col`: clearing a BLOB column clears
    /// the id that refers to the stored BLOB. Otherwise changes nothing.
    pub fn move_clear(cols_patched: &mut Vec<(String, Patch)>, old_col: &str, new_col: &str)
        ensures
            patches_view(final(cols_patched)@) == (if cleared(
                patches_view(old(cols_patched)@),
                old_col@,
            ) {
                put_column(
                    drop_column(patches_view(old(cols_patched)@), old_col@),
                    new_col@,
                    PatchView::Clear,
                )
            } else {
                patches_view(old(cols_patched)@)
            }),
    {
        let ghost pv = patches_view(cols_patched@);
        let mut found = false;
        let mut i: usize = 0;
        assert(pv.take(0) =~= Seq::<(Seq<char>, PatchView)>::empty());
        while i < cols_patched.len()
            invariant
                i <= cols_patched@.len(),
                pv == patches_view(cols_patched@),
                found == cleared(pv.take(i as int), old_col@),
            decreases cols_patched.len() - i,
        {
            assert(pv.take(i + 1).drop_last() =~= pv.take(i as int));
            assert(pv.take(i + 1).last() == (cols_patched@[i as int].0@, cols_patched@[i as int].1@));
            if same_text(cols_patched[i].0.as_str(), old_col) {
                found = match &cols_patched[i].1 {
                    Patch::Clear => true,
                    _ => false,
                };
            }
            i += 1;
        }
        assert(pv.take(cols_patched@.len() as int) =~= pv);
        if found {
            Self::move_patch(cols_patched, old_col, new_col, Patch::Clear);
        }
    }

    /// Decides the next step of an update of the tracks passing `filter`:
    /// moves the clearing of a BLOB column to the id that refers to its
    /// BLOB, then gives the step that [`spec_update_step`] names. After a
    /// store step, the caller refers to what it stored with
    /// [`TableTracks::replace_patch`] and asks again.
    pub fn next_update_step(filter: &TrackFilter, cols_patched: &mut Vec<(String, Patch)>) -> (r:
        Result<UpdateStep, UpdateStepError>)
        ensures
            patches_view(final(cols_patched)@) == blob_clears_moved(patches_view(old(cols_patched)@)),
            step_view(r) == spec_update_step(*filter, patches_view(final(cols_patched)@)),
    {
        Self::move_clear(cols_patched, "lyrics", "lyrics_id");
        Self::move_clear(cols_patched, "front_cover", "front_cover_id");
        if let Some(path) = Self::assigned_value(cols_patched, "lyrics") {
            return Ok(
                UpdateStep::StoreBlob {
                    col: String::from_str("lyrics"),
                    table: String::from_str("lyrics"),
                    id_col: String::from_str("lyrics_id"),
                    path,
                },
            );
        }
        if let Some(path) = Self::assigned_value(cols_patched, "front_cover") {
            return Ok(
                UpdateStep::StoreBlob {
                    col: String::from_str("front_cover"),
                    table: String::from_str("images"),
                    id_col: String::from_str("front_cover_id"),
                    path,
                },
            );
        }
        if let Some(path) = Self::assigned_value(cols_patched, "track_file") {
            return match file_name_of(path.as_str()) {
                Some(file_name) => Ok(UpdateStep::StoreTrackFile { path, file_name }),
                None => Err(UpdateStepError::NoFileName(path)),
            };
        }
        match Self::update_statement(filter, cols_patched) {
            Ok((sql, params)) => Ok(UpdateStep::Run { sql, params }),
            Err(SetClauseError::NotAnInteger(v)) => Err(UpdateStepError::NotAnInteger(v)),
        }
    }

    /// Where a track file named `file_name` is copied to under "media/":
    /// under its own name, or, if a file of that name is there already
    /// (`exists`), under the name with "(1)" after the stem.
    pub fn copy_target(file_name: &str, exists: bool) -> (r: String)
        ensures
            r@ == "media/"@ + copy_name(file_name@, exists),
    {
        let mut p = String::from_str("media/");
        if !exists {
            p.append(file_name);
            return p;
        }
        let (stem, ext) = split_stem(file_name);
        p.append(stem.as_str());
        match ext {
            Some(e) => {
                p.append("(1).");
                p.append(e.as_str());
            },
            None => {
                p.append("(1)");
            },
        }
        p
    }
}

} // verus!
