//! Statements of table "track_files".

use vstd::prelude::*;
use vstd::string::*;

use crate::repos::track_repo::{params_view, InsertOrGet, SqlValue, SqlValueView};

verus! {

/// Table "track_files".
pub struct TableTrackFiles;

impl TableTrackFiles {
    /// The statements that store a track file by its name and hash: insert
    /// it unless a file with the same hash is stored, then look up the id of
    /// the file with that hash.
    pub fn prepare_insert(file_name: &String, file_hash: &Vec<u8>) -> (r: InsertOrGet)
        ensures
            r.insert_sql@ == "INSERT OR IGNORE INTO track_files (name, hash) VALUES (?1, ?2)"@,
            params_view(r.insert_params@) == seq![
                SqlValueView::Text(file_name@),
                SqlValueView::Blob(file_hash@),
            ],
            r.select_sql@ == "SELECT id FROM track_files WHERE hash = ?1"@,
            params_view(r.select_params@) == seq![SqlValueView::Blob(file_hash@)],
    {
        let insert_params = vec![SqlValue::Text(file_name.clone()), SqlValue::Blob(file_hash.clone())];
        let select_params = vec![SqlValue::Blob(file_hash.clone())];
        assert(params_view(insert_params@) =~= seq![
            SqlValueView::Text(file_name@),
            SqlValueView::Blob(file_hash@),
        ]);
        assert(params_view(select_params@) =~= seq![SqlValueView::Blob(file_hash@)]);
        InsertOrGet {
            insert_sql: String::from_str(
                "INSERT OR IGNORE INTO track_files (name, hash) VALUES (?1, ?2)",
            ),
            insert_params,
            select_sql: String::from_str("SELECT id FROM track_files WHERE hash = ?1"),
            select_params,
        }
    }
}

} // verus!
