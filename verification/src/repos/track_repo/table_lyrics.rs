//! Statements of table "lyrics".

use vstd::prelude::*;
use vstd::string::*;

use crate::common::{blake3_hash, compute_data_hash};
use crate::models::NewLyrics;
use crate::repos::track_repo::{params_view, InsertOrGet, SqlValue, SqlValueView};

verus! {

/// Table "lyrics".
pub struct TableLyrics;

impl TableLyrics {
    /// The hash of new lyrics and the statements that store them: insert
    /// them unless lyrics with the same hash are stored, then look up the id
    /// of the lyrics with that hash.
    pub fn prepare_insert(lyrics: &NewLyrics) -> (r: (Vec<u8>, InsertOrGet))
        ensures
            r.0@ == blake3_hash(lyrics.data@),
            r.1.insert_sql@ == "INSERT OR IGNORE INTO lyrics (hash, data) VALUES (?1, ?2)"@,
            params_view(r.1.insert_params@) == seq![
                SqlValueView::Blob(r.0@),
                SqlValueView::Blob(lyrics.data@),
            ],
            r.1.select_sql@ == "SELECT id FROM lyrics WHERE hash = ?1"@,
            params_view(r.1.select_params@) == seq![SqlValueView::Blob(r.0@)],
    {
        let hash = compute_data_hash(lyrics.data.as_slice());
        let insert_params = vec![SqlValue::Blob(hash.clone()), SqlValue::Blob(lyrics.data.clone())];
        let select_params = vec![SqlValue::Blob(hash.clone())];
        assert(params_view(insert_params@) =~= seq![
            SqlValueView::Blob(hash@),
            SqlValueView::Blob(lyrics.data@),
        ]);
        assert(params_view(select_params@) =~= seq![SqlValueView::Blob(hash@)]);
        let plan = InsertOrGet {
            insert_sql: String::from_str("INSERT OR IGNORE INTO lyrics (hash, data) VALUES (?1, ?2)"),
            insert_params,
            select_sql: String::from_str("SELECT id FROM lyrics WHERE hash = ?1"),
            select_params,
        };
        (hash, plan)
    }
}

} // verus!
