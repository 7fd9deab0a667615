//! Statements of table "images".

use vstd::prelude::*;
use vstd::string::*;

use crate::common::{blake3_hash, compute_data_hash};
use crate::models::NewImage;
use crate::repos::track_repo::{params_view, InsertOrGet, SqlValue, SqlValueView};

verus! {

/// Table "images".
pub struct TableImages;

impl TableImages {
    /// The hash of a new image and the statements that store it: insert it
    /// unless an image with the same hash is stored, then look up the id of
    /// the image with that hash.
    pub fn prepare_insert(image: &NewImage) -> (r: (Vec<u8>, InsertOrGet))
        ensures
            r.0@ == blake3_hash(image.data@),
            r.1.insert_sql@ == "INSERT OR IGNORE INTO images (hash, data) VALUES (?1, ?2)"@,
            params_view(r.1.insert_params@) == seq![
                SqlValueView::Blob(r.0@),
                SqlValueView::Blob(image.data@),
            ],
            r.1.select_sql@ == "SELECT id FROM images WHERE hash = ?1"@,
            params_view(r.1.select_params@) == seq![SqlValueView::Blob(r.0@)],
    {
        let hash = compute_data_hash(image.data.as_slice());
        let insert_params = vec![SqlValue::Blob(hash.clone()), SqlValue::Blob(image.data.clone())];
        let select_params = vec![SqlValue::Blob(hash.clone())];
        assert(params_view(insert_params@) =~= seq![
            SqlValueView::Blob(hash@),
            SqlValueView::Blob(image.data@),
        ]);
        assert(params_view(select_params@) =~= seq![SqlValueView::Blob(hash@)]);
        let plan = InsertOrGet {
            insert_sql: String::from_str("INSERT OR IGNORE INTO images (hash, data) VALUES (?1, ?2)"),
            insert_params,
            select_sql: String::from_str("SELECT id FROM images WHERE hash = ?1"),
            select_params,
        };
        (hash, plan)
    }
}

} // verus!
