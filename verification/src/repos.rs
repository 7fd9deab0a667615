//! Repositories of tracks: the SQL statements of the SQLite track
//! repository, and the TOML-backed repository held in memory.

pub mod toml_repo;
pub mod track_repo;

pub use track_repo::{InsertOrGet, SqlValue, SqlValueView, TrackRepo};

use vstd::prelude::*;

verus! {

} // verus!
