//! mcat: a music catalog. This crate holds the catalog's verified logic:
//! track models and filters, the SQL statements run against the track
//! repository, the TOML-backed repository kept in memory, and the text
//! helpers they rest on.

pub mod cli;
pub mod commands;
pub mod config;
pub mod db;
pub mod display;
pub mod edit;
pub mod common;
pub mod models;
pub mod paths;
pub mod repos;
pub mod services;
pub mod text;

use vstd::prelude::*;

use crate::models::RowFields;

verus! {

/// Errors of tag handling and of the TOML-backed repository.
#[derive(Debug, Clone, Copy, PartialEq, Eq, Structural)]
pub enum McatError {
    FileNotFound,
    OpenFailed,
    ReadFailed,
    TagNotFound,
    WriteFailed,
    AttrEmpty,
    TrackNotFound,
}

/// Attributes of a track's tag.
#[derive(Debug)]
pub struct TagAttributes {
    pub title: Option<String>,
    pub artist: Option<String>,
    pub album: Option<String>,
    pub album_artist: Option<String>,
    pub genre: Option<String>,
}

/// The view of an optional string.
pub open spec fn opt_view(o: Option<String>) -> Option<Seq<char>> {
    match o {
        Some(s) => Some(s@),
        None => None,
    }
}

/// A copy of an optional string.
pub fn clone_opt(o: &Option<String>) -> (r: Option<String>)
    ensures
        r == *o,
{
    match o {
        Some(s) => Some(s.clone()),
        None => None,
    }
}

impl TagAttributes {
    /// Whether no attribute is set.
    pub open spec fn spec_is_empty(&self) -> bool {
        &&& self.title is None
        &&& self.artist is None
        &&& self.album is None
        &&& self.album_artist is None
        &&& self.genre is None
    }

    /// The values a track filter looks at: only the attributes held here.
    pub open spec fn fields(&self) -> RowFields {
        RowFields {
            id: None,
            title: opt_view(self.title),
            artist: opt_view(self.artist),
            album: opt_view(self.album),
            album_artist: opt_view(self.album_artist),
            recording_date: None,
            release_date: None,
            track_number: None,
            disc_number: None,
            genre: opt_view(self.genre),
            composer: None,
            lyricist: None,
        }
    }

    /// Whether no attribute is set.
    pub fn is_empty(&self) -> (r: bool)
        ensures
            r == self.spec_is_empty(),
    {
        self.title.is_none() && self.artist.is_none() && self.album.is_none()
            && self.album_artist.is_none() && self.genre.is_none()
    }

    /// A copy of these attributes.
    pub fn duplicate(&self) -> (r: TagAttributes)
        ensures
            r == *self,
    {
        TagAttributes {
            title: clone_opt(&self.title),
            artist: clone_opt(&self.artist),
            album: clone_opt(&self.album),
            album_artist: clone_opt(&self.album_artist),
            genre: clone_opt(&self.genre),
        }
    }
}

} // verus!
