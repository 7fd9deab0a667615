//! Data types for the business logic and the track repository.

mod filter;
mod track;

pub use filter::{string_category_holds, int_category_holds, RowFields, TrackFilter};
pub use track::{
    Image, Lyrics, NewImage, NewLyrics, NewTrack, NewTrackFile, NewTrackMetadata, TagFields,
    Track, TrackFile, TrackMetadata, TrackMetadataCore, TrackRow,
};

use vstd::prelude::*;

verus! {

/// What an update does to one column.
#[derive(Debug, PartialEq, Eq)]
pub enum Patch {
    /// Leave the column as it is.
    Keep,
    /// Give the column this value.
    Assign(String),
    /// Set the column to NULL.
    Clear,
}

/// The view of a [`Patch`].
pub enum PatchView {
    Keep,
    Assign(Seq<char>),
    Clear,
}

impl View for Patch {
    type V = PatchView;

    open spec fn view(&self) -> PatchView {
        match self {
            Patch::Keep => PatchView::Keep,
            Patch::Assign(s) => PatchView::Assign(s@),
            Patch::Clear => PatchView::Clear,
        }
    }
}

impl Patch {
    /// A copy of this patch.
    pub fn duplicate(&self) -> (r: Patch)
        ensures
            r@ == self@,
    {
        match self {
            Patch::Keep => Patch::Keep,
            Patch::Assign(s) => Patch::Assign(s.clone()),
            Patch::Clear => Patch::Clear,
        }
    }
}

/// The views of column patches, in order.
pub open spec fn patches_view(v: Seq<(String, Patch)>) -> Seq<(Seq<char>, PatchView)> {
    v.map_values(|p: (String, Patch)| (p.0@, p.1@))
}

} // verus!
