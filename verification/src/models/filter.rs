//! Track filter.
//!
//! Conditions are grouped into categories, one per kind of metadata. A row
//! passes the filter when it passes every category; it passes a category
//! when the category is empty, or when the row's value for it is one of the
//! category's values.

use vstd::prelude::*;

use crate::text::{contains_text, views};
use crate::TagAttributes;

verus! {

/// A filter on tracks: each field is a category of accepted values.
#[derive(Debug)]
pub struct TrackFilter {
    pub ids: Vec<i64>,
    pub titles: Vec<String>,
    pub artists: Vec<String>,
    pub albums: Vec<String>,
    pub album_artists: Vec<String>,
    pub recording_dates: Vec<String>,
    pub release_dates: Vec<String>,
    pub track_numbers: Vec<i64>,
    pub disc_numbers: Vec<i64>,
    pub genres: Vec<String>,
    pub composers: Vec<String>,
    pub lyricists: Vec<String>,
}

/// The values of a row that a filter looks at; `None` where the row holds
/// no value (SQL NULL).
pub struct RowFields {
    pub id: Option<i64>,
    pub title: Option<Seq<char>>,
    pub artist: Option<Seq<char>>,
    pub album: Option<Seq<char>>,
    pub album_artist: Option<Seq<char>>,
    pub recording_date: Option<Seq<char>>,
    pub release_date: Option<Seq<char>>,
    pub track_number: Option<i64>,
    pub disc_number: Option<i64>,
    pub genre: Option<Seq<char>>,
    pub composer: Option<Seq<char>>,
    pub lyricist: Option<Seq<char>>,
}

/// A text category accepts `v` when it is empty or holds `v`.
pub open spec fn string_category_holds(cat: Seq<String>, v: Option<Seq<char>>) -> bool {
    cat.len() == 0 || (v is Some && views(cat).contains(v->0))
}

/// An integer category accepts `v` when it is empty or holds `v`.
pub open spec fn int_category_holds(cat: Seq<i64>, v: Option<i64>) -> bool {
    cat.len() == 0 || (v is Some && cat.contains(v->0))
}

impl TrackFilter {
    /// Whether no category holds a value.
    pub open spec fn spec_is_empty(&self) -> bool {
        &&& self.ids@.len() == 0
        &&& self.titles@.len() == 0
        &&& self.artists@.len() == 0
        &&& self.albums@.len() == 0
        &&& self.album_artists@.len() == 0
        &&& self.recording_dates@.len() == 0
        &&& self.release_dates@.len() == 0
        &&& self.track_numbers@.len() == 0
        &&& self.disc_numbers@.len() == 0
        &&& self.genres@.len() == 0
        &&& self.composers@.len() == 0
        &&& self.lyricists@.len() == 0
    }

    /// Whether no category holds a value twice: each category is a set of
    /// values.
    pub open spec fn spec_values_distinct(&self) -> bool {
        &&& self.ids@.no_duplicates()
        &&& views(self.titles@).no_duplicates()
        &&& views(self.artists@).no_duplicates()
        &&& views(self.albums@).no_duplicates()
        &&& views(self.album_artists@).no_duplicates()
        &&& views(self.recording_dates@).no_duplicates()
        &&& views(self.release_dates@).no_duplicates()
        &&& self.track_numbers@.no_duplicates()
        &&& self.disc_numbers@.no_duplicates()
        &&& views(self.genres@).no_duplicates()
        &&& views(self.composers@).no_duplicates()
        &&& views(self.lyricists@).no_duplicates()
    }

    /// Whether a row with the values `row` passes the filter: every category
    /// accepts the row's value for it.
    pub open spec fn accepts(&self, row: RowFields) -> bool {
        &&& int_category_holds(self.ids@, row.id)
        &&& string_category_holds(self.titles@, row.title)
        &&& string_category_holds(self.artists@, row.artist)
        &&& string_category_holds(self.albums@, row.album)
        &&& string_category_holds(self.album_artists@, row.album_artist)
        &&& string_category_holds(self.recording_dates@, row.recording_date)
        &&& string_category_holds(self.release_dates@, row.release_date)
        &&& int_category_holds(self.track_numbers@, row.track_number)
        &&& int_category_holds(self.disc_numbers@, row.disc_number)
        &&& string_category_holds(self.genres@, row.genre)
        &&& string_category_holds(self.composers@, row.composer)
        &&& string_category_holds(self.lyricists@, row.lyricist)
    }

    /// Whether no category holds a value.
    pub fn is_empty(&self) -> (r: bool)
        ensures
            r == self.spec_is_empty(),
    {
        self.ids.is_empty() && self.titles.is_empty() && self.artists.is_empty()
            && self.albums.is_empty() && self.album_artists.is_empty()
            && self.recording_dates.is_empty() && self.release_dates.is_empty()
            && self.track_numbers.is_empty() && self.disc_numbers.is_empty()
            && self.genres.is_empty() && self.composers.is_empty() && self.lyricists.is_empty()
    }

    /// Whether the tag attributes of a repository entry pass the filter. An
    /// entry has no id, dates, numbers, composer or lyricist, so a non-empty
    /// category on those rejects it.
    pub fn accepts_tag(&self, tag: &TagAttributes) -> (r: bool)
        ensures
            r == self.accepts(tag.fields()),
    {
        self.ids.is_empty() && category_accepts(&self.titles, &tag.title)
            && category_accepts(&self.artists, &tag.artist)
            && category_accepts(&self.albums, &tag.album)
            && category_accepts(&self.album_artists, &tag.album_artist)
            && self.recording_dates.is_empty() && self.release_dates.is_empty()
            && self.track_numbers.is_empty() && self.disc_numbers.is_empty()
            && category_accepts(&self.genres, &tag.genre) && self.composers.is_empty()
            && self.lyricists.is_empty()
    }
}

fn category_accepts(cat: &Vec<String>, v: &Option<String>) -> (r: bool)
    ensures
        r == string_category_holds(cat@, match v {
            Some(s) => Some(s@),
            None => None,
        }),
{
    if cat.is_empty() {
        return true;
    }
    match v {
        Some(s) => contains_text(cat, s.as_str()),
        None => false,
    }
}

} // verus!
