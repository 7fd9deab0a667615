//! The `edit` command: new attributes of a track.

use vstd::prelude::*;

use crate::{clone_opt, TagAttributes};

verus! {

/// The attribute `edit` sets, or the one held where `edit` sets none.
pub open spec fn edited(held: Option<String>, edit: Option<String>) -> Option<String> {
    if edit is Some {
        edit
    } else {
        held
    }
}

fn edited_exec(held: Option<String>, edit: Option<String>) -> (r: Option<String>)
    ensures
        r == edited(held, edit),
{
    if edit.is_some() {
        edit
    } else {
        held
    }
}

/// The attributes of a track after an edit: each attribute the edit sets
/// replaces the one held; the others are kept.
pub fn apply_edit(tag_attr: TagAttributes, edit: TagAttributes) -> (r: TagAttributes)
    ensures
        r.title == edited(tag_attr.title, edit.title),
        r.artist == edited(tag_attr.artist, edit.artist),
        r.album == edited(tag_attr.album, edit.album),
        r.album_artist == edited(tag_attr.album_artist, edit.album_artist),
        r.genre == edited(tag_attr.genre, edit.genre),
{
    TagAttributes {
        title: edited_exec(tag_attr.title, edit.title),
        artist: edited_exec(tag_attr.artist, edit.artist),
        album: edited_exec(tag_attr.album, edit.album),
        album_artist: edited_exec(tag_attr.album_artist, edit.album_artist),
        genre: edited_exec(tag_attr.genre, edit.genre),
    }
}

} // verus!
