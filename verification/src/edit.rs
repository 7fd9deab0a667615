//! What editing a track's tag writes into it.

use vstd::prelude::*;

use crate::{opt_view, McatError, TagAttributes};

verus! {

/// An item of a tag that an edit writes.
#[derive(Debug, Clone, Copy, PartialEq, Eq, Structural)]
pub enum TagItem {
    Title,
    Artist,
    Album,
    Genre,
}

/// The write of item `k` where the edit gives a value.
pub open spec fn item_write(k: TagItem, value: Option<String>) -> Seq<(TagItem, Seq<char>)> {
    match value {
        Some(s) => seq![(k, s@)],
        None => Seq::empty(),
    }
}

/// The writes of an edit, in order: its title, artist, album and genre,
/// each where it gives one. The album artist is not written.
pub open spec fn spec_tag_writes(t: TagAttributes) -> Seq<(TagItem, Seq<char>)> {
    item_write(TagItem::Title, t.title) + item_write(TagItem::Artist, t.artist) + item_write(
        TagItem::Album,
        t.album,
    ) + item_write(TagItem::Genre, t.genre)
}

/// The view of writes.
pub open spec fn writes_view(w: Seq<(TagItem, String)>) -> Seq<(TagItem, Seq<char>)> {
    w.map_values(|p: (TagItem, String)| (p.0, p.1@))
}

fn push_write(writes: &mut Vec<(TagItem, String)>, k: TagItem, value: Option<String>)
    ensures
        writes_view(final(writes)@) == writes_view(old(writes)@) + item_write(k, value),
{
    let ghost before = writes_view(writes@);
    match value {
        Some(s) => {
            let ghost sv = s@;
            writes.push((k, s));
            assert(writes_view(writes@) =~= before + seq![(k, sv)]);
        },
        None => {
            assert(before + item_write(k, value) =~= before);
        },
    }
}

/// What an edit writes into a tag, before the tag is saved to its file.
/// Fails with [`McatError::AttrEmpty`] where the edit gives no attribute.
pub fn tag_writes(tag_attr: TagAttributes) -> (r: Result<Vec<(TagItem, String)>, McatError>)
    ensures
        match r {
            Ok(w) => !tag_attr.spec_is_empty() && writes_view(w@) == spec_tag_writes(tag_attr),
            Err(e) => tag_attr.spec_is_empty() && e == McatError::AttrEmpty,
        },
{
    if tag_attr.is_empty() {
        return Err(McatError::AttrEmpty);
    }
    let ghost t = tag_attr;
    let mut writes: Vec<(TagItem, String)> = Vec::new();
    assert(writes_view(writes@) =~= Seq::<(TagItem, Seq<char>)>::empty());
    push_write(&mut writes, TagItem::Title, tag_attr.title);
    push_write(&mut writes, TagItem::Artist, tag_attr.artist);
    push_write(&mut writes, TagItem::Album, tag_attr.album);
    push_write(&mut writes, TagItem::Genre, tag_attr.genre);
    assert(writes_view(writes@) =~= spec_tag_writes(t));
    Ok(writes)
}

proof fn lemma_concat_contains(x: Seq<(TagItem, Seq<char>)>, y: Seq<(TagItem, Seq<char>)>, e: (
    TagItem,
    Seq<char>,
))
    ensures
        (x + y).contains(e) <==> x.contains(e) || y.contains(e),
{
    if (x + y).contains(e) {
        let i = choose|i: int| 0 <= i < (x + y).len() && (x + y)[i] == e;
        if i < x.len() {
            assert(x[i] == e);
        } else {
            assert(y[i - x.len()] == e);
        }
    }
    if x.contains(e) {
        let i = choose|i: int| 0 <= i < x.len() && x[i] == e;
        assert((x + y)[i] == e);
    }
    if y.contains(e) {
        let i = choose|i: int| 0 <= i < y.len() && y[i] == e;
        assert((x + y)[x.len() + i] == e);
    }
}

proof fn lemma_item_write_contains(k: TagItem, value: Option<String>, e: (TagItem, Seq<char>))
    ensures
        item_write(k, value).contains(e) <==> (e.0 == k && opt_view(value) == Some(e.1)),
{
    if let Some(s) = value {
        if e.0 == k && s@ == e.1 {
            assert(item_write(k, value)[0] == e);
        }
    }
}

/// Each write of an edit names the item of the attribute it comes from:
/// the edit writes `v` into the title, the artist, the album or the genre
/// exactly when it gives `v` as that attribute, and writes nothing else.
pub proof fn law_edit_writes_each_attribute_to_its_item(t: TagAttributes, k: TagItem, v: Seq<char>)
    ensures
        spec_tag_writes(t).contains((k, v)) <==> (k == TagItem::Title && opt_view(t.title) == Some(v))
            || (k == TagItem::Artist && opt_view(t.artist) == Some(v)) || (k == TagItem::Album
            && opt_view(t.album) == Some(v)) || (k == TagItem::Genre && opt_view(t.genre) == Some(v)),
{
    let e = (k, v);
    let a = item_write(TagItem::Title, t.title);
    let b = item_write(TagItem::Artist, t.artist);
    let c = item_write(TagItem::Album, t.album);
    let d = item_write(TagItem::Genre, t.genre);
    lemma_concat_contains(a, b, e);
    lemma_concat_contains(a + b, c, e);
    lemma_concat_contains(a + b + c, d, e);
    lemma_item_write_contains(TagItem::Title, t.title, e);
    lemma_item_write_contains(TagItem::Artist, t.artist, e);
    lemma_item_write_contains(TagItem::Album, t.album, e);
    lemma_item_write_contains(TagItem::Genre, t.genre, e);
}

} // verus!
