//! The `init` command: which of the tracks found under "media/" are stored,
//! one per distinct metadata.

use vstd::prelude::*;

use crate::models::TrackMetadataCore;
use crate::opt_view;
use crate::text::same_text;

verus! {

/// Whether two cores hold the same metadata.
pub open spec fn same_core(a: TrackMetadataCore, b: TrackMetadataCore) -> bool {
    &&& a.title@ == b.title@
    &&& opt_view(a.artist) == opt_view(b.artist)
    &&& opt_view(a.album) == opt_view(b.album)
    &&& opt_view(a.album_artist) == opt_view(b.album_artist)
    &&& opt_view(a.recording_date) == opt_view(b.recording_date)
    &&& opt_view(a.release_date) == opt_view(b.release_date)
    &&& a.track_number == b.track_number
    &&& a.disc_number == b.disc_number
    &&& opt_view(a.genre) == opt_view(b.genre)
    &&& opt_view(a.composer) == opt_view(b.composer)
    &&& opt_view(a.lyricist) == opt_view(b.lyricist)
}

/// Whether the core at `i` is the first of its metadata.
pub open spec fn first_of_its_core(cores: Seq<TrackMetadataCore>, i: int) -> bool {
    forall|j: int| 0 <= j < i ==> !same_core(#[trigger] cores[j], cores[i])
}

fn same_opt_text(a: &Option<String>, b: &Option<String>) -> (r: bool)
    ensures
        r == (opt_view(*a) == opt_view(*b)),
{
    match (a, b) {
        (Some(x), Some(y)) => same_text(x.as_str(), y.as_str()),
        (None, None) => true,
        _ => false,
    }
}

fn same_opt_number(a: Option<i64>, b: Option<i64>) -> (r: bool)
    ensures
        r == (a == b),
{
    match (a, b) {
        (Some(x), Some(y)) => x == y,
        (None, None) => true,
        _ => false,
    }
}

/// Whether two cores hold the same metadata.
pub fn same_core_exec(a: &TrackMetadataCore, b: &TrackMetadataCore) -> (r: bool)
    ensures
        r == same_core(*a, *b),
{
    same_text(a.title.as_str(), b.title.as_str()) && same_opt_text(&a.artist, &b.artist)
        && same_opt_text(&a.album, &b.album) && same_opt_text(&a.album_artist, &b.album_artist)
        && same_opt_text(&a.recording_date, &b.recording_date) && same_opt_text(
        &a.release_date,
        &b.release_date,
    ) && same_opt_number(a.track_number, b.track_number) && same_opt_number(
        a.disc_number,
        b.disc_number,
    ) && same_opt_text(&a.genre, &b.genre) && same_opt_text(&a.composer, &b.composer)
        && same_opt_text(&a.lyricist, &b.lyricist)
}

/// For each track found, in order, whether it is stored: a track is stored
/// unless an earlier one holds the same metadata.
pub fn first_of_each_core(cores: &Vec<TrackMetadataCore>) -> (r: Vec<bool>)
    ensures
        r@.len() == cores@.len(),
        forall|i: int| 0 <= i < cores@.len() ==> (#[trigger] r@[i] <==> first_of_its_core(cores@, i)),
{
    let mut keep: Vec<bool> = Vec::new();
    let mut i: usize = 0;
    while i < cores.len()
        invariant
            i <= cores@.len(),
            keep@.len() == i,
            forall|k: int| 0 <= k < i ==> (#[trigger] keep@[k] <==> first_of_its_core(cores@, k)),
        decreases cores.len() - i,
    {
        let mut first = true;
        let mut j: usize = 0;
        while j < i
            invariant
                i < cores@.len(),
                j <= i,
                first == forall|m: int| 0 <= m < j ==> !same_core(#[trigger] cores@[m], cores@[i as int]),
            decreases i - j,
        {
            if same_core_exec(&cores[j], &cores[i]) {
                first = false;
            }
            j += 1;
        }
        keep.push(first);
        i += 1;
    }
    keep
}

/// Whether a track no later than the one at `i` is stored and holds its
/// metadata.
pub open spec fn has_stored_first(cores: Seq<TrackMetadataCore>, i: int) -> bool {
    exists|j: int| 0 <= j <= i && first_of_its_core(cores, j) && #[trigger] same_core(cores[j], cores[i])
}

proof fn lemma_first_of_core_exists(cores: Seq<TrackMetadataCore>, i: int)
    requires
        0 <= i < cores.len(),
    ensures
        has_stored_first(cores, i),
    decreases i,
{
    if first_of_its_core(cores, i) {
        assert(same_core(cores[i], cores[i]));
        assert(0 <= i <= i && first_of_its_core(cores, i));
    } else {
        let m = choose|m: int| 0 <= m < i && same_core(#[trigger] cores[m], cores[i]);
        lemma_first_of_core_exists(cores, m);
        let j = choose|j: int|
            0 <= j <= m && first_of_its_core(cores, j) && #[trigger] same_core(cores[j], cores[m]);
        assert(same_core(cores[j], cores[i]));
        assert(0 <= j <= i && first_of_its_core(cores, j));
    }
}

/// Of the tracks found, those stored hold pairwise different metadata, and
/// the metadata of every track found is held by a stored track no later
/// than it.
pub proof fn law_init_stores_each_metadata_once(cores: Seq<TrackMetadataCore>)
    ensures
        forall|i: int, j: int|
            0 <= i < j < cores.len() && first_of_its_core(cores, i) && first_of_its_core(cores, j)
                ==> !same_core(#[trigger] cores[i], #[trigger] cores[j]),
        forall|i: int| 0 <= i < cores.len() ==> #[trigger] has_stored_first(cores, i),
{
    assert forall|i: int| 0 <= i < cores.len() implies #[trigger] has_stored_first(cores, i) by {
        lemma_first_of_core_exists(cores, i);
    }
}

/// Two tracks count as holding the same metadata exactly when every field
/// of their metadata is equal, the title among them: the track at `j` is
/// stored when every earlier track differs from it in some field, and is not
/// stored when an earlier track equals it in every field.
pub proof fn law_init_keeps_tracks_of_different_metadata(cores: Seq<TrackMetadataCore>, j: int)
    requires
        0 <= j < cores.len(),
    ensures
        (forall|i: int|
            0 <= i < j ==> (#[trigger] cores[i]).title@ != cores[j].title@ || opt_view(cores[i].artist)
                != opt_view(cores[j].artist) || opt_view(cores[i].album) != opt_view(cores[j].album)
                || opt_view(cores[i].album_artist) != opt_view(cores[j].album_artist) || opt_view(
                cores[i].recording_date,
            ) != opt_view(cores[j].recording_date) || opt_view(cores[i].release_date) != opt_view(
                cores[j].release_date,
            ) || cores[i].track_number != cores[j].track_number || cores[i].disc_number
                != cores[j].disc_number || opt_view(cores[i].genre) != opt_view(cores[j].genre)
                || opt_view(cores[i].composer) != opt_view(cores[j].composer) || opt_view(
                cores[i].lyricist,
            ) != opt_view(cores[j].lyricist)) ==> first_of_its_core(cores, j),
        (exists|i: int|
            0 <= i < j && (#[trigger] cores[i]).title@ == cores[j].title@ && opt_view(cores[i].artist)
                == opt_view(cores[j].artist) && opt_view(cores[i].album) == opt_view(cores[j].album)
                && opt_view(cores[i].album_artist) == opt_view(cores[j].album_artist) && opt_view(
                cores[i].recording_date,
            ) == opt_view(cores[j].recording_date) && opt_view(cores[i].release_date) == opt_view(
                cores[j].release_date,
            ) && cores[i].track_number == cores[j].track_number && cores[i].disc_number
                == cores[j].disc_number && opt_view(cores[i].genre) == opt_view(cores[j].genre)
                && opt_view(cores[i].composer) == opt_view(cores[j].composer) && opt_view(
                cores[i].lyricist,
            ) == opt_view(cores[j].lyricist)) ==> !first_of_its_core(cores, j),
{
}

} // verus!
