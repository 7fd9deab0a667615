//! The TOML-backed repository, held in memory: entries keyed by the hash
//! of their track file, and the total hash of the keys.
//!
//! Reading it from and writing it to its file is left to the caller; what
//! is written is the entries and the total hash held here.

use vstd::prelude::*;

use crate::db::{
    entries_map, entry_keys, find_entry, insert_sorted, sorted_entries, keys_of, remove_sorted, sorted_keys,
    compute_total_hash, map_of_list, total_hash_of, Entry,
};
use crate::opt_view;
use crate::services::{is_blake3_hex, is_valid_blake3_hex};
use crate::text::{same_text, views};
use crate::{McatError, TagAttributes};

verus! {

/// Whether the entry's title is `title`.
pub open spec fn has_title(e: Entry, title: Seq<char>) -> bool {
    opt_view(e.tag_attr.title) == Some(title)
}

/// TOML-backed repository database used by mcat.
pub struct TomlDb {
    // Aggregate hash computed from sorted entry keys.
    total_hash: String,
    // Entries sorted by key, which makes the aggregate hash deterministic.
    entries: Vec<Entry>,
}

impl TomlDb {
    /// Whether the entries are sorted by key, without a key twice.
    pub closed spec fn wf(&self) -> bool {
        sorted_keys(entry_keys(self.entries@))
    }

    /// The keys, in order.
    pub closed spec fn keys(&self) -> Seq<Seq<char>> {
        entry_keys(self.entries@)
    }

    /// The entries, in the order of their keys.
    pub closed spec fn entry_seq(&self) -> Seq<Entry> {
        self.entries@
    }

    /// The entries as a map from keys to attributes.
    pub closed spec fn as_map(&self) -> Map<Seq<char>, TagAttributes> {
        entries_map(self.entries@)
    }

    /// The total hash held.
    pub closed spec fn spec_total_hash(&self) -> Seq<char> {
        self.total_hash@
    }

    /// The keys are the keys of the entries in order, sorted, and the
    /// domain of the map.
    pub proof fn lemma_view(&self)
        requires
            self.wf(),
        ensures
            self.keys() == entry_keys(self.entry_seq()),
            sorted_keys(self.keys()),
            self.as_map() == entries_map(self.entry_seq()),
            forall|x: Seq<char>| self.keys().contains(x) <==> self.as_map().contains_key(x),
    {
        crate::db::lemma_keys_are_domain(self.entries@);
    }

    /// Creates an empty database.
    pub fn new() -> (r: Self)
        ensures
            r.wf(),
            r.as_map() == Map::<Seq<char>, TagAttributes>::empty(),
            r.keys() == Seq::<Seq<char>>::empty(),
            r.spec_total_hash() == Seq::<char>::empty(),
    {
        let r = TomlDb { total_hash: String::new(), entries: Vec::new() };
        assert(entries_map(r.entries@) =~= Map::<Seq<char>, TagAttributes>::empty());
        assert(entry_keys(r.entries@) =~= Seq::<Seq<char>>::empty());
        r
    }

    /// An empty database, as a repository starts.
    pub fn init_empty() -> (r: Self)
        ensures
            r.wf(),
            r.as_map() == Map::<Seq<char>, TagAttributes>::empty(),
            r.spec_total_hash() == Seq::<char>::empty(),
    {
        Self::new()
    }

    /// The database stored with `total_hash` and `entries`: the entries
    /// inserted in order, the total hash kept as stored.
    pub fn from_stored(total_hash: String, entries: Vec<Entry>) -> (r: Self)
        ensures
            r.wf(),
            r.as_map() == map_of_list(entries@),
            r.spec_total_hash() == total_hash@,
    {
        let sorted = sorted_entries(&entries);
        TomlDb { total_hash, entries: sorted }
    }

    /// Inserts an entry into the repository, replacing the entry of its
    /// file hash.
    pub fn insert_entry(&mut self, entry: Entry)
        requires
            old(self).wf(),
        ensures
            final(self).wf(),
            final(self).as_map() == old(self).as_map().insert(entry.file_hash@, entry.tag_attr),
            final(self).spec_total_hash() == old(self).spec_total_hash(),
    {
        insert_sorted(&mut self.entries, entry);
    }

    /// Removes the entry of a key, and returns it.
    pub fn remove_entry(&mut self, key: &str) -> (r: Option<Entry>)
        requires
            old(self).wf(),
        ensures
            final(self).wf(),
            final(self).as_map() == old(self).as_map().remove(key@),
            final(self).spec_total_hash() == old(self).spec_total_hash(),
            r is Some <==> old(self).as_map().contains_key(key@),
            r matches Some(e) ==> e.file_hash@ == key@ && e.tag_attr == old(self).as_map()[key@],
    {
        remove_sorted(&mut self.entries, key)
    }

    /// Recomputes the total hash from the keys, as done before the
    /// repository is written.
    pub fn update_hash(&mut self)
        requires
            old(self).wf(),
        ensures
            final(self).wf(),
            final(self).as_map() == old(self).as_map(),
            final(self).keys() == old(self).keys(),
            final(self).spec_total_hash() == total_hash_of(final(self).keys()),
    {
        let keys = keys_of(&self.entries);
        self.total_hash = compute_total_hash(&keys);
    }

    /// Inserts a track by its file hash and tag attributes.
    pub fn insert_track(&mut self, file_hash: String, tag_attr: TagAttributes)
        requires
            old(self).wf(),
        ensures
            final(self).wf(),
            final(self).as_map() == old(self).as_map().insert(file_hash@, tag_attr),
            final(self).spec_total_hash() == old(self).spec_total_hash(),
    {
        self.insert_entry(Entry { file_hash, tag_attr });
    }

    /// Removes the track of a file hash; fails with
    /// [`McatError::TrackNotFound`] if there is none.
    pub fn remove_track(&mut self, file_hash: &str) -> (r: Result<(), McatError>)
        requires
            old(self).wf(),
        ensures
            final(self).wf(),
            final(self).as_map() == old(self).as_map().remove(file_hash@),
            r is Ok <==> old(self).as_map().contains_key(file_hash@),
            r is Err ==> r == Err::<(), McatError>(McatError::TrackNotFound),
    {
        if self.remove_entry(file_hash).is_some() {
            Ok(())
        } else {
            Err(McatError::TrackNotFound)
        }
    }

    /// The entry of a file hash, if any.
    pub fn query_track_by_hash(&self, file_hash: &str) -> (r: Option<Entry>)
        requires
            self.wf(),
        ensures
            r is Some <==> self.as_map().contains_key(file_hash@),
            r matches Some(e) ==> e.file_hash@ == file_hash@ && e.tag_attr == self.as_map()[file_hash@],
    {
        match find_entry(&self.entries, file_hash) {
            Some(i) => Some(self.entries[i].duplicate()),
            None => None,
        }
    }

    /// The first entry, in the order of the keys, whose title is `title`.
    pub fn query_track_by_title(&self, title: &str) -> (r: Option<Entry>)
        ensures
            match r {
                Some(e) => exists|i: int|
                    0 <= i < self.entry_seq().len() && self.entry_seq()[i] == e && has_title(e, title@)
                        && forall|j: int| 0 <= j < i ==> !has_title(#[trigger] self.entry_seq()[j], title@),
                None => forall|i: int|
                    0 <= i < self.entry_seq().len() ==> !has_title(#[trigger] self.entry_seq()[i], title@),
            },
    {
        let mut i: usize = 0;
        while i < self.entries.len()
            invariant
                i <= self.entries@.len(),
                forall|j: int| 0 <= j < i ==> !has_title(#[trigger] self.entries@[j], title@),
            decreases self.entries.len() - i,
        {
            let matches = match &self.entries[i].tag_attr.title {
                Some(t) => same_text(t.as_str(), title),
                None => false,
            };
            if matches {
                let e = self.entries[i].duplicate();
                assert(self.entry_seq()[i as int] == e);
                return Some(e);
            }
            i += 1;
        }
        None
    }

    /// Finds a track by its file hash, if `track` is the hexadecimal text
    /// of a BLAKE3 hash, and by its title otherwise.
    pub fn find_track(&self, track: &str) -> (r: Option<Entry>)
        requires
            self.wf(),
        ensures
            is_blake3_hex(track@) ==> (r is Some <==> self.as_map().contains_key(track@)),
            is_blake3_hex(track@) ==> (r matches Some(e) ==> e.file_hash@ == track@ && e.tag_attr
                == self.as_map()[track@]),
            !is_blake3_hex(track@) ==> match r {
                Some(e) => exists|i: int|
                    0 <= i < self.entry_seq().len() && self.entry_seq()[i] == e && has_title(e, track@)
                        && forall|j: int| 0 <= j < i ==> !has_title(#[trigger] self.entry_seq()[j], track@),
                None => forall|i: int|
                    0 <= i < self.entry_seq().len() ==> !has_title(#[trigger] self.entry_seq()[i], track@),
            },
    {
        if is_valid_blake3_hex(track) {
            self.query_track_by_hash(track)
        } else {
            self.query_track_by_title(track)
        }
    }

    /// The file hashes of the tracks, in order.
    pub fn get_track_hashes(&self) -> (r: Vec<String>)
        ensures
            views(r@) == self.keys(),
    {
        keys_of(&self.entries)
    }

    /// The tag attributes of the tracks, in the order of their keys.
    pub fn get_tag_attrs(&self) -> (r: Vec<&TagAttributes>)
        ensures
            r@.len() == self.entry_seq().len(),
            forall|i: int| 0 <= i < r@.len() ==> *(#[trigger] r@[i]) == self.entry_seq()[i].tag_attr,
    {
        let mut out: Vec<&TagAttributes> = Vec::new();
        let mut i: usize = 0;
        while i < self.entries.len()
            invariant
                i <= self.entries@.len(),
                out@.len() == i,
                forall|j: int| 0 <= j < i ==> *(#[trigger] out@[j]) == self.entries@[j].tag_attr,
            decreases self.entries.len() - i,
        {
            out.push(&self.entries[i].tag_attr);
            i += 1;
        }
        out
    }

    /// The total hash held.
    pub fn total_hash(&self) -> (r: &String)
        ensures
            r@ == self.spec_total_hash(),
    {
        &self.total_hash
    }

    /// The entries, in the order of their keys.
    pub fn entries(&self) -> (r: &Vec<Entry>)
        ensures
            r@ == self.entry_seq(),
    {
        &self.entries
    }
}

/// What is inserted is found: after inserting an entry, the repository
/// holds its key with its attributes.
pub proof fn law_query_after_insert(before: TomlDb, after: TomlDb, e: Entry)
    requires
        before.wf(),
        after.as_map() == before.as_map().insert(e.file_hash@, e.tag_attr),
    ensures
        after.as_map().contains_key(e.file_hash@),
        after.as_map()[e.file_hash@] == e.tag_attr,
{
}

/// Removing undoes inserting: inserting an entry of a new key and then
/// removing that key leaves the repository's map as it was.
pub proof fn law_remove_undoes_insert(before: TomlDb, middle: TomlDb, after: TomlDb, e: Entry)
    requires
        before.wf(),
        !before.as_map().contains_key(e.file_hash@),
        middle.as_map() == before.as_map().insert(e.file_hash@, e.tag_attr),
        after.as_map() == middle.as_map().remove(e.file_hash@),
    ensures
        after.as_map() == before.as_map(),
{
    assert(after.as_map() =~= before.as_map());
}

/// Inserting entries of different keys in either order gives the same
/// repository: the same map, the same keys in the same order, and so the
/// same total hash.
pub proof fn law_insert_order_irrelevant(
    start: TomlDb,
    a: TomlDb,
    b: TomlDb,
    e1: Entry,
    e2: Entry,
)
    requires
        start.wf(),
        a.wf(),
        b.wf(),
        e1.file_hash@ != e2.file_hash@,
        a.as_map() == start.as_map().insert(e1.file_hash@, e1.tag_attr).insert(
            e2.file_hash@,
            e2.tag_attr,
        ),
        b.as_map() == start.as_map().insert(e2.file_hash@, e2.tag_attr).insert(
            e1.file_hash@,
            e1.tag_attr,
        ),
    ensures
        a.as_map() == b.as_map(),
        a.keys() == b.keys(),
        total_hash_of(a.keys()) == total_hash_of(b.keys()),
{
    assert(a.as_map() =~= b.as_map());
    law_total_hash_depends_on_keys(a, b);
}

/// The total hash is deterministic: repositories holding the same keys
/// hold them in the same order, so their total hashes agree.
pub proof fn law_total_hash_depends_on_keys(a: TomlDb, b: TomlDb)
    requires
        a.wf(),
        b.wf(),
        a.as_map().dom() == b.as_map().dom(),
    ensures
        a.keys() == b.keys(),
        total_hash_of(a.keys()) == total_hash_of(b.keys()),
{
    crate::db::lemma_total_hash_depends_on_keys_only(a.entries@, b.entries@);
}

impl Default for TomlDb {
    fn default() -> (r: Self)
        ensures
            r.wf(),
            r.as_map() == Map::<Seq<char>, TagAttributes>::empty(),
            r.spec_total_hash() == Seq::<char>::empty(),
    {
        Self::new()
    }
}

} // verus!
