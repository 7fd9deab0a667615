//! The in-memory database of the TOML-backed repository: entries kept in
//! the order of their keys (the hashes of the track files), and the total
//! hash of the keys.
//!
//! Entries are kept sorted so that the total hash is deterministic: it is a
//! function of the set of keys alone, whatever the order of insertion.

use vstd::prelude::*;

use crate::common::{blake3_hash, compute_data_hash};
use crate::text::{
    lemma_seq_less_irreflexive, lemma_seq_less_total, lemma_seq_less_transitive, seq_less,
    str_less, to_hex_lower, hex_lower,
};
use crate::TagAttributes;
use vstd::utf8::encode_utf8;

verus! {

/// An `Entry` matches a single file.
#[derive(Debug)]
pub struct Entry {
    pub file_hash: String,
    pub tag_attr: TagAttributes,
}

impl Entry {
    /// A copy of this entry.
    pub fn duplicate(&self) -> (r: Entry)
        ensures
            r == *self,
    {
        Entry { file_hash: self.file_hash.clone(), tag_attr: self.tag_attr.duplicate() }
    }
}

/// The keys of entries, in order.
pub open spec fn entry_keys(es: Seq<Entry>) -> Seq<Seq<char>> {
    es.map_values(|e: Entry| e.file_hash@)
}

/// Whether keys are strictly increasing.
pub open spec fn sorted_keys(keys: Seq<Seq<char>>) -> bool {
    forall|i: int, j: int| 0 <= i < j < keys.len() ==> seq_less(#[trigger] keys[i], #[trigger] keys[j])
}

/// The index of an entry with key `k`.
pub open spec fn key_index(es: Seq<Entry>, k: Seq<char>) -> int {
    choose|i: int| 0 <= i < es.len() && es[i].file_hash@ == k
}

/// The attributes of the entry with key `k`.
pub open spec fn tag_of(es: Seq<Entry>, k: Seq<char>) -> TagAttributes {
    es[key_index(es, k)].tag_attr
}

/// Entries as a map from keys to attributes.
pub open spec fn entries_map(es: Seq<Entry>) -> Map<Seq<char>, TagAttributes> {
    Map::new(
        |k: Seq<char>| exists|i: int| 0 <= i < es.len() && #[trigger] es[i].file_hash@ == k,
        |k: Seq<char>| tag_of(es, k),
    )
}

/// The bytes hashed for the total hash: the UTF-8 bytes of the keys, one
/// after the other.
pub open spec fn keys_bytes(keys: Seq<Seq<char>>) -> Seq<u8>
    decreases keys.len(),
{
    if keys.len() == 0 {
        Seq::empty()
    } else {
        keys_bytes(keys.drop_last()) + encode_utf8(keys.last())
    }
}

/// The total hash of keys: the lower-case hexadecimal BLAKE3 hash of their
/// bytes.
pub open spec fn total_hash_of(keys: Seq<Seq<char>>) -> Seq<char> {
    hex_lower(blake3_hash(keys_bytes(keys)))
}

/// In sorted keys, the key at `i` is the only one equal to it.
pub proof fn lemma_sorted_unique(keys: Seq<Seq<char>>, i: int, j: int)
    requires
        sorted_keys(keys),
        0 <= i < keys.len(),
        0 <= j < keys.len(),
        keys[i] == keys[j],
    ensures
        i == j,
{
    if i < j {
        lemma_seq_less_irreflexive(keys[i]);
    } else if j < i {
        lemma_seq_less_irreflexive(keys[i]);
    }
}

proof fn lemma_tag_of(es: Seq<Entry>, i: int)
    requires
        sorted_keys(entry_keys(es)),
        0 <= i < es.len(),
    ensures
        tag_of(es, es[i].file_hash@) == es[i].tag_attr,
        entries_map(es).contains_key(es[i].file_hash@),
        entries_map(es)[es[i].file_hash@] == es[i].tag_attr,
{
    let k = es[i].file_hash@;
    assert(entry_keys(es)[i] == k);
    assert(exists|j: int| 0 <= j < es.len() && es[j].file_hash@ == k);
    let j = key_index(es, k);
    assert(entry_keys(es)[j] == k);
    lemma_sorted_unique(entry_keys(es), i, j);
    assert(tag_of(es, k) == es[j].tag_attr);
    assert(entries_map(es).contains_key(k));
}

/// The entry at `i` is found in the map under its key.
pub proof fn lemma_entry_at(es: Seq<Entry>, i: int)
    requires
        sorted_keys(entry_keys(es)),
        0 <= i < es.len(),
    ensures
        entries_map(es).contains_key(es[i].file_hash@),
        entries_map(es)[es[i].file_hash@] == es[i].tag_attr,
{
    lemma_tag_of(es, i);
}

/// Computes the total hash of keys.
pub fn compute_total_hash(keys: &Vec<String>) -> (r: String)
    ensures
        r@ == total_hash_of(crate::text::views(keys@)),
{
    let ghost ks = crate::text::views(keys@);
    let mut bytes: Vec<u8> = Vec::new();
    let mut i: usize = 0;
    assert(ks.take(0) =~= Seq::<Seq<char>>::empty());
    while i < keys.len()
        invariant
            i <= keys@.len(),
            ks == crate::text::views(keys@),
            bytes@ == keys_bytes(ks.take(i as int)),
        decreases keys.len() - i,
    {
        assert(ks.take(i + 1).drop_last() =~= ks.take(i as int));
        assert(ks.take(i + 1).last() == keys@[i as int]@);
        let b = keys[i].as_str().as_bytes();
        bytes.extend_from_slice(b);
        i += 1;
    }
    assert(ks.take(keys@.len() as int) =~= ks);
    let digest = compute_data_hash(bytes.as_slice());
    to_hex_lower(digest.as_slice())
}

/// The keys of entries.
pub fn keys_of(entries: &Vec<Entry>) -> (r: Vec<String>)
    ensures
        crate::text::views(r@) == entry_keys(entries@),
{
    let mut out: Vec<String> = Vec::new();
    let mut i: usize = 0;
    while i < entries.len()
        invariant
            i <= entries@.len(),
            crate::text::views(out@) =~= entry_keys(entries@).take(i as int),
        decreases entries.len() - i,
    {
        out.push(entries[i].file_hash.clone());
        assert(entry_keys(entries@).take(i + 1) =~= entry_keys(entries@).take(i as int).push(
            entries@[i as int].file_hash@,
        ));
        i += 1;
    }
    assert(entry_keys(entries@).take(entries@.len() as int) =~= entry_keys(entries@));
    out
}

/// Inserts `entry` into sorted entries: in place of the entry with the same
/// key, or where its key belongs.
pub fn insert_sorted(entries: &mut Vec<Entry>, entry: Entry)
    requires
        sorted_keys(entry_keys(old(entries)@)),
    ensures
        sorted_keys(entry_keys(final(entries)@)),
        entries_map(final(entries)@) == entries_map(old(entries)@).insert(
            entry.file_hash@,
            entry.tag_attr,
        ),
{
    let ghost old_es = entries@;
    let ghost k = entry.file_hash@;
    let mut i: usize = 0;
    while i < entries.len() && str_less(entries[i].file_hash.as_str(), entry.file_hash.as_str())
        invariant
            i <= entries@.len(),
            entries@ == old_es,
            k == entry.file_hash@,
            forall|j: int| 0 <= j < i ==> seq_less(#[trigger] entry_keys(old_es)[j], k),
        decreases entries.len() - i,
    {
        assert(entry_keys(old_es)[i as int] == entries@[i as int].file_hash@);
        i += 1;
    }
    let ghost ks = entry_keys(old_es);
    if i < entries.len() && crate::text::same_text(entries[i].file_hash.as_str(), entry.file_hash.as_str()) {
        // replace the entry with the same key
        let ghost t = entry.tag_attr;
        entries.set(i, entry);
        let ghost new_es = entries@;
        assert(entry_keys(new_es) =~= ks);
        assert(entries_map(new_es) =~= entries_map(old_es).insert(k, t)) by {
            assert forall|x: Seq<char>| #[trigger] entries_map(new_es).contains_key(x)
                <==> entries_map(old_es).insert(k, t).contains_key(x) by {
                if entries_map(old_es).contains_key(x) {
                    let j = choose|j: int| 0 <= j < old_es.len() && #[trigger] old_es[j].file_hash@ == x;
                    assert(entry_keys(new_es)[j] == x);
                    assert(new_es[j].file_hash@ == x);
                }
                if entries_map(new_es).contains_key(x) {
                    let j = choose|j: int| 0 <= j < new_es.len() && #[trigger] new_es[j].file_hash@ == x;
                    assert(entry_keys(old_es)[j] == x);
                    assert(old_es[j].file_hash@ == x);
                }
            }
            assert forall|x: Seq<char>| #[trigger] entries_map(new_es).contains_key(x)
                implies entries_map(new_es)[x] == entries_map(old_es).insert(k, t)[x] by {
                let j = choose|j: int| 0 <= j < new_es.len() && #[trigger] new_es[j].file_hash@ == x;
                lemma_tag_of(new_es, j);
                if j != i {
                    assert(old_es[j] == new_es[j]);
                    lemma_tag_of(old_es, j);
                    assert(x != k) by {
                        if x == k {
                            assert(ks[j] == ks[i as int]);
                            lemma_sorted_unique(ks, j, i as int);
                        }
                    }
                }
            }
        }
    } else {
        // insert before the first greater key
        proof {
            if i < old_es.len() {
                assert(ks[i as int] == old_es[i as int].file_hash@);
                lemma_seq_less_total(ks[i as int], k);
            }
        }
        let ghost t = entry.tag_attr;
        entries.insert(i, entry);
        let ghost new_es = entries@;
        let ghost nk = entry_keys(new_es);
        assert(nk =~= ks.insert(i as int, k));
        assert(sorted_keys(nk)) by {
            assert forall|a: int, b: int| 0 <= a < b < nk.len() implies seq_less(
                #[trigger] nk[a],
                #[trigger] nk[b],
            ) by {
                if b < i {
                    assert(nk[a] == ks[a] && nk[b] == ks[b]);
                } else if b == i {
                    assert(nk[a] == ks[a]);
                } else if a == i {
                    assert(nk[b] == ks[b - 1]);
                    if b - 1 > i {
                        lemma_seq_less_transitive(k, ks[i as int], ks[b - 1]);
                    }
                } else if a < i {
                    assert(nk[a] == ks[a] && nk[b] == ks[b - 1]);
                } else {
                    assert(nk[a] == ks[a - 1] && nk[b] == ks[b - 1]);
                }
            }
        }
        assert(entries_map(new_es) =~= entries_map(old_es).insert(k, t)) by {
            assert forall|x: Seq<char>| #[trigger] entries_map(new_es).contains_key(x)
                <==> entries_map(old_es).insert(k, t).contains_key(x) by {
                if entries_map(old_es).contains_key(x) {
                    let j = choose|j: int| 0 <= j < old_es.len() && #[trigger] old_es[j].file_hash@ == x;
                    let jj = if j < i { j } else { j + 1 };
                    assert(new_es[jj] == old_es[j]);
                }
                if x == k {
                    assert(new_es[i as int].file_hash@ == k);
                }
                if entries_map(new_es).contains_key(x) && x != k {
                    let j = choose|j: int| 0 <= j < new_es.len() && #[trigger] new_es[j].file_hash@ == x;
                    let jj = if j < i { j } else { j - 1 };
                    assert(j != i);
                    assert(old_es[jj] == new_es[j]);
                }
            }
            assert forall|x: Seq<char>| #[trigger] entries_map(new_es).contains_key(x)
                implies entries_map(new_es)[x] == entries_map(old_es).insert(k, t)[x] by {
                let j = choose|j: int| 0 <= j < new_es.len() && #[trigger] new_es[j].file_hash@ == x;
                lemma_tag_of(new_es, j);
                if j != i {
                    let jj = if j < i { j } else { j - 1 };
                    assert(old_es[jj] == new_es[j]);
                    lemma_tag_of(old_es, jj);
                    assert(x != k) by {
                        assert(nk[j] == x && nk[i as int] == k);
                        if x == k {
                            lemma_sorted_unique(nk, j, i as int);
                        }
                    }
                }
            }
        }
    }
}

/// The index of the entry with key `key`, if any.
pub fn find_entry(entries: &Vec<Entry>, key: &str) -> (r: Option<usize>)
    requires
        sorted_keys(entry_keys(entries@)),
    ensures
        r is Some <==> entries_map(entries@).contains_key(key@),
        r matches Some(i) ==> i < entries@.len() && entries@[i as int].file_hash@ == key@
            && entries_map(entries@)[key@] == entries@[i as int].tag_attr,
{
    let mut i: usize = 0;
    while i < entries.len()
        invariant
            i <= entries@.len(),
            sorted_keys(entry_keys(entries@)),
            forall|j: int| 0 <= j < i ==> entries@[j].file_hash@ != key@,
        decreases entries.len() - i,
    {
        if crate::text::same_text(entries[i].file_hash.as_str(), key) {
            proof {
                lemma_tag_of(entries@, i as int);
            }
            return Some(i);
        }
        i += 1;
    }
    None
}

/// Removes the entry with key `key` from sorted entries, if any, and
/// returns it.
pub fn remove_sorted(entries: &mut Vec<Entry>, key: &str) -> (r: Option<Entry>)
    requires
        sorted_keys(entry_keys(old(entries)@)),
    ensures
        sorted_keys(entry_keys(final(entries)@)),
        entries_map(final(entries)@) == entries_map(old(entries)@).remove(key@),
        r is Some <==> entries_map(old(entries)@).contains_key(key@),
        r matches Some(e) ==> e.file_hash@ == key@ && e.tag_attr == entries_map(
            old(entries)@,
        )[key@],
{
    let ghost old_es = entries@;
    let ghost ks = entry_keys(old_es);
    match find_entry(entries, key) {
        None => {
            assert(entries_map(old_es) =~= entries_map(old_es).remove(key@));
            None
        },
        Some(i) => {
            let e = entries.remove(i);
            let ghost new_es = entries@;
            assert(entry_keys(new_es) =~= ks.remove(i as int));
            assert(sorted_keys(entry_keys(new_es))) by {
                let nk = entry_keys(new_es);
                assert forall|a: int, b: int| 0 <= a < b < nk.len() implies seq_less(
                    #[trigger] nk[a],
                    #[trigger] nk[b],
                ) by {
                    let aa = if a < i { a } else { a + 1 };
                    let bb = if b < i { b } else { b + 1 };
                    assert(nk[a] == ks[aa] && nk[b] == ks[bb]);
                }
            }
            assert(entries_map(new_es) =~= entries_map(old_es).remove(key@)) by {
                assert forall|x: Seq<char>| #[trigger] entries_map(new_es).contains_key(x)
                    <==> entries_map(old_es).remove(key@).contains_key(x) by {
                    if entries_map(old_es).contains_key(x) && x != key@ {
                        let j = choose|j: int| 0 <= j < old_es.len() && #[trigger] old_es[j].file_hash@ == x;
                        assert(j != i);
                        let jj = if j < i { j } else { j - 1 };
                        assert(new_es[jj] == old_es[j]);
                    }
                    if entries_map(new_es).contains_key(x) {
                        let j = choose|j: int| 0 <= j < new_es.len() && #[trigger] new_es[j].file_hash@ == x;
                        let jj = if j < i { j } else { j + 1 };
                        assert(old_es[jj] == new_es[j]);
                        assert(x != key@) by {
                            if x == key@ {
                                assert(ks[jj] == ks[i as int]);
                                lemma_sorted_unique(ks, jj, i as int);
                            }
                        }
                    }
                }
                assert forall|x: Seq<char>| #[trigger] entries_map(new_es).contains_key(x)
                    implies entries_map(new_es)[x] == entries_map(old_es).remove(key@)[x] by {
                    let j = choose|j: int| 0 <= j < new_es.len() && #[trigger] new_es[j].file_hash@ == x;
                    let jj = if j < i { j } else { j + 1 };
                    assert(old_es[jj] == new_es[j]);
                    lemma_tag_of(new_es, j);
                    lemma_tag_of(old_es, jj);
                }
            }
            Some(e)
        },
    }
}

/// Sorted keys holding the same keys are the same sequence.
pub proof fn lemma_sorted_same_keys_equal(a: Seq<Seq<char>>, b: Seq<Seq<char>>)
    requires
        sorted_keys(a),
        sorted_keys(b),
        forall|x: Seq<char>| a.contains(x) <==> b.contains(x),
    ensures
        a == b,
    decreases a.len(),
{
    if a.len() == 0 {
        if b.len() > 0 {
            assert(b.contains(b[0]));
        }
        assert(a =~= b);
    } else if b.len() == 0 {
        assert(a.contains(a[0]));
    } else {
        // the first keys are the least of the same set
        assert(b.contains(a[0]));
        assert(a.contains(b[0]));
        let ia = choose|i: int| 0 <= i < a.len() && a[i] == b[0];
        let ib = choose|i: int| 0 <= i < b.len() && b[i] == a[0];
        if a[0] != b[0] {
            assert(ia > 0 && ib > 0);
            assert(seq_less(a[0], a[ia]));
            assert(seq_less(b[0], b[ib]));
            lemma_seq_less_transitive(a[0], b[0], a[0]);
            lemma_seq_less_irreflexive(a[0]);
        }
        let a1 = a.drop_first();
        let b1 = b.drop_first();
        assert forall|x: Seq<char>| a1.contains(x) <==> b1.contains(x) by {
            if a1.contains(x) {
                let i = choose|i: int| 0 <= i < a1.len() && a1[i] == x;
                assert(a[i + 1] == x);
                assert(seq_less(a[0], a[i + 1]));
                assert(b.contains(x));
                let j = choose|j: int| 0 <= j < b.len() && b[j] == x;
                if j == 0 {
                    lemma_seq_less_irreflexive(x);
                }
                assert(b1[j - 1] == x);
            }
            if b1.contains(x) {
                let i = choose|i: int| 0 <= i < b1.len() && b1[i] == x;
                assert(b[i + 1] == x);
                assert(seq_less(b[0], b[i + 1]));
                assert(a.contains(x));
                let j = choose|j: int| 0 <= j < a.len() && a[j] == x;
                if j == 0 {
                    lemma_seq_less_irreflexive(x);
                }
                assert(a1[j - 1] == x);
            }
        }
        assert(sorted_keys(a1)) by {
            assert forall|i: int, j: int| 0 <= i < j < a1.len() implies seq_less(
                #[trigger] a1[i],
                #[trigger] a1[j],
            ) by {
                assert(a1[i] == a[i + 1] && a1[j] == a[j + 1]);
            }
        }
        assert(sorted_keys(b1)) by {
            assert forall|i: int, j: int| 0 <= i < j < b1.len() implies seq_less(
                #[trigger] b1[i],
                #[trigger] b1[j],
            ) by {
                assert(b1[i] == b[i + 1] && b1[j] == b[j + 1]);
            }
        }
        lemma_sorted_same_keys_equal(a1, b1);
        assert(a =~= seq![a[0]] + a1);
        assert(b =~= seq![b[0]] + b1);
    }
}

/// The keys of sorted entries are the keys of their map.
pub proof fn lemma_keys_are_domain(es: Seq<Entry>)
    ensures
        forall|x: Seq<char>| entry_keys(es).contains(x) <==> entries_map(es).contains_key(x),
{
    assert forall|x: Seq<char>| entry_keys(es).contains(x) <==> entries_map(es).contains_key(x) by {
        if entry_keys(es).contains(x) {
            let i = choose|i: int| 0 <= i < entry_keys(es).len() && entry_keys(es)[i] == x;
            assert(es[i].file_hash@ == x);
        }
        if entries_map(es).contains_key(x) {
            let i = choose|i: int| 0 <= i < es.len() && #[trigger] es[i].file_hash@ == x;
            assert(entry_keys(es)[i] == x);
        }
    }
}

/// Sorted entries with the same keys have the same total hash: the total
/// hash depends on the set of keys alone.
pub proof fn lemma_total_hash_depends_on_keys_only(a: Seq<Entry>, b: Seq<Entry>)
    requires
        sorted_keys(entry_keys(a)),
        sorted_keys(entry_keys(b)),
        entries_map(a).dom() == entries_map(b).dom(),
    ensures
        entry_keys(a) == entry_keys(b),
        total_hash_of(entry_keys(a)) == total_hash_of(entry_keys(b)),
{
    lemma_keys_are_domain(a);
    lemma_keys_are_domain(b);
    assert forall|x: Seq<char>| entry_keys(a).contains(x) <==> entry_keys(b).contains(x) by {
        assert(entries_map(a).dom().contains(x) == entries_map(b).dom().contains(x));
    }
    lemma_sorted_same_keys_equal(entry_keys(a), entry_keys(b));
}

/// The entries in order as a map: inserting them one after the other, a
/// later entry replacing an earlier one of the same key.
pub open spec fn map_of_list(es: Seq<Entry>) -> Map<Seq<char>, TagAttributes>
    decreases es.len(),
{
    if es.len() == 0 {
        Map::empty()
    } else {
        map_of_list(es.drop_last()).insert(es.last().file_hash@, es.last().tag_attr)
    }
}

/// The entries sorted by key, a later entry replacing an earlier one of the
/// same key.
pub fn sorted_entries(entries: &Vec<Entry>) -> (r: Vec<Entry>)
    ensures
        sorted_keys(entry_keys(r@)),
        entries_map(r@) == map_of_list(entries@),
{
    let mut sorted: Vec<Entry> = Vec::new();
    let ghost es = entries@;
    let mut i: usize = 0;
    assert(entries_map(sorted@) =~= map_of_list(es.take(0)));
    assert(entry_keys(sorted@) =~= Seq::<Seq<char>>::empty());
    while i < entries.len()
        invariant
            i <= es.len(),
            es == entries@,
            sorted_keys(entry_keys(sorted@)),
            entries_map(sorted@) == map_of_list(es.take(i as int)),
        decreases entries.len() - i,
    {
        assert(es.take(i + 1).drop_last() =~= es.take(i as int));
        insert_sorted(&mut sorted, entries[i].duplicate());
        i += 1;
    }
    assert(es.take(es.len() as int) =~= es);
    sorted
}

/// The database of mcat.
pub struct Database {
    total_hash: String,
    entries: Vec<Entry>,
}

impl Database {
    /// Whether the entries are sorted by key, without a key twice.
    pub closed spec fn wf(&self) -> bool {
        sorted_keys(entry_keys(self.entries@))
    }

    /// The keys, in order.
    pub closed spec fn keys(&self) -> Seq<Seq<char>> {
        entry_keys(self.entries@)
    }

    /// The entries as a map from keys to attributes.
    pub closed spec fn as_map(&self) -> Map<Seq<char>, TagAttributes> {
        entries_map(self.entries@)
    }

    /// The total hash held.
    pub closed spec fn spec_total_hash(&self) -> Seq<char> {
        self.total_hash@
    }

    /// The entries, in the order of their keys.
    pub closed spec fn entry_seq(&self) -> Seq<Entry> {
        self.entries@
    }

    /// The keys are the keys of the entries in order, sorted without a key
    /// twice, and they are the domain of the map.
    pub proof fn lemma_view(&self)
        requires
            self.wf(),
        ensures
            self.keys() == entry_keys(self.entry_seq()),
            sorted_keys(self.keys()),
            self.as_map() == entries_map(self.entry_seq()),
            forall|x: Seq<char>| self.keys().contains(x) <==> self.as_map().contains_key(x),
    {
        lemma_keys_are_domain(self.entries@);
    }

    /// An empty database.
    pub fn new() -> (r: Self)
        ensures
            r.wf(),
            r.as_map() == Map::<Seq<char>, TagAttributes>::empty(),
            r.keys() == Seq::<Seq<char>>::empty(),
            r.spec_total_hash() == Seq::<char>::empty(),
    {
        let r = Database { total_hash: String::new(), entries: Vec::new() };
        assert(entries_map(r.entries@) =~= Map::<Seq<char>, TagAttributes>::empty());
        assert(entry_keys(r.entries@) =~= Seq::<Seq<char>>::empty());
        r
    }

    /// A database of stored entries and total hash, as its file holds them:
    /// the entries by key, a later entry replacing an earlier one of the
    /// same key, and the total hash as stored.
    pub fn from_stored(total_hash: String, entries: Vec<Entry>) -> (r: Self)
        ensures
            r.wf(),
            r.as_map() == map_of_list(entries@),
            r.spec_total_hash() == total_hash@,
    {
        let sorted = sorted_entries(&entries);
        Database { total_hash, entries: sorted }
    }

    /// Inserts an entry under its file hash, replacing the entry of that
    /// hash, and updates the total hash.
    pub fn insert_entry(&mut self, entry: Entry)
        requires
            old(self).wf(),
        ensures
            final(self).wf(),
            final(self).as_map() == old(self).as_map().insert(entry.file_hash@, entry.tag_attr),
            final(self).spec_total_hash() == total_hash_of(final(self).keys()),
    {
        insert_sorted(&mut self.entries, entry);
        self.update_hash();
    }

    /// Recomputes the total hash from the keys.
    fn update_hash(&mut self)
        ensures
            final(self).entries == old(self).entries,
            final(self).spec_total_hash() == total_hash_of(final(self).keys()),
    {
        let keys = keys_of(&self.entries);
        self.total_hash = compute_total_hash(&keys);
    }

    /// The total hash.
    pub fn total_hash(&self) -> (r: &String)
        ensures
            r@ == self.spec_total_hash(),
    {
        &self.total_hash
    }

    /// The entries, in the order of their keys.
    pub fn entries(&self) -> (r: &Vec<Entry>)
        ensures
            r@ == self.entry_seq(),
            entry_keys(r@) == self.keys(),
            entries_map(r@) == self.as_map(),
    {
        &self.entries
    }
}

impl Default for Database {
    fn default() -> (r: Self)
        ensures
            r.wf(),
            r.as_map() == Map::<Seq<char>, TagAttributes>::empty(),
            r.spec_total_hash() == Seq::<char>::empty(),
    {
        Self::new()
    }
}

/// Inserting entries of different keys into a database in either order
/// gives the same database: the same map, the same keys in the same order,
/// and so the same total hash, which each insert keeps current.
pub proof fn law_database_insert_order_irrelevant(
    start: Database,
    a: Database,
    b: Database,
    e1: Entry,
    e2: Entry,
)
    requires
        start.wf(),
        a.wf(),
        b.wf(),
        e1.file_hash@ != e2.file_hash@,
        a.as_map() == start.as_map().insert(e1.file_hash@, e1.tag_attr).insert(
            e2.file_hash@,
            e2.tag_attr,
        ),
        b.as_map() == start.as_map().insert(e2.file_hash@, e2.tag_attr).insert(
            e1.file_hash@,
            e1.tag_attr,
        ),
        a.spec_total_hash() == total_hash_of(a.keys()),
        b.spec_total_hash() == total_hash_of(b.keys()),
    ensures
        a.as_map() == b.as_map(),
        a.keys() == b.keys(),
        a.spec_total_hash() == b.spec_total_hash(),
{
    assert(a.as_map() =~= b.as_map());
    lemma_total_hash_depends_on_keys_only(a.entries@, b.entries@);
}

} // verus!
