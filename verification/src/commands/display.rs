//! The `display` command: the tag attributes of the tracks that pass a
//! filter.

use vstd::prelude::*;

use crate::db::Entry;
use crate::models::TrackFilter;
use crate::repos::toml_repo::TomlDb;
use crate::TagAttributes;

verus! {

/// The entries, in order, whose attributes pass the filter.
pub open spec fn passing_entries(es: Seq<Entry>, f: TrackFilter) -> Seq<Entry>
    decreases es.len(),
{
    if es.len() == 0 {
        Seq::empty()
    } else if f.accepts(es.last().tag_attr.fields()) {
        passing_entries(es.drop_last(), f).push(es.last())
    } else {
        passing_entries(es.drop_last(), f)
    }
}

impl TrackFilter {
    /// The file hashes of the repository's tracks that pass the filter, in
    /// the order of the keys.
    pub fn apply(&self, repo: &TomlDb) -> (r: Vec<String>)
        ensures
            crate::text::views(r@) == passing_entries(repo.entry_seq(), *self).map_values(
                |e: Entry| e.file_hash@,
            ),
    {
        let es = repo.entries();
        let ghost s = es@;
        let mut out: Vec<String> = Vec::new();
        let mut i: usize = 0;
        assert(s.take(0) =~= Seq::<Entry>::empty());
        assert(crate::text::views(out@) =~= passing_entries(s.take(0), *self).map_values(
            |e: Entry| e.file_hash@,
        ));
        while i < es.len()
            invariant
                i <= s.len(),
                s == es@,
                crate::text::views(out@) == passing_entries(s.take(i as int), *self).map_values(
                    |e: Entry| e.file_hash@,
                ),
            decreases es.len() - i,
        {
            assert(s.take(i + 1).drop_last() =~= s.take(i as int));
            if self.accepts_tag(&es[i].tag_attr) {
                let ghost before = crate::text::views(out@);
                out.push(es[i].file_hash.clone());
                assert(crate::text::views(out@) =~= before.push(s[i as int].file_hash@));
                assert(passing_entries(s.take(i + 1), *self) == passing_entries(
                    s.take(i as int),
                    *self,
                ).push(s[i as int]));
                assert(passing_entries(s.take(i + 1), *self).map_values(|e: Entry| e.file_hash@)
                    =~= passing_entries(s.take(i as int), *self).map_values(
                    |e: Entry| e.file_hash@,
                ).push(s[i as int].file_hash@));
            }
            i += 1;
        }
        assert(s.take(s.len() as int) =~= s);
        out
    }
}

/// Executes the `display` command: the tag attributes of the tracks that
/// pass the filter, in the order of their keys.
pub fn execute(filter: &TrackFilter, repo: &TomlDb) -> (r: Vec<TagAttributes>)
    requires
        repo.wf(),
    ensures
        r@ == passing_entries(repo.entry_seq(), *filter).map_values(|e: Entry| e.tag_attr),
{
    let hashes = filter.apply(repo);
    let ghost p = passing_entries(repo.entry_seq(), *filter);
    let mut out: Vec<TagAttributes> = Vec::new();
    let mut i: usize = 0;
    proof {
        repo.lemma_view();
        lemma_passing_in_repo(repo.entry_seq(), *filter);
    }
    assert(hashes@.len() == p.len()) by {
        assert(crate::text::views(hashes@).len() == hashes@.len());
    }
    while i < hashes.len()
        invariant
            i <= hashes@.len(),
            hashes@.len() == p.len(),
            repo.wf(),
            crate::text::views(hashes@) == p.map_values(|e: Entry| e.file_hash@),
            p == passing_entries(repo.entry_seq(), *filter),
            forall|j: int| 0 <= j < p.len() ==> repo.as_map().contains_key(#[trigger] p[j].file_hash@)
                && repo.as_map()[p[j].file_hash@] == p[j].tag_attr,
            out@ == p.take(i as int).map_values(|e: Entry| e.tag_attr),
        decreases hashes.len() - i,
    {
        assert(crate::text::views(hashes@)[i as int] == hashes@[i as int]@);
        assert(hashes@[i as int]@ == p[i as int].file_hash@);
        assert(repo.as_map().contains_key(p[i as int].file_hash@));
        let ghost before = out@;
        match repo.query_track_by_hash(hashes[i].as_str()) {
            Some(entry) => {
                out.push(entry.tag_attr);
            },
            None => {},
        }
        assert(p.take(i + 1) =~= p.take(i as int).push(p[i as int]));
        assert(out@ =~= before.push(p[i as int].tag_attr));
        assert(out@ =~= p.take(i + 1).map_values(|e: Entry| e.tag_attr));
        i += 1;
    }
    assert(p.take(p.len() as int) =~= p);
    out
}

/// Each passing entry is an entry of the repository, found under its key.
proof fn lemma_passing_in_repo(es: Seq<Entry>, f: TrackFilter)
    requires
        crate::db::sorted_keys(crate::db::entry_keys(es)),
    ensures
        forall|j: int| 0 <= j < passing_entries(es, f).len() ==> crate::db::entries_map(es).contains_key(
            #[trigger] passing_entries(es, f)[j].file_hash@,
        ) && crate::db::entries_map(es)[passing_entries(es, f)[j].file_hash@] == passing_entries(
            es,
            f,
        )[j].tag_attr,
    decreases es.len(),
{
    if es.len() > 0 {
        let p = es.drop_last();
        assert(crate::db::sorted_keys(crate::db::entry_keys(p))) by {
            let k = crate::db::entry_keys(es);
            let kp = crate::db::entry_keys(p);
            assert forall|a: int, b: int| 0 <= a < b < kp.len() implies crate::text::seq_less(
                #[trigger] kp[a],
                #[trigger] kp[b],
            ) by {
                assert(kp[a] == k[a] && kp[b] == k[b]);
            }
        }
        lemma_passing_in_repo(p, f);
        let q = passing_entries(es, f);
        assert forall|j: int| 0 <= j < q.len() implies crate::db::entries_map(es).contains_key(
            #[trigger] q[j].file_hash@,
        ) && crate::db::entries_map(es)[q[j].file_hash@] == q[j].tag_attr by {
            let qp = passing_entries(p, f);
            if j < qp.len() {
                assert(q[j] == qp[j]);
                let idx = choose|i: int| 0 <= i < p.len() && #[trigger] p[i].file_hash@ == qp[j].file_hash@;
                crate::db::lemma_entry_at(p, idx);
                assert(es[idx] == p[idx]);
                crate::db::lemma_entry_at(es, idx);
            } else {
                crate::db::lemma_entry_at(es, es.len() - 1);
            }
        }
    }
}

} // verus!
