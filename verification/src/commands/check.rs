//! The `check` command: which hashes of media files are not tracked by the
//! repository, and which tracked hashes have no media file.

use vstd::prelude::*;

use crate::db::sorted_keys;
use crate::text::{contains_text, lemma_seq_less_total, lemma_seq_less_transitive, seq_less, str_less, views};

verus! {

proof fn lemma_push_contains(s: Seq<Seq<char>>, a: Seq<char>)
    ensures
        forall|x: Seq<char>| #[trigger] s.push(a).contains(x) <==> (s.contains(x) || x == a),
{
    assert forall|x: Seq<char>| #[trigger] s.push(a).contains(x) <==> (s.contains(x) || x == a) by {
        if s.contains(x) {
            let k = choose|k: int| 0 <= k < s.len() && s[k] == x;
            assert(s.push(a)[k] == x);
        }
        if x == a {
            assert(s.push(a)[s.len() as int] == x);
        }
        if s.push(a).contains(x) && x != a {
            let k = choose|k: int| 0 <= k < s.push(a).len() && s.push(a)[k] == x;
            assert(s[k] == x);
        }
    }
}

/// Inserts `s` into sorted distinct texts, unless it is there already.
pub fn insert_text_sorted(v: &mut Vec<String>, s: String)
    requires
        sorted_keys(views(old(v)@)),
    ensures
        sorted_keys(views(final(v)@)),
        forall|x: Seq<char>| views(final(v)@).contains(x) <==> (views(old(v)@).contains(x) || x == s@),
{
    let ghost ov = views(v@);
    let mut i: usize = 0;
    while i < v.len() && str_less(v[i].as_str(), s.as_str())
        invariant
            i <= v@.len(),
            views(v@) == ov,
            forall|j: int| 0 <= j < i ==> seq_less(#[trigger] ov[j], s@),
        decreases v.len() - i,
    {
        assert(ov[i as int] == v@[i as int]@);
        i += 1;
    }
    if i < v.len() && crate::text::same_text(v[i].as_str(), s.as_str()) {
        assert(ov[i as int] == s@);
        return;
    }
    proof {
        if i < ov.len() {
            assert(ov[i as int] == v@[i as int]@);
            lemma_seq_less_total(ov[i as int], s@);
        }
    }
    let ghost sv = s@;
    v.insert(i, s);
    let ghost nv = views(v@);
    assert(nv =~= ov.insert(i as int, sv));
    assert(sorted_keys(nv)) by {
        assert forall|a: int, b: int| 0 <= a < b < nv.len() implies seq_less(
            #[trigger] nv[a],
            #[trigger] nv[b],
        ) by {
            if b < i {
                assert(nv[a] == ov[a] && nv[b] == ov[b]);
            } else if b == i {
                assert(nv[a] == ov[a]);
            } else if a == i {
                assert(nv[b] == ov[b - 1]);
                if b - 1 > i {
                    lemma_seq_less_transitive(sv, ov[i as int], ov[b - 1]);
                }
            } else if a < i {
                assert(nv[a] == ov[a] && nv[b] == ov[b - 1]);
            } else {
                assert(nv[a] == ov[a - 1] && nv[b] == ov[b - 1]);
            }
        }
    }
    assert forall|x: Seq<char>| nv.contains(x) <==> (ov.contains(x) || x == sv) by {
        if ov.contains(x) {
            let j = choose|j: int| 0 <= j < ov.len() && ov[j] == x;
            let jj = if j < i { j } else { j + 1 };
            assert(nv[jj] == x);
        }
        if x == sv {
            assert(nv[i as int] == x);
        }
        if nv.contains(x) && x != sv {
            let j = choose|j: int| 0 <= j < nv.len() && nv[j] == x;
            assert(j != i);
            let jj = if j < i { j } else { j - 1 };
            assert(ov[jj] == x);
        }
    }
}

/// The texts as a sorted set.
pub fn sorted_set(texts: &Vec<String>) -> (r: Vec<String>)
    ensures
        sorted_keys(views(r@)),
        forall|x: Seq<char>| views(r@).contains(x) <==> views(texts@).contains(x),
{
    let mut out: Vec<String> = Vec::new();
    let mut i: usize = 0;
    while i < texts.len()
        invariant
            i <= texts@.len(),
            sorted_keys(views(out@)),
            forall|x: Seq<char>| views(out@).contains(x) <==> views(texts@).take(i as int).contains(x),
        decreases texts.len() - i,
    {
        insert_text_sorted(&mut out, texts[i].clone());
        proof {
            let t = views(texts@);
            assert(t.take(i + 1) =~= t.take(i as int).push(t[i as int]));
            assert(t[i as int] == texts@[i as int]@);
            lemma_push_contains(t.take(i as int), t[i as int]);
        }
        i += 1;
    }
    assert(views(texts@).take(texts@.len() as int) =~= views(texts@));
    out
}

/// The texts of sorted `a` that are not in `b`, sorted.
pub fn sorted_difference(a: &Vec<String>, b: &Vec<String>) -> (r: Vec<String>)
    requires
        sorted_keys(views(a@)),
    ensures
        sorted_keys(views(r@)),
        forall|x: Seq<char>| views(r@).contains(x) <==> (views(a@).contains(x) && !views(b@).contains(x)),
{
    let ghost av = views(a@);
    let mut out: Vec<String> = Vec::new();
    let mut i: usize = 0;
    while i < a.len()
        invariant
            i <= a@.len(),
            av == views(a@),
            sorted_keys(av),
            sorted_keys(views(out@)),
            forall|k: int| #![trigger views(out@)[k]] 0 <= k < views(out@).len() ==> exists|j: int| 0 <= j < i && #[trigger] av[j] == views(out@)[k],
            forall|x: Seq<char>| views(out@).contains(x) <==> (av.take(i as int).contains(x) && !views(b@).contains(x)),
        decreases a.len() - i,
    {
        assert(av.take(i + 1) =~= av.take(i as int).push(av[i as int]));
        assert(av[i as int] == a@[i as int]@);
        if !contains_text(b, a[i].as_str()) {
            let ghost ov = views(out@);
            out.push(a[i].clone());
            let ghost nv = views(out@);
            assert(nv =~= ov.push(av[i as int]));
            assert(sorted_keys(nv)) by {
                assert forall|p: int, q: int| 0 <= p < q < nv.len() implies seq_less(
                    #[trigger] nv[p],
                    #[trigger] nv[q],
                ) by {
                    if q == ov.len() {
                        let j = choose|j: int| 0 <= j < i && #[trigger] av[j] == ov[p];
                        assert(seq_less(av[j], av[i as int]));
                    } else {
                        assert(nv[p] == ov[p] && nv[q] == ov[q]);
                    }
                }
            }
            assert forall|k: int| #![trigger nv[k]] 0 <= k < nv.len() implies exists|j: int| 0 <= j < i + 1 && #[trigger] av[j] == nv[k] by {
                if k < ov.len() {
                    let j = choose|j: int| 0 <= j < i && #[trigger] av[j] == ov[k];
                    assert(av[j] == nv[k]);
                } else {
                    assert(av[i as int] == nv[k]);
                }
            }
            proof {
                lemma_push_contains(ov, av[i as int]);
                lemma_push_contains(av.take(i as int), av[i as int]);
            }
        } else {
            proof {
                lemma_push_contains(av.take(i as int), av[i as int]);
            }
            assert forall|k: int| #![trigger views(out@)[k]] 0 <= k < views(out@).len() implies exists|j: int| 0 <= j < i + 1 && #[trigger] av[j] == views(out@)[k] by {
                let j = choose|j: int| 0 <= j < i && #[trigger] av[j] == views(out@)[k];
                assert(av[j] == views(out@)[k]);
            }
        }
        i += 1;
    }
    assert(av.take(a@.len() as int) =~= av);
    out
}

/// The result of a check: the hashes of media files that no track has
/// (unless `exist` is set), and the hashes of tracks that no media file has
/// (unless `track` is set), each as a sorted set.
pub fn compare(track_hashes: &Vec<String>, file_hashes: &Vec<String>, track: bool, exist: bool) -> (r: (
    Vec<String>,
    Vec<String>,
))
    ensures
        sorted_keys(views(r.0@)),
        sorted_keys(views(r.1@)),
        forall|x: Seq<char>| views(r.0@).contains(x) <==> (!exist && views(file_hashes@).contains(x)
            && !views(track_hashes@).contains(x)),
        forall|x: Seq<char>| views(r.1@).contains(x) <==> (!track && views(track_hashes@).contains(x)
            && !views(file_hashes@).contains(x)),
{
    let files = sorted_set(file_hashes);
    let repo_hashes = sorted_set(track_hashes);
    let not_tracked = if !exist {
        let d = sorted_difference(&files, track_hashes);
        d
    } else {
        let e: Vec<String> = Vec::new();
        assert(views(e@) =~= Seq::<Seq<char>>::empty());
        e
    };
    let not_exists = if !track {
        sorted_difference(&repo_hashes, file_hashes)
    } else {
        let e: Vec<String> = Vec::new();
        assert(views(e@) =~= Seq::<Seq<char>>::empty());
        e
    };
    (not_tracked, not_exists)
}

} // verus!
