//! Paths as text, read the way Rust's `std::path::Path` reads them on Unix:
//! the file name of a path, and the stem and extension of a file name.

use vstd::prelude::*;

use crate::text::{chars_of, string_from_chars};

verus! {

/// A finished segment of a path counts unless it is empty or ".".
pub open spec fn settle(last: Option<Seq<char>>, seg: Seq<char>) -> Option<Seq<char>> {
    if seg.len() == 0 || seg == seq!['.'] {
        last
    } else {
        Some(seg)
    }
}

/// Scans a path: the last segment that counts among those ended by a '/',
/// and the segment still open.
pub open spec fn scan_segments(p: Seq<char>) -> (Option<Seq<char>>, Seq<char>)
    decreases p.len(),
{
    if p.len() == 0 {
        (None, Seq::empty())
    } else {
        let acc = scan_segments(p.drop_last());
        if p.last() == '/' {
            (settle(acc.0, acc.1), Seq::empty())
        } else {
            (acc.0, acc.1.push(p.last()))
        }
    }
}

/// What `Path::file_name` gives: the last component of the path, where
/// empty and "." components are skipped, or nothing if there is none or if
/// it is "..".
pub open spec fn path_file_name(p: Seq<char>) -> Option<Seq<char>> {
    let acc = scan_segments(p);
    match settle(acc.0, acc.1) {
        Some(s) => if s == seq!['.', '.'] {
            None
        } else {
            Some(s)
        },
        None => None,
    }
}

fn settle_exec(last: Option<Vec<char>>, seg: Vec<char>) -> (r: Option<Vec<char>>)
    ensures
        match r {
            Some(v) => settle(
                match last {
                    Some(l) => Some(l@),
                    None => None,
                },
                seg@,
            ) == Some(v@),
            None => settle(
                match last {
                    Some(l) => Some(l@),
                    None => None,
                },
                seg@,
            ) is None,
        },
{
    if seg.len() == 0 || (seg.len() == 1 && seg[0] == '.') {
        assert(seg.len() == 1 ==> seg@ =~= seq!['.']);
        last
    } else {
        assert(seg@ != seq!['.']) by {
            if seg@.len() == 1 {
                assert(seg@[0] != '.');
            }
        }
        Some(seg)
    }
}

/// The file name of `path`, as `Path::file_name` gives it.
pub fn file_name_of(path: &str) -> (r: Option<String>)
    ensures
        crate::opt_view(r) == path_file_name(path@),
{
    let cs = chars_of(path);
    let mut last: Option<Vec<char>> = None;
    let mut cur: Vec<char> = Vec::new();
    let mut i: usize = 0;
    assert(cs@.take(0) =~= Seq::<char>::empty());
    while i < cs.len()
        invariant
            i <= cs@.len(),
            cs@ == path@,
            scan_segments(cs@.take(i as int)) == (
                match last {
                    Some(l) => Some(l@),
                    None => None,
                },
                cur@,
            ),
        decreases cs.len() - i,
    {
        assert(cs@.take(i + 1).drop_last() =~= cs@.take(i as int));
        if cs[i] == '/' {
            let mut seg: Vec<char> = Vec::new();
            std::mem::swap(&mut seg, &mut cur);
            last = settle_exec(last, seg);
        } else {
            cur.push(cs[i]);
        }
        i += 1;
    }
    assert(cs@.take(cs@.len() as int) =~= cs@);
    match settle_exec(last, cur) {
        Some(v) => {
            if v.len() == 2 && v[0] == '.' && v[1] == '.' {
                assert(v@ =~= seq!['.', '.']);
                None
            } else {
                assert(v@ != seq!['.', '.']) by {
                    if v@.len() == 2 {
                        assert(v@[0] != '.' || v@[1] != '.');
                    }
                }
                Some(string_from_chars(v.as_slice()))
            }
        },
        None => None,
    }
}

/// The index of the last `c` in `s`, or -1 where `s` holds none.
pub open spec fn last_index(s: Seq<char>, c: char) -> int
    decreases s.len(),
{
    if s.len() == 0 {
        -1
    } else if s.last() == c {
        s.len() - 1
    } else {
        last_index(s.drop_last(), c)
    }
}

/// The stem and the extension of a file name, as `Path::file_stem` and
/// `Path::extension` give them: split at the last '.', unless the name is
/// "..", has no '.', or has its only '.' in front.
pub open spec fn stem_and_extension(name: Seq<char>) -> (Seq<char>, Option<Seq<char>>) {
    let d = last_index(name, '.');
    if name == seq!['.', '.'] || d <= 0 {
        (name, None)
    } else {
        (name.take(d), Some(name.skip(d + 1)))
    }
}

/// The stem and the extension of a file name.
pub fn split_stem(name: &str) -> (r: (String, Option<String>))
    ensures
        (r.0@, crate::opt_view(r.1)) == stem_and_extension(name@),
{
    let cs = chars_of(name);
    let mut d: usize = cs.len();
    let mut found = false;
    assert(cs@.take(cs@.len() as int) =~= cs@);
    // scan from the end for the last '.'
    while d > 0
        invariant_except_break
            d <= cs@.len(),
            cs@ == name@,
            last_index(cs@, '.') == last_index(cs@.take(d as int), '.'),
            !found,
        ensures
            cs@ == name@,
            found ==> 0 < d <= cs@.len() && last_index(cs@, '.') == d - 1,
            !found ==> last_index(cs@, '.') == -1,
        decreases d,
    {
        assert(cs@.take(d as int).drop_last() =~= cs@.take(d - 1));
        if cs[d - 1] == '.' {
            found = true;
            break;
        }
        d -= 1;
    }
    let is_dotdot = cs.len() == 2 && cs[0] == '.' && cs[1] == '.';
    proof {
        if cs@.len() == 2 && cs@[0] == '.' && cs@[1] == '.' {
            assert(cs@ =~= seq!['.', '.']);
        } else if cs@.len() == 2 {
            assert(cs@ != seq!['.', '.']) by {
                assert(cs@[0] != '.' || cs@[1] != '.');
            }
        } else {
            assert(cs@.len() != seq!['.', '.'].len());
        }
    }
    if !found || d == 1 || is_dotdot {
        (string_from_chars(cs.as_slice()), None)
    } else {
        let stem = crate::text::sub_text(&cs, 0, d - 1);
        let ext = crate::text::sub_text(&cs, d, cs.len());
        assert(cs@.take(d - 1) =~= cs@.subrange(0, d - 1));
        assert(cs@.skip(d as int) =~= cs@.subrange(d as int, cs@.len() as int));
        (stem, Some(ext))
    }
}

} // verus!
