//! Lexical path canonicalization.
//!
//! Distinct spellings of one path (`a/../b`, `./b`, `b`) must share a
//! cache slot, so paths are normalized before they key anything: split on
//! `/`, drop empty and `.` components, let `..` swallow the preceding
//! plain component, and keep a leading `/`.

use vstd::prelude::*;

use crate::text::str_eq;

verus! {

/// The length of the first component: the number of characters before the
/// first separator.
pub open spec fn comp_len(s: Seq<char>) -> int
    decreases s.len(),
{
    if s.len() == 0 {
        0
    } else if s[0] == '/' {
        0
    } else {
        1 + comp_len(s.drop_first())
    }
}

/// The components of a path: the stretches between separators, kept even
/// when empty.
pub open spec fn split_path(s: Seq<char>) -> Seq<Seq<char>>
    decreases s.len(),
{
    let k = comp_len(s);
    if k < 0 || k >= s.len() {
        seq![s]
    } else {
        seq![s.take(k)] + split_path(s.skip(k + 1))
    }
}

/// One step of normalization: empty and `.` components vanish, `..`
/// swallows a preceding plain component and is kept otherwise, and
/// anything else is kept.
pub open spec fn norm_step(acc: Seq<Seq<char>>, c: Seq<char>) -> Seq<Seq<char>> {
    if c.len() == 0 || c == "."@ {
        acc
    } else if c == ".."@ {
        if acc.len() > 0 && acc.last() != ".."@ {
            acc.drop_last()
        } else {
            acc.push(c)
        }
    } else {
        acc.push(c)
    }
}

/// The components left after normalizing, in order.
pub open spec fn norm_fold(cs: Seq<Seq<char>>) -> Seq<Seq<char>>
    decreases cs.len(),
{
    if cs.len() == 0 {
        Seq::empty()
    } else {
        norm_step(norm_fold(cs.drop_last()), cs.last())
    }
}

/// The components joined with separators.
pub open spec fn join_comps(cs: Seq<Seq<char>>) -> Seq<char>
    decreases cs.len(),
{
    if cs.len() == 0 {
        Seq::empty()
    } else if cs.len() == 1 {
        cs[0]
    } else {
        join_comps(cs.drop_last()) + seq!['/'] + cs.last()
    }
}

/// The canonical form of a path: its normalized components joined, behind
/// a leading separator when the path is absolute.
pub open spec fn spec_normalize(s: Seq<char>) -> Seq<char> {
    let joined = join_comps(norm_fold(split_path(s)));
    if s.len() > 0 && s[0] == '/' {
        seq!['/'] + joined
    } else {
        joined
    }
}

/// The first component runs up to position `k`: no separator before it,
/// and one at it unless the path ends there.
proof fn lemma_comp_len_at(s: Seq<char>, k: int)
    requires
        0 <= k <= s.len(),
        forall|m: int| 0 <= m < k ==> s[m] != '/',
        k < s.len() ==> s[k] == '/',
    ensures
        comp_len(s) == k,
    decreases k,
{
    if k > 0 {
        lemma_comp_len_at(s.drop_first(), k - 1);
    }
}

/// Split a path into its components.
fn split_components(path: &str) -> (r: Vec<String>)
    ensures
        r@.map_values(|c: String| c@) == split_path(path@),
{
    let len = path.unicode_len();
    let mut comps: Vec<String> = Vec::new();
    let mut cur = String::new();
    let mut start: usize = 0;
    proof {
        assert(path@.skip(0) =~= path@);
        assert(path@.subrange(0, 0) =~= Seq::<char>::empty());
    }
    for i in 0..len
        invariant
            len == path@.len(),
            start <= i <= len,
            cur@ =~= path@.subrange(start as int, i as int),
            forall|m: int| start <= m < i ==> path@[m] != '/',
            split_path(path@) =~= comps@.map_values(|c: String| c@) + split_path(
                path@.skip(start as int),
            ),
    {
        let ghost prev = comps@;
        let c = path.get_char(i);
        if c == '/' {
            comps.push(cur);
            cur = String::new();
            proof {
                let rest = path@.skip(start as int);
                assert forall|m: int| 0 <= m < i - start implies rest[m] != '/' by {
                    assert(rest[m] == path@[start + m]);
                }
                assert(rest[i - start] == path@[i as int]);
                lemma_comp_len_at(rest, i - start);
                assert(rest.take(i - start) =~= path@.subrange(start as int, i as int));
                assert(rest.skip(i - start + 1) =~= path@.skip(i + 1));
                assert(comps@.map_values(|c: String| c@) =~= prev.map_values(|c: String| c@).push(
                    path@.subrange(start as int, i as int),
                ));
                assert(path@.subrange(i + 1, i + 1) =~= Seq::<char>::empty());
            }
            start = i + 1;
        } else {
            let piece = path.substring_char(i, i + 1);
            cur.append(piece);
            proof {
                assert(cur@ =~= path@.subrange(start as int, i + 1));
            }
        }
    }
    let ghost prev = comps@;
    comps.push(cur);
    proof {
        let rest = path@.skip(start as int);
        assert forall|m: int| 0 <= m < len - start implies rest[m] != '/' by {
            assert(rest[m] == path@[start + m]);
        }
        lemma_comp_len_at(rest, len as int - start as int);
        assert(rest =~= path@.subrange(start as int, len as int));
        assert(split_path(rest) == seq![rest]);
        assert(comps@.map_values(|c: String| c@) =~= prev.map_values(|c: String| c@).push(rest));
        assert(comps@.map_values(|c: String| c@) =~= split_path(path@));
    }
    comps
}

/// Normalize a component list.
fn normalize_components(comps: Vec<String>) -> (r: Vec<String>)
    ensures
        r@.map_values(|c: String| c@) == norm_fold(comps@.map_values(|c: String| c@)),
{
    let n = comps.len();
    let mut acc: Vec<String> = Vec::new();
    proof {
        assert(comps@.map_values(|c: String| c@).take(0) =~= Seq::<Seq<char>>::empty());
    }
    for i in 0..n
        invariant
            n == comps@.len(),
            acc@.map_values(|c: String| c@) =~= norm_fold(
                comps@.map_values(|c: String| c@).take(i as int),
            ),
    {
        let ghost cviews = comps@.map_values(|c: String| c@);
        let ghost prev = acc@;
        proof {
            assert(cviews.take(i + 1).drop_last() =~= cviews.take(i as int));
            assert(cviews.take(i + 1).last() == cviews[i as int]);
        }
        let c = &comps[i];
        if c.as_str().is_empty() || str_eq(c.as_str(), ".") {
        } else if str_eq(c.as_str(), "..") {
            let pop = if acc.len() > 0 {
                !str_eq(acc[acc.len() - 1].as_str(), "..")
            } else {
                false
            };
            if pop {
                acc.pop();
                proof {
                    assert(acc@.map_values(|c: String| c@) =~= prev.map_values(
                        |c: String| c@,
                    ).drop_last());
                }
            } else {
                acc.push(c.clone());
                proof {
                    assert(acc@.map_values(|c: String| c@) =~= prev.map_values(
                        |c: String| c@,
                    ).push(cviews[i as int]));
                }
            }
        } else {
            acc.push(c.clone());
            proof {
                assert(acc@.map_values(|c: String| c@) =~= prev.map_values(|c: String| c@).push(
                    cviews[i as int],
                ));
            }
        }
    }
    proof {
        assert(comps@.map_values(|c: String| c@).take(n as int) =~= comps@.map_values(
            |c: String| c@,
        ));
    }
    acc
}

/// Join normalized components behind an optional leading separator.
fn join_components(absolute: bool, comps: &Vec<String>) -> (r: String)
    ensures
        r@ == {
            let joined = join_comps(comps@.map_values(|c: String| c@));
            if absolute {
                seq!['/'] + joined
            } else {
                joined
            }
        },
{
    let ghost base: Seq<char> = if absolute {
        seq!['/']
    } else {
        Seq::empty()
    };
    let mut out = String::new();
    if absolute {
        out.append("/");
        proof {
            reveal_strlit("/");
            assert(out@ =~= base);
        }
    }
    let n = comps.len();
    proof {
        assert(comps@.map_values(|c: String| c@).take(0) =~= Seq::<Seq<char>>::empty());
        assert(out@ =~= base + join_comps(comps@.map_values(|c: String| c@).take(0)));
    }
    for i in 0..n
        invariant
            n == comps@.len(),
            out@ =~= base + join_comps(comps@.map_values(|c: String| c@).take(i as int)),
    {
        let ghost cviews = comps@.map_values(|c: String| c@);
        proof {
            assert(cviews.take(i + 1).drop_last() =~= cviews.take(i as int));
            assert(cviews.take(i + 1).last() == cviews[i as int]);
        }
        if i > 0 {
            out.append("/");
            proof {
                reveal_strlit("/");
                assert("/"@ =~= seq!['/']);
            }
        }
        out.append(comps[i].as_str());
        proof {
            assert(out@ =~= base + join_comps(cviews.take(i + 1)));
        }
    }
    proof {
        assert(comps@.map_values(|c: String| c@).take(n as int) =~= comps@.map_values(
            |c: String| c@,
        ));
    }
    out
}

/// Canonicalize a path: equivalent spellings of one location yield one
/// canonical string.
pub fn normalize(path: &str) -> (r: String)
    ensures
        r@ == spec_normalize(path@),
{
    let len = path.unicode_len();
    let absolute = if len > 0 {
        path.get_char(0) == '/'
    } else {
        false
    };
    let comps = split_components(path);
    let normed = normalize_components(comps);
    join_components(absolute, &normed)
}

} // verus!
