//! The flat top-level access surface: every resource gets the shortest alias
//! that distinguishes it — the bare leaf name when unique, progressively
//! longer suffixes of its namespace path otherwise, and the fully qualified
//! path as the last resort.

use vstd::prelude::*;

use crate::key::spec_path_name;
use crate::key::spec_path_namespace;
use crate::key::spec_path_segments;
use crate::key::split_nonempty;
use crate::text::chars_to_string;
use crate::text::push_chars;
use crate::text::push_str;
use crate::text::spec_sanitize;
use crate::text::spec_upper;
use crate::text::str_to_chars;

verus! {

/// Splits a path into its module path (`::`-joined sanitized namespace) and
/// its leaf name.
pub open spec fn spec_split_path(path: Seq<char>) -> (Seq<char>, Seq<char>) {
    (
        crate::resolve::spec_join_colons(
            spec_path_namespace(path).map_values(|s: Seq<char>| spec_sanitize(s)),
        ),
        spec_path_name(path),
    )
}

/// Splits a path into its module path and its leaf name.
pub fn split_path(path: &str) -> (r: (String, String))
    ensures
        r.0@ == spec_split_path(path@).0,
        r.1@ == spec_split_path(path@).1,
{
    let chars = str_to_chars(path);
    let mut parts = split_nonempty(&chars);
    if parts.len() == 0 {
        proof {
            assert(spec_path_namespace(path@).map_values(|s: Seq<char>| spec_sanitize(s)).len()
                == 0);
        }
        return (String::new(), String::new());
    }
    let leaf = parts.pop().unwrap();
    let ghost mods = spec_path_namespace(path@).map_values(|s: Seq<char>| spec_sanitize(s));
    proof {
        assert(parts.deep_view() =~= spec_path_namespace(path@));
    }
    let n = parts.len();
    let mut out: Vec<char> = Vec::new();
    let mut i: usize = 0;
    while i < n
        invariant
            n == parts@.len(),
            parts.deep_view() == spec_path_namespace(path@),
            mods == spec_path_namespace(path@).map_values(|s: Seq<char>| spec_sanitize(s)),
            i <= n,
            i == 0 ==> out@ == Seq::<char>::empty(),
            i > 0 ==> out@ == crate::resolve::spec_join_colons(mods.take(i as int)),
        decreases n - i,
    {
        if i > 0 {
            push_str(&mut out, "::");
        }
        let segc = str_to_chars(parts[i].as_str());
        let san = crate::text::sanitize_chars(&segc);
        push_chars(&mut out, &san);
        i = i + 1;
        proof {
            assert(mods[i - 1] == spec_sanitize(parts.deep_view()[i - 1]));
            assert(mods.take(i as int).drop_last() =~= mods.take(i - 1));
            assert(mods.take(i as int).last() == mods[i - 1]);
            if i > 1 {
                assert(out@ =~= crate::resolve::spec_join_colons(mods.take(i - 1)) + "::"@
                    + mods[i - 1]);
            }
        }
    }
    proof {
        assert(mods.take(n as int) =~= mods);
        if n == 0 {
            assert(out@ =~= crate::resolve::spec_join_colons(mods));
        }
    }
    (chars_to_string(&out), leaf)
}

/// Segments joined with `_`.
pub open spec fn spec_join_underscore(parts: Seq<Seq<char>>) -> Seq<char>
    decreases parts.len(),
{
    if parts.len() == 0 {
        Seq::empty()
    } else if parts.len() == 1 {
        parts[0]
    } else {
        spec_join_underscore(parts.drop_last()) + seq!['_'] + parts.last()
    }
}

/// The alias candidate of a path at suffix length `len`: its last `len`
/// segments, sanitized and upper-cased, joined with `_`.
pub open spec fn spec_candidate(path: Seq<char>, len: int) -> Seq<char> {
    let segs = spec_path_segments(path);
    spec_join_underscore(
        segs.skip(segs.len() - len).map_values(|s: Seq<char>| spec_upper(spec_sanitize(s))),
    )
}

/// How many paths share a candidate at suffix length `len`.
pub open spec fn spec_count_matching(paths: Seq<Seq<char>>, cand: Seq<char>, len: int) -> int
    decreases paths.len(),
{
    if paths.len() == 0 {
        0int
    } else {
        (if spec_path_segments(paths[0]).len() >= len && spec_candidate(paths[0], len) == cand {
            1int
        } else {
            0int
        }) + spec_count_matching(paths.drop_first(), cand, len)
    }
}

/// The shortest distinguishing suffix length of a path: the least `len` at
/// which no other path shares its candidate, or the full segment count.
pub open spec fn spec_alias_len(paths: Seq<Seq<char>>, path: Seq<char>, from: int) -> int
    decreases spec_path_segments(path).len() - from,
{
    let total = spec_path_segments(path).len() as int;
    if from >= total {
        total
    } else if spec_count_matching(paths, spec_candidate(path, from), from) == 1 {
        from
    } else {
        spec_alias_len(paths, path, from + 1)
    }
}

/// The minimal unique alias of a path among all paths.
pub open spec fn spec_alias_of(paths: Seq<Seq<char>>, path: Seq<char>) -> Seq<char> {
    spec_candidate(path, spec_alias_len(paths, path, 1))
}

/// Builds the alias candidate of a path at suffix length `len`.
fn candidate(path: &str, len: usize) -> (r: String)
    requires
        len <= crate::key::spec_path_segments(path@).len(),
    ensures
        r@ == spec_candidate(path@, len as int),
{
    let chars = str_to_chars(path);
    let parts = split_nonempty(&chars);
    let ghost segs = spec_path_segments(path@);
    let n = parts.len();
    proof {
        assert(parts.deep_view() =~= segs);
    }
    let start: usize = n - len;
    let ghost mapped = segs.skip(start as int).map_values(
        |s: Seq<char>| spec_upper(spec_sanitize(s)),
    );
    let mut out: Vec<char> = Vec::new();
    let mut i: usize = start;
    while i < n
        invariant
            n == parts@.len(),
            parts.deep_view() == segs,
            start <= i <= n,
            start == n - len,
            mapped == segs.skip(start as int).map_values(
                |s: Seq<char>| spec_upper(spec_sanitize(s)),
            ),
            i == start ==> out@ == Seq::<char>::empty(),
            i > start ==> out@ == spec_join_underscore(mapped.take(i - start)),
        decreases n - i,
    {
        if i > start {
            out.push('_');
        }
        let segc = str_to_chars(parts[i].as_str());
        let san = crate::text::sanitize_chars(&segc);
        let upper = crate::text::to_upper_chars(&san);
        push_chars(&mut out, &upper);
        i = i + 1;
        proof {
            assert(segs.skip(start as int)[i - 1 - start] == segs[i - 1]);
            assert(mapped[i - 1 - start] == spec_upper(spec_sanitize(segs[i - 1])));
            assert(segs[i - 1] == parts.deep_view()[i - 1]);
            assert(mapped.take(i - start).drop_last() =~= mapped.take(i - 1 - start));
            assert(mapped.take(i - start).last() == mapped[i - 1 - start]);
            if i - start > 1 {
                assert(out@ =~= spec_join_underscore(mapped.take(i - 1 - start)) + seq!['_']
                    + mapped[i - 1 - start]);
            }
        }
    }
    proof {
        assert(mapped.take(n - start) =~= mapped);
        if start == n {
            assert(mapped.len() == 0);
            assert(out@ =~= spec_join_underscore(mapped));
        }
    }
    chars_to_string(&out)
}

/// Counts the paths sharing a candidate at suffix length `len`.
fn count_matching(paths: &Vec<String>, cand: &str, len: usize) -> (r: usize)
    ensures
        r == spec_count_matching(paths.deep_view(), cand@, len as int),
{
    let ghost pv = paths.deep_view();
    let n = paths.len();
    let mut acc: usize = 0;
    let mut i: usize = 0;
    proof {
        assert(pv.skip(0) =~= pv);
    }
    while i < n
        invariant
            n == paths@.len(),
            pv == paths.deep_view(),
            i <= n,
            acc <= i,
            spec_count_matching(pv, cand@, len as int) == acc + spec_count_matching(
                pv.skip(i as int),
                cand@,
                len as int,
            ),
        decreases n - i,
    {
        proof {
            assert(pv.skip(i as int)[0] == pv[i as int]);
            assert(pv[i as int] == paths@[i as int]@);
            assert(pv.skip(i as int).drop_first() =~= pv.skip(i + 1));
        }
        let chars = str_to_chars(paths[i].as_str());
        let parts = split_nonempty(&chars);
        if parts.len() >= len {
            let c = candidate(paths[i].as_str(), len);
            if crate::text::str_eq(c.as_str(), cand) {
                acc = acc + 1;
            }
        } else {
            proof {
                assert(parts.deep_view() =~= spec_path_segments(pv[i as int]));
            }
        }
        i = i + 1;
    }
    proof {
        assert(pv.skip(n as int) =~= Seq::<Seq<char>>::empty());
    }
    acc
}

/// Computes the minimal unique alias of each path: the bare leaf where no
/// other path shares it, progressively longer namespace suffixes otherwise,
/// and the fully qualified path as the last resort. Paths keep their order.
pub fn compute_minimal_aliases(paths: &Vec<String>) -> (r: Vec<(String, String)>)
    ensures
        r@.len() == paths@.len(),
        forall|i: int|
            0 <= i < r@.len() ==> (#[trigger] r@[i].0)@ == paths.deep_view()[i] && r@[i].1@
                == spec_alias_of(paths.deep_view(), paths.deep_view()[i]),
{
    let ghost pv = paths.deep_view();
    let n = paths.len();
    let mut out: Vec<(String, String)> = Vec::new();
    let mut i: usize = 0;
    while i < n
        invariant
            n == paths@.len(),
            pv == paths.deep_view(),
            i <= n,
            out@.len() == i,
            forall|j: int|
                0 <= j < i ==> (#[trigger] out@[j].0)@ == pv[j] && out@[j].1@ == spec_alias_of(
                    pv,
                    pv[j],
                ),
        decreases n - i,
    {
        proof {
            assert(pv[i as int] == paths@[i as int]@);
        }
        let alias = alias_of(paths, paths[i].as_str());
        out.push((paths[i].clone(), alias));
        i = i + 1;
    }
    out
}

/// Computes the minimal unique alias of one path.
pub fn alias_of(paths: &Vec<String>, path: &str) -> (r: String)
    ensures
        r@ == spec_alias_of(paths.deep_view(), path@),
{
    let chars = str_to_chars(path);
    let parts = split_nonempty(&chars);
    let total = parts.len();
    proof {
        assert(parts.deep_view() =~= spec_path_segments(path@));
    }
    let mut len: usize = 1;
    while len < total
        invariant
            total == spec_path_segments(path@).len(),
            1 <= len,
            len <= total || (total == 0 && len == 1),
            spec_alias_len(paths.deep_view(), path@, 1) == spec_alias_len(
                paths.deep_view(),
                path@,
                len as int,
            ),
        decreases total - len,
    {
        let c = candidate(path, len);
        let m = count_matching(paths, c.as_str(), len);
        if m == 1 {
            proof {
                assert(spec_alias_len(paths.deep_view(), path@, len as int) == len as int);
            }
            return c;
        }
        len = len + 1;
    }
    if total > 0 {
        let c = candidate(path, total);
        let m = count_matching(paths, c.as_str(), total);
        if m == 1 {
            proof {
                assert(spec_alias_len(paths.deep_view(), path@, total as int) == total as int);
            }
            return c;
        }
        proof {
            assert(spec_alias_len(paths.deep_view(), path@, total as int) == total as int);
        }
        return c;
    }
    proof {
        assert(spec_alias_len(paths.deep_view(), path@, 1) == 0);
    }
    candidate(path, 0)
}

/// A path whose bare leaf candidate no other path shares is aliased by that
/// bare leaf: the shortest distinguishing suffix is minimal.
pub proof fn lemma_unique_leaf_alias(paths: Seq<Seq<char>>, path: Seq<char>)
    requires
        spec_path_segments(path).len() >= 1,
        spec_count_matching(paths, spec_candidate(path, 1), 1) == 1,
    ensures
        spec_alias_of(paths, path) == spec_candidate(path, 1),
{
}


/// The matching count is never negative.
proof fn lemma_count_nonneg(paths: Seq<Seq<char>>, cand: Seq<char>, len: int)
    ensures
        spec_count_matching(paths, cand, len) >= 0,
    decreases paths.len(),
{
    if paths.len() > 0 {
        lemma_count_nonneg(paths.drop_first(), cand, len);
    }
}

/// A listed path whose candidate matches contributes to the count.
proof fn lemma_count_ge_one(paths: Seq<Seq<char>>, cand: Seq<char>, len: int, i: int)
    requires
        0 <= i < paths.len(),
        spec_path_segments(paths[i]).len() >= len,
        spec_candidate(paths[i], len) == cand,
    ensures
        spec_count_matching(paths, cand, len) >= 1,
    decreases paths.len(),
{
    lemma_count_nonneg(paths.drop_first(), cand, len);
    if i > 0 {
        lemma_count_ge_one(paths.drop_first(), cand, len, i - 1);
    }
}

/// Two distinct listed paths whose candidates both match make the count at
/// least two.
proof fn lemma_count_ge_two(paths: Seq<Seq<char>>, cand: Seq<char>, len: int, i: int, j: int)
    requires
        0 <= i < j < paths.len(),
        spec_path_segments(paths[i]).len() >= len,
        spec_candidate(paths[i], len) == cand,
        spec_path_segments(paths[j]).len() >= len,
        spec_candidate(paths[j], len) == cand,
    ensures
        spec_count_matching(paths, cand, len) >= 2,
    decreases paths.len(),
{
    if i == 0 {
        lemma_count_ge_one(paths.drop_first(), cand, len, j - 1);
    } else {
        lemma_count_ge_two(paths.drop_first(), cand, len, i - 1, j - 1);
    }
}

/// The chosen suffix length never exceeds the path's segment count, and never
/// falls below the search's starting length while that is reachable.
pub proof fn lemma_alias_len_bounds(paths: Seq<Seq<char>>, path: Seq<char>, from: int)
    requires
        from >= 0,
    ensures
        spec_alias_len(paths, path, from) <= spec_path_segments(path).len(),
        from <= spec_path_segments(path).len() ==> from <= spec_alias_len(paths, path, from),
    decreases spec_path_segments(path).len() - from,
{
    let total = spec_path_segments(path).len() as int;
    if from < total && spec_count_matching(paths, spec_candidate(path, from), from) != 1 {
        lemma_alias_len_bounds(paths, path, from + 1);
    }
}

/// Where the search settles before the full path, the chosen candidate is
/// unique among all listed paths' candidates of that length.
pub proof fn lemma_alias_len_unique(paths: Seq<Seq<char>>, path: Seq<char>, from: int)
    requires
        from >= 0,
    ensures
        spec_alias_len(paths, path, from) < spec_path_segments(path).len()
            ==> spec_count_matching(
            paths,
            spec_candidate(path, spec_alias_len(paths, path, from)),
            spec_alias_len(paths, path, from),
        ) == 1,
    decreases spec_path_segments(path).len() - from,
{
    let total = spec_path_segments(path).len() as int;
    if from < total && spec_count_matching(paths, spec_candidate(path, from), from) != 1 {
        lemma_alias_len_unique(paths, path, from + 1);
    }
}

/// Two distinct listed paths whose alias searches settle at the same suffix
/// length get distinct aliases wherever the first one's alias is unique at
/// that length — which `lemma_alias_len_unique` guarantees whenever its
/// search stops short of the full path.
pub proof fn lemma_alias_distinct(paths: Seq<Seq<char>>, i: int, j: int)
    requires
        0 <= i < paths.len(),
        0 <= j < paths.len(),
        i != j,
        spec_alias_len(paths, paths[i], 1) == spec_alias_len(paths, paths[j], 1),
        spec_alias_len(paths, paths[i], 1) >= 1,
        spec_count_matching(
            paths,
            spec_alias_of(paths, paths[i]),
            spec_alias_len(paths, paths[i], 1),
        ) == 1,
    ensures
        spec_alias_of(paths, paths[i]) != spec_alias_of(paths, paths[j]),
{
    let li = spec_alias_len(paths, paths[i], 1);
    lemma_alias_len_bounds(paths, paths[i], 1);
    lemma_alias_len_bounds(paths, paths[j], 1);
    if spec_alias_of(paths, paths[i]) == spec_alias_of(paths, paths[j]) {
        if i < j {
            lemma_count_ge_two(paths, spec_alias_of(paths, paths[i]), li, i, j);
        } else {
            lemma_count_ge_two(paths, spec_alias_of(paths, paths[i]), li, j, i);
        }
    }
}

} // verus!
