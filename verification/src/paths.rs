//! Path bookkeeping over plain component lists.
//!
//! A path is taken as its sequence of components, each a plain string, so
//! that prefix stripping is exact component-wise comparison.

use vstd::prelude::*;

verus! {

/// Whether `base` is a leading run of the components of `p`.
pub open spec fn is_path_prefix(p: Seq<Seq<char>>, base: Seq<Seq<char>>) -> bool {
    base.len() <= p.len() && forall|i: int| 0 <= i < base.len() ==> p[i] == #[trigger] base[i]
}

/// The components of a path, viewed as character sequences.
pub open spec fn path_view(p: Seq<String>) -> Seq<Seq<char>> {
    p.map_values(|s: String| s@)
}

/// The paths under `base`, each with the leading `base` components removed;
/// paths that do not start with `base` are left out, in order.
pub open spec fn relative_paths(ps: Seq<Seq<Seq<char>>>, base: Seq<Seq<char>>) -> Seq<
    Seq<Seq<char>>,
>
    decreases ps.len(),
{
    if ps.len() == 0 {
        Seq::empty()
    } else {
        let rest = relative_paths(ps.drop_last(), base);
        if is_path_prefix(ps.last(), base) {
            rest.push(ps.last().skip(base.len() as int))
        } else {
            rest
        }
    }
}

/// Whether the path starts with the components of `base`.
fn starts_with(p: &Vec<String>, base: &Vec<String>) -> (r: bool)
    ensures
        r == is_path_prefix(path_view(p@), path_view(base@)),
{
    let nb = base.len();
    if nb > p.len() {
        return false;
    }
    let mut i: usize = 0;
    while i < nb
        invariant
            i <= nb,
            nb == base@.len(),
            nb <= p@.len(),
            forall|j: int| 0 <= j < i ==> path_view(p@)[j] == #[trigger] path_view(base@)[j],
        decreases nb - i,
    {
        let same = p[i] == base[i];
        if !same {
            proof {
                assert(path_view(p@)[i as int] == p@[i as int]@);
                assert(path_view(base@)[i as int] == base@[i as int]@);
            }
            return false;
        }
        proof {
            assert(path_view(p@)[i as int] == p@[i as int]@);
            assert(path_view(base@)[i as int] == base@[i as int]@);
        }
        i += 1;
    }
    true
}

/// The trailing components of `p` after the first `k`.
fn path_suffix(p: &Vec<String>, k: usize) -> (r: Vec<String>)
    requires
        k <= p@.len(),
    ensures
        path_view(r@) == path_view(p@).skip(k as int),
{
    let mut r: Vec<String> = Vec::new();
    let n = p.len();
    let mut i: usize = k;
    while i < n
        invariant
            k <= i <= n,
            n == p@.len(),
            path_view(r@) == path_view(p@).subrange(k as int, i as int),
        decreases n - i,
    {
        let ghost r0 = r@;
        r.push(p[i].clone());
        proof {
            assert(r@ =~= r0.push(p@[i as int]));
            assert(path_view(r@) =~= path_view(r0).push(p@[i as int]@)) by {
                assert forall|j: int| 0 <= j < r@.len() implies path_view(r@)[j] == path_view(
                    r0,
                ).push(p@[i as int]@)[j] by {
                    assert(path_view(r@)[j] == r@[j]@);
                }
            }
            assert(path_view(r@) =~= path_view(p@).subrange(k as int, i + 1));
        }
        i += 1;
    }
    proof {
        assert(path_view(p@).subrange(k as int, n as int) =~= path_view(p@).skip(k as int));
    }
    r
}

/// Rewrites each path that lies under `base_dir` as a path relative to it,
/// leaving out the paths that do not; the order of the kept paths is the
/// order they came in.
pub fn to_relative_paths(paths: Vec<Vec<String>>, base_dir: &Vec<String>) -> (r: Vec<Vec<String>>)
    ensures
        r@.map_values(|p: Vec<String>| path_view(p@)) == relative_paths(
            paths@.map_values(|p: Vec<String>| path_view(p@)),
            path_view(base_dir@),
        ),
{
    let ghost all = paths@.map_values(|p: Vec<String>| path_view(p@));
    let mut r: Vec<Vec<String>> = Vec::new();
    let n = paths.len();
    let mut i: usize = 0;
    while i < n
        invariant
            i <= n,
            n == paths@.len(),
            all == paths@.map_values(|p: Vec<String>| path_view(p@)),
            r@.map_values(|p: Vec<String>| path_view(p@)) == relative_paths(
                all.take(i as int),
                path_view(base_dir@),
            ),
        decreases n - i,
    {
        let p = &paths[i];
        proof {
            assert(all.take(i + 1).drop_last() =~= all.take(i as int));
            assert(all.take(i + 1).last() == all[i as int]);
        }
        if starts_with(p, base_dir) {
            let s = path_suffix(p, base_dir.len());
            r.push(s);
            proof {
                assert(r@.map_values(|p: Vec<String>| path_view(p@)) =~= relative_paths(
                    all.take(i as int),
                    path_view(base_dir@),
                ).push(all[i as int].skip(path_view(base_dir@).len() as int)));
            }
        }
        i += 1;
    }
    proof {
        assert(all.take(n as int) =~= all);
    }
    r
}

} // verus!
