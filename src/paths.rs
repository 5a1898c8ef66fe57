use vstd::prelude::*;

verus! {

/// The components of a path, each as its characters.
pub open spec fn path_view(p: Seq<String>) -> Seq<Seq<char>> {
    p.map_values(|s: String| s@)
}

/// `name` string-equals one of the exclusion entries.
pub open spec fn excluded_name(name: Seq<char>, exclusions: Seq<Seq<char>>) -> bool {
    exists|k: int| 0 <= k < exclusions.len() && exclusions[k] == name
}

/// The final component of `p` is one of the exclusion entries.
pub open spec fn excluded_path(p: Seq<Seq<char>>, exclusions: Seq<Seq<char>>) -> bool {
    p.len() > 0 && excluded_name(p.last(), exclusions)
}

/// What is left of `p` once its first `depth` components are dropped.
pub open spec fn relative(p: Seq<Seq<char>>, depth: nat) -> Seq<Seq<char>> {
    if p.len() <= depth {
        Seq::empty()
    } else {
        p.subrange(depth as int, p.len() as int)
    }
}

/// The destination counterpart of `p`: the destination root followed by the
/// part of `p` below a source root of `depth` components.
pub open spec fn mirrored(dest_root: Seq<Seq<char>>, p: Seq<Seq<char>>, depth: nat) -> Seq<Seq<char>> {
    dest_root + relative(p, depth)
}

/// Whether the final component of `path` equals some entry of `exclusions`.
/// Matching is by whole component, at any depth.
pub fn is_excluded(path: &Vec<String>, exclusions: &Vec<String>) -> (r: bool)
    ensures
        r == excluded_path(path_view(path@), path_view(exclusions@)),
{
    let n = path.len();
    if n == 0 {
        return false;
    }
    let last = &path[n - 1];
    let mut k: usize = 0;
    while k < exclusions.len()
        invariant
            0 <= k <= exclusions.len(),
            n == path@.len(),
            n > 0,
            *last == path@[n - 1],
            forall|j: int| 0 <= j < k ==> exclusions@[j]@ != last@,
        decreases exclusions.len() - k,
    {
        if exclusions[k] == *last {
            assert(path_view(exclusions@)[k as int] == path_view(path@).last());
            return true;
        }
        k += 1;
    }
    assert forall|j: int| 0 <= j < path_view(exclusions@).len() implies path_view(exclusions@)[j]
        != path_view(path@).last() by {
        assert(exclusions@[j]@ != last@);
    }
    false
}

/// A copy of `p`, component by component.
pub fn clone_path(p: &Vec<String>) -> (r: Vec<String>)
    ensures
        r@ == p@,
{
    let mut r: Vec<String> = Vec::new();
    let mut i: usize = 0;
    while i < p.len()
        invariant
            0 <= i <= p.len(),
            r@ == p@.subrange(0, i as int),
        decreases p.len() - i,
    {
        r.push(p[i].clone());
        i += 1;
        assert(r@ =~= p@.subrange(0, i as int));
    }
    assert(r@ =~= p@);
    r
}

/// The destination directory that mirrors `dir`, for a source root of `depth`
/// components: `dest_root` joined with what follows the root in `dir`, or
/// `dest_root` itself where nothing follows.
pub fn mirrored_dir(dest_root: &Vec<String>, dir: &Vec<String>, depth: usize) -> (r: Vec<String>)
    ensures
        path_view(r@) == mirrored(path_view(dest_root@), path_view(dir@), depth as nat),
{
    let mut r = clone_path(dest_root);
    let mut i: usize = depth;
    while i < dir.len()
        invariant
            depth <= i,
            dir.len() > depth ==> i <= dir.len(),
            r@ == dest_root@ + if i <= depth || dir.len() <= depth {
                Seq::<String>::empty()
            } else {
                dir@.subrange(depth as int, i as int)
            },
        decreases dir.len() - i,
    {
        r.push(dir[i].clone());
        i += 1;
        assert(r@ =~= dest_root@ + dir@.subrange(depth as int, i as int));
    }
    if dir.len() > depth {
        assert(r@ =~= dest_root@ + dir@.subrange(depth as int, dir.len() as int));
        assert(path_view(r@) =~= mirrored(path_view(dest_root@), path_view(dir@), depth as nat));
    } else {
        assert(r@ =~= dest_root@);
        assert(path_view(r@) =~= mirrored(path_view(dest_root@), path_view(dir@), depth as nat));
    }
    r
}

} // verus!
