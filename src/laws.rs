use vstd::prelude::*;
use crate::icon::{resolve_outcome, search_outcome, in_space, candidate, precedes};

verus! {

/// `probe` answers truthfully for the set of files `disk`.
pub open spec fn truthful(probe: spec_fn(Seq<char>, bool) -> bool, disk: Set<Seq<char>>) -> bool {
    forall|path: Seq<char>, b: bool| #[trigger] probe(path, b) ==> b == disk.contains(path)
}

/// Every remembered path is in `disk`.
pub open spec fn cache_on_disk(cache: Map<Seq<char>, Option<Seq<char>>>, disk: Set<Seq<char>>) -> bool {
    forall|k: Seq<char>| #[trigger] cache.contains_key(k) && cache[k] is Some ==> disk.contains(
        cache[k]->0,
    )
}

/// Resolving a name twice gives the same answer both times; the second
/// resolution finds the name remembered, so it changes nothing and (by the
/// contract of `find_icon_with`) probes no file.
pub proof fn lemma_resolve_idempotent(
    dirs: Seq<Seq<char>>,
    cache0: Map<Seq<char>, Option<Seq<char>>>,
    name: Seq<char>,
    r1: Option<Seq<char>>,
    cache1: Map<Seq<char>, Option<Seq<char>>>,
    probe1: spec_fn(Seq<char>, bool) -> bool,
    r2: Option<Seq<char>>,
    cache2: Map<Seq<char>, Option<Seq<char>>>,
    probe2: spec_fn(Seq<char>, bool) -> bool,
)
    requires
        resolve_outcome(dirs, cache0, name, r1, cache1, probe1),
        resolve_outcome(dirs, cache1, name, r2, cache2, probe2),
    ensures
        cache1.contains_key(name),
        r2 == r1,
        cache2 == cache1,
{
}

/// Resolving one name leaves the remembered answer of every other name as it was.
pub proof fn lemma_cache_isolation(
    dirs: Seq<Seq<char>>,
    cache0: Map<Seq<char>, Option<Seq<char>>>,
    name: Seq<char>,
    r: Option<Seq<char>>,
    cache1: Map<Seq<char>, Option<Seq<char>>>,
    probe: spec_fn(Seq<char>, bool) -> bool,
    other: Seq<char>,
)
    requires
        resolve_outcome(dirs, cache0, name, r, cache1, probe),
        other != name,
    ensures
        cache1.contains_key(other) == cache0.contains_key(other),
        cache0.contains_key(other) ==> cache1[other] == cache0[other],
{
}

/// With a truthful probe, a resolved path is a file on disk, as long as the
/// remembered paths are still there; and they remain so afterwards.
pub proof fn lemma_no_false_positive(
    dirs: Seq<Seq<char>>,
    cache0: Map<Seq<char>, Option<Seq<char>>>,
    name: Seq<char>,
    r: Option<Seq<char>>,
    cache1: Map<Seq<char>, Option<Seq<char>>>,
    probe: spec_fn(Seq<char>, bool) -> bool,
    disk: Set<Seq<char>>,
)
    requires
        resolve_outcome(dirs, cache0, name, r, cache1, probe),
        truthful(probe, disk),
        cache_on_disk(cache0, disk),
    ensures
        r is Some ==> disk.contains(r->0),
        cache_on_disk(cache1, disk),
{
    if !cache0.contains_key(name) {
        if let Some(p) = r {
            let (d, e, v) = choose|d: int, e: int, v: int|
                {
                    &&& #[trigger] in_space(dirs, name, d, e, v)
                    &&& p == candidate(dirs, name, d, e, v)
                    &&& probe(p, true)
                    &&& forall|d2: int, e2: int, v2: int|
                        #[trigger] in_space(dirs, name, d2, e2, v2) && precedes(d2, e2, v2, d, e, v)
                            ==> probe(candidate(dirs, name, d2, e2, v2), false)
                };
            assert(probe(p, true));
        }
        assert forall|k: Seq<char>| #[trigger] cache1.contains_key(k) && cache1[k] is Some implies disk.contains(
            cache1[k]->0,
        ) by {
            if k != name {
                assert(cache0.contains_key(k));
            }
        }
    } else {
        assert(cache0.contains_key(name));
    }
}

/// With a truthful probe, a fresh search answers the first candidate, in the
/// order directory, extension, name, that is on disk.
pub proof fn lemma_first_on_disk_wins(
    dirs: Seq<Seq<char>>,
    name: Seq<char>,
    r: Option<Seq<char>>,
    probe: spec_fn(Seq<char>, bool) -> bool,
    disk: Set<Seq<char>>,
    d1: int,
    e1: int,
    v1: int,
)
    requires
        search_outcome(dirs, name, r, probe),
        truthful(probe, disk),
        in_space(dirs, name, d1, e1, v1),
        disk.contains(candidate(dirs, name, d1, e1, v1)),
        forall|d: int, e: int, v: int|
            #[trigger] in_space(dirs, name, d, e, v) && precedes(d, e, v, d1, e1, v1) ==> !disk.contains(
                candidate(dirs, name, d, e, v),
            ),
    ensures
        r == Some(candidate(dirs, name, d1, e1, v1)),
{
    lemma_found_no_later(dirs, name, r, probe, disk, d1, e1, v1);
    let (d, e, v) = choose|d: int, e: int, v: int|
        in_space(dirs, name, d, e, v) && r == Some(candidate(dirs, name, d, e, v)) && (
        precedes(d, e, v, d1, e1, v1) || (d == d1 && e == e1 && v == v1));
    if precedes(d, e, v, d1, e1, v1) {
        assert(probe(r->0, true));
    }
}

/// With a truthful probe and some candidate on disk, a fresh search answers
/// that candidate or one tried before it.
pub proof fn lemma_found_no_later(
    dirs: Seq<Seq<char>>,
    name: Seq<char>,
    r: Option<Seq<char>>,
    probe: spec_fn(Seq<char>, bool) -> bool,
    disk: Set<Seq<char>>,
    d1: int,
    e1: int,
    v1: int,
)
    requires
        search_outcome(dirs, name, r, probe),
        truthful(probe, disk),
        in_space(dirs, name, d1, e1, v1),
        disk.contains(candidate(dirs, name, d1, e1, v1)),
    ensures
        exists|d: int, e: int, v: int|
            in_space(dirs, name, d, e, v) && r == Some(candidate(dirs, name, d, e, v)) && (
            precedes(d, e, v, d1, e1, v1) || (d == d1 && e == e1 && v == v1)),
{
    match r {
        Some(p) => {
            let (d, e, v) = choose|d: int, e: int, v: int|
                {
                    &&& #[trigger] in_space(dirs, name, d, e, v)
                    &&& p == candidate(dirs, name, d, e, v)
                    &&& probe(p, true)
                    &&& forall|d2: int, e2: int, v2: int|
                        #[trigger] in_space(dirs, name, d2, e2, v2) && precedes(d2, e2, v2, d, e, v)
                            ==> probe(candidate(dirs, name, d2, e2, v2), false)
                };
            if precedes(d1, e1, v1, d, e, v) {
                assert(probe(candidate(dirs, name, d1, e1, v1), false));
            }
            assert(in_space(dirs, name, d, e, v) && r == Some(candidate(dirs, name, d, e, v)));
        },
        None => {
            assert(probe(candidate(dirs, name, d1, e1, v1), false));
        },
    }
}

/// With a truthful probe, when the package has an icon file in directory `d1`,
/// a fresh search answers a file of `d1` or of a directory listed before it,
/// never one of a later directory.
pub proof fn lemma_directory_priority(
    dirs: Seq<Seq<char>>,
    name: Seq<char>,
    r: Option<Seq<char>>,
    probe: spec_fn(Seq<char>, bool) -> bool,
    disk: Set<Seq<char>>,
    d1: int,
    e1: int,
    v1: int,
)
    requires
        search_outcome(dirs, name, r, probe),
        truthful(probe, disk),
        in_space(dirs, name, d1, e1, v1),
        disk.contains(candidate(dirs, name, d1, e1, v1)),
    ensures
        exists|d: int, e: int, v: int|
            in_space(dirs, name, d, e, v) && d <= d1 && r == Some(candidate(dirs, name, d, e, v)),
{
    lemma_found_no_later(dirs, name, r, probe, disk, d1, e1, v1);
}

/// With a truthful probe, when a `.png` file (extension 0) for name `v1` is in
/// directory `d1`, a fresh search never answers the `.svg` or `.xpm` file for
/// that name in that directory: it answers the `.png` or something tried before.
pub proof fn lemma_png_first(
    dirs: Seq<Seq<char>>,
    name: Seq<char>,
    r: Option<Seq<char>>,
    probe: spec_fn(Seq<char>, bool) -> bool,
    disk: Set<Seq<char>>,
    d1: int,
    v1: int,
)
    requires
        search_outcome(dirs, name, r, probe),
        truthful(probe, disk),
        in_space(dirs, name, d1, 0, v1),
        disk.contains(candidate(dirs, name, d1, 0, v1)),
    ensures
        exists|d: int, e: int, v: int|
            in_space(dirs, name, d, e, v) && r == Some(candidate(dirs, name, d, e, v)) && !(d == d1
                && e > 0 && v == v1) && (d < d1 || (d == d1 && e == 0)),
{
    lemma_found_no_later(dirs, name, r, probe, disk, d1, 0, v1);
}

/// With a truthful probe, when the package's own name (name 0) has a file in
/// directory `d1` with extension `e1`, a fresh search never answers a variant's
/// file for that directory and extension.
pub proof fn lemma_exact_name_first(
    dirs: Seq<Seq<char>>,
    name: Seq<char>,
    r: Option<Seq<char>>,
    probe: spec_fn(Seq<char>, bool) -> bool,
    disk: Set<Seq<char>>,
    d1: int,
    e1: int,
)
    requires
        search_outcome(dirs, name, r, probe),
        truthful(probe, disk),
        in_space(dirs, name, d1, e1, 0),
        disk.contains(candidate(dirs, name, d1, e1, 0)),
    ensures
        exists|d: int, e: int, v: int|
            in_space(dirs, name, d, e, v) && r == Some(candidate(dirs, name, d, e, v)) && !(d == d1
                && e == e1 && v > 0),
{
    lemma_found_no_later(dirs, name, r, probe, disk, d1, e1, 0);
}

} // verus!
