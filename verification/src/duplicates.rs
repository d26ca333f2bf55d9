//! The duplicate detector's collector: groups (digest, path) pairs by digest
//! and keeps only the digests seen at least twice. Hashing the files and any
//! fan-out across workers happen upstream; this merge step is the single
//! point where results meet, so its contract pins the grouping down exactly.
use vstd::prelude::*;

verus! {

/// The views of a sequence of path strings.
pub open spec fn views_of(ps: Seq<String>) -> Seq<Seq<char>> {
    Seq::new(ps.len(), |i: int| ps[i]@)
}

/// The paths among the (digest, path) pairs whose digest reads `d`, in
/// discovery order.
pub open spec fn paths_with_digest(pairs: Seq<(String, String)>, d: Seq<char>) -> Seq<Seq<char>>
    decreases pairs.len(),
{
    if pairs.len() == 0 {
        Seq::empty()
    } else {
        let init = paths_with_digest(pairs.drop_last(), d);
        if pairs.last().0@ == d {
            init.push(pairs.last().1@)
        } else {
            init
        }
    }
}

/// Whether two groups agree in key text and path texts.
pub open spec fn same_group(a: (String, Vec<String>), b: (String, Vec<String>)) -> bool {
    a.0@ == b.0@ && a.1@ == b.1@
}

/// Extending the pair list by one entry extends exactly the matching
/// digest's path list, at its end.
proof fn lemma_paths_step(pairs: Seq<(String, String)>, i: int, d: Seq<char>)
    requires
        0 <= i < pairs.len(),
    ensures
        paths_with_digest(pairs.subrange(0, i + 1), d) == if pairs[i].0@ == d {
            paths_with_digest(pairs.subrange(0, i), d).push(pairs[i].1@)
        } else {
            paths_with_digest(pairs.subrange(0, i), d)
        },
{
    let p = pairs.subrange(0, i + 1);
    assert(p.drop_last() =~= pairs.subrange(0, i));
    assert(p.last() == pairs[i]);
}

/// Groups the given (digest, path) pairs by digest and returns the groups
/// with at least two members, each as the digest together with its paths in
/// discovery order. Group keys are pairwise distinct, every group holds
/// exactly the paths recorded for its digest, and every digest recorded at
/// least twice appears as a group.
pub fn group_duplicates(pairs: &Vec<(String, String)>) -> (groups: Vec<(String, Vec<String>)>)
    ensures
        forall|k: int|
            0 <= k < groups@.len() ==> (#[trigger] groups@[k]).1@.len() >= 2 && views_of(
                groups@[k].1@,
            ) == paths_with_digest(pairs@, groups@[k].0@),
        forall|k1: int, k2: int|
            0 <= k1 < k2 < groups@.len() ==> (#[trigger] groups@[k1]).0@ != (
            #[trigger] groups@[k2]).0@,
        forall|d: Seq<char>|
            #[trigger] paths_with_digest(pairs@, d).len() >= 2 ==> exists|k: int|
                0 <= k < groups@.len() && (#[trigger] groups@[k]).0@ == d,
{
    let mut all: Vec<(String, Vec<String>)> = Vec::new();
    let plen = pairs.len();
    let mut i: usize = 0;
    while i < plen
        invariant
            plen == pairs@.len(),
            i <= plen,
            forall|k: int|
                0 <= k < all@.len() ==> (#[trigger] all@[k]).1@.len() >= 1 && views_of(
                    all@[k].1@,
                ) == paths_with_digest(pairs@.subrange(0, i as int), all@[k].0@),
            forall|k1: int, k2: int|
                0 <= k1 < k2 < all@.len() ==> (#[trigger] all@[k1]).0@ != (#[trigger] all@[k2]).0@,
            forall|d: Seq<char>|
                #[trigger] paths_with_digest(pairs@.subrange(0, i as int), d).len() >= 1
                    ==> exists|k: int| 0 <= k < all@.len() && (#[trigger] all@[k]).0@ == d,
        decreases plen - i,
    {
        let ghost prefix = pairs@.subrange(0, i as int);
        let ghost prefix1 = pairs@.subrange(0, i as int + 1);
        let pair = &pairs[i];
        let glen = all.len();
        let mut hit: usize = glen;
        let mut k: usize = 0;
        while k < glen
            invariant
                glen == all@.len(),
                k <= glen,
                hit <= glen,
                hit == glen ==> forall|j: int|
                    0 <= j < k ==> (#[trigger] all@[j]).0@ != pairs@[i as int].0@,
                hit < glen ==> all@[hit as int].0@ == pairs@[i as int].0@,
                i < pairs@.len(),
                pair.0@ == pairs@[i as int].0@,
            decreases glen - k,
        {
            if hit == glen {
                let is_match = all[k].0.eq(&pair.0);
                if is_match {
                    hit = k;
                }
            }
            k += 1;
        }
        proof {
            assert forall|d: Seq<char>| true implies #[trigger] paths_with_digest(prefix1, d)
                == if pairs@[i as int].0@ == d {
                    paths_with_digest(prefix, d).push(pairs@[i as int].1@)
                } else {
                    paths_with_digest(prefix, d)
                } by {
                lemma_paths_step(pairs@, i as int, d);
            }
        }
        if hit < glen {
            let ghost old_all = all@;
            let entry = all.remove(hit);
            let (key, paths) = entry;
            let mut paths = paths;
            paths.push(pair.1.clone());
            all.insert(hit, (key, paths));
            proof {
                assert(all@ =~= old_all.update(hit as int, all@[hit as int]));
                assert(all@[hit as int].0@ == pairs@[i as int].0@);
                assert(all@[hit as int].1@ =~= old_all[hit as int].1@.push(pairs@[i as int].1));
                assert forall|kk: int| 0 <= kk < all@.len() implies (#[trigger] all@[kk]).1@.len()
                    >= 1 && views_of(all@[kk].1@) == paths_with_digest(prefix1, all@[kk].0@) by {
                    if kk == hit {
                        assert(views_of(all@[kk].1@) =~= views_of(old_all[kk].1@).push(
                            pairs@[i as int].1@,
                        ));
                    } else {
                        assert(all@[kk] == old_all[kk]);
                        assert(old_all[kk].0@ != pairs@[i as int].0@);
                    }
                }
                assert forall|d: Seq<char>| #[trigger] paths_with_digest(prefix1, d).len() >= 1
                    implies exists|k2: int|
                    0 <= k2 < all@.len() && (#[trigger] all@[k2]).0@ == d by {
                    if paths_with_digest(prefix, d).len() >= 1 {
                        let w = choose|k2: int|
                            0 <= k2 < old_all.len() && (#[trigger] old_all[k2]).0@ == d;
                        assert(0 <= w < all@.len() && all@[w].0@ == d);
                    } else {
                        assert(pairs@[i as int].0@ == d);
                        assert(all@[hit as int].0@ == d);
                    }
                }
            }
        } else {
            let ghost old_all = all@;
            let mut paths: Vec<String> = Vec::new();
            paths.push(pair.1.clone());
            all.push((pair.0.clone(), paths));
            proof {
                let last = all@.len() - 1;
                assert(all@[last].0@ == pairs@[i as int].0@);
                assert(paths_with_digest(prefix, all@[last].0@).len() == 0) by {
                    if paths_with_digest(prefix, all@[last].0@).len() >= 1 {
                        let w = choose|k2: int|
                            0 <= k2 < old_all.len() && (#[trigger] old_all[k2]).0@ == all@[
                                last
                            ].0@;
                    }
                }
                assert forall|kk: int| 0 <= kk < all@.len() implies (#[trigger] all@[kk]).1@.len()
                    >= 1 && views_of(all@[kk].1@) == paths_with_digest(prefix1, all@[kk].0@) by {
                    if kk == last {
                        assert(views_of(all@[kk].1@) =~= paths_with_digest(prefix, all@[
                            kk
                        ].0@).push(pairs@[i as int].1@));
                    } else {
                        assert(all@[kk] == old_all[kk]);
                        assert(old_all[kk].0@ != pairs@[i as int].0@);
                    }
                }
                assert forall|d: Seq<char>| #[trigger] paths_with_digest(prefix1, d).len() >= 1
                    implies exists|k2: int|
                    0 <= k2 < all@.len() && (#[trigger] all@[k2]).0@ == d by {
                    if paths_with_digest(prefix, d).len() >= 1 {
                        let w = choose|k2: int|
                            0 <= k2 < old_all.len() && (#[trigger] old_all[k2]).0@ == d;
                        assert(0 <= w < all@.len() && all@[w].0@ == d);
                    } else {
                        assert(pairs@[i as int].0@ == d);
                        assert(all@[last].0@ == d);
                    }
                }
            }
        }
        i += 1;
    }
    proof {
        assert(pairs@.subrange(0, plen as int) =~= pairs@);
    }
    let mut groups: Vec<(String, Vec<String>)> = Vec::new();
    let alen = all.len();
    let mut j: usize = 0;
    while j < alen
        invariant
            alen == all@.len(),
            j <= alen,
            forall|k: int|
                0 <= k < all@.len() ==> (#[trigger] all@[k]).1@.len() >= 1 && views_of(
                    all@[k].1@,
                ) == paths_with_digest(pairs@, all@[k].0@),
            forall|k1: int, k2: int|
                0 <= k1 < k2 < all@.len() ==> (#[trigger] all@[k1]).0@ != (#[trigger] all@[k2]).0@,
            forall|d: Seq<char>|
                #[trigger] paths_with_digest(pairs@, d).len() >= 1 ==> exists|k: int|
                    0 <= k < all@.len() && (#[trigger] all@[k]).0@ == d,
            forall|m: int|
                0 <= m < groups@.len() ==> exists|k: int|
                    0 <= k < j && same_group(#[trigger] groups@[m], all@[k]),
            forall|k: int|
                0 <= k < j && (#[trigger] all@[k]).1@.len() >= 2 ==> exists|m: int|
                    0 <= m < groups@.len() && same_group(#[trigger] groups@[m], all@[k]),
            forall|m1: int, m2: int|
                0 <= m1 < m2 < groups@.len() ==> (#[trigger] groups@[m1]).0@ != (
                #[trigger] groups@[m2]).0@,
            forall|m: int| 0 <= m < groups@.len() ==> (#[trigger] groups@[m]).1@.len() >= 2,
        decreases alen - j,
    {
        let keep = all[j].1.len() >= 2;
        if keep {
            let ghost old_groups = groups@;
            let entry_key = all[j].0.clone();
            let entry_paths = clone_paths(&all[j].1);
            groups.push((entry_key, entry_paths));
            proof {
                let last = groups@.len() - 1;
                assert(same_group(groups@[last], all@[j as int]));
                assert forall|m1: int, m2: int| 0 <= m1 < m2 < groups@.len() implies (
                #[trigger] groups@[m1]).0@ != (#[trigger] groups@[m2]).0@ by {
                    if m2 == last {
                        let w = choose|k2: int|
                            0 <= k2 < j && same_group(#[trigger] old_groups[m1], all@[k2]);
                        assert(all@[w].0@ != all@[j as int].0@);
                    }
                }
                assert forall|k2: int|
                    0 <= k2 < j + 1 && (#[trigger] all@[k2]).1@.len() >= 2 implies exists|m: int|
                    0 <= m < groups@.len() && same_group(#[trigger] groups@[m], all@[k2]) by {
                    if k2 == j {
                        assert(same_group(groups@[last], all@[k2]));
                    } else {
                        let m0 = choose|m: int|
                            0 <= m < old_groups.len() && same_group(
                                #[trigger] old_groups[m],
                                all@[k2],
                            );
                        assert(groups@[m0] == old_groups[m0]);
                        assert(same_group(groups@[m0], all@[k2]));
                    }
                }
                assert forall|m: int| 0 <= m < groups@.len() implies exists|k2: int|
                    0 <= k2 < j + 1 && same_group(#[trigger] groups@[m], all@[k2]) by {
                    if m == last {
                        assert(same_group(groups@[m], all@[j as int]));
                    } else {
                        let k0 = choose|k2: int|
                            0 <= k2 < j && same_group(#[trigger] old_groups[m], all@[k2]);
                        assert(groups@[m] == old_groups[m]);
                        assert(same_group(groups@[m], all@[k0]));
                    }
                }
            }
        }
        j += 1;
    }
    proof {
        assert forall|k: int| 0 <= k < groups@.len() implies (#[trigger] groups@[k]).1@.len() >= 2
            && views_of(groups@[k].1@) == paths_with_digest(pairs@, groups@[k].0@) by {
            let w = choose|k2: int|
                0 <= k2 < all@.len() && same_group(#[trigger] groups@[k as int], all@[k2]);
            assert(views_of(groups@[k].1@) =~= views_of(all@[w].1@));
        }
        assert forall|d: Seq<char>| #[trigger] paths_with_digest(pairs@, d).len() >= 2 implies exists|
            k: int,
        | 0 <= k < groups@.len() && (#[trigger] groups@[k]).0@ == d by {
            let w = choose|k2: int| 0 <= k2 < all@.len() && (#[trigger] all@[k2]).0@ == d;
            assert(views_of(all@[w].1@) == paths_with_digest(pairs@, d));
            assert(all@[w].1@.len() >= 2);
            let m = choose|m: int| 0 <= m < groups@.len() && same_group(#[trigger] groups@[m], all@[w]);
            assert(groups@[m].0@ == d);
        }
    }
    groups
}

/// Copies a path list entry by entry.
fn clone_paths(ps: &Vec<String>) -> (r: Vec<String>)
    ensures
        r@ == ps@,
{
    let mut r: Vec<String> = Vec::new();
    let n = ps.len();
    let mut i: usize = 0;
    while i < n
        invariant
            n == ps@.len(),
            i <= n,
            r@ == ps@.subrange(0, i as int),
        decreases n - i,
    {
        r.push(ps[i].clone());
        proof {
            assert(ps@.subrange(0, i as int).push(ps@[i as int]) =~= ps@.subrange(
                0,
                i as int + 1,
            ));
        }
        i += 1;
    }
    proof {
        assert(ps@.subrange(0, n as int) =~= ps@);
    }
    r
}

/// Group membership is a function of the recorded (digest, path) pairs
/// alone: given two results that meet the collector's contract for the same
/// pairs, every group of the first appears in the second with the same
/// digest and the same paths in the same order, however the groups
/// themselves are ordered. Swapping the two results gives the other
/// inclusion.
pub proof fn lemma_grouping_deterministic(
    pairs: Seq<(String, String)>,
    g1: Seq<(String, Vec<String>)>,
    g2: Seq<(String, Vec<String>)>,
    k1: int,
)
    requires
        forall|k: int|
            0 <= k < g1.len() ==> (#[trigger] g1[k]).1@.len() >= 2 && views_of(g1[k].1@)
                == paths_with_digest(pairs, g1[k].0@),
        forall|k: int|
            0 <= k < g2.len() ==> (#[trigger] g2[k]).1@.len() >= 2 && views_of(g2[k].1@)
                == paths_with_digest(pairs, g2[k].0@),
        forall|d: Seq<char>|
            #[trigger] paths_with_digest(pairs, d).len() >= 2 ==> exists|k: int|
                0 <= k < g2.len() && (#[trigger] g2[k]).0@ == d,
        0 <= k1 < g1.len(),
    ensures
        exists|k2: int|
            0 <= k2 < g2.len() && (#[trigger] g2[k2]).0@ == g1[k1].0@ && views_of(g1[k1].1@)
                == views_of(g2[k2].1@),
{
    let d = g1[k1].0@;
    assert(paths_with_digest(pairs, d).len() >= 2);
    let w = choose|k2: int| 0 <= k2 < g2.len() && (#[trigger] g2[k2]).0@ == d;
    assert(0 <= w < g2.len() && g2[w].0@ == g1[k1].0@ && views_of(g1[k1].1@) == views_of(g2[w].1@));
}

} // verus!
