use vstd::prelude::*;

verus! {

/// Whether some coordinate kept so far is near coordinate `c`.
pub open spec fn near_kept(near: Seq<Seq<usize>>, kept: Seq<usize>, c: int) -> bool {
    exists|m: usize| #[trigger] kept.contains(m) && near[c].contains(m)
}

/// No kept coordinate is near a coordinate kept before it.
pub open spec fn kept_apart(near: Seq<Seq<usize>>, kept: Seq<usize>) -> bool {
    forall|i: int, j: int|
        #![trigger kept[i], kept[j]]
        0 <= i < j < kept.len() ==> !near[kept[j] as int].contains(kept[i])
}

/// The first coordinate examined: the second one, or, where `recheck_first`,
/// the first one again.
pub open spec fn first_candidate(recheck_first: bool) -> int {
    if recheck_first {
        0
    } else {
        1
    }
}

/// The coordinates kept after `steps` coordinates have been examined: the first
/// coordinate is kept; each examined coordinate is kept unless a kept one is near it.
pub open spec fn greedy_filter(near: Seq<Seq<usize>>, recheck_first: bool, steps: nat) -> Seq<usize>
    decreases steps,
{
    if steps == 0 {
        if near.len() > 0 {
            seq![0usize]
        } else {
            Seq::empty()
        }
    } else {
        let prev = greedy_filter(near, recheck_first, (steps - 1) as nat);
        let c = first_candidate(recheck_first) + steps - 1;
        if near_kept(near, prev, c) {
            prev
        } else {
            prev.push(c as usize)
        }
    }
}

/// The number of coordinates examined for `n` coordinates.
pub open spec fn candidate_count(n: int, recheck_first: bool) -> nat {
    if n == 0 {
        0
    } else {
        (n - first_candidate(recheck_first)) as nat
    }
}

/// Thins out the coordinates of one line string (`recheck_first` false) or
/// multipoint (`recheck_first` true): `near[k]` lists the coordinates within
/// the removal distance of coordinate `k` (the caller's spatial query). The
/// first coordinate is kept; every other coordinate, in order, is kept unless
/// one already kept is near it. A multipoint examines its first coordinate
/// again. Gives the indices of the kept coordinates in the order they were kept.
pub fn remove_near_points(near: &Vec<Vec<usize>>, recheck_first: bool) -> (kept: Vec<usize>)
    requires
        forall|k: int, q: int|
            0 <= k < near@.len() && 0 <= q < near@[k]@.len() ==> #[trigger] near@[k]@[q] < near@.len(),
    ensures
        kept@ == filtered(near@.map_values(|v: Vec<usize>| v@), recheck_first),
{
    let ghost nv = near@.map_values(|v: Vec<usize>| v@);
    let n = near.len();
    let mut kept: Vec<usize> = Vec::new();
    if n == 0 {
        return kept;
    }
    let mut is_kept: Vec<bool> = Vec::new();
    let mut s: usize = 0;
    while s < n
        invariant
            0 <= s <= n,
            is_kept@.len() == s,
            forall|t: int| 0 <= t < s ==> !#[trigger] is_kept@[t],
        decreases n - s,
    {
        is_kept.push(false);
        s = s + 1;
    }
    kept.push(0);
    is_kept.set(0, true);
    let mut c: usize = if recheck_first {
        0
    } else {
        1
    };
    proof {
        assert(kept@ =~= greedy_filter(nv, recheck_first, 0));
        assert forall|m: int| 0 <= m < n implies #[trigger] is_kept@[m] == kept@.contains(m as usize) by {
            if m == 0 {
                assert(kept@[0] == 0);
            }
        }
    }
    while c < n
        invariant
            n == near@.len(),
            n > 0,
            nv == near@.map_values(|v: Vec<usize>| v@),
            forall|k: int, q: int|
                0 <= k < near@.len() && 0 <= q < near@[k]@.len() ==> #[trigger] near@[k]@[q] < near@.len(),
            first_candidate(recheck_first) <= c <= n,
            kept@ == greedy_filter(nv, recheck_first, (c - first_candidate(recheck_first)) as nat),
            is_kept@.len() == n,
            forall|m: int| 0 <= m < n ==> #[trigger] is_kept@[m] == kept@.contains(m as usize),
        decreases n - c,
    {
        let row = &near[c];
        assert(row@ == nv[c as int]);
        let mut found = false;
        let mut q: usize = 0;
        while q < row.len()
            invariant
                n == near@.len(),
                c < n,
                row@ == nv[c as int],
                forall|q: int| 0 <= q < row@.len() ==> #[trigger] row@[q] < n,
                is_kept@.len() == n,
                forall|m: int| 0 <= m < n ==> #[trigger] is_kept@[m] == kept@.contains(m as usize),
                0 <= q <= row@.len(),
                found == exists|r: int| 0 <= r < q && #[trigger] kept@.contains(row@[r]),
            decreases row@.len() - q,
        {
            let m = row[q];
            if is_kept[m] {
                found = true;
            }
            q = q + 1;
        }
        proof {
            if found {
                let r = choose|r: int| 0 <= r < row@.len() && #[trigger] kept@.contains(row@[r]);
                assert(kept@.contains(row@[r]) && nv[c as int].contains(row@[r]));
            }
            if near_kept(nv, kept@, c as int) {
                let m = choose|m: usize| #[trigger] kept@.contains(m) && nv[c as int].contains(m);
                let r = choose|r: int| 0 <= r < nv[c as int].len() && nv[c as int][r] == m;
                assert(kept@.contains(row@[r]));
            }
        }
        let ghost steps = (c - first_candidate(recheck_first)) as nat;
        let ghost old_kept = kept@;
        if !found {
            kept.push(c);
            is_kept.set(c, true);
            proof {
                assert forall|m: int| 0 <= m < n implies #[trigger] is_kept@[m] == kept@.contains(m as usize) by {
                    if m == c as int {
                        assert(kept@[kept@.len() - 1] == c);
                    } else {
                        assert(kept@ == old_kept.push(c));
                        assert(old_kept.contains(m as usize) == kept@.contains(m as usize)) by {
                            if kept@.contains(m as usize) {
                                let i = choose|i: int| 0 <= i < kept@.len() && kept@[i] == m as usize;
                                assert(old_kept[i] == m as usize);
                            }
                            if old_kept.contains(m as usize) {
                                let i = choose|i: int| 0 <= i < old_kept.len() && old_kept[i] == m as usize;
                                assert(kept@[i] == m as usize);
                            }
                        }
                    }
                }
            }
        }
        proof {
            assert(c + 1 - first_candidate(recheck_first) == steps + 1);
        }
        c = c + 1;
    }
    kept
}

/// The first coordinate is always kept.
pub proof fn lemma_first_point_kept(near: Seq<Seq<usize>>, recheck_first: bool, steps: nat)
    requires
        near.len() > 0,
    ensures
        greedy_filter(near, recheck_first, steps).len() > 0,
        greedy_filter(near, recheck_first, steps)[0] == 0,
    decreases steps,
{
    if steps > 0 {
        lemma_first_point_kept(near, recheck_first, (steps - 1) as nat);
    }
}

/// A kept coordinate is never near a coordinate kept before it, and every
/// examined coordinate that was not kept is near a kept one.
pub proof fn lemma_kept_points_apart(near: Seq<Seq<usize>>, recheck_first: bool, steps: nat)
    requires
        first_candidate(recheck_first) + steps <= near.len() <= usize::MAX,
    ensures
        kept_apart(near, greedy_filter(near, recheck_first, steps)),
        forall|c: int|
            first_candidate(recheck_first) <= c < first_candidate(recheck_first) + steps
                && !greedy_filter(near, recheck_first, steps).contains(c as usize) ==> #[trigger] near_kept(
                near,
                greedy_filter(near, recheck_first, steps),
                c,
            ),
    decreases steps,
{
    if steps > 0 {
        let prev = greedy_filter(near, recheck_first, (steps - 1) as nat);
        let cur = greedy_filter(near, recheck_first, steps);
        let c0 = first_candidate(recheck_first) + steps - 1;
        lemma_kept_points_apart(near, recheck_first, (steps - 1) as nat);
        if !near_kept(near, prev, c0) {
            assert(cur == prev.push(c0 as usize));
            assert forall|i: int, j: int| 0 <= i < j < cur.len() implies !near[cur[j] as int].contains(
                cur[i],
            ) by {
                if j == cur.len() - 1 {
                    assert(cur[i] == prev[i]);
                    assert(prev.contains(cur[i]));
                    assert(cur[j] as int == c0);
                } else {
                    assert(cur[i] == prev[i] && cur[j] == prev[j]);
                }
            }
            assert forall|c: int|
                first_candidate(recheck_first) <= c < first_candidate(recheck_first) + steps && !cur.contains(
                    c as usize,
                ) implies #[trigger] near_kept(near, cur, c) by {
                if c < c0 {
                    if !prev.contains(c as usize) {
                        assert(near_kept(near, prev, c));
                        let m = choose|m: usize| #[trigger] prev.contains(m) && near[c].contains(m);
                        let i = choose|i: int| 0 <= i < prev.len() && prev[i] == m;
                        assert(cur[i] == m);
                        assert(cur.contains(m));
                    } else {
                        let i = choose|i: int| 0 <= i < prev.len() && prev[i] == c as usize;
                        assert(cur[i] == c as usize);
                    }
                } else {
                    assert(cur[cur.len() - 1] == c0 as usize);
                }
            }
        } else {
            assert(cur == prev);
        }
    }
}

/// The kept coordinates keep the order of the input, each kept once, where the
/// first coordinate is listed as near itself or is not examined again.
pub proof fn lemma_kept_points_in_order(near: Seq<Seq<usize>>, recheck_first: bool, steps: nat)
    requires
        near.len() > 0,
        first_candidate(recheck_first) + steps <= near.len() <= usize::MAX,
        recheck_first ==> near[0].contains(0usize),
    ensures
        forall|i: int, j: int|
            0 <= i < j < greedy_filter(near, recheck_first, steps).len() ==> #[trigger] greedy_filter(
                near,
                recheck_first,
                steps,
            )[i] < #[trigger] greedy_filter(near, recheck_first, steps)[j],
        forall|i: int|
            0 <= i < greedy_filter(near, recheck_first, steps).len() ==> #[trigger] greedy_filter(
                near,
                recheck_first,
                steps,
            )[i] == 0 || greedy_filter(near, recheck_first, steps)[i] < first_candidate(recheck_first) + steps,
    decreases steps,
{
    if steps > 0 {
        let prev = greedy_filter(near, recheck_first, (steps - 1) as nat);
        let cur = greedy_filter(near, recheck_first, steps);
        let c0 = first_candidate(recheck_first) + steps - 1;
        lemma_kept_points_in_order(near, recheck_first, (steps - 1) as nat);
        lemma_first_point_kept(near, recheck_first, (steps - 1) as nat);
        if !near_kept(near, prev, c0) {
            assert(cur == prev.push(c0 as usize));
            if c0 == 0 {
                assert(prev[0] == 0usize);
                assert(prev.contains(0usize));
                assert(near[c0].contains(0usize));
                assert(near_kept(near, prev, c0));
            }
            assert forall|i: int, j: int| 0 <= i < j < cur.len() implies #[trigger] cur[i] < #[trigger] cur[j] by {
                if j == cur.len() - 1 {
                    assert(cur[i] == prev[i]);
                } else {
                    assert(cur[i] == prev[i] && cur[j] == prev[j]);
                }
            }
            assert forall|i: int| 0 <= i < cur.len() implies #[trigger] cur[i] == 0 || cur[i]
                < first_candidate(recheck_first) + steps by {
                if i < cur.len() - 1 {
                    assert(cur[i] == prev[i]);
                }
            }
        } else {
            assert(cur == prev);
        }
    }
}

/// The coordinates that filtering keeps of all those of `near`.
pub open spec fn filtered(near: Seq<Seq<usize>>, recheck_first: bool) -> Seq<usize> {
    greedy_filter(near, recheck_first, candidate_count(near.len() as int, recheck_first))
}

pub open spec fn refiltered_len(recheck_first: bool, steps: nat) -> nat {
    if recheck_first {
        if steps == 0 {
            1
        } else {
            steps
        }
    } else {
        steps + 1
    }
}

proof fn lemma_refilter_prefix(
    near: Seq<Seq<usize>>,
    recheck_first: bool,
    again: Seq<Seq<usize>>,
    kept: Seq<usize>,
    steps: nat,
)
    requires
        again.len() == kept.len(),
        kept.len() > 0,
        kept[0] == 0,
        kept_apart(near, kept),
        recheck_first ==> near[0].contains(0usize),
        forall|a: int, b: usize|
            0 <= a < again.len() && b < again.len() ==> (#[trigger] again[a].contains(b) <==> near[kept[a] as int].contains(
                kept[b as int],
            )),
        steps <= candidate_count(again.len() as int, recheck_first),
    ensures
        greedy_filter(again, recheck_first, steps) == Seq::new(
            refiltered_len(recheck_first, steps),
            |i: int| i as usize,
        ),
    decreases steps,
{
    if steps == 0 {
        assert(greedy_filter(again, recheck_first, 0) =~= Seq::new(1, |i: int| i as usize));
    } else {
        lemma_refilter_prefix(near, recheck_first, again, kept, (steps - 1) as nat);
        let prev = greedy_filter(again, recheck_first, (steps - 1) as nat);
        let cur = greedy_filter(again, recheck_first, steps);
        let c0 = first_candidate(recheck_first) + steps - 1;
        if recheck_first && steps == 1 {
            assert(prev[0] == 0usize);
            assert(prev.contains(0usize));
            assert(again[0].contains(0usize));
            assert(near_kept(again, prev, c0));
            assert(cur == prev);
        } else {
            assert(c0 < again.len());
            if near_kept(again, prev, c0) {
                let m = choose|m: usize| #[trigger] prev.contains(m) && again[c0].contains(m);
                let i = choose|i: int| 0 <= i < prev.len() && prev[i] == m;
                assert(prev[i] == i as usize);
                assert(near[kept[c0] as int].contains(kept[m as int]));
                assert(!near[kept[c0] as int].contains(kept[m as int]));
            }
            assert(cur =~= Seq::new(refiltered_len(recheck_first, steps), |i: int| i as usize));
        }
    }
}

/// Filtering is idempotent: where `again[a]` lists the kept coordinates near
/// the `a`-th kept one (the neighbour lists of the filtered geometry), filtering
/// again keeps every coordinate, in order. The first coordinate is taken to be
/// near itself where it is examined again.
pub proof fn lemma_filter_idempotent(near: Seq<Seq<usize>>, recheck_first: bool, again: Seq<Seq<usize>>)
    requires
        0 < near.len() <= usize::MAX,
        recheck_first ==> near[0].contains(0usize),
        again.len() == filtered(near, recheck_first).len(),
        forall|a: int, b: usize|
            0 <= a < again.len() && b < again.len() ==> (#[trigger] again[a].contains(b) <==> near[filtered(
                near,
                recheck_first,
            )[a] as int].contains(filtered(near, recheck_first)[b as int])),
    ensures
        filtered(again, recheck_first) == Seq::new(again.len(), |i: int| i as usize),
{
    let kept = filtered(near, recheck_first);
    let steps = candidate_count(near.len() as int, recheck_first);
    lemma_first_point_kept(near, recheck_first, steps);
    lemma_kept_points_apart(near, recheck_first, steps);
    lemma_refilter_prefix(near, recheck_first, again, kept, candidate_count(again.len() as int, recheck_first));
}

} // verus!
