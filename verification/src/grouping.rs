use vstd::prelude::*;
use union_find::{QuickUnionUf, UnionBySize, UnionFind};

verus! {

#[verifier::external_type_specification]
#[verifier::external_body]
#[verifier::reject_recursive_types(V)]
pub struct ExQuickUnionUf<V>(QuickUnionUf<V>);

#[verifier::external_type_specification]
#[verifier::external_body]
pub struct ExUnionBySize(UnionBySize);

/// For each key of a union-find structure, the representative that `find`
/// gives for it.
pub uninterp spec fn uf_roots(uf: QuickUnionUf<UnionBySize>) -> Seq<usize>;

/// Representatives stay among the keys and represent themselves.
pub open spec fn roots_wf(r: Seq<usize>) -> bool {
    forall|k: int| 0 <= k < r.len() ==> #[trigger] r[k] < r.len() && r[r[k] as int] == r[k]
}

/// Whether two keys lie in one set.
pub open spec fn same_set(uf: QuickUnionUf<UnionBySize>, x: int, y: int) -> bool {
    uf_roots(uf)[x] == uf_roots(uf)[y]
}

/// `QuickUnionUf::<UnionBySize>::new` (from the `UnionFind` trait): `len`
/// keys, each in a set of its own, so that `find` gives every key itself.
#[verifier::external_body]
fn new_union_find(len: usize) -> (uf: QuickUnionUf<UnionBySize>)
    ensures
        uf_roots(uf).len() == len,
        forall|k: int| 0 <= k < len ==> #[trigger] uf_roots(uf)[k] == k,
{
    QuickUnionUf::<UnionBySize>::new(len)
}

/// `UnionFind::find` on `QuickUnionUf`: gives the representative of `key`.
/// Its path halving relinks keys but leaves every key's representative as it was.
#[verifier::external_body]
fn find_root(uf: &mut QuickUnionUf<UnionBySize>, key: usize) -> (root: usize)
    requires
        key < uf_roots(*old(uf)).len(),
    ensures
        root == uf_roots(*old(uf))[key as int],
        uf_roots(*final(uf)) == uf_roots(*old(uf)),
{
    uf.find(key)
}

/// `UnionFind::union` on `QuickUnionUf<UnionBySize>`: joins the sets of `a` and
/// `b`. The joined set is represented by one of the two former representatives
/// (the one of the larger set); every other key keeps its representative.
/// Gives whether the two sets were distinct.
#[verifier::external_body]
fn union_sets(uf: &mut QuickUnionUf<UnionBySize>, a: usize, b: usize) -> (merged: bool)
    requires
        a < uf_roots(*old(uf)).len(),
        b < uf_roots(*old(uf)).len(),
    ensures
        merged == (uf_roots(*old(uf))[a as int] != uf_roots(*old(uf))[b as int]),
        uf_roots(*final(uf)).len() == uf_roots(*old(uf)).len(),
        uf_roots(*final(uf))[a as int] == uf_roots(*old(uf))[a as int]
            || uf_roots(*final(uf))[a as int] == uf_roots(*old(uf))[b as int],
        forall|k: int|
            0 <= k < uf_roots(*old(uf)).len() ==> #[trigger] uf_roots(*final(uf))[k] == if (
            uf_roots(*old(uf))[k] == uf_roots(*old(uf))[a as int] || uf_roots(*old(uf))[k]
                == uf_roots(*old(uf))[b as int]) {
                uf_roots(*final(uf))[a as int]
            } else {
                uf_roots(*old(uf))[k]
            },
{
    uf.union(a, b)
}

/// `UnionFind::size` on `QuickUnionUf`: the number of keys.
#[verifier::external_body]
fn uf_size(uf: &QuickUnionUf<UnionBySize>) -> (r: usize)
    ensures
        r == uf_roots(*uf).len(),
{
    uf.size()
}

/// Whether `x` and `y` are joined by a chain of the given pairs: the
/// equivalence that joining the two sides of each pair in turn builds.
pub open spec fn linked(pairs: Seq<(usize, usize)>, x: int, y: int) -> bool
    decreases pairs.len(),
{
    if pairs.len() == 0 {
        x == y
    } else {
        let ps = pairs.drop_last();
        let a = pairs.last().0 as int;
        let b = pairs.last().1 as int;
        ||| linked(ps, x, y)
        ||| (linked(ps, x, a) && linked(ps, b, y))
        ||| (linked(ps, x, b) && linked(ps, a, y))
    }
}

/// Joining by chains of pairs is reflexive.
pub proof fn lemma_linked_reflexive(pairs: Seq<(usize, usize)>, x: int)
    ensures
        linked(pairs, x, x),
    decreases pairs.len(),
{
    if pairs.len() > 0 {
        lemma_linked_reflexive(pairs.drop_last(), x);
    }
}

/// Joining by chains of pairs is symmetric.
pub proof fn lemma_linked_symmetric(pairs: Seq<(usize, usize)>, x: int, y: int)
    requires
        linked(pairs, x, y),
    ensures
        linked(pairs, y, x),
    decreases pairs.len(),
{
    if pairs.len() > 0 {
        let ps = pairs.drop_last();
        let a = pairs.last().0 as int;
        let b = pairs.last().1 as int;
        if linked(ps, x, y) {
            lemma_linked_symmetric(ps, x, y);
        } else if linked(ps, x, a) && linked(ps, b, y) {
            lemma_linked_symmetric(ps, x, a);
            lemma_linked_symmetric(ps, b, y);
        } else {
            lemma_linked_symmetric(ps, x, b);
            lemma_linked_symmetric(ps, a, y);
        }
    }
}

/// Joining by chains of pairs is transitive.
pub proof fn lemma_linked_transitive(pairs: Seq<(usize, usize)>, x: int, y: int, z: int)
    requires
        linked(pairs, x, y),
        linked(pairs, y, z),
    ensures
        linked(pairs, x, z),
    decreases pairs.len(),
{
    if pairs.len() > 0 {
        let ps = pairs.drop_last();
        let a = pairs.last().0 as int;
        let b = pairs.last().1 as int;
        if linked(ps, x, y) {
            if linked(ps, y, z) {
                lemma_linked_transitive(ps, x, y, z);
            } else if linked(ps, y, a) && linked(ps, b, z) {
                lemma_linked_transitive(ps, x, y, a);
            } else {
                lemma_linked_transitive(ps, x, y, b);
            }
        } else if linked(ps, x, a) && linked(ps, b, y) {
            if linked(ps, y, z) {
                lemma_linked_transitive(ps, b, y, z);
            } else if linked(ps, y, a) && linked(ps, b, z) {
            } else {
                lemma_linked_transitive(ps, x, a, z);
            }
        } else {
            if linked(ps, y, z) {
                lemma_linked_transitive(ps, a, y, z);
            } else if linked(ps, y, a) && linked(ps, b, z) {
                lemma_linked_transitive(ps, x, b, z);
            } else {
            }
        }
    }
}

/// Every given pair is joined.
pub proof fn lemma_linked_contains_pairs(pairs: Seq<(usize, usize)>, i: int)
    requires
        0 <= i < pairs.len(),
    ensures
        linked(pairs, pairs[i].0 as int, pairs[i].1 as int),
    decreases pairs.len(),
{
    let ps = pairs.drop_last();
    if i < pairs.len() - 1 {
        lemma_linked_contains_pairs(ps, i);
        assert(ps[i] == pairs[i]);
    } else {
        lemma_linked_reflexive(ps, pairs[i].0 as int);
        lemma_linked_reflexive(ps, pairs[i].1 as int);
    }
}

/// Chains of pairs join no more than needed: every equivalence relation that
/// relates the two sides of each pair relates all that `linked` joins.
pub proof fn lemma_linked_least(pairs: Seq<(usize, usize)>, rel: spec_fn(int, int) -> bool, x: int, y: int)
    requires
        forall|u: int| #[trigger] rel(u, u),
        forall|u: int, v: int| #[trigger] rel(u, v) ==> rel(v, u),
        forall|u: int, v: int, w: int| #[trigger] rel(u, v) && #[trigger] rel(v, w) ==> rel(u, w),
        forall|i: int| 0 <= i < pairs.len() ==> rel(#[trigger] pairs[i].0 as int, pairs[i].1 as int),
        linked(pairs, x, y),
    ensures
        rel(x, y),
    decreases pairs.len(),
{
    if pairs.len() > 0 {
        let ps = pairs.drop_last();
        let a = pairs.last().0 as int;
        let b = pairs.last().1 as int;
        assert forall|i: int| 0 <= i < ps.len() implies rel(#[trigger] ps[i].0 as int, ps[i].1 as int) by {
            assert(ps[i] == pairs[i]);
        }
        assert(rel(pairs[pairs.len() - 1].0 as int, pairs[pairs.len() - 1].1 as int));
        assert(rel(a, b));
        if linked(ps, x, y) {
            lemma_linked_least(ps, rel, x, y);
        } else if linked(ps, x, a) && linked(ps, b, y) {
            lemma_linked_least(ps, rel, x, a);
            lemma_linked_least(ps, rel, b, y);
            assert(rel(x, b));
        } else {
            lemma_linked_least(ps, rel, x, b);
            lemma_linked_least(ps, rel, a, y);
            assert(rel(b, a));
            assert(rel(x, a));
        }
    } else {
        assert(x == y);
    }
}

/// The pairs (i, j) of each list `lists[i]` and each `j` in it, row by row.
pub open spec fn overlap_pairs(lists: Seq<Seq<usize>>) -> Seq<(usize, usize)>
    decreases lists.len(),
{
    if lists.len() == 0 {
        Seq::empty()
    } else {
        overlap_pairs(lists.drop_last()) + row_pairs((lists.len() - 1) as usize, lists.last())
    }
}

pub open spec fn row_pairs(i: usize, row: Seq<usize>) -> Seq<(usize, usize)> {
    row.map_values(|j: usize| (i, j))
}

pub open spec fn lists_view(overlaps: Seq<Vec<usize>>) -> Seq<Seq<usize>> {
    overlaps.map_values(|v: Vec<usize>| v@)
}

/// Groups rectangles by overlap: `overlapping[i]` lists the rectangles whose
/// envelope meets that of rectangle `i` (the R-tree query of the caller).
/// Gives a union-find structure in which two rectangles share a set exactly when
/// a chain of overlaps joins them.
pub fn group_rects_by_overlap(overlapping: &Vec<Vec<usize>>) -> (uf: QuickUnionUf<UnionBySize>)
    requires
        forall|i: int, k: int|
            0 <= i < overlapping.len() && 0 <= k < overlapping@[i].len() ==> #[trigger] overlapping@[i]@[k]
                < overlapping.len(),
    ensures
        uf_roots(uf).len() == overlapping.len(),
        roots_wf(uf_roots(uf)),
        forall|x: int, y: int|
            0 <= x < overlapping.len() && 0 <= y < overlapping.len() ==> (#[trigger] same_set(uf, x, y)
                <==> linked(overlap_pairs(lists_view(overlapping@)), x, y)),
{
    let n = overlapping.len();
    let ghost lists = lists_view(overlapping@);
    let mut uf = new_union_find(n);
    assert(overlap_pairs(lists.take(0)) =~= Seq::<(usize, usize)>::empty());
    let mut i: usize = 0;
    while i < n
        invariant
            n == overlapping.len(),
            lists == lists_view(overlapping@),
            0 <= i <= n,
            forall|i: int, k: int|
                0 <= i < overlapping.len() && 0 <= k < overlapping@[i].len() ==> #[trigger] overlapping@[i]@[k]
                    < overlapping.len(),
            uf_roots(uf).len() == n,
            roots_wf(uf_roots(uf)),
            forall|x: int, y: int|
                0 <= x < n && 0 <= y < n ==> (#[trigger] same_set(uf, x, y) <==> linked(
                    overlap_pairs(lists.take(i as int)),
                    x,
                    y,
                )),
        decreases n - i,
    {
        let row = &overlapping[i];
        let ghost done = overlap_pairs(lists.take(i as int));
        assert(row_pairs(i, row@.take(0)) =~= Seq::<(usize, usize)>::empty());
        assert(done + row_pairs(i, row@.take(0)) =~= done);
        let mut k: usize = 0;
        while k < row.len()
            invariant
                n == overlapping.len(),
                i < n,
                row == overlapping@[i as int],
                0 <= k <= row.len(),
                forall|k: int| 0 <= k < row.len() ==> #[trigger] row@[k] < n,
                uf_roots(uf).len() == n,
                roots_wf(uf_roots(uf)),
                forall|x: int, y: int|
                    0 <= x < n && 0 <= y < n ==> (#[trigger] same_set(uf, x, y) <==> linked(
                        done + row_pairs(i, row@.take(k as int)),
                        x,
                        y,
                    )),
            decreases row.len() - k,
        {
            let j = row[k];
            let ghost before = done + row_pairs(i, row@.take(k as int));
            let ghost after = done + row_pairs(i, row@.take(k + 1));
            assert(after =~= before.push((i, j)));
            assert(after.drop_last() =~= before);
            let ghost old_uf = uf;
            if i != j {
                union_sets(&mut uf, i, j);
            }
            assert forall|x: int, y: int| 0 <= x < n && 0 <= y < n implies (#[trigger] same_set(
                uf,
                x,
                y,
            ) <==> linked(after, x, y)) by {
                assert(same_set(old_uf, x, y) == linked(before, x, y));
                assert(same_set(old_uf, x, i as int) == linked(before, x, i as int));
                assert(same_set(old_uf, j as int, y) == linked(before, j as int, y));
                assert(same_set(old_uf, x, j as int) == linked(before, x, j as int));
                assert(same_set(old_uf, i as int, y) == linked(before, i as int, y));
                assert(uf_roots(uf)[x] == uf_roots(uf)[x]);
                assert(uf_roots(uf)[y] == uf_roots(uf)[y]);
            }
            proof {
                assert forall|kk: int| 0 <= kk < n implies #[trigger] uf_roots(uf)[kk] < n
                    && uf_roots(uf)[uf_roots(uf)[kk] as int] == uf_roots(uf)[kk] by {
                    let r0 = uf_roots(old_uf);
                    let rk = r0[kk];
                    assert(r0[rk as int] == rk);
                    assert(r0[i as int] < n && r0[j as int] < n);
                    assert(uf_roots(uf)[r0[i as int] as int] == uf_roots(uf)[r0[i as int] as int]);
                    assert(uf_roots(uf)[r0[j as int] as int] == uf_roots(uf)[r0[j as int] as int]);
                }
            }
            k = k + 1;
        }
        proof {
            assert(row@.take(row@.len() as int) =~= row@);
            assert(lists.take(i + 1).drop_last() =~= lists.take(i as int));
            assert(lists.take(i + 1).last() == row@);
            assert(overlap_pairs(lists.take(i + 1)) == done + row_pairs(i, row@));
        }
        i = i + 1;
    }
    assert(lists.take(n as int) =~= lists);
    uf
}

/// The groups that `merge_components` gives for `n` keys with representatives
/// `r`: every key in exactly one group, the keys of a group sharing one
/// representative, distinct groups having distinct ones, each group ascending,
/// and the groups ordered by their first key.
pub open spec fn groups_of(r: Seq<usize>, n: int, groups: Seq<Seq<usize>>) -> bool {
    &&& forall|g: int| 0 <= g < groups.len() ==> #[trigger] groups[g].len() > 0
    &&& forall|g: int, k: int|
        0 <= g < groups.len() && 0 <= k < groups[g].len() ==> #[trigger] groups[g][k] < n
            && r[groups[g][k] as int] == r[groups[g][0] as int]
    &&& forall|g: int, k1: int, k2: int|
        0 <= g < groups.len() && 0 <= k1 < k2 < groups[g].len() ==> #[trigger] groups[g][k1]
            < #[trigger] groups[g][k2]
    &&& forall|g1: int, g2: int|
        0 <= g1 < g2 < groups.len() ==> r[#[trigger] groups[g1][0] as int] != r[#[trigger] groups[g2][0] as int]
            && groups[g1][0] < groups[g2][0]
    &&& forall|x: int| 0 <= x < n ==> #[trigger] in_some_group(groups, x)
}

/// Whether `x` is a member of one of the groups.
pub open spec fn in_some_group(groups: Seq<Seq<usize>>, x: int) -> bool {
    exists|g: int, k: int| 0 <= g < groups.len() && 0 <= k < groups[g].len() && #[trigger] groups[g][k] == x
}

pub open spec fn groups_view(groups: Seq<Vec<usize>>) -> Seq<Seq<usize>> {
    groups.map_values(|v: Vec<usize>| v@)
}

/// Collects the members of each set of `uf`, for keys `0..rectangle_count`:
/// the groups whose rectangles are merged into one bounding box. `uf` may hold
/// more keys than that; they are not collected.
pub fn merge_components(rectangle_count: usize, uf: QuickUnionUf<UnionBySize>) -> (groups: Vec<Vec<usize>>)
    requires
        rectangle_count <= uf_roots(uf).len(),
        roots_wf(uf_roots(uf)),
    ensures
        groups_of(uf_roots(uf), rectangle_count as int, groups_view(groups@)),
{
    let n = rectangle_count;
    let ghost r = uf_roots(uf);
    let mut uf = uf;
    let m = uf_size(&uf);
    let mut slot: Vec<Option<usize>> = Vec::new();
    let mut s: usize = 0;
    while s < m
        invariant
            0 <= s <= m,
            slot@.len() == s,
            forall|t: int| 0 <= t < s ==> #[trigger] slot@[t] is None,
        decreases m - s,
    {
        slot.push(None);
        s = s + 1;
    }
    let mut groups: Vec<Vec<usize>> = Vec::new();
    let mut i: usize = 0;
    while i < n
        invariant
            0 <= i <= n,
            n == rectangle_count,
            uf_roots(uf) == r,
            n <= r.len(),
            r.len() == m,
            roots_wf(r),
            slot@.len() == m,
            // each slot names the group of the keys with that representative
            forall|t: int| 0 <= t < m ==> match #[trigger] slot@[t] {
                Some(g) => g < groups@.len() && r[groups@[g as int]@[0] as int] == t,
                None => forall|x: int| 0 <= x < i ==> r[x] != t,
            },
            forall|g: int| 0 <= g < groups@.len() ==> slot@[r[#[trigger] groups@[g]@[0] as int] as int] == Some(g as usize),
            groups_of(r, i as int, groups_view(groups@)),
        decreases n - i,
    {
        let root = find_root(&mut uf, i);
        assert(root == r[i as int]);
        let ghost old_groups = groups_view(groups@);
        match slot[root] {
            Some(g) => {
                groups[g].push(i);
                proof {
                    let gs = groups_view(groups@);
                    assert(gs =~= old_groups.update(g as int, old_groups[g as int].push(i)));
                    assert forall|x: int| 0 <= x < i + 1 implies #[trigger] in_some_group(gs, x) by {
                        if x == i {
                            assert(gs[g as int][old_groups[g as int].len() as int] == x);
                        } else {
                            assert(in_some_group(old_groups, x));
                            let (g2, k) = choose|g2: int, k: int|
                                0 <= g2 < old_groups.len() && 0 <= k < old_groups[g2].len() && #[trigger] old_groups[g2][k] == x;
                            assert(gs[g2][k] == x);
                        }
                    }
                    assert forall|g2: int| 0 <= g2 < groups@.len() implies slot@[r[#[trigger] groups@[g2]@[0] as int] as int] == Some(g2 as usize) by {
                        assert(groups@[g2]@[0] == old_groups[g2][0]);
                    }
                    assert forall|g1: int, k1: int, k2: int|
                        0 <= g1 < gs.len() && 0 <= k1 < k2 < gs[g1].len() implies #[trigger] gs[g1][k1]
                            < #[trigger] gs[g1][k2] by {
                        if g1 == g && k2 == gs[g1].len() - 1 {
                            assert(old_groups[g1][k1] < i);
                        } else {
                            assert(gs[g1][k1] == old_groups[g1][k1]);
                        }
                    }
                }
            },
            None => {
                let mut fresh: Vec<usize> = Vec::new();
                fresh.push(i);
                groups.push(fresh);
                slot.set(root, Some(groups.len() - 1));
                proof {
                    let gs = groups_view(groups@);
                    assert(gs =~= old_groups.push(seq![i]));
                    assert forall|x: int| 0 <= x < i + 1 implies #[trigger] in_some_group(gs, x) by {
                        if x == i {
                            assert(gs[old_groups.len() as int][0] == x);
                        } else {
                            assert(in_some_group(old_groups, x));
                            let (g2, k) = choose|g2: int, k: int|
                                0 <= g2 < old_groups.len() && 0 <= k < old_groups[g2].len() && #[trigger] old_groups[g2][k] == x;
                            assert(gs[g2][k] == x);
                        }
                    }
                    assert forall|g2: int| 0 <= g2 < groups@.len() implies slot@[r[#[trigger] groups@[g2]@[0] as int] as int] == Some(g2 as usize) by {
                        if g2 < old_groups.len() {
                            assert(groups@[g2]@[0] == old_groups[g2][0]);
                            assert(old_groups[g2][0] < i);
                        }
                    }
                    assert forall|g1: int, g2: int|
                        0 <= g1 < g2 < gs.len() implies r[#[trigger] gs[g1][0] as int] != r[#[trigger] gs[g2][0] as int]
                            && gs[g1][0] < gs[g2][0] by {
                        if g2 == gs.len() - 1 {
                            assert(slot@[r[gs[g1][0] as int] as int] == Some(g1 as usize));
                            let y = gs[g1][0] as int;
                            assert(old_groups[g1][0] < i);
                        }
                    }
                }
            },
        }
        i = i + 1;
    }
    groups
}

} // verus!
