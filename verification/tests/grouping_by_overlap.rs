use geo_utility::grouping::{group_rects_by_overlap, merge_components};

fn groups(overlapping: Vec<Vec<usize>>) -> Vec<Vec<usize>> {
    let n = overlapping.len();
    let uf = group_rects_by_overlap(&overlapping);
    merge_components(n, uf)
}

#[test]
fn no_rectangles_give_no_groups() {
    assert!(groups(vec![]).is_empty());
}

#[test]
fn separate_rectangles_stay_separate() {
    assert_eq!(groups(vec![vec![0], vec![1], vec![2]]), vec![vec![0], vec![1], vec![2]]);
    // A rectangle need not list itself.
    assert_eq!(groups(vec![vec![], vec![]]), vec![vec![0], vec![1]]);
}

#[test]
fn overlapping_rectangles_share_a_group() {
    let overlaps = vec![vec![0, 1], vec![0, 1], vec![2]];
    assert_eq!(groups(overlaps), vec![vec![0, 1], vec![2]]);
}

#[test]
fn overlap_chains_join_transitively() {
    // 0 meets 1, 1 meets 2, but 0 and 2 do not meet.
    let overlaps = vec![vec![0, 1], vec![0, 1, 2], vec![1, 2], vec![3]];
    assert_eq!(groups(overlaps), vec![vec![0, 1, 2], vec![3]]);
}

#[test]
fn an_overlap_listed_on_one_side_joins_both() {
    let overlaps = vec![vec![3], vec![], vec![], vec![], vec![1]];
    assert_eq!(groups(overlaps), vec![vec![0, 3], vec![1, 4], vec![2]]);
}

#[test]
fn groups_ascend_and_are_ordered_by_first_member() {
    let overlaps = vec![vec![5], vec![2], vec![], vec![4], vec![], vec![]];
    let g = groups(overlaps);
    assert_eq!(g, vec![vec![0, 5], vec![1, 2], vec![3, 4]]);
    let mut all: Vec<usize> = g.iter().flatten().copied().collect();
    all.sort();
    assert_eq!(all, vec![0, 1, 2, 3, 4, 5]);
}

#[test]
fn long_chain_becomes_one_group() {
    let n = 50;
    let overlaps: Vec<Vec<usize>> = (0..n).map(|i| if i + 1 < n { vec![i + 1] } else { vec![] }).collect();
    let g = groups(overlaps);
    assert_eq!(g.len(), 1);
    assert_eq!(g[0], (0..n).collect::<Vec<usize>>());
}

#[test]
fn a_larger_union_find_collects_only_the_given_keys() {
    let uf = group_rects_by_overlap(&vec![vec![4], vec![2], vec![], vec![], vec![]]);
    assert_eq!(merge_components(3, uf), vec![vec![0], vec![1, 2]]);
    let uf = group_rects_by_overlap(&vec![vec![4], vec![2], vec![], vec![], vec![]]);
    assert_eq!(merge_components(5, uf), vec![vec![0, 4], vec![1, 2], vec![3]]);
}
