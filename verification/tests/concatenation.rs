use geo_utility::concatenate_features::{
    concatenate_features, merge_line_strings, split_line_strings, ConcatFeature, ConcatOutput, CoordRef,
    Endpoint, LineStringInfo, MergedLine, Piece,
};

fn line_string(n: usize) -> ConcatFeature {
    ConcatFeature { line_string_coords: Some(n) }
}

fn other() -> ConcatFeature {
    ConcatFeature { line_string_coords: None }
}

fn start(line: usize) -> Endpoint {
    Endpoint { line, is_start: true }
}

fn end(line: usize) -> Endpoint {
    Endpoint { line, is_start: false }
}

/// A line string whose endpoints are near nothing but themselves.
fn isolated(line: usize, coord_count: usize, start_point: usize, end_point: usize) -> LineStringInfo {
    LineStringInfo {
        coord_count,
        start_point,
        end_point,
        property_class: 0,
        near_start: vec![start(line)],
        near_end: vec![end(line)],
    }
}

fn coords(chain: &MergedLine) -> Vec<(usize, usize)> {
    chain.coords.iter().map(|c: &CoordRef| (c.line, c.index)).collect()
}

fn merged_seeds(out: &[ConcatOutput]) -> Vec<usize> {
    out.iter()
        .filter_map(|o| match o {
            ConcatOutput::Merged(m) => Some(m.seed),
            ConcatOutput::Unchanged(_) => None,
        })
        .collect()
}

fn unchanged(out: &[ConcatOutput]) -> Vec<usize> {
    out.iter()
        .filter_map(|o| match o {
            ConcatOutput::Merged(_) => None,
            ConcatOutput::Unchanged(i) => Some(*i),
        })
        .collect()
}

#[test]
fn concatenate_features_test_empty_feature_collection() {
    let result = concatenate_features(&vec![], &vec![]);
    assert_eq!(result.len(), 0);
}

#[test]
fn test_only_other_features() {
    let features = vec![other(), other(), other()];
    let result = concatenate_features(&features, &vec![]);
    assert_eq!(result.len(), 3);
    assert_eq!(unchanged(&result), vec![0, 1, 2]);
}

#[test]
fn test_only_valid_linestrings() {
    // [[0,0],[1,1]] and [[2,2],[3,3]]: four distinct points, far apart.
    let features = vec![line_string(2), line_string(2)];
    let lines = vec![isolated(0, 2, 0, 1), isolated(1, 2, 2, 3)];
    let result = concatenate_features(&features, &lines);
    assert_eq!(result.len(), 2);
    assert_eq!(merged_seeds(&result), vec![0, 1]);
}

#[test]
fn test_mixed_features() {
    let features = vec![line_string(2), other(), line_string(2), other(), line_string(2)];
    let lines = vec![isolated(0, 2, 0, 1), isolated(1, 2, 2, 3), isolated(2, 2, 4, 5)];
    let result = concatenate_features(&features, &lines);
    assert_eq!(result.len(), 5);
    assert_eq!(merged_seeds(&result), vec![0, 1, 2]);
    assert_eq!(unchanged(&result), vec![1, 3]);
    assert!(matches!(result[3], ConcatOutput::Unchanged(1)));
}

#[test]
fn test_degenerate_linestring() {
    let features = vec![line_string(2), line_string(1), line_string(0)];
    let lines = vec![isolated(0, 2, 0, 1)];
    let result = concatenate_features(&features, &lines);
    assert_eq!(result.len(), 3);
    assert_eq!(merged_seeds(&result), vec![0]);
    assert_eq!(unchanged(&result), vec![1, 2]);
}

#[test]
fn test_r_tree_population_and_is_merged_size() {
    let features = vec![line_string(2), other(), line_string(2), line_string(1)];
    let (line_strings, other_features) = split_line_strings(&features);
    assert_eq!(line_strings.len(), 2, "Should have 2 valid LineStrings");
    assert_eq!(other_features.len(), 2, "Should have 2 other features");
    assert_eq!(line_strings, vec![0, 2]);
    assert_eq!(other_features, vec![1, 3]);
    // Two endpoints for each of the two valid line strings.
    let endpoints: Vec<Endpoint> = (0..line_strings.len()).flat_map(|k| [start(k), end(k)]).collect();
    assert_eq!(endpoints.len(), 4);
}

#[test]
fn two_touching_lines_merge_at_the_back() {
    // line 0: points A -> B (3 coords); line 1: B -> C (2 coords).
    let lines = vec![
        LineStringInfo {
            coord_count: 3,
            start_point: 0,
            end_point: 1,
            property_class: 0,
            near_start: vec![start(0)],
            near_end: vec![end(0), start(1)],
        },
        LineStringInfo {
            coord_count: 2,
            start_point: 1,
            end_point: 2,
            property_class: 0,
            near_start: vec![end(0), start(1)],
            near_end: vec![end(1)],
        },
    ];
    let chains = merge_line_strings(&lines);
    assert_eq!(chains.len(), 1);
    assert_eq!(chains[0].seed, 0);
    assert_eq!(
        chains[0].pieces,
        vec![
            Piece { line: 0, at_front: false, reversed: false, joined: false },
            Piece { line: 1, at_front: false, reversed: false, joined: true },
        ]
    );
    // The shared point B appears once.
    assert_eq!(coords(&chains[0]), vec![(0, 0), (0, 1), (1, 0), (1, 1)]);
}

#[test]
fn line_met_at_its_end_is_appended_reversed() {
    // line 0: A -> B; line 1: C -> B'. B' is near B but not equal, so nothing is dropped.
    let lines = vec![
        LineStringInfo {
            coord_count: 2,
            start_point: 0,
            end_point: 1,
            property_class: 0,
            near_start: vec![start(0)],
            near_end: vec![end(0), end(1)],
        },
        LineStringInfo {
            coord_count: 2,
            start_point: 2,
            end_point: 3,
            property_class: 0,
            near_start: vec![start(1)],
            near_end: vec![end(1), end(0)],
        },
    ];
    let chains = merge_line_strings(&lines);
    assert_eq!(chains.len(), 1);
    assert_eq!(chains[0].pieces[1], Piece { line: 1, at_front: false, reversed: true, joined: false });
    assert_eq!(coords(&chains[0]), vec![(0, 0), (0, 1), (1, 1), (1, 0)]);
}

#[test]
fn line_before_the_start_is_put_in_front_in_its_own_order() {
    // line 0: B -> C; line 1: C' -> B, its end equal to line 0's start.
    let lines = vec![
        LineStringInfo {
            coord_count: 2,
            start_point: 1,
            end_point: 2,
            property_class: 0,
            near_start: vec![start(0), end(1)],
            near_end: vec![end(0)],
        },
        LineStringInfo {
            coord_count: 3,
            start_point: 5,
            end_point: 1,
            property_class: 0,
            near_start: vec![start(1)],
            near_end: vec![start(0), end(1)],
        },
    ];
    let chains = merge_line_strings(&lines);
    assert_eq!(chains.len(), 1);
    assert_eq!(chains[0].pieces[1], Piece { line: 1, at_front: true, reversed: false, joined: true });
    // The front coordinate of line 0 is dropped, line 1 comes first in its own order.
    assert_eq!(coords(&chains[0]), vec![(1, 0), (1, 1), (1, 2), (0, 1)]);
}

#[test]
fn lines_with_other_properties_are_not_merged() {
    let lines = vec![
        LineStringInfo {
            coord_count: 2,
            start_point: 0,
            end_point: 1,
            property_class: 0,
            near_start: vec![start(0)],
            near_end: vec![end(0), start(1)],
        },
        LineStringInfo {
            coord_count: 2,
            start_point: 1,
            end_point: 2,
            property_class: 1,
            near_start: vec![end(0), start(1)],
            near_end: vec![end(1)],
        },
    ];
    let chains = merge_line_strings(&lines);
    assert_eq!(chains.len(), 2);
    assert_eq!(coords(&chains[0]), vec![(0, 0), (0, 1)]);
    assert_eq!(coords(&chains[1]), vec![(1, 0), (1, 1)]);
}

#[test]
fn every_line_is_taken_by_exactly_one_merged_line() {
    // A chain 0 - 1 - 2 and an isolated line 3.
    let lines = vec![
        LineStringInfo {
            coord_count: 2,
            start_point: 0,
            end_point: 1,
            property_class: 0,
            near_start: vec![start(0)],
            near_end: vec![end(0), start(1)],
        },
        LineStringInfo {
            coord_count: 2,
            start_point: 1,
            end_point: 2,
            property_class: 0,
            near_start: vec![end(0), start(1)],
            near_end: vec![end(1), start(2)],
        },
        LineStringInfo {
            coord_count: 2,
            start_point: 2,
            end_point: 3,
            property_class: 0,
            near_start: vec![end(1), start(2)],
            near_end: vec![end(2)],
        },
        isolated(3, 2, 10, 11),
    ];
    let chains = merge_line_strings(&lines);
    let mut taken: Vec<usize> = chains.iter().flat_map(|c| c.pieces.iter().map(|p| p.line)).collect();
    taken.sort();
    assert_eq!(taken, vec![0, 1, 2, 3]);
    assert_eq!(chains.len(), 2);
    assert_eq!(coords(&chains[0]), vec![(0, 0), (1, 0), (2, 0), (2, 1)]);
    assert_eq!(chains[1].seed, 3);
}

#[test]
fn isolated_lines_pass_through_one_by_one() {
    let lines = vec![isolated(0, 3, 0, 1), isolated(1, 2, 2, 3), isolated(2, 4, 4, 5)];
    let chains = merge_line_strings(&lines);
    assert_eq!(chains.len(), 3);
    for (k, chain) in chains.iter().enumerate() {
        assert_eq!(chain.seed, k);
        assert_eq!(chain.pieces.len(), 1);
        let expected: Vec<(usize, usize)> = (0..lines[k].coord_count).map(|i| (k, i)).collect();
        assert_eq!(coords(chain), expected);
    }
}
