use vstd::prelude::*;
use crate::collect_convex_boundingboxes::FeatureShape;
use crate::utils::error::Error;

verus! {

/// What picking learns of a feature: its geometry type (`None` without
/// geometry) and, for the supported types, whether the bounding polygon
/// contains or intersects it.
#[derive(PartialEq, Eq, Structural, Debug, Clone, Copy)]
pub struct PickFacts {
    pub shape: Option<FeatureShape>,
    pub meets_bbox: bool,
}

/// Points, line strings, polygons and multipoints are
/// picked where the bounding polygon contains or intersects them; other
/// features never.
pub open spec fn picked(f: PickFacts) -> bool {
    match f.shape {
        Some(FeatureShape::Point) => f.meets_bbox,
        Some(FeatureShape::LineString) => f.meets_bbox,
        Some(FeatureShape::Polygon { .. }) => f.meets_bbox,
        Some(FeatureShape::MultiPoint) => f.meets_bbox,
        _ => false,
    }
}

/// The indices of the picked features, in order; never fails.
pub fn pick_features_by_boundingbox(features: &Vec<PickFacts>) -> (r: Result<Vec<usize>, Error>)
    ensures
        match r {
            Ok(selected) => {
                &&& forall|k: int| 0 <= k < selected@.len() ==> #[trigger] selected@[k] < features@.len()
                    && picked(features@[selected@[k] as int])
                &&& forall|k1: int, k2: int| 0 <= k1 < k2 < selected@.len() ==> #[trigger] selected@[k1] < #[trigger] selected@[k2]
                &&& forall|i: int| 0 <= i < features@.len() && #[trigger] picked(features@[i]) ==> selected@.contains(i as usize)
            },
            Err(_) => false,
        },
{
    let mut selected: Vec<usize> = Vec::new();
    let mut i: usize = 0;
    while i < features.len()
        invariant
            0 <= i <= features@.len(),
            forall|k: int| 0 <= k < selected@.len() ==> #[trigger] selected@[k] < i && picked(features@[selected@[k] as int]),
            forall|k1: int, k2: int| 0 <= k1 < k2 < selected@.len() ==> #[trigger] selected@[k1] < #[trigger] selected@[k2],
            forall|j: int| 0 <= j < i && #[trigger] picked(features@[j]) ==> selected@.contains(j as usize),
        decreases features@.len() - i,
    {
        let f = features[i];
        let take = match f.shape {
            Some(FeatureShape::Point) => f.meets_bbox,
            Some(FeatureShape::LineString) => f.meets_bbox,
            Some(FeatureShape::Polygon { .. }) => f.meets_bbox,
            Some(FeatureShape::MultiPoint) => f.meets_bbox,
            _ => false,
        };
        let ghost before = selected@;
        if take {
            selected.push(i);
            proof {
                assert forall|j: int| 0 <= j < i + 1 && #[trigger] picked(features@[j]) implies selected@.contains(j as usize) by {
                    if j < i {
                        let k = choose|k: int| 0 <= k < before.len() && before[k] == j as usize;
                        assert(selected@[k] == j as usize);
                    } else {
                        assert(selected@[selected@.len() - 1] == i);
                    }
                }
            }
        }
        i = i + 1;
    }
    Ok(selected)
}

} // verus!
