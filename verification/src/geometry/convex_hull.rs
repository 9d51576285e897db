use vstd::prelude::*;
use crate::collect_convex_boundingboxes::{
    has_fallback_geometry, skipped_early, supported_shape, FeatureShape, HullAction, HullFacts,
};

verus! {

/// What `process_single_feature` makes of a feature: nothing for the features
/// skipped early, for a polygon or multipolygon without coordinates, or with a
/// coordinate outside the region; the convex hull where three or more
/// coordinates are distinct; else the bounding box of the geometry where there
/// is one to take, or of the coordinates.
pub open spec fn spec_single_feature_action(f: HullFacts) -> HullAction {
    if skipped_early(f) || !f.all_in_region {
        HullAction::Skip
    } else if (f.shape == Some(FeatureShape::Polygon { has_exterior_ring: true }) || f.shape == Some(
        FeatureShape::MultiPolygon,
    )) && f.coord_count == 0 {
        HullAction::Skip
    } else if f.unique_count >= 3 {
        HullAction::ConvexHull
    } else if has_fallback_geometry(f) {
        HullAction::BoundingBoxOfGeometry
    } else if f.coord_count > 0 {
        HullAction::BoundingBoxOfCoords
    } else {
        HullAction::Skip
    }
}

/// Decides what to make of one feature.
pub fn single_feature_action(f: &HullFacts) -> (r: HullAction)
    ensures
        r == spec_single_feature_action(*f),
{
    if f.bbox_misses_region {
        return HullAction::Skip;
    }
    let polygonal = match f.shape {
        None => {
            return HullAction::Skip;
        },
        Some(FeatureShape::Other) => {
            return HullAction::Skip;
        },
        Some(FeatureShape::Polygon { has_exterior_ring: false }) => {
            return HullAction::Skip;
        },
        Some(FeatureShape::Polygon { has_exterior_ring: true }) => true,
        Some(FeatureShape::MultiPolygon) => true,
        _ => false,
    };
    if !f.all_in_region {
        return HullAction::Skip;
    }
    if polygonal && f.coord_count == 0 {
        return HullAction::Skip;
    }
    if f.unique_count >= 3 {
        return HullAction::ConvexHull;
    }
    let fallback = match f.shape {
        Some(FeatureShape::Point) => true,
        Some(FeatureShape::LineString) => true,
        Some(FeatureShape::MultiPoint) => f.coord_count > 0,
        Some(FeatureShape::MultiLineString) => f.coord_count > 0,
        _ => false,
    };
    if fallback {
        HullAction::BoundingBoxOfGeometry
    } else if f.coord_count > 0 {
        HullAction::BoundingBoxOfCoords
    } else {
        HullAction::Skip
    }
}

/// What a single feature yields, in terms of its facts: nothing where its
/// bounding box misses the region, its type is unsupported or a coordinate lies
/// outside the region; its convex hull where it is of a supported type, lies in
/// the region and has three or more distinct coordinates; never a hull with
/// fewer; and a bounding box where it has coordinates but fewer than three
/// distinct ones.
pub proof fn lemma_single_feature_action_by_facts(f: HullFacts)
    ensures
        f.bbox_misses_region ==> spec_single_feature_action(f) == HullAction::Skip,
        !supported_shape(f.shape) ==> spec_single_feature_action(f) == HullAction::Skip,
        !f.all_in_region ==> spec_single_feature_action(f) == HullAction::Skip,
        !f.bbox_misses_region && supported_shape(f.shape) && f.all_in_region && f.unique_count >= 3
            && f.coord_count > 0 ==> spec_single_feature_action(f) == HullAction::ConvexHull,
        f.unique_count < 3 ==> spec_single_feature_action(f) != HullAction::ConvexHull,
        !f.bbox_misses_region && supported_shape(f.shape) && f.all_in_region && f.unique_count < 3
            && f.coord_count > 0 ==> (spec_single_feature_action(f) == HullAction::BoundingBoxOfGeometry
            || spec_single_feature_action(f) == HullAction::BoundingBoxOfCoords),
{
}

} // verus!
