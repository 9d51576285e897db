use vstd::prelude::*;
use crate::collect_convex_boundingboxes::FeatureShape;

verus! {

/// What collecting buffered rectangles learns of a feature by measuring it:
/// whether the bounding box it gives is refused (shorter than four numbers, or
/// missing the region of interest), its geometry type (`None` without
/// geometry), whether all its coordinates lie in the region, and how many of
/// its projected coordinates are distinct.
#[derive(PartialEq, Eq, Structural, Debug, Clone, Copy)]
pub struct BufferFacts {
    pub bbox_rejected: bool,
    pub shape: Option<FeatureShape>,
    pub all_in_region: bool,
    pub unique_count: usize,
}

/// The rectangle to buffer for a feature: none, the bounding box of its
/// projected geometry, or the bounding box of the convex hull of its projected
/// coordinates.
#[derive(PartialEq, Eq, Structural, Debug, Clone, Copy)]
pub enum BufferAction {
    Skip,
    BoundingBoxOfGeometry,
    BoundingBoxOfHull,
}

/// Only points and line strings lying wholly in the region are collected;
/// with fewer than three distinct coordinates their own bounding box is taken,
/// else that of their convex hull.
pub open spec fn spec_buffer_action(f: BufferFacts) -> BufferAction {
    if f.bbox_rejected || !f.all_in_region {
        BufferAction::Skip
    } else if f.shape == Some(FeatureShape::Point) || f.shape == Some(FeatureShape::LineString) {
        if f.unique_count < 3 {
            BufferAction::BoundingBoxOfGeometry
        } else {
            BufferAction::BoundingBoxOfHull
        }
    } else {
        BufferAction::Skip
    }
}

/// Decides which rectangle to buffer for one feature.
pub fn buffer_action(f: &BufferFacts) -> (r: BufferAction)
    ensures
        r == spec_buffer_action(*f),
{
    if f.bbox_rejected {
        return BufferAction::Skip;
    }
    match f.shape {
        Some(FeatureShape::Point) => {},
        Some(FeatureShape::LineString) => {},
        _ => {
            return BufferAction::Skip;
        },
    }
    if !f.all_in_region {
        return BufferAction::Skip;
    }
    if f.unique_count < 3 {
        BufferAction::BoundingBoxOfGeometry
    } else {
        BufferAction::BoundingBoxOfHull
    }
}

/// Which rectangle is buffered, in terms of a feature's facts: none for a
/// refused bounding box, a coordinate outside the region, or any type but a
/// point or a line string; for a point or line string in the region, the box of
/// its geometry with fewer than three distinct projected coordinates and the box
/// of their hull with three or more.
pub proof fn lemma_buffer_action_by_facts(f: BufferFacts)
    ensures
        f.bbox_rejected ==> spec_buffer_action(f) == BufferAction::Skip,
        !f.all_in_region ==> spec_buffer_action(f) == BufferAction::Skip,
        f.shape != Some(FeatureShape::Point) && f.shape != Some(FeatureShape::LineString)
            ==> spec_buffer_action(f) == BufferAction::Skip,
        !f.bbox_rejected && f.all_in_region && (f.shape == Some(FeatureShape::Point) || f.shape == Some(
            FeatureShape::LineString,
        )) ==> (spec_buffer_action(f) == if f.unique_count < 3 {
            BufferAction::BoundingBoxOfGeometry
        } else {
            BufferAction::BoundingBoxOfHull
        }),
{
}

} // verus!
