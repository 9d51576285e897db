use vstd::prelude::*;

verus! {

/// Errors of collecting convex bounding boxes.
#[derive(Debug)]
pub enum Error {
    UnsupportedGeometryType,
    MissingGeometry,
    InvalidCoordinates,
}

impl Error {
    /// The text that describes the error.
    pub open spec fn spec_message(&self) -> Seq<char> {
        match self {
            Error::UnsupportedGeometryType => "Invalid geometry type"@,
            Error::MissingGeometry => "Missing geometry"@,
            Error::InvalidCoordinates => "Invalid coordinates"@,
        }
    }

    /// The text that describes the error, as its `Display` would write it.
    pub fn message(&self) -> (r: String)
        ensures
            r@ == self.spec_message(),
    {
        match self {
            Error::UnsupportedGeometryType => "Invalid geometry type".to_owned(),
            Error::MissingGeometry => "Missing geometry".to_owned(),
            Error::InvalidCoordinates => "Invalid coordinates".to_owned(),
        }
    }
}

/// The geometry type of a feature, as hull collection distinguishes it.
#[derive(PartialEq, Eq, Structural, Debug, Clone, Copy)]
pub enum FeatureShape {
    Point,
    LineString,
    Polygon { has_exterior_ring: bool },
    MultiPoint,
    MultiLineString,
    MultiPolygon,
    Other,
}

/// What hull collection learns of a feature by measuring it: whether it gives a
/// bounding box (of four numbers or more) that misses the region of interest,
/// its geometry type (`None` without geometry), how many coordinates it yields
/// (the exterior rings only, for polygons), whether all of them lie in the
/// region, and how many of them are distinct.
#[derive(PartialEq, Eq, Structural, Debug, Clone, Copy)]
pub struct HullFacts {
    pub bbox_misses_region: bool,
    pub shape: Option<FeatureShape>,
    pub coord_count: usize,
    pub all_in_region: bool,
    pub unique_count: usize,
}

/// What to collect for a feature: nothing, the bounding box of its geometry,
/// the bounding box of its coordinates, or the convex hull of its coordinates.
#[derive(PartialEq, Eq, Structural, Debug, Clone, Copy)]
pub enum HullAction {
    Skip,
    BoundingBoxOfGeometry,
    BoundingBoxOfCoords,
    ConvexHull,
}

/// Whether a bounding box can be taken of the geometry itself: points and line
/// strings always, multipoints and multi line strings when they have coordinates.
pub open spec fn has_fallback_geometry(f: HullFacts) -> bool {
    match f.shape {
        Some(FeatureShape::Point) => true,
        Some(FeatureShape::LineString) => true,
        Some(FeatureShape::MultiPoint) => f.coord_count > 0,
        Some(FeatureShape::MultiLineString) => f.coord_count > 0,
        _ => false,
    }
}

/// The features that are skipped before measuring: a bounding box that misses
/// the region, no geometry, an unsupported type, or a polygon without exterior ring.
pub open spec fn skipped_early(f: HullFacts) -> bool {
    ||| f.bbox_misses_region
    ||| f.shape is None
    ||| f.shape == Some(FeatureShape::Other)
    ||| f.shape == Some(FeatureShape::Polygon { has_exterior_ring: false })
}

/// A polygon with an exterior ring, or a multipolygon.
pub open spec fn is_polygonal(f: HullFacts) -> bool {
    f.shape == Some(FeatureShape::Polygon { has_exterior_ring: true }) || f.shape == Some(FeatureShape::MultiPolygon)
}

/// What `collect_convex_boundingboxes` collects for a feature: nothing for the
/// features skipped early or with a coordinate outside the region; the convex
/// hull where three or more coordinates are distinct; else a bounding box: of
/// the geometry, where it is a point or a line, or of the (exterior)
/// coordinates of a polygon or multipolygon that has any.
pub open spec fn spec_hull_action(f: HullFacts) -> HullAction {
    if skipped_early(f) || !f.all_in_region {
        HullAction::Skip
    } else if f.unique_count >= 3 {
        HullAction::ConvexHull
    } else if has_fallback_geometry(f) {
        HullAction::BoundingBoxOfGeometry
    } else if is_polygonal(f) && f.coord_count > 0 {
        HullAction::BoundingBoxOfCoords
    } else {
        HullAction::Skip
    }
}

/// Decides what to collect for one feature.
pub fn hull_action(f: &HullFacts) -> (r: HullAction)
    ensures
        r == spec_hull_action(*f),
{
    if f.bbox_misses_region {
        return HullAction::Skip;
    }
    match f.shape {
        None => {
            return HullAction::Skip;
        },
        Some(FeatureShape::Other) => {
            return HullAction::Skip;
        },
        Some(FeatureShape::Polygon { has_exterior_ring: false }) => {
            return HullAction::Skip;
        },
        _ => {},
    }
    if !f.all_in_region {
        return HullAction::Skip;
    }
    if f.unique_count >= 3 {
        return HullAction::ConvexHull;
    }
    let fallback = match f.shape {
        Some(FeatureShape::Point) => true,
        Some(FeatureShape::LineString) => true,
        Some(FeatureShape::MultiPoint) => f.coord_count > 0,
        Some(FeatureShape::MultiLineString) => f.coord_count > 0,
        _ => false,
    };
    let polygonal = match f.shape {
        Some(FeatureShape::Polygon { has_exterior_ring: true }) => true,
        Some(FeatureShape::MultiPolygon) => true,
        _ => false,
    };
    if fallback {
        HullAction::BoundingBoxOfGeometry
    } else if polygonal && f.coord_count > 0 {
        HullAction::BoundingBoxOfCoords
    } else {
        HullAction::Skip
    }
}

/// A geometry type whose coordinates hull collection reads: a point, a line
/// string, a polygon with an exterior ring, a multipoint, a multi line string
/// or a multipolygon.
pub open spec fn supported_shape(shape: Option<FeatureShape>) -> bool {
    match shape {
        Some(FeatureShape::Point) => true,
        Some(FeatureShape::LineString) => true,
        Some(FeatureShape::Polygon { has_exterior_ring }) => has_exterior_ring,
        Some(FeatureShape::MultiPoint) => true,
        Some(FeatureShape::MultiLineString) => true,
        Some(FeatureShape::MultiPolygon) => true,
        _ => false,
    }
}

/// What hull collection yields for a feature, in terms of its facts: a feature
/// whose bounding box misses the region, of an unsupported type, or with a
/// coordinate outside the region yields nothing; a feature of a supported type
/// lying in the region with three or more distinct coordinates yields its convex
/// hull; with fewer it never yields a hull, and a point or line string then
/// yields the bounding box of its geometry.
pub proof fn lemma_hull_action_by_facts(f: HullFacts)
    ensures
        f.bbox_misses_region ==> spec_hull_action(f) == HullAction::Skip,
        !supported_shape(f.shape) ==> spec_hull_action(f) == HullAction::Skip,
        !f.all_in_region ==> spec_hull_action(f) == HullAction::Skip,
        !f.bbox_misses_region && supported_shape(f.shape) && f.all_in_region && f.unique_count >= 3
            ==> spec_hull_action(f) == HullAction::ConvexHull,
        f.unique_count < 3 ==> spec_hull_action(f) != HullAction::ConvexHull,
        !f.bbox_misses_region && f.all_in_region && f.unique_count < 3 && (f.shape == Some(FeatureShape::Point)
            || f.shape == Some(FeatureShape::LineString)) ==> spec_hull_action(f) == HullAction::BoundingBoxOfGeometry,
{
}

} // verus!
