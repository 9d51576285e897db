use vstd::prelude::*;
use crate::collect_convex_boundingboxes::FeatureShape;

verus! {

/// Errors of picking features by a bounding box.
#[derive(Debug)]
pub enum Error {
    UnsupportedGeometryType,
    MissingGeometry,
    InvalidCoordinates,
}

impl Error {
    /// The text that describes the error.
    pub open spec fn spec_message(&self) -> Seq<char> {
        match self {
            Error::UnsupportedGeometryType => "Invalid geometry type"@,
            Error::MissingGeometry => "Missing geometry"@,
            Error::InvalidCoordinates => "Invalid coordinates"@,
        }
    }

    /// The text that describes the error, as its `Display` would write it.
    pub fn message(&self) -> (r: String)
        ensures
            r@ == self.spec_message(),
    {
        match self {
            Error::UnsupportedGeometryType => "Invalid geometry type".to_owned(),
            Error::MissingGeometry => "Missing geometry".to_owned(),
            Error::InvalidCoordinates => "Invalid coordinates".to_owned(),
        }
    }
}

/// What picking learns of a feature: its geometry type (`None` without
/// geometry) and, for the supported types, whether the bounding polygon
/// contains or intersects it.
#[derive(PartialEq, Eq, Structural, Debug, Clone, Copy)]
pub struct PickFacts {
    pub shape: Option<FeatureShape>,
    pub meets_bbox: bool,
}

/// Points, line strings, polygons with an exterior ring and multipoints are
/// picked where the bounding polygon contains or intersects them; other
/// features never.
pub open spec fn picked(f: PickFacts) -> bool {
    match f.shape {
        Some(FeatureShape::Point) => f.meets_bbox,
        Some(FeatureShape::LineString) => f.meets_bbox,
        Some(FeatureShape::Polygon { has_exterior_ring }) => has_exterior_ring && f.meets_bbox,
        Some(FeatureShape::MultiPoint) => f.meets_bbox,
        _ => false,
    }
}

/// The indices of the picked features, in order; never fails.
pub fn pick_features_by_boundingbox(features: &Vec<PickFacts>) -> (r: Result<Vec<usize>, Error>)
    ensures
        match r {
            Ok(selected) => {
                &&& forall|k: int| 0 <= k < selected@.len() ==> #[trigger] selected@[k] < features@.len()
                    && picked(features@[selected@[k] as int])
                &&& forall|k1: int, k2: int| 0 <= k1 < k2 < selected@.len() ==> #[trigger] selected@[k1] < #[trigger] selected@[k2]
                &&& forall|i: int| 0 <= i < features@.len() && #[trigger] picked(features@[i]) ==> selected@.contains(i as usize)
            },
            Err(_) => false,
        },
{
    let mut selected: Vec<usize> = Vec::new();
    let mut i: usize = 0;
    while i < features.len()
        invariant
            0 <= i <= features@.len(),
            forall|k: int| 0 <= k < selected@.len() ==> #[trigger] selected@[k] < i && picked(features@[selected@[k] as int]),
            forall|k1: int, k2: int| 0 <= k1 < k2 < selected@.len() ==> #[trigger] selected@[k1] < #[trigger] selected@[k2],
            forall|j: int| 0 <= j < i && #[trigger] picked(features@[j]) ==> selected@.contains(j as usize),
        decreases features@.len() - i,
    {
        let f = features[i];
        let take = match f.shape {
            Some(FeatureShape::Point) => f.meets_bbox,
            Some(FeatureShape::LineString) => f.meets_bbox,
            Some(FeatureShape::Polygon { has_exterior_ring }) => has_exterior_ring && f.meets_bbox,
            Some(FeatureShape::MultiPoint) => f.meets_bbox,
            _ => false,
        };
        let ghost before = selected@;
        if take {
            selected.push(i);
            proof {
                assert forall|j: int| 0 <= j < i + 1 && #[trigger] picked(features@[j]) implies selected@.contains(j as usize) by {
                    if j < i {
                        let k = choose|k: int| 0 <= k < before.len() && before[k] == j as usize;
                        assert(selected@[k] == j as usize);
                    } else {
                        assert(selected@[selected@.len() - 1] == i);
                    }
                }
            }
        }
        i = i + 1;
    }
    Ok(selected)
}

} // verus!
