use vstd::prelude::*;
use crate::domain::{ConvertedGeometry, FeatureId};
use crate::json::JsonObject;

verus! {

/// Errors of raw feature processing.
#[derive(Debug)]
pub enum Error {
    InvalidFeatureCollection,
}

impl Error {
    /// The text that describes the error.
    pub open spec fn spec_message(&self) -> Seq<char> {
        "Invalid feature collection"@
    }

    /// The text that describes the error, as its `Display` would write it.
    pub fn message(&self) -> (r: String)
        ensures
            r@ == self.spec_message(),
    {
        "Invalid feature collection".to_owned()
    }
}

/// A feature as raw processing reads it: its identifier, what converting its
/// geometry gave (`None` where it has none or the conversion failed), and the
/// members carried over unchanged (its bounding box and foreign members).
pub struct RawFeatureInput<G, F> {
    pub id: Option<FeatureId>,
    pub geometry: Option<ConvertedGeometry<G>>,
    pub rest: F,
}

/// A processed feature: the identifier and carried members of the input, the
/// geometry kept, and an empty property map.
pub struct RawFeature<G, F> {
    pub id: Option<FeatureId>,
    pub geometry: Option<G>,
    pub properties: JsonObject,
    pub rest: F,
}

/// A GeoJSON document for raw processing.
pub enum RawGeoJson<G, F> {
    Geometry,
    Feature,
    FeatureCollection(Vec<RawFeatureInput<G, F>>),
}

/// The geometry raw processing keeps: points, polygons, multipolygons and line
/// strings, closed or not; any other geometry is dropped.
pub open spec fn raw_kept_geometry<G>(g: Option<ConvertedGeometry<G>>) -> Option<G> {
    match g {
        Some(ConvertedGeometry::Point(x)) => Some(x),
        Some(ConvertedGeometry::Polygon(x)) => Some(x),
        Some(ConvertedGeometry::MultiPolygon(x)) => Some(x),
        Some(ConvertedGeometry::LineString { geometry, .. }) => Some(geometry),
        _ => None,
    }
}

/// Processes one feature without identifying it: keeps its identifier, bounding
/// box and foreign members, keeps the geometry that `raw_kept_geometry` keeps,
/// and replaces its properties by an empty map.
pub fn process_raw_feature<G, F>(feature: RawFeatureInput<G, F>) -> (r: RawFeature<G, F>)
    ensures
        r.id == feature.id,
        r.geometry == raw_kept_geometry(feature.geometry),
        r.properties.entries@.len() == 0,
        r.rest == feature.rest,
{
    let RawFeatureInput { id, geometry, rest } = feature;
    let kept = match geometry {
        Some(ConvertedGeometry::Point(x)) => Some(x),
        Some(ConvertedGeometry::Polygon(x)) => Some(x),
        Some(ConvertedGeometry::MultiPolygon(x)) => Some(x),
        Some(ConvertedGeometry::LineString { closed: _, geometry: x }) => Some(x),
        _ => None,
    };
    RawFeature { id, geometry: kept, properties: JsonObject::new(), rest }
}

/// Processes every feature of a feature collection; any other document is refused.
pub fn process_raw_geojson<G, F>(geojson: RawGeoJson<G, F>) -> (r: Result<(), Error>)
    ensures
        r is Ok <==> geojson is FeatureCollection,
{
    let features = match geojson {
        RawGeoJson::FeatureCollection(fs) => fs,
        _ => {
            return Err(Error::InvalidFeatureCollection);
        },
    };
    let mut processed: Vec<RawFeature<G, F>> = Vec::new();
    for f in features.into_iter() {
        processed.push(process_raw_feature(f));
    }
    Ok(())
}

} // verus!
