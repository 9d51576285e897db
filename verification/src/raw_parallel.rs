use vstd::prelude::*;
use crate::domain::ConvertedGeometry;
use crate::json::JsonObject;
use crate::raw::{RawFeature, RawFeatureInput, RawGeoJson};
use crate::utils::error::Error;

verus! {

/// The geometry kept by the parallel processing: whatever the conversion gave.
pub open spec fn converted_geometry<G>(g: Option<ConvertedGeometry<G>>) -> Option<G> {
    match g {
        Some(ConvertedGeometry::Point(x)) => Some(x),
        Some(ConvertedGeometry::Polygon(x)) => Some(x),
        Some(ConvertedGeometry::MultiPolygon(x)) => Some(x),
        Some(ConvertedGeometry::LineString { geometry, .. }) => Some(geometry),
        Some(ConvertedGeometry::Other(x)) => Some(x),
        None => None,
    }
}

/// Processes one feature: keeps its identifier, bounding box, foreign members
/// and converted geometry, and replaces its properties by an empty map.
pub fn process_raw_feature<G, F>(feature: RawFeatureInput<G, F>) -> (r: RawFeature<G, F>)
    ensures
        r.id == feature.id,
        r.geometry == converted_geometry(feature.geometry),
        r.properties.entries@.len() == 0,
        r.rest == feature.rest,
{
    let RawFeatureInput { id, geometry, rest } = feature;
    let kept = match geometry {
        Some(ConvertedGeometry::Point(x)) => Some(x),
        Some(ConvertedGeometry::Polygon(x)) => Some(x),
        Some(ConvertedGeometry::MultiPolygon(x)) => Some(x),
        Some(ConvertedGeometry::LineString { closed: _, geometry: x }) => Some(x),
        Some(ConvertedGeometry::Other(x)) => Some(x),
        None => None,
    };
    RawFeature { id, geometry: kept, properties: JsonObject::new(), rest }
}

/// Checks that the document is a feature collection, whose features are then
/// processed chunk by chunk in parallel (by the caller, with `process_raw_feature`).
/// Gives the features to process; any other document is refused.
pub fn process_raw_geojson_parallel<G, F>(geojson: RawGeoJson<G, F>) -> (r: Result<
    Vec<RawFeatureInput<G, F>>,
    Error,
>)
    ensures
        match geojson {
            RawGeoJson::FeatureCollection(fs) => r == Ok::<Vec<RawFeatureInput<G, F>>, Error>(fs),
            _ => r matches Err(Error::InvalidFeatureCollection),
        },
{
    match geojson {
        RawGeoJson::FeatureCollection(fs) => Ok(fs),
        _ => Err(Error::InvalidFeatureCollection),
    }
}

} // verus!
