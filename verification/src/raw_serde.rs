use vstd::prelude::*;
use crate::json::JsonObject;
use crate::utils::error::Error;

verus! {

/// A feature collection reduced to the properties of its features.
pub struct FeatureCollection {
    pub type_field: String,
    pub features: Vec<Feature>,
}

/// A feature reduced to its properties.
pub struct Feature {
    pub type_field: String,
    pub properties: Option<JsonObject>,
}

/// The inner properties of a feature.
pub struct Properties {
    pub properties: JsonObject,
}

impl Feature {
    /// The reduced feature of a GeoJSON feature with the given properties.
    pub fn from_geojson(properties: Option<JsonObject>) -> (r: Feature)
        ensures
            r.type_field@ == "Feature"@,
            r.properties == properties,
    {
        Feature { type_field: "Feature".to_owned(), properties }
    }
}

impl FeatureCollection {
    /// The reduced collection of a GeoJSON feature collection whose features
    /// have the given properties, in order.
    pub fn from_geojson(features: Vec<Option<JsonObject>>) -> (r: FeatureCollection)
        ensures
            r.type_field@ == "FeatureCollection"@,
            r.features@.len() == features@.len(),
            forall|i: int|
                0 <= i < features@.len() ==> (#[trigger] r.features@[i]).type_field@ == "Feature"@
                    && r.features@[i].properties == features@[i],
    {
        let ghost all = features@;
        let mut out: Vec<Feature> = Vec::new();
        for p in it: features.into_iter()
            invariant
                it.seq() == all,
                out@.len() == it.index(),
                forall|i: int|
                    0 <= i < out@.len() ==> (#[trigger] out@[i]).type_field@ == "Feature"@ && out@[i].properties
                        == all[i],
        {
            out.push(Feature::from_geojson(p));
        }
        FeatureCollection { type_field: "FeatureCollection".to_owned(), features: out }
    }
}

/// Processes one reduced feature: every feature is kept as it is, whatever its type.
fn process_feature(feature: Feature) -> (r: Feature)
    ensures
        r == feature,
{
    feature
}

/// Reduces a GeoJSON feature collection, given by the properties of its
/// features, and processes each reduced feature; never fails.
pub fn process_raw_serde(geojson: Vec<Option<JsonObject>>) -> (r: Result<Vec<Feature>, Error>)
    ensures
        match r {
            Ok(features) => features@.len() == geojson@.len() && forall|i: int|
                0 <= i < geojson@.len() ==> (#[trigger] features@[i]).type_field@ == "Feature"@
                    && features@[i].properties == geojson@[i],
            Err(_) => false,
        },
{
    let collection = FeatureCollection::from_geojson(geojson);
    let ghost all = collection.features@;
    let mut processed: Vec<Feature> = Vec::new();
    for f in it: collection.features.into_iter()
        invariant
            it.seq() == all,
            processed@.len() == it.index(),
            forall|i: int| 0 <= i < processed@.len() ==> #[trigger] processed@[i] == all[i],
    {
        processed.push(process_feature(f));
    }
    Ok(processed)
}

} // verus!
