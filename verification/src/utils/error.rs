use vstd::prelude::*;

verus! {

/// Errors of the GeoJSON processing functions.
#[derive(Debug)]
pub enum Error {
    UnsupportedGeometryType,
    MissingGeometry,
    InvalidCoordinates,
    InvalidFeature,
    InvalidFeatureCollection,
    InvalidFeatureProperties,
    InvalidFeatureGeometry,
    InvalidObjectId(String),
    /// The text of the error that a geometry conversion reported.
    GeometryConversionError(String),
}

impl Error {
    /// The text that describes the error.
    pub open spec fn spec_message(&self) -> Seq<char> {
        match self {
            Error::UnsupportedGeometryType => "Invalid geometry type"@,
            Error::MissingGeometry => "Missing geometry"@,
            Error::InvalidCoordinates => "Invalid coordinates"@,
            Error::InvalidFeature => "Invalid feature"@,
            Error::InvalidFeatureCollection => "Invalid feature collection"@,
            Error::InvalidFeatureProperties => "Invalid feature properties"@,
            Error::InvalidFeatureGeometry => "Invalid feature geometry"@,
            Error::InvalidObjectId(s) => "Invalid objectId: "@ + s@,
            Error::GeometryConversionError(s) => "Error converting geometry: "@ + s@,
        }
    }

    /// The text that describes the error, as its `Display` would write it.
    pub fn message(&self) -> (r: String)
        ensures
            r@ == self.spec_message(),
    {
        match self {
            Error::UnsupportedGeometryType => "Invalid geometry type".to_owned(),
            Error::MissingGeometry => "Missing geometry".to_owned(),
            Error::InvalidCoordinates => "Invalid coordinates".to_owned(),
            Error::InvalidFeature => "Invalid feature".to_owned(),
            Error::InvalidFeatureCollection => "Invalid feature collection".to_owned(),
            Error::InvalidFeatureProperties => "Invalid feature properties".to_owned(),
            Error::InvalidFeatureGeometry => "Invalid feature geometry".to_owned(),
            Error::InvalidObjectId(s) => {
                let mut m = "Invalid objectId: ".to_owned();
                m.append(s.as_str());
                m
            },
            Error::GeometryConversionError(s) => {
                let mut m = "Error converting geometry: ".to_owned();
                m.append(s.as_str());
                m
            },
        }
    }
}

} // verus!
