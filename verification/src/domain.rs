use vstd::prelude::*;
use crate::json::{lookup, parse_json_object, parsed_json_object, JsonObject, JsonValue};

verus! {

/// Errors raised while turning GeoJSON features into domain entities.
#[derive(Debug)]
pub enum Error {
    UnsupportedGeometryType,
    MissingGeometry,
    InvalidCoordinates,
    InvalidFeature,
    InvalidFeatureCollection,
    InvalidFeatureProperties,
    InvalidFeatureGeometry,
    InvalidObjectId(String),
    /// The text of the error that a geometry conversion reported.
    GeometryConversionError(String),
}

impl Error {
    /// The text that describes the error.
    pub open spec fn spec_message(&self) -> Seq<char> {
        match self {
            Error::UnsupportedGeometryType => "Invalid geometry type"@,
            Error::MissingGeometry => "Missing geometry"@,
            Error::InvalidCoordinates => "Invalid coordinates"@,
            Error::InvalidFeature => "Invalid feature"@,
            Error::InvalidFeatureCollection => "Invalid feature collection"@,
            Error::InvalidFeatureProperties => "Invalid feature properties"@,
            Error::InvalidFeatureGeometry => "Invalid feature geometry"@,
            Error::InvalidObjectId(s) => "Invalid objectId: "@ + s@,
            Error::GeometryConversionError(s) => "Error converting geometry: "@ + s@,
        }
    }

    /// The text that describes the error, as its `Display` would write it.
    pub fn message(&self) -> (r: String)
        ensures
            r@ == self.spec_message(),
    {
        match self {
            Error::UnsupportedGeometryType => "Invalid geometry type".to_owned(),
            Error::MissingGeometry => "Missing geometry".to_owned(),
            Error::InvalidCoordinates => "Invalid coordinates".to_owned(),
            Error::InvalidFeature => "Invalid feature".to_owned(),
            Error::InvalidFeatureCollection => "Invalid feature collection".to_owned(),
            Error::InvalidFeatureProperties => "Invalid feature properties".to_owned(),
            Error::InvalidFeatureGeometry => "Invalid feature geometry".to_owned(),
            Error::InvalidObjectId(s) => {
                let mut m = "Invalid objectId: ".to_owned();
                m.append(s.as_str());
                m
            },
            Error::GeometryConversionError(s) => {
                let mut m = "Error converting geometry: ".to_owned();
                m.append(s.as_str());
                m
            },
        }
    }
}

/// The object kinds that a feature's inner `objectId` property can name.
#[derive(PartialEq, Eq, Structural, Debug, Clone, Copy)]
pub enum ObjectId {
    Kugelmarker,
    Versorgungspunkt,
    Betriebsstelle,
    Bohrpunkt,
    Kabelschacht,
    Building,
}

/// The object kind that the text `s` names, if it names one.
pub open spec fn object_id_named(s: Seq<char>) -> Option<ObjectId> {
    if s == "Kugelmarker"@ {
        Some(ObjectId::Kugelmarker)
    } else if s == "Versorgungspunkt"@ {
        Some(ObjectId::Versorgungspunkt)
    } else if s == "Betriebsstelle"@ {
        Some(ObjectId::Betriebsstelle)
    } else if s == "Bohrpunkt"@ {
        Some(ObjectId::Bohrpunkt)
    } else if s == "Kabelschacht"@ {
        Some(ObjectId::Kabelschacht)
    } else if s == "Gebaeude"@ {
        Some(ObjectId::Building)
    } else {
        None
    }
}

impl TryFrom<String> for ObjectId {
    type Error = Error;

    fn try_from(value: String) -> (r: Result<ObjectId, Error>) {
        if value == "Kugelmarker".to_owned() {
            Ok(ObjectId::Kugelmarker)
        } else if value == "Versorgungspunkt".to_owned() {
            Ok(ObjectId::Versorgungspunkt)
        } else if value == "Betriebsstelle".to_owned() {
            Ok(ObjectId::Betriebsstelle)
        } else if value == "Bohrpunkt".to_owned() {
            Ok(ObjectId::Bohrpunkt)
        } else if value == "Kabelschacht".to_owned() {
            Ok(ObjectId::Kabelschacht)
        } else if value == "Gebaeude".to_owned() {
            Ok(ObjectId::Building)
        } else {
            Err(Error::InvalidObjectId(value))
        }
    }
}

impl vstd::std_specs::convert::TryFromSpecImpl<String> for ObjectId {
    open spec fn obeys_try_from_spec() -> bool {
        true
    }

    open spec fn try_from_spec(v: String) -> Result<ObjectId, Error> {
        match object_id_named(v@) {
            Some(id) => Ok(id),
            None => Err(Error::InvalidObjectId(v)),
        }
    }
}


/// The identifier of a GeoJSON feature. A numeric identifier is kept as the
/// text that `to_string` gives for it.
pub enum FeatureId {
    Text(String),
    Number(String),
}

/// What converting a feature's geometry gave, the geometry carried as `G`.
pub enum ConvertedGeometry<G> {
    Point(G),
    Polygon(G),
    MultiPolygon(G),
    /// A line string, with whether its first and last coordinates coincide.
    LineString { closed: bool, geometry: G },
    /// Any other geometry type.
    Other(G),
}

/// The results of the two geometry conversions that classification may use:
/// into a point, and into a general geometry. `None` stands for a failed conversion.
pub struct GeometryConversions<Pt, G> {
    pub as_point: Option<Pt>,
    pub as_geometry: Option<ConvertedGeometry<G>>,
}

/// A GeoJSON feature as classification reads it: its identifier, its properties,
/// what converting its geometry gave, and in `original` the feature itself for
/// the entities that keep it.
pub struct FeatureRecord<Pt, G, F> {
    pub id: Option<FeatureId>,
    pub properties: Option<JsonObject>,
    pub geometry: Option<GeometryConversions<Pt, G>>,
    pub original: F,
}

/// A GeoJSON document: a geometry, a single feature, or a feature collection.
pub enum GeoJsonInput<Pt, G, F> {
    Geometry,
    Feature,
    FeatureCollection(Vec<FeatureRecord<Pt, G, F>>),
}

pub struct CapturedMarker<Pt> {
    pub id: String,
    pub geometry: Pt,
    pub original_inner_properties: JsonObject,
}

pub struct SupplyPoint<Pt> {
    pub id: String,
    pub geometry: Pt,
    pub original_inner_properties: JsonObject,
}

pub struct OperationSite<Pt> {
    pub id: String,
    pub geometry: Pt,
    pub original_inner_properties: JsonObject,
}

pub struct DrillingPoint<Pt> {
    pub id: String,
    pub geometry: Pt,
    pub original_inner_properties: JsonObject,
}

pub struct CableTunnel<Pt> {
    pub id: String,
    pub geometry: Pt,
    pub original_inner_properties: JsonObject,
}

pub struct Building<G> {
    pub id: String,
    pub geometry: G,
    pub original_inner_properties: JsonObject,
}

/// A feature that could not be identified: its identifier and the feature itself.
pub struct UnknownFeature<F> {
    pub id: Option<FeatureId>,
    pub feature: F,
}

/// A feature identified as one of the domain's entities.
pub enum DomainEntity<Pt, G, F> {
    CapturedMarker(CapturedMarker<Pt>),
    SupplyPoint(SupplyPoint<Pt>),
    OperationSite(OperationSite<Pt>),
    DrillingPoint(DrillingPoint<Pt>),
    CableTunnel(CableTunnel<Pt>),
    Building(Building<G>),
    Unknown(UnknownFeature<F>),
}

/// The kind of a domain entity.
#[derive(PartialEq, Eq, Structural, Debug, Clone, Copy)]
pub enum EntityKind {
    CapturedMarker,
    SupplyPoint,
    OperationSite,
    DrillingPoint,
    CableTunnel,
    Building,
    Unknown,
}

impl<Pt, G, F> DomainEntity<Pt, G, F> {
    pub open spec fn kind(&self) -> EntityKind {
        match self {
            DomainEntity::CapturedMarker(_) => EntityKind::CapturedMarker,
            DomainEntity::SupplyPoint(_) => EntityKind::SupplyPoint,
            DomainEntity::OperationSite(_) => EntityKind::OperationSite,
            DomainEntity::DrillingPoint(_) => EntityKind::DrillingPoint,
            DomainEntity::CableTunnel(_) => EntityKind::CableTunnel,
            DomainEntity::Building(_) => EntityKind::Building,
            DomainEntity::Unknown(_) => EntityKind::Unknown,
        }
    }

    /// The identifier an entity was built with; for an unknown feature, its
    /// identifier where that is text.
    pub open spec fn spec_id(&self) -> Option<Seq<char>> {
        match self {
            DomainEntity::CapturedMarker(e) => Some(e.id@),
            DomainEntity::SupplyPoint(e) => Some(e.id@),
            DomainEntity::OperationSite(e) => Some(e.id@),
            DomainEntity::DrillingPoint(e) => Some(e.id@),
            DomainEntity::CableTunnel(e) => Some(e.id@),
            DomainEntity::Building(e) => Some(e.id@),
            DomainEntity::Unknown(u) => match u.id {
                Some(FeatureId::Text(s)) => Some(s@),
                _ => None,
            },
        }
    }

    /// The entity's identifier; a numeric identifier of an unknown feature gives `None`.
    pub fn id(&self) -> (r: Option<&String>)
        ensures
            self.spec_id() == match r {
                Some(s) => Some(s@),
                None => None::<Seq<char>>,
            },
    {
        match self {
            DomainEntity::CapturedMarker(e) => Some(&e.id),
            DomainEntity::SupplyPoint(e) => Some(&e.id),
            DomainEntity::OperationSite(e) => Some(&e.id),
            DomainEntity::DrillingPoint(e) => Some(&e.id),
            DomainEntity::CableTunnel(e) => Some(&e.id),
            DomainEntity::Building(e) => Some(&e.id),
            DomainEntity::Unknown(u) => match &u.id {
                Some(FeatureId::Text(s)) => Some(s),
                _ => None,
            },
        }
    }

    pub fn is_marker(&self) -> (r: bool)
        ensures
            r == (self.kind() == EntityKind::CapturedMarker),
    {
        matches!(self, DomainEntity::CapturedMarker(_))
    }

    pub fn is_supply_point(&self) -> (r: bool)
        ensures
            r == (self.kind() == EntityKind::SupplyPoint),
    {
        matches!(self, DomainEntity::SupplyPoint(_))
    }

    pub fn is_operation_site(&self) -> (r: bool)
        ensures
            r == (self.kind() == EntityKind::OperationSite),
    {
        matches!(self, DomainEntity::OperationSite(_))
    }

    pub fn is_drilling_point(&self) -> (r: bool)
        ensures
            r == (self.kind() == EntityKind::DrillingPoint),
    {
        matches!(self, DomainEntity::DrillingPoint(_))
    }

    pub fn is_cable_tunnel(&self) -> (r: bool)
        ensures
            r == (self.kind() == EntityKind::CableTunnel),
    {
        matches!(self, DomainEntity::CableTunnel(_))
    }

    pub fn is_unknown(&self) -> (r: bool)
        ensures
            r == (self.kind() == EntityKind::Unknown),
    {
        matches!(self, DomainEntity::Unknown(_))
    }

    pub fn is_building(&self) -> (r: bool)
        ensures
            r == (self.kind() == EntityKind::Building),
    {
        matches!(self, DomainEntity::Building(_))
    }
}

/// The text an entity takes as its identifier: the feature's identifier, or
/// "No ID" where it has none.
pub open spec fn feature_id_text(id: Option<FeatureId>) -> Seq<char> {
    match id {
        Some(FeatureId::Text(s)) => s@,
        Some(FeatureId::Number(s)) => s@,
        None => "No ID"@,
    }
}

/// The inner properties of a feature: the object under the outer `properties`
/// key, or the object that the text stored there parses to.
pub open spec fn inner_properties<Pt, G, F>(r: FeatureRecord<Pt, G, F>) -> Option<JsonObject> {
    match r.properties {
        None => None,
        Some(outer) => match lookup(outer.entries@, "properties"@) {
            Some(JsonValue::Text(text)) => parsed_json_object(text@),
            Some(JsonValue::Object(o)) => Some(o),
            _ => None,
        },
    }
}

/// The object kind named by the text under the inner `objectId` key.
pub open spec fn record_object_id<Pt, G, F>(r: FeatureRecord<Pt, G, F>) -> Option<ObjectId> {
    match inner_properties(r) {
        Some(inner) => match lookup(inner.entries@, "objectId"@) {
            Some(JsonValue::Text(s)) => object_id_named(s@),
            _ => None,
        },
        None => None,
    }
}

/// Whether a building may take the converted geometry: a polygon, a
/// multipolygon, or a closed line string.
pub open spec fn building_geometry_accepted<G>(g: ConvertedGeometry<G>) -> bool {
    match g {
        ConvertedGeometry::Point(_) => false,
        ConvertedGeometry::Polygon(_) => true,
        ConvertedGeometry::MultiPolygon(_) => true,
        ConvertedGeometry::LineString { closed, .. } => closed,
        ConvertedGeometry::Other(_) => false,
    }
}

pub open spec fn building_geometry<G>(g: ConvertedGeometry<G>) -> G {
    match g {
        ConvertedGeometry::Point(x) => x,
        ConvertedGeometry::Polygon(x) => x,
        ConvertedGeometry::MultiPolygon(x) => x,
        ConvertedGeometry::LineString { geometry, .. } => geometry,
        ConvertedGeometry::Other(x) => x,
    }
}

pub open spec fn point_kind(id: ObjectId) -> EntityKind {
    match id {
        ObjectId::Kugelmarker => EntityKind::CapturedMarker,
        ObjectId::Versorgungspunkt => EntityKind::SupplyPoint,
        ObjectId::Betriebsstelle => EntityKind::OperationSite,
        ObjectId::Bohrpunkt => EntityKind::DrillingPoint,
        ObjectId::Kabelschacht => EntityKind::CableTunnel,
        ObjectId::Building => EntityKind::Building,
    }
}

/// The kind a feature is identified as. A point kind needs a geometry that
/// converts to a point; a building needs one that `building_geometry_accepted`
/// takes; everything else is unknown.
pub open spec fn entity_kind<Pt, G, F>(r: FeatureRecord<Pt, G, F>) -> EntityKind {
    match record_object_id(r) {
        None => EntityKind::Unknown,
        Some(ObjectId::Building) => match r.geometry {
            Some(conv) => match conv.as_geometry {
                Some(g) => if building_geometry_accepted(g) {
                    EntityKind::Building
                } else {
                    EntityKind::Unknown
                },
                None => EntityKind::Unknown,
            },
            None => EntityKind::Unknown,
        },
        Some(k) => match r.geometry {
            Some(conv) => if conv.as_point is Some {
                point_kind(k)
            } else {
                EntityKind::Unknown
            },
            None => EntityKind::Unknown,
        },
    }
}

/// What identifying the feature `r` gives, in full: the entity of kind
/// `entity_kind(r)` built from the feature's identifier text, the converted
/// geometry and the inner properties, or the unknown feature itself.
pub open spec fn identified_as<Pt, G, F>(r: FeatureRecord<Pt, G, F>, e: DomainEntity<Pt, G, F>) -> bool {
    &&& e.kind() == entity_kind(r)
    &&& match e {
        DomainEntity::CapturedMarker(m) => m.id@ == feature_id_text(r.id) && Some(m.geometry)
            == r.geometry.unwrap().as_point && Some(m.original_inner_properties)
            == inner_properties(r),
        DomainEntity::SupplyPoint(m) => m.id@ == feature_id_text(r.id) && Some(m.geometry)
            == r.geometry.unwrap().as_point && Some(m.original_inner_properties)
            == inner_properties(r),
        DomainEntity::OperationSite(m) => m.id@ == feature_id_text(r.id) && Some(m.geometry)
            == r.geometry.unwrap().as_point && Some(m.original_inner_properties)
            == inner_properties(r),
        DomainEntity::DrillingPoint(m) => m.id@ == feature_id_text(r.id) && Some(m.geometry)
            == r.geometry.unwrap().as_point && Some(m.original_inner_properties)
            == inner_properties(r),
        DomainEntity::CableTunnel(m) => m.id@ == feature_id_text(r.id) && Some(m.geometry)
            == r.geometry.unwrap().as_point && Some(m.original_inner_properties)
            == inner_properties(r),
        DomainEntity::Building(b) => b.id@ == feature_id_text(r.id) && b.geometry
            == building_geometry(r.geometry.unwrap().as_geometry.unwrap()) && Some(
            b.original_inner_properties,
        ) == inner_properties(r),
        DomainEntity::Unknown(u) => u.id == r.id && u.feature == r.original,
    }
}

/// An entity keeps the identifier of the feature it was identified from: the
/// feature's identifier text (or "No ID") for a recognised entity, and the
/// textual identifier, if any, for an unknown feature.
pub proof fn lemma_entity_keeps_identifier<Pt, G, F>(r: FeatureRecord<Pt, G, F>, e: DomainEntity<Pt, G, F>)
    requires
        identified_as(r, e),
    ensures
        e.kind() != EntityKind::Unknown ==> e.spec_id() == Some(feature_id_text(r.id)),
        e.kind() == EntityKind::Unknown ==> e.spec_id() == match r.id {
            Some(FeatureId::Text(s)) => Some(s@),
            _ => None::<Seq<char>>,
        },
{
}

/// The inner properties a recognised entity carries; `None` for an unknown feature.
pub open spec fn entity_inner_properties<Pt, G, F>(e: DomainEntity<Pt, G, F>) -> Option<JsonObject> {
    match e {
        DomainEntity::CapturedMarker(m) => Some(m.original_inner_properties),
        DomainEntity::SupplyPoint(m) => Some(m.original_inner_properties),
        DomainEntity::OperationSite(m) => Some(m.original_inner_properties),
        DomainEntity::DrillingPoint(m) => Some(m.original_inner_properties),
        DomainEntity::CableTunnel(m) => Some(m.original_inner_properties),
        DomainEntity::Building(b) => Some(b.original_inner_properties),
        DomainEntity::Unknown(_) => None,
    }
}

/// The point a point entity stands at; `None` for a building or an unknown feature.
pub open spec fn entity_point<Pt, G, F>(e: DomainEntity<Pt, G, F>) -> Option<Pt> {
    match e {
        DomainEntity::CapturedMarker(m) => Some(m.geometry),
        DomainEntity::SupplyPoint(m) => Some(m.geometry),
        DomainEntity::OperationSite(m) => Some(m.geometry),
        DomainEntity::DrillingPoint(m) => Some(m.geometry),
        DomainEntity::CableTunnel(m) => Some(m.geometry),
        _ => None,
    }
}

/// An entity keeps what it was identified from: a recognised entity carries
/// exactly the inner properties of its feature (which it has); a point entity
/// stands at the point its geometry converts to; an entity is recognised only
/// where the inner properties name a known object kind; and an unknown feature
/// is the feature itself with its identifier.
pub proof fn lemma_entity_keeps_its_feature<Pt, G, F>(r: FeatureRecord<Pt, G, F>, e: DomainEntity<Pt, G, F>)
    requires
        identified_as(r, e),
    ensures
        !(e is Unknown) ==> inner_properties(r) is Some && entity_inner_properties(e) == inner_properties(r),
        !(e is Unknown) ==> record_object_id(r) is Some,
        !(e is Unknown) && !(e is Building) ==> r.geometry is Some && entity_point(e) == r.geometry.unwrap().as_point,
        e is Unknown ==> e->Unknown_0.feature == r.original && e->Unknown_0.id == r.id,
        record_object_id(r) is None ==> e is Unknown,
{
}

fn feature_id_string(id: &Option<FeatureId>) -> (r: String)
    ensures
        r@ == feature_id_text(*id),
{
    match id {
        Some(FeatureId::Text(s)) => s.clone(),
        Some(FeatureId::Number(s)) => s.clone(),
        None => "No ID".to_owned(),
    }
}

/// Builds the point entity of the kind that `object_id` names.
fn create_point_domain_entity<Pt, G, F>(
    id: String,
    geometry: Pt,
    original_inner_properties: JsonObject,
    object_id: ObjectId,
) -> (r: DomainEntity<Pt, G, F>)
    requires
        object_id != ObjectId::Building,
    ensures
        r.kind() == point_kind(object_id),
        match r {
            DomainEntity::CapturedMarker(m) => m.id == id && m.geometry == geometry
                && m.original_inner_properties == original_inner_properties,
            DomainEntity::SupplyPoint(m) => m.id == id && m.geometry == geometry
                && m.original_inner_properties == original_inner_properties,
            DomainEntity::OperationSite(m) => m.id == id && m.geometry == geometry
                && m.original_inner_properties == original_inner_properties,
            DomainEntity::DrillingPoint(m) => m.id == id && m.geometry == geometry
                && m.original_inner_properties == original_inner_properties,
            DomainEntity::CableTunnel(m) => m.id == id && m.geometry == geometry
                && m.original_inner_properties == original_inner_properties,
            _ => false,
        },
{
    match object_id {
        ObjectId::Kugelmarker => DomainEntity::CapturedMarker(
            CapturedMarker { id, geometry, original_inner_properties },
        ),
        ObjectId::Versorgungspunkt => DomainEntity::SupplyPoint(
            SupplyPoint { id, geometry, original_inner_properties },
        ),
        ObjectId::Betriebsstelle => DomainEntity::OperationSite(
            OperationSite { id, geometry, original_inner_properties },
        ),
        ObjectId::Bohrpunkt => DomainEntity::DrillingPoint(
            DrillingPoint { id, geometry, original_inner_properties },
        ),
        _ => DomainEntity::CableTunnel(CableTunnel { id, geometry, original_inner_properties }),
    }
}

/// Identifies the domain entity that one feature stands for.
pub fn indentify_domain_entity<Pt, G, F>(feature: FeatureRecord<Pt, G, F>) -> (r: DomainEntity<Pt, G, F>)
    ensures
        identified_as(feature, r),
{
    let ghost rec = feature;
    let FeatureRecord { id, properties, geometry, original } = feature;
    let unknown = UnknownFeature { id, feature: original };
    let outer = match properties {
        Some(p) => p,
        None => {
            return DomainEntity::Unknown(unknown);
        },
    };
    let inner: JsonObject = match outer.into_member("properties") {
        Some(JsonValue::Text(text)) => match parse_json_object(text.as_str()) {
            Some(parsed) => parsed,
            None => {
                return DomainEntity::Unknown(unknown);
            },
        },
        Some(JsonValue::Object(o)) => o,
        _ => {
            return DomainEntity::Unknown(unknown);
        },
    };
    assert(Some(inner) == inner_properties(rec));
    let object_id = match inner.get("objectId") {
        Some(JsonValue::Text(s)) => match ObjectId::try_from(s.clone()) {
            Ok(k) => k,
            Err(_) => {
                return DomainEntity::Unknown(unknown);
            },
        },
        _ => {
            return DomainEntity::Unknown(unknown);
        },
    };
    assert(record_object_id(rec) == Some(object_id));
    let entity_id = feature_id_string(&unknown.id);
    match object_id {
        ObjectId::Building => {
            let conv = match geometry {
                Some(c) => c,
                None => {
                    return DomainEntity::Unknown(unknown);
                },
            };
            match conv.as_geometry {
                Some(ConvertedGeometry::Polygon(g)) => DomainEntity::Building(
                    Building { id: entity_id, geometry: g, original_inner_properties: inner },
                ),
                Some(ConvertedGeometry::MultiPolygon(g)) => DomainEntity::Building(
                    Building { id: entity_id, geometry: g, original_inner_properties: inner },
                ),
                Some(ConvertedGeometry::LineString { closed, geometry: g }) => {
                    if closed {
                        DomainEntity::Building(
                            Building { id: entity_id, geometry: g, original_inner_properties: inner },
                        )
                    } else {
                        DomainEntity::Unknown(unknown)
                    }
                },
                _ => DomainEntity::Unknown(unknown),
            }
        },
        _ => {
            let conv = match geometry {
                Some(c) => c,
                None => {
                    return DomainEntity::Unknown(unknown);
                },
            };
            match conv.as_point {
                Some(p) => create_point_domain_entity(entity_id, p, inner, object_id),
                None => DomainEntity::Unknown(unknown),
            }
        },
    }
}

/// Identifies every feature of a feature collection, in order. Any other kind
/// of GeoJSON document is refused.
pub fn indentify_domain_entities<Pt, G, F>(geojson: GeoJsonInput<Pt, G, F>) -> (r: Result<
    Vec<DomainEntity<Pt, G, F>>,
    Error,
>)
    ensures
        match geojson {
            GeoJsonInput::FeatureCollection(features) => match r {
                Ok(entities) => entities.len() == features.len() && forall|i: int|
                    0 <= i < features.len() ==> identified_as(
                        #[trigger] features@[i],
                        entities@[i],
                    ),
                Err(_) => false,
            },
            _ => r matches Err(Error::InvalidFeatureCollection),
        },
{
    let features = match geojson {
        GeoJsonInput::FeatureCollection(fs) => fs,
        _ => {
            return Err(Error::InvalidFeatureCollection);
        },
    };
    let ghost all = features@;
    let mut entities: Vec<DomainEntity<Pt, G, F>> = Vec::new();
    for f in it: features.into_iter()
        invariant
            it.seq() == all,
            entities.len() == it.index(),
            forall|i: int| 0 <= i < entities.len() ==> identified_as(#[trigger] all[i], entities@[i]),
    {
        let e = indentify_domain_entity(f);
        entities.push(e);
    }
    Ok(entities)
}

} // verus!
