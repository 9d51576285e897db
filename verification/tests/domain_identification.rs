use geo_utility::domain::{
    indentify_domain_entities, indentify_domain_entity, ConvertedGeometry, DomainEntity, Error,
    FeatureId, FeatureRecord, GeoJsonInput, GeometryConversions, ObjectId,
};
use geo_utility::json::{JsonEntry, JsonObject, JsonValue};
use std::convert::TryFrom;

type Pt = (f64, f64);
type Record = FeatureRecord<Pt, &'static str, u32>;

fn text(s: &str) -> JsonValue {
    JsonValue::Text(s.to_string())
}

fn object(entries: Vec<(&str, JsonValue)>) -> JsonObject {
    JsonObject {
        entries: entries
            .into_iter()
            .map(|(k, v)| JsonEntry { key: k.to_string(), value: v })
            .collect(),
    }
}

/// `{"properties": {"objectId": <object_id>}}`
fn nested_properties(object_id: &str) -> Option<JsonObject> {
    Some(object(vec![(
        "properties",
        JsonValue::Object(object(vec![("objectId", text(object_id))])),
    )]))
}

/// A point geometry: it converts to a point and to a point geometry.
fn point_geometry(x: f64, y: f64) -> Option<GeometryConversions<Pt, &'static str>> {
    Some(GeometryConversions {
        as_point: Some((x, y)),
        as_geometry: Some(ConvertedGeometry::Point("point")),
    })
}

/// A geometry that does not convert to a point.
fn non_point_geometry(g: ConvertedGeometry<&'static str>) -> Option<GeometryConversions<Pt, &'static str>> {
    Some(GeometryConversions { as_point: None, as_geometry: Some(g) })
}

fn record(
    id: Option<FeatureId>,
    properties: Option<JsonObject>,
    geometry: Option<GeometryConversions<Pt, &'static str>>,
) -> Record {
    FeatureRecord { id, properties, geometry, original: 7 }
}

fn text_id(s: &str) -> Option<FeatureId> {
    Some(FeatureId::Text(s.to_string()))
}

fn collection(records: Vec<Record>) -> GeoJsonInput<Pt, &'static str, u32> {
    GeoJsonInput::FeatureCollection(records)
}

#[test]
fn test_identify_domain_entities() {
    let geojson = collection(vec![record(text_id("1"), nested_properties("Kugelmarker"), point_geometry(0.0, 0.0))]);
    let domain_entities = indentify_domain_entities(geojson).unwrap();
    assert_eq!(domain_entities.len(), 1);
    assert!(domain_entities[0].is_marker());
}

#[test]
fn test_identify_domain_entities_with_null_properties() {
    let geojson = collection(vec![record(text_id("1"), None, point_geometry(0.0, 0.0))]);
    let domain_entities = indentify_domain_entities(geojson).unwrap();
    assert_eq!(domain_entities.len(), 1);
    assert!(domain_entities[0].is_unknown());
}

#[test]
fn test_identify_domain_entities_with_null_geometry() {
    let geojson = collection(vec![record(text_id("1"), nested_properties("Kugelmarker"), None)]);
    let domain_entities = indentify_domain_entities(geojson).unwrap();
    assert_eq!(domain_entities.len(), 1);
    assert!(domain_entities[0].is_unknown());
}

#[test]
fn test_identify_domain_entities_with_invalid_geometry_type() {
    let line = non_point_geometry(ConvertedGeometry::LineString { closed: false, geometry: "line" });
    let geojson = collection(vec![record(text_id("1"), nested_properties("Kugelmarker"), line)]);
    let domain_entities = indentify_domain_entities(geojson).unwrap();
    assert_eq!(domain_entities.len(), 1);
    assert!(domain_entities[0].is_unknown());
}

#[test]
fn test_identify_domain_untities_with_empty_feature_collection() {
    let domain_entities = indentify_domain_entities(collection(vec![])).unwrap();
    assert_eq!(domain_entities.len(), 0);
}

fn identify_single(object_id: &str) -> DomainEntity<Pt, &'static str, u32> {
    let geojson = collection(vec![record(text_id("1"), nested_properties(object_id), point_geometry(0.0, 0.0))]);
    let mut domain_entities = indentify_domain_entities(geojson).unwrap();
    assert_eq!(domain_entities.len(), 1);
    domain_entities.remove(0)
}

#[test]
fn test_indentify_domain_entity() {
    assert!(identify_single("Kugelmarker").is_marker());
}

#[test]
fn test_indentify_domain_entity_with_supply_point() {
    assert!(identify_single("Versorgungspunkt").is_supply_point());
}

#[test]
fn test_indentify_domain_entity_with_operation_site() {
    assert!(identify_single("Betriebsstelle").is_operation_site());
}

#[test]
fn test_indentify_domain_entity_with_drilling_point() {
    assert!(identify_single("Bohrpunkt").is_drilling_point());
}

#[test]
fn test_indentify_domain_entity_with_cable_tunnel() {
    assert!(identify_single("Kabelschacht").is_cable_tunnel());
}

#[test]
fn test_indentify_domain_entity_with_unknown() {
    assert!(identify_single("Unknown").is_unknown());
}

#[test]
fn test_identify_domain_entity_with_line_string_geomtery() {
    let line = non_point_geometry(ConvertedGeometry::LineString { closed: false, geometry: "line" });
    let geojson = collection(vec![record(text_id("1"), nested_properties("Kabelschacht"), line)]);
    let domain_entities = indentify_domain_entities(geojson).unwrap();
    assert_eq!(domain_entities.len(), 1);
    assert!(domain_entities[0].is_unknown());
}

#[test]
fn test_indentify_domain_entity_with_polygon_geomtery() {
    let polygon = non_point_geometry(ConvertedGeometry::Polygon("polygon"));
    let geojson = collection(vec![record(text_id("1"), nested_properties("Gebaeude"), polygon)]);
    let domain_entities = indentify_domain_entities(geojson).unwrap();
    assert_eq!(domain_entities.len(), 1);
    assert!(domain_entities[0].is_building());
}

#[test]
fn test_identify_domain_entity_with_multi_polygon_geomtery() {
    let multi = non_point_geometry(ConvertedGeometry::MultiPolygon("multipolygon"));
    let geojson = collection(vec![record(text_id("1"), nested_properties("Gebaeude"), multi)]);
    let domain_entities = indentify_domain_entities(geojson).unwrap();
    assert_eq!(domain_entities.len(), 1);
    assert!(domain_entities[0].is_building());
}

#[test]
fn identify_entities_refuses_a_single_geometry_or_feature() {
    let g: GeoJsonInput<Pt, &'static str, u32> = GeoJsonInput::Geometry;
    assert!(matches!(indentify_domain_entities(g), Err(Error::InvalidFeatureCollection)));
    let f: GeoJsonInput<Pt, &'static str, u32> = GeoJsonInput::Feature;
    let err = indentify_domain_entities(f).err().unwrap();
    assert_eq!(err.message(), "Invalid feature collection");
}

#[test]
fn marker_keeps_identifier_geometry_and_inner_properties() {
    let r = record(text_id("m-17"), nested_properties("Kugelmarker"), point_geometry(10.5, 50.25));
    match indentify_domain_entity(r) {
        DomainEntity::CapturedMarker(m) => {
            assert_eq!(m.id, "m-17");
            assert_eq!(m.geometry, (10.5, 50.25));
            assert_eq!(m.original_inner_properties.entries.len(), 1);
            assert_eq!(m.original_inner_properties.entries[0].key, "objectId");
            assert!(matches!(&m.original_inner_properties.entries[0].value, JsonValue::Text(s) if s == "Kugelmarker"));
        }
        _ => panic!("expected a captured marker"),
    }
}

#[test]
fn numeric_identifier_is_kept_as_its_text() {
    let r = record(Some(FeatureId::Number("42".to_string())), nested_properties("Bohrpunkt"), point_geometry(0.0, 0.0));
    let e = indentify_domain_entity(r);
    assert!(e.is_drilling_point());
    assert_eq!(e.id().map(|s| s.as_str()), Some("42"));
}

#[test]
fn missing_identifier_becomes_no_id() {
    let polygon = non_point_geometry(ConvertedGeometry::Polygon("polygon"));
    let r = record(None, nested_properties("Gebaeude"), polygon);
    match indentify_domain_entity(r) {
        DomainEntity::Building(b) => {
            assert_eq!(b.id, "No ID");
            assert_eq!(b.geometry, "polygon");
        }
        _ => panic!("expected a building"),
    }
}

#[test]
fn building_needs_a_closed_line_string() {
    let open = non_point_geometry(ConvertedGeometry::LineString { closed: false, geometry: "open" });
    assert!(indentify_domain_entity(record(text_id("b"), nested_properties("Gebaeude"), open)).is_unknown());
    let closed = non_point_geometry(ConvertedGeometry::LineString { closed: true, geometry: "ring" });
    match indentify_domain_entity(record(text_id("b"), nested_properties("Gebaeude"), closed)) {
        DomainEntity::Building(b) => assert_eq!(b.geometry, "ring"),
        _ => panic!("expected a building"),
    }
    let point = point_geometry(1.0, 1.0);
    assert!(indentify_domain_entity(record(text_id("b"), nested_properties("Gebaeude"), point)).is_unknown());
}

#[test]
fn unknown_feature_is_handed_back_whole() {
    let mut r = record(Some(FeatureId::Number("5".to_string())), nested_properties("Laterne"), point_geometry(0.0, 0.0));
    r.original = 99;
    match indentify_domain_entity(r) {
        DomainEntity::Unknown(u) => {
            assert_eq!(u.feature, 99);
            assert!(matches!(u.id, Some(FeatureId::Number(ref s)) if s == "5"));
        }
        _ => panic!("expected an unknown feature"),
    }
}

#[test]
fn unknown_entity_with_numeric_identifier_has_no_text_id() {
    let r = record(Some(FeatureId::Number("5".to_string())), None, None);
    let e = indentify_domain_entity(r);
    assert!(e.is_unknown());
    assert!(e.id().is_none());
    let r = record(text_id("abc"), None, None);
    assert_eq!(indentify_domain_entity(r).id().map(|s| s.as_str()), Some("abc"));
}

#[test]
fn inner_properties_given_as_text_are_read_from_their_parse() {
    let outer = Some(object(vec![("properties", text("{\"objectId\":\"Versorgungspunkt\",\"depth\":1.5}"))]));
    match indentify_domain_entity(record(text_id("s"), outer, point_geometry(3.0, 4.0))) {
        DomainEntity::SupplyPoint(p) => {
            let mut keys: Vec<&str> = p.original_inner_properties.entries.iter().map(|e| e.key.as_str()).collect();
            keys.sort();
            assert_eq!(keys, vec!["depth", "objectId"]);
            let depth = p.original_inner_properties.entries.iter().find(|e| e.key == "depth").unwrap();
            assert!(matches!(&depth.value, JsonValue::Number(n) if n == "1.5"));
        }
        _ => panic!("expected a supply point"),
    }

    let outer = Some(object(vec![("properties", text("not json"))]));
    assert!(indentify_domain_entity(record(text_id("s"), outer, point_geometry(3.0, 4.0))).is_unknown());
    let outer = Some(object(vec![("properties", text("[\"Versorgungspunkt\"]"))]));
    assert!(indentify_domain_entity(record(text_id("s"), outer, point_geometry(3.0, 4.0))).is_unknown());
    let outer = Some(object(vec![("properties", text("{\"objectId\":{\"name\":\"Bohrpunkt\"}}"))]));
    assert!(indentify_domain_entity(record(text_id("s"), outer, point_geometry(3.0, 4.0))).is_unknown());
}

#[test]
fn inner_properties_of_another_type_give_unknown() {
    let outer = Some(object(vec![("properties", JsonValue::Number("3".to_string()))]));
    assert!(indentify_domain_entity(record(text_id("x"), outer, point_geometry(0.0, 0.0))).is_unknown());
    let outer = Some(object(vec![(
        "properties",
        JsonValue::Object(object(vec![("objectId", JsonValue::Bool(true))])),
    )]));
    assert!(indentify_domain_entity(record(text_id("x"), outer, point_geometry(0.0, 0.0))).is_unknown());
}

#[test]
fn entities_come_in_the_order_of_the_features() {
    let polygon = non_point_geometry(ConvertedGeometry::Polygon("polygon"));
    let geojson = collection(vec![
        record(text_id("a"), nested_properties("Kabelschacht"), point_geometry(0.0, 0.0)),
        record(text_id("b"), None, None),
        record(text_id("c"), nested_properties("Gebaeude"), polygon),
    ]);
    let entities = indentify_domain_entities(geojson).unwrap();
    assert_eq!(entities.len(), 3);
    assert!(entities[0].is_cable_tunnel());
    assert!(entities[1].is_unknown());
    assert!(entities[2].is_building());
    let ids: Vec<Option<&str>> = entities.iter().map(|e| e.id().map(|s| s.as_str())).collect();
    assert_eq!(ids, vec![Some("a"), Some("b"), Some("c")]);
}

#[test]
fn object_id_from_text() {
    let cases = [
        ("Kugelmarker", ObjectId::Kugelmarker),
        ("Versorgungspunkt", ObjectId::Versorgungspunkt),
        ("Betriebsstelle", ObjectId::Betriebsstelle),
        ("Bohrpunkt", ObjectId::Bohrpunkt),
        ("Kabelschacht", ObjectId::Kabelschacht),
        ("Gebaeude", ObjectId::Building),
    ];
    for (name, expected) in cases {
        assert_eq!(ObjectId::try_from(name.to_string()).ok(), Some(expected));
    }
    match ObjectId::try_from("Gebäude".to_string()) {
        Err(Error::InvalidObjectId(s)) => assert_eq!(s, "Gebäude"),
        _ => panic!("expected an invalid object id"),
    }
    let err = ObjectId::try_from("kugelmarker".to_string()).err().unwrap();
    assert_eq!(err.message(), "Invalid objectId: kugelmarker");
}

#[test]
fn domain_error_messages() {
    assert_eq!(Error::UnsupportedGeometryType.message(), "Invalid geometry type");
    assert_eq!(Error::MissingGeometry.message(), "Missing geometry");
    assert_eq!(Error::InvalidCoordinates.message(), "Invalid coordinates");
    assert_eq!(Error::InvalidFeature.message(), "Invalid feature");
    assert_eq!(Error::InvalidFeatureCollection.message(), "Invalid feature collection");
    assert_eq!(Error::InvalidFeatureProperties.message(), "Invalid feature properties");
    assert_eq!(Error::InvalidFeatureGeometry.message(), "Invalid feature geometry");
    assert_eq!(Error::InvalidObjectId("X".to_string()).message(), "Invalid objectId: X");
    assert_eq!(
        Error::GeometryConversionError("bad ring".to_string()).message(),
        "Error converting geometry: bad ring"
    );
}
