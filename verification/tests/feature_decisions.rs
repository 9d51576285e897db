use geo_utility::collect_bounding_boxes::{buffer_action, BufferAction, BufferFacts};
use geo_utility::collect_convex_boundingboxes::{hull_action, Error as HullError, FeatureShape, HullAction, HullFacts};
use geo_utility::geometry::convex_hull::single_feature_action;
use geo_utility::json::{nested_object_id_equals, JsonEntry, JsonObject, JsonValue};
use geo_utility::process_vertices_and_bends as top_bends;
use geo_utility::processing::process_vertices_and_bends::{is_gebaeudekante, line_treatment, LineTreatment};

fn hull(shape: Option<FeatureShape>, coord_count: usize, all_in_region: bool, unique_count: usize) -> HullFacts {
    HullFacts { bbox_misses_region: false, shape, coord_count, all_in_region, unique_count }
}

fn props(object_id: JsonValue) -> Option<JsonObject> {
    Some(JsonObject {
        entries: vec![JsonEntry {
            key: "properties".to_string(),
            value: JsonValue::Object(JsonObject {
                entries: vec![JsonEntry { key: "objectId".to_string(), value: object_id }],
            }),
        }],
    })
}

#[test]
fn hull_for_three_distinct_coordinates_in_region() {
    let f = hull(Some(FeatureShape::LineString), 3, true, 3);
    assert_eq!(hull_action(&f), HullAction::ConvexHull);
    assert_eq!(single_feature_action(&f), HullAction::ConvexHull);
    let f = hull(Some(FeatureShape::Polygon { has_exterior_ring: true }), 5, true, 4);
    assert_eq!(hull_action(&f), HullAction::ConvexHull);
}

#[test]
fn features_partly_outside_the_region_are_skipped() {
    for shape in [FeatureShape::Point, FeatureShape::LineString, FeatureShape::MultiPoint, FeatureShape::MultiPolygon] {
        let f = hull(Some(shape), 4, false, 4);
        assert_eq!(hull_action(&f), HullAction::Skip);
        assert_eq!(single_feature_action(&f), HullAction::Skip);
    }
}

#[test]
fn bounding_box_misses_region_skips_before_anything_else() {
    let f = HullFacts {
        bbox_misses_region: true,
        shape: Some(FeatureShape::LineString),
        coord_count: 3,
        all_in_region: true,
        unique_count: 3,
    };
    assert_eq!(hull_action(&f), HullAction::Skip);
    assert_eq!(single_feature_action(&f), HullAction::Skip);
}

#[test]
fn few_distinct_coordinates_fall_back_to_a_bounding_box() {
    // A point, a two-point line, a line of two equal points, a two-point multipoint.
    assert_eq!(hull_action(&hull(Some(FeatureShape::Point), 1, true, 1)), HullAction::BoundingBoxOfGeometry);
    assert_eq!(hull_action(&hull(Some(FeatureShape::LineString), 2, true, 2)), HullAction::BoundingBoxOfGeometry);
    assert_eq!(hull_action(&hull(Some(FeatureShape::LineString), 2, true, 1)), HullAction::BoundingBoxOfGeometry);
    assert_eq!(hull_action(&hull(Some(FeatureShape::MultiPoint), 2, true, 2)), HullAction::BoundingBoxOfGeometry);
    // A degenerate polygon ([10,50],[11,51],[10,50]) gives the bounding box of its coordinates.
    let degenerate = hull(Some(FeatureShape::Polygon { has_exterior_ring: true }), 3, true, 2);
    assert_eq!(hull_action(&degenerate), HullAction::BoundingBoxOfCoords);
    assert_eq!(single_feature_action(&degenerate), HullAction::BoundingBoxOfCoords);
    let degenerate_multi = hull(Some(FeatureShape::MultiPolygon), 4, true, 2);
    assert_eq!(hull_action(&degenerate_multi), HullAction::BoundingBoxOfCoords);
}

#[test]
fn unsupported_or_empty_geometries_are_skipped() {
    assert_eq!(hull_action(&hull(None, 0, true, 0)), HullAction::Skip);
    assert_eq!(hull_action(&hull(Some(FeatureShape::Other), 0, true, 0)), HullAction::Skip);
    let no_ring = hull(Some(FeatureShape::Polygon { has_exterior_ring: false }), 0, true, 0);
    assert_eq!(hull_action(&no_ring), HullAction::Skip);
    assert_eq!(single_feature_action(&no_ring), HullAction::Skip);
    assert_eq!(hull_action(&hull(Some(FeatureShape::MultiPoint), 0, true, 0)), HullAction::Skip);
    assert_eq!(hull_action(&hull(Some(FeatureShape::MultiPolygon), 0, true, 0)), HullAction::Skip);
    assert_eq!(single_feature_action(&hull(Some(FeatureShape::MultiPolygon), 0, true, 0)), HullAction::Skip);
    assert_eq!(single_feature_action(&hull(Some(FeatureShape::MultiLineString), 0, true, 0)), HullAction::Skip);
}

#[test]
fn hull_error_messages() {
    assert_eq!(HullError::UnsupportedGeometryType.message(), "Invalid geometry type");
    assert_eq!(HullError::MissingGeometry.message(), "Missing geometry");
    assert_eq!(HullError::InvalidCoordinates.message(), "Invalid coordinates");
}

#[test]
fn buffered_rectangles_for_points_and_lines_only() {
    let f = |shape, all_in_region, unique_count| BufferFacts { bbox_rejected: false, shape, all_in_region, unique_count };
    assert_eq!(buffer_action(&f(Some(FeatureShape::Point), true, 1)), BufferAction::BoundingBoxOfGeometry);
    assert_eq!(buffer_action(&f(Some(FeatureShape::LineString), true, 2)), BufferAction::BoundingBoxOfGeometry);
    assert_eq!(buffer_action(&f(Some(FeatureShape::LineString), true, 3)), BufferAction::BoundingBoxOfHull);
    assert_eq!(buffer_action(&f(Some(FeatureShape::LineString), false, 3)), BufferAction::Skip);
    assert_eq!(buffer_action(&f(Some(FeatureShape::Polygon { has_exterior_ring: true }), true, 4)), BufferAction::Skip);
    assert_eq!(buffer_action(&f(Some(FeatureShape::MultiPoint), true, 4)), BufferAction::Skip);
    assert_eq!(buffer_action(&f(None, true, 0)), BufferAction::Skip);
    let rejected = BufferFacts { bbox_rejected: true, shape: Some(FeatureShape::Point), all_in_region: true, unique_count: 1 };
    assert_eq!(buffer_action(&rejected), BufferAction::Skip);
}

#[test]
fn building_edges_are_recognised_by_their_object_id() {
    assert!(is_gebaeudekante(&props(JsonValue::Text("Gebäudekante".to_string()))));
    assert!(top_bends::is_gebaeudekante(&props(JsonValue::Text("Gebäudekante".to_string()))));
    assert!(!is_gebaeudekante(&props(JsonValue::Text("Gebaeudekante".to_string()))));
    assert!(!is_gebaeudekante(&props(JsonValue::Number("1".to_string()))));
    assert!(!is_gebaeudekante(&None));
    // The inner properties must be an object, not text.
    let as_text = Some(JsonObject {
        entries: vec![JsonEntry {
            key: "properties".to_string(),
            value: JsonValue::Text("{\"objectId\":\"Gebäudekante\"}".to_string()),
        }],
    });
    assert!(!is_gebaeudekante(&as_text));
}

#[test]
fn nested_object_id_takes_the_first_member_of_a_key() {
    let p = Some(JsonObject {
        entries: vec![
            JsonEntry {
                key: "properties".to_string(),
                value: JsonValue::Object(JsonObject {
                    entries: vec![
                        JsonEntry { key: "objectId".to_string(), value: JsonValue::Text("A".to_string()) },
                        JsonEntry { key: "objectId".to_string(), value: JsonValue::Text("B".to_string()) },
                    ],
                }),
            },
            JsonEntry { key: "properties".to_string(), value: JsonValue::Null },
        ],
    });
    assert!(nested_object_id_equals(&p, "A"));
    assert!(!nested_object_id_equals(&p, "B"));
}

#[test]
fn line_treatment_by_kind_properties_and_length() {
    let plain = props(JsonValue::Text("Leitung".to_string()));
    let edge = props(JsonValue::Text("Gebäudekante".to_string()));
    assert_eq!(line_treatment(false, &plain, 5), LineTreatment::Skip);
    assert_eq!(line_treatment(true, &edge, 5), LineTreatment::Skip);
    assert_eq!(line_treatment(true, &plain, 1), LineTreatment::Skip);
    assert_eq!(line_treatment(true, &plain, 0), LineTreatment::Skip);
    assert_eq!(line_treatment(true, &plain, 2), LineTreatment::Simple);
    assert_eq!(line_treatment(true, &None, 3), LineTreatment::MultiSegment);
    assert_eq!(top_bends::line_treatment(true, &plain, 2), top_bends::LineTreatment::Simple);
    assert_eq!(top_bends::line_treatment(true, &edge, 2), top_bends::LineTreatment::Skip);
}
