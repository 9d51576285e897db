use geo::{Contains, Coord, Intersects, LineString, MultiPoint, Point, Polygon};
use geo_utility::collect_convex_boundingboxes::FeatureShape;
use geo_utility::pick_features_by_boundingbox as top;
use geo_utility::processing::pick_features_by_boundingbox as processing;

fn create_bbox(min_x: f64, min_y: f64, max_x: f64, max_y: f64) -> Polygon<f64> {
    Polygon::new(
        LineString::from(vec![(min_x, min_y), (max_x, min_y), (max_x, max_y), (min_x, max_y), (min_x, min_y)]),
        vec![],
    )
}

/// A test feature: its geometry as GeoJSON would give it.
enum Shape {
    Point(f64, f64),
    Line(Vec<(f64, f64)>),
    /// A polygon given by its rings; an empty list has no exterior ring.
    Polygon(Vec<Vec<(f64, f64)>>),
    Multi(Vec<(f64, f64)>),
    MultiPolygon,
    Missing,
}

/// What the geometric tests give for one feature: its type, and whether the
/// bounding polygon contains or intersects it (the exterior ring, for a polygon).
fn facts(bbox: &Polygon<f64>, s: &Shape) -> (Option<FeatureShape>, bool) {
    match s {
        Shape::Point(x, y) => {
            let c = Coord { x: *x, y: *y };
            (Some(FeatureShape::Point), bbox.contains(&c) || bbox.intersects(&c))
        }
        Shape::Line(pts) => {
            let line = LineString::from(pts.clone());
            (Some(FeatureShape::LineString), bbox.intersects(&line) || bbox.contains(&line))
        }
        Shape::Polygon(rings) => match rings.first() {
            Some(exterior) => {
                let poly = Polygon::new(LineString::from(exterior.clone()), vec![]);
                (
                    Some(FeatureShape::Polygon { has_exterior_ring: true }),
                    bbox.intersects(&poly) || bbox.contains(&poly),
                )
            }
            None => (Some(FeatureShape::Polygon { has_exterior_ring: false }), false),
        },
        Shape::Multi(pts) => {
            let mp: MultiPoint<f64> = pts.iter().map(|p| Point::new(p.0, p.1)).collect::<Vec<_>>().into();
            (Some(FeatureShape::MultiPoint), bbox.intersects(&mp) || bbox.contains(&mp))
        }
        Shape::MultiPolygon => (Some(FeatureShape::MultiPolygon), false),
        Shape::Missing => (None, false),
    }
}

/// Picks with both versions of the function and checks that they agree.
fn pick(bbox: &Polygon<f64>, shapes: &[Shape]) -> Vec<usize> {
    let a: Vec<top::PickFacts> = shapes
        .iter()
        .map(|s| {
            let (shape, meets_bbox) = facts(bbox, s);
            top::PickFacts { shape, meets_bbox }
        })
        .collect();
    let b: Vec<processing::PickFacts> = shapes
        .iter()
        .map(|s| {
            let (shape, meets_bbox) = facts(bbox, s);
            processing::PickFacts { shape, meets_bbox }
        })
        .collect();
    let from_top = top::pick_features_by_boundingbox(&a).ok().unwrap();
    let from_processing = processing::pick_features_by_boundingbox(&b).ok().unwrap();
    assert_eq!(from_top, from_processing);
    from_top
}

fn square(x0: f64, y0: f64, x1: f64, y1: f64) -> Vec<(f64, f64)> {
    vec![(x0, y0), (x1, y0), (x1, y1), (x0, y1), (x0, y0)]
}

#[test]
fn pick_features_by_boundingbox_test_empty_feature_collection() {
    let bbox = create_bbox(0.0, 0.0, 10.0, 10.0);
    assert!(pick(&bbox, &[]).is_empty());
}

#[test]
fn pick_features_by_boundingbox_test_point_inside_bbox() {
    let bbox = create_bbox(0.0, 0.0, 10.0, 10.0);
    assert_eq!(pick(&bbox, &[Shape::Point(5.0, 5.0)]), vec![0]);
}

#[test]
fn pick_features_by_boundingbox_test_point_on_bbox_boundary() {
    let bbox = create_bbox(0.0, 0.0, 10.0, 10.0);
    assert_eq!(pick(&bbox, &[Shape::Point(0.0, 5.0)]), vec![0]);
}

#[test]
fn pick_features_by_boundingbox_test_point_outside_bbox() {
    let bbox = create_bbox(0.0, 0.0, 10.0, 10.0);
    assert!(pick(&bbox, &[Shape::Point(11.0, 11.0)]).is_empty());
}

#[test]
fn pick_features_by_boundingbox_test_linestring_inside_bbox() {
    let bbox = create_bbox(0.0, 0.0, 10.0, 10.0);
    assert_eq!(pick(&bbox, &[Shape::Line(vec![(1.0, 1.0), (9.0, 9.0)])]), vec![0]);
}

#[test]
fn pick_features_by_boundingbox_test_linestring_intersecting_bbox() {
    let bbox = create_bbox(0.0, 0.0, 10.0, 10.0);
    assert_eq!(pick(&bbox, &[Shape::Line(vec![(-1.0, 5.0), (11.0, 5.0)])]), vec![0]);
}

#[test]
fn pick_features_by_boundingbox_test_linestring_outside_bbox() {
    let bbox = create_bbox(0.0, 0.0, 10.0, 10.0);
    assert!(pick(&bbox, &[Shape::Line(vec![(11.0, 1.0), (12.0, 2.0)])]).is_empty());
}

#[test]
fn pick_features_by_boundingbox_test_polygon_inside_bbox() {
    let bbox = create_bbox(0.0, 0.0, 10.0, 10.0);
    assert_eq!(pick(&bbox, &[Shape::Polygon(vec![square(1.0, 1.0, 3.0, 3.0)])]), vec![0]);
}

#[test]
fn pick_features_by_boundingbox_test_polygon_intersecting_bbox() {
    let bbox = create_bbox(0.0, 0.0, 10.0, 10.0);
    assert_eq!(pick(&bbox, &[Shape::Polygon(vec![square(-1.0, -1.0, 1.0, 1.0)])]), vec![0]);
}

#[test]
fn pick_features_by_boundingbox_test_polygon_with_hole_intersecting_bbox_by_exterior() {
    // The bounding box lies inside the exterior ring and outside the hole.
    let bbox = create_bbox(1.0, 1.0, 9.0, 9.0);
    let rings = vec![square(0.0, 0.0, 10.0, 10.0), square(4.0, 4.0, 6.0, 6.0)];
    assert_eq!(pick(&bbox, &[Shape::Polygon(rings)]), vec![0]);
}

#[test]
fn pick_features_by_boundingbox_test_polygon_outside_bbox() {
    let bbox = create_bbox(0.0, 0.0, 10.0, 10.0);
    assert!(pick(&bbox, &[Shape::Polygon(vec![square(11.0, 11.0, 12.0, 12.0)])]).is_empty());
}

#[test]
fn pick_features_by_boundingbox_test_multipoint_inside_bbox() {
    let bbox = create_bbox(0.0, 0.0, 10.0, 10.0);
    assert_eq!(pick(&bbox, &[Shape::Multi(vec![(1.0, 1.0), (2.0, 2.0), (3.0, 3.0)])]), vec![0]);
}

#[test]
fn pick_features_by_boundingbox_test_multipoint_intersecting_bbox() {
    let bbox = create_bbox(0.0, 0.0, 10.0, 10.0);
    assert_eq!(pick(&bbox, &[Shape::Multi(vec![(-1.0, -1.0), (5.0, 5.0), (11.0, 11.0)])]), vec![0]);
}

#[test]
fn pick_features_by_boundingbox_test_multipoint_outside_bbox() {
    let bbox = create_bbox(0.0, 0.0, 10.0, 10.0);
    assert!(pick(&bbox, &[Shape::Multi(vec![(11.0, 11.0), (12.0, 12.0)])]).is_empty());
}

#[test]
fn pick_features_by_boundingbox_test_feature_without_geometry() {
    let bbox = create_bbox(0.0, 0.0, 10.0, 10.0);
    assert!(pick(&bbox, &[Shape::Missing]).is_empty());
}

#[test]
fn pick_features_by_boundingbox_test_feature_with_unsupported_geometry_type() {
    let bbox = create_bbox(0.0, 0.0, 10.0, 10.0);
    assert!(pick(&bbox, &[Shape::MultiPolygon]).is_empty());
}

#[test]
fn test_collection_with_mixed_features() {
    let bbox = create_bbox(0.0, 0.0, 10.0, 10.0);
    let shapes = [
        Shape::Point(5.0, 5.0),
        Shape::Line(vec![(-1.0, 5.0), (11.0, 5.0)]),
        Shape::Polygon(vec![square(11.0, 11.0, 12.0, 12.0)]),
        Shape::Missing,
        Shape::MultiPolygon,
    ];
    assert_eq!(pick(&bbox, &shapes), vec![0, 1]);
}

#[test]
fn pick_features_by_boundingbox_test_polygon_on_bbox_boundary() {
    let bbox = create_bbox(0.0, 0.0, 10.0, 10.0);
    assert_eq!(pick(&bbox, &[Shape::Polygon(vec![square(0.0, 0.0, 1.0, 1.0)])]), vec![0]);
}

#[test]
fn pick_features_by_boundingbox_test_linestring_on_bbox_boundary() {
    let bbox = create_bbox(0.0, 0.0, 10.0, 10.0);
    assert_eq!(pick(&bbox, &[Shape::Line(vec![(0.0, 5.0), (10.0, 5.0)])]), vec![0]);
}

#[test]
fn test_linestring_on_bbox_boundary_2() {
    let bbox = create_bbox(0.0, 0.0, 10.0, 10.0);
    assert_eq!(pick(&bbox, &[Shape::Line(vec![(0.0, 5.0), (10.0, 5.0)])]), vec![0]);
}

#[test]
fn pick_features_by_boundingbox_test_multipoint_on_bbox_boundary() {
    let bbox = create_bbox(0.0, 0.0, 10.0, 10.0);
    assert_eq!(pick(&bbox, &[Shape::Multi(vec![(0.0, 0.0), (10.0, 10.0)])]), vec![0]);
}

#[test]
fn pick_features_by_boundingbox_test_polygon_containing_bbox() {
    let bbox = create_bbox(0.0, 0.0, 10.0, 10.0);
    assert_eq!(pick(&bbox, &[Shape::Polygon(vec![square(-10.0, -10.0, 20.0, 20.0)])]), vec![0]);
}

#[test]
fn polygon_without_exterior_ring_is_never_picked() {
    let bbox = create_bbox(0.0, 0.0, 10.0, 10.0);
    let facts = vec![top::PickFacts {
        shape: Some(FeatureShape::Polygon { has_exterior_ring: false }),
        meets_bbox: true,
    }];
    assert!(top::pick_features_by_boundingbox(&facts).ok().unwrap().is_empty());
    assert!(pick(&bbox, &[Shape::Polygon(vec![])]).is_empty());
}

#[test]
fn picked_indices_ascend_and_skip_unsupported_types() {
    let facts = vec![
        top::PickFacts { shape: Some(FeatureShape::MultiLineString), meets_bbox: true },
        top::PickFacts { shape: Some(FeatureShape::MultiPoint), meets_bbox: true },
        top::PickFacts { shape: Some(FeatureShape::Other), meets_bbox: true },
        top::PickFacts { shape: Some(FeatureShape::Point), meets_bbox: false },
        top::PickFacts { shape: Some(FeatureShape::LineString), meets_bbox: true },
    ];
    assert_eq!(top::pick_features_by_boundingbox(&facts).ok().unwrap(), vec![1, 4]);
}

#[test]
fn pick_error_messages() {
    assert_eq!(top::Error::UnsupportedGeometryType.message(), "Invalid geometry type");
    assert_eq!(top::Error::MissingGeometry.message(), "Missing geometry");
    assert_eq!(top::Error::InvalidCoordinates.message(), "Invalid coordinates");
}
