//! Construction-time invariants: the SRID append check, its exact error,
//! partial batch application, and the point constructors' shape validation.

use ewkb_codec::errors::Error;
use ewkb_codec::types::{
    LineString, MultiLineString, Point, PointM, PointT, PointZ, PointZM, Polygon,
};

#[test]
fn test_srid_append_invariant() {
    let mut linestring: LineString<Point> = LineString::new(None);
    let intruder = Point::new(1.0f64.to_bits(), 2.0f64.to_bits(), Some(4326));
    let err = linestring.add_point(intruder).unwrap_err();
    assert_eq!(
        err,
        Error::IncompatibleSpatialReferenceSystemIdentifier {
            expected: None,
            actual: Some(4326),
        }
    );
    assert_eq!(linestring.points.len(), 0);
}

#[test]
fn test_srid_append_leaves_prior_points_unchanged() {
    let mut linestring: LineString<Point> = LineString::new(None);
    let keeper = Point::new(1.0f64.to_bits(), 2.0f64.to_bits(), None);
    linestring.add_point(keeper).unwrap();
    let intruder = Point::new(3.0f64.to_bits(), 4.0f64.to_bits(), Some(4326));
    assert!(linestring.add_point(intruder).is_err());
    assert_eq!(linestring.points, vec![keeper]);
}

#[test]
fn test_add_points_applies_prefix_before_failure() {
    let mut linestring: LineString<Point> = LineString::new(None);
    let first = Point::new(1.0f64.to_bits(), 2.0f64.to_bits(), None);
    let bad = Point::new(3.0f64.to_bits(), 4.0f64.to_bits(), Some(4326));
    let after = Point::new(5.0f64.to_bits(), 6.0f64.to_bits(), None);
    let err = linestring.add_points(vec![first, bad, after]).unwrap_err();
    assert_eq!(
        err,
        Error::IncompatibleSpatialReferenceSystemIdentifier {
            expected: None,
            actual: Some(4326),
        }
    );
    assert_eq!(linestring.points, vec![first]);
}

#[test]
fn test_polygon_add_point_srid_check() {
    let mut polygon: Polygon<Point> = Polygon::new(Some(4326));
    let err = polygon.add_point(Point::new(0.0f64.to_bits(), 0.0f64.to_bits(), None)).unwrap_err();
    assert_eq!(
        err,
        Error::IncompatibleSpatialReferenceSystemIdentifier {
            expected: Some(4326),
            actual: None,
        }
    );
    assert_eq!(polygon.rings.len(), 0);
}

#[test]
fn test_multiline_add_point_opens_line_even_on_failure() {
    let mut multiline: MultiLineString<Point> = MultiLineString::new(None);
    let err = multiline.add_point(
        Point::new(0.0f64.to_bits(), 0.0f64.to_bits(), Some(4326)),
    ).unwrap_err();
    assert_eq!(
        err,
        Error::IncompatibleSpatialReferenceSystemIdentifier {
            expected: None,
            actual: Some(4326),
        }
    );
    assert_eq!(multiline.lines.len(), 1);
    assert_eq!(multiline.lines[0].points.len(), 0);
}

#[test]
fn test_new_point_shapes() {
    assert!(Point::new_point(1, 2, None, None, None).is_ok());
    assert!(PointZ::new_point(1, 2, None, Some(3), None).is_ok());
    assert!(PointM::new_point(1, 2, None, None, Some(3)).is_ok());
    assert!(PointZM::new_point(1, 2, None, Some(3), Some(4)).is_ok());
}

#[test]
fn test_new_point_err() {
    let err = Point::new_point(1, 2, None, Some(3), Some(4)).unwrap_err();
    assert_eq!(err.reason, "unexpectedly defined Z or M for Point");
}

#[test]
fn test_new_point_z_m_def_err() {
    let err = PointZ::new_point(1, 2, None, Some(3), Some(4)).unwrap_err();
    assert_eq!(err.reason, "unexpectedly defined M for PointZ");
}

#[test]
fn test_new_point_m_z_def_err() {
    let err = PointM::new_point(1, 2, None, Some(3), Some(4)).unwrap_err();
    assert_eq!(err.reason, "unexpectedly defined Z for PointM");
}

#[test]
#[should_panic(expected = "Z is not defined, but mandatory for PointZ")]
fn test_new_point_z_not_def_err() {
    PointZ::new_point(1, 2, None, None, None).unwrap();
}

#[test]
#[should_panic(expected = "M is not defined, but mandatory for PointM")]
fn test_new_point_m_not_def_err() {
    PointM::new_point(1, 2, None, None, None).unwrap();
}

#[test]
#[should_panic(expected = "Z is not defined, but mandatory for PointZM")]
fn test_new_point_zm_z_not_def_err() {
    PointZM::new_point(1, 2, None, None, Some(3)).unwrap();
}

#[test]
#[should_panic(expected = "M is not defined, but mandatory for PointZM")]
fn test_new_point_zm_m_not_def_err() {
    PointZM::new_point(1, 2, None, Some(3), None).unwrap();
}
