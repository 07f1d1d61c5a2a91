//! Encoding a geometry and decoding it back gives the same value.

use ewkb_codec::types::{LineString, MultiLineString, Point, PointM, PointZ, PointZM};

#[test]
fn test_encode_decode_point() {
    let point = Point::new(1.0f64.to_bits(), 2.0f64.to_bits(), None);
    let mut buffer = Vec::new();
    point.write_to_sql(true, &mut buffer);
    let decoded_point = Point::read_from_sql(&buffer).unwrap();
    assert_eq!(point, decoded_point);
}

#[test]
fn test_encode_decode_pointz() {
    let point = PointZ::new(1.0f64.to_bits(), 2.0f64.to_bits(), 3.0f64.to_bits(), None);
    let mut buffer = Vec::new();
    point.write_to_sql(true, &mut buffer);
    let decoded_point = PointZ::read_from_sql(&buffer).unwrap();
    assert_eq!(point, decoded_point);
}

#[test]
fn test_encode_decode_pointm() {
    let point = PointM::new(1.0f64.to_bits(), 2.0f64.to_bits(), 3.0f64.to_bits(), None);
    let mut buffer = Vec::new();
    point.write_to_sql(true, &mut buffer);
    let decoded_point = PointM::read_from_sql(&buffer).unwrap();
    assert_eq!(point, decoded_point);
}

#[test]
fn test_encode_decode_pointzm() {
    let point = PointZM::new(
        1.0f64.to_bits(),
        2.0f64.to_bits(),
        3.0f64.to_bits(),
        4.0f64.to_bits(),
        None,
    );
    let mut buffer = Vec::new();
    point.write_to_sql(true, &mut buffer);
    let decoded_point = PointZM::read_from_sql(&buffer).unwrap();
    assert_eq!(point, decoded_point);
}

#[test]
fn test_encode_decode_linestring() {
    let point1 = Point::new(1.0f64.to_bits(), 2.0f64.to_bits(), None);
    let point2 = Point::new(3.0f64.to_bits(), 4.0f64.to_bits(), None);
    let mut linestring = LineString::new(None);
    linestring.add_point(point1).unwrap();
    linestring.add_point(point2).unwrap();
    let mut buffer = Vec::new();
    linestring.write_to_sql(true, &mut buffer);
    let decoded_linestring = LineString::read_from_sql(&buffer).unwrap();
    assert_eq!(linestring, decoded_linestring);
}

#[test]
fn test_encode_decode_empty_multi_line_string() {
    let multiline: MultiLineString<Point> = MultiLineString::new(Some(4326));
    let mut buffer = Vec::new();
    multiline.write_to_sql(true, &mut buffer);
    let decoded_multiline = MultiLineString::read_from_sql(&buffer).unwrap();
    assert_eq!(multiline, decoded_multiline);
}

#[test]
fn test_encode_decode_multi_line_string() {
    let point1 = Point::new(1.0f64.to_bits(), 2.0f64.to_bits(), Some(4326));
    let point2 = Point::new(3.0f64.to_bits(), 4.0f64.to_bits(), Some(4326));
    let mut multiline: MultiLineString<Point> = MultiLineString::new(Some(4326));
    multiline.add_points(vec![point1, point2]).unwrap();
    multiline.add_points(vec![point1, point2]).unwrap();
    let mut buffer = Vec::new();
    multiline.write_to_sql(true, &mut buffer);
    let decoded_multiline = MultiLineString::read_from_sql(&buffer).unwrap();
    assert_eq!(multiline, decoded_multiline);
}
