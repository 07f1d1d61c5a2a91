//! Writing a header and reading it back, for each geometry shape.

use ewkb_codec::ewkb::{read_header, LITTLE_ENDIAN};
use ewkb_codec::types::{LineString, MultiLineString, Point, PointM, PointZ, PointZM};

#[test]
fn test_read_write_ewkb_header_point() {
    let point = Point::new(1.0f64.to_bits(), 2.0f64.to_bits(), None);
    let mut buffer = Vec::new();
    point.write_to_sql(true, &mut buffer);
    assert_eq!(buffer[0], LITTLE_ENDIAN);
    let (header, _) = read_header(&buffer, 1, true).unwrap();
    assert_eq!(header.g_type, point.geometry_type());
    assert_eq!(header.srid, point.srid);
}

#[test]
fn test_read_write_ewkb_header_pointz() {
    let point = PointZ::new(1.0f64.to_bits(), 2.0f64.to_bits(), 3.0f64.to_bits(), None);
    let mut buffer = Vec::new();
    point.write_to_sql(true, &mut buffer);
    assert_eq!(buffer[0], LITTLE_ENDIAN);
    let (header, _) = read_header(&buffer, 1, true).unwrap();
    assert_eq!(header.g_type, point.geometry_type());
    assert_eq!(header.srid, point.srid);
}

#[test]
fn test_read_write_ewkb_header_pointm() {
    let point = PointM::new(1.0f64.to_bits(), 2.0f64.to_bits(), 3.0f64.to_bits(), None);
    let mut buffer = Vec::new();
    point.write_to_sql(true, &mut buffer);
    assert_eq!(buffer[0], LITTLE_ENDIAN);
    let (header, _) = read_header(&buffer, 1, true).unwrap();
    assert_eq!(header.g_type, point.geometry_type());
    assert_eq!(header.srid, point.srid);
}

#[test]
fn test_read_write_ewkb_header_pointzm() {
    let point = PointZM::new(
        1.0f64.to_bits(),
        2.0f64.to_bits(),
        3.0f64.to_bits(),
        4.0f64.to_bits(),
        None,
    );
    let mut buffer = Vec::new();
    point.write_to_sql(true, &mut buffer);
    assert_eq!(buffer[0], LITTLE_ENDIAN);
    let (header, _) = read_header(&buffer, 1, true).unwrap();
    assert_eq!(header.g_type, point.geometry_type());
    assert_eq!(header.srid, point.srid);
}

#[test]
fn test_read_write_ewkb_header_linestring() {
    let point1 = Point::new(1.0f64.to_bits(), 2.0f64.to_bits(), None);
    let point2 = Point::new(3.0f64.to_bits(), 4.0f64.to_bits(), None);
    let mut linestring = LineString::new(None);
    linestring.add_point(point1).unwrap();
    linestring.add_point(point2).unwrap();
    let mut buffer = Vec::new();
    linestring.write_to_sql(true, &mut buffer);
    assert_eq!(buffer[0], LITTLE_ENDIAN);
    let (header, _) = read_header(&buffer, 1, true).unwrap();
    assert_eq!(header.g_type, linestring.geometry_type());
    assert_eq!(header.srid, linestring.srid);
}

#[test]
fn test_read_write_ewkb_header_empty_multi_line_string() {
    let multiline: MultiLineString<Point> = MultiLineString::new(Some(4326));
    let mut buffer = Vec::new();
    multiline.write_to_sql(true, &mut buffer);
    assert_eq!(buffer[0], LITTLE_ENDIAN);
    let (header, _) = read_header(&buffer, 1, true).unwrap();
    assert_eq!(header.g_type, multiline.geometry_type());
    assert_eq!(header.srid, multiline.srid);
}

#[test]
fn test_read_write_ewkb_header_multi_line_string() {
    let point1 = Point::new(1.0f64.to_bits(), 2.0f64.to_bits(), Some(4326));
    let point2 = Point::new(3.0f64.to_bits(), 4.0f64.to_bits(), Some(4326));
    let mut multiline: MultiLineString<Point> = MultiLineString::new(Some(4326));
    multiline.add_points(vec![point1, point2]).unwrap();
    multiline.add_points(vec![point1, point2]).unwrap();
    let mut buffer = Vec::new();
    multiline.write_to_sql(true, &mut buffer);
    assert_eq!(buffer[0], LITTLE_ENDIAN);
    let (header, _) = read_header(&buffer, 1, true).unwrap();
    assert_eq!(header.g_type, multiline.geometry_type());
    assert_eq!(header.srid, multiline.srid);
}
