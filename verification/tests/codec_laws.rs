//! The codec's observable laws on concrete values: SRID omission, kind
//! mismatch, the exact wire shape of a fully flagged point, empty and
//! nested collections, member independence, big-endian input, the
//! unrecognised-ordinal fallback, and truncated buffers.

use ewkb_codec::errors::Error;
use ewkb_codec::ewkb::GeometryType;
use ewkb_codec::types::{
    GeometryCollection, GeometryContainer, LineString, MultiLineString, MultiPoint, MultiPolygon,
    Point, PointZ, PointZM, Polygon,
};

#[test]
fn test_header_srid_omission() {
    let point = Point::new(7.5f64.to_bits(), 8.25f64.to_bits(), Some(4326));
    let mut with_srid = Vec::new();
    point.write_to_sql(true, &mut with_srid);
    let mut without_srid = Vec::new();
    point.write_to_sql(false, &mut without_srid);
    // The bare header is five bytes; the SRID adds four and sets its flag.
    assert_eq!(with_srid.len(), 1 + 4 + 4 + 16);
    assert_eq!(without_srid.len(), 1 + 4 + 16);
    let word = u32::from_le_bytes([without_srid[1], without_srid[2], without_srid[3],
        without_srid[4]]);
    assert_eq!(word & 0x2000_0000, 0);
    assert_eq!(word, 1);
    // The body follows the bare word directly.
    assert_eq!(&without_srid[5..], &with_srid[9..]);
}

#[test]
fn test_type_mismatch_detection() {
    let point = Point::new(1.0f64.to_bits(), 2.0f64.to_bits(), None);
    let mut buffer = Vec::new();
    point.write_to_sql(true, &mut buffer);
    let err = Polygon::<Point>::read_from_sql(&buffer).unwrap_err();
    assert_eq!(
        err,
        Error::UnexpectedGeometryType {
            expected: GeometryType::Polygon,
            actual: GeometryType::Point,
        }
    );
}

#[test]
fn test_dimension_flag_round_trip() {
    let point = PointZM::new(
        1.0f64.to_bits(),
        2.0f64.to_bits(),
        3.0f64.to_bits(),
        4.0f64.to_bits(),
        Some(4326),
    );
    let mut buffer = Vec::new();
    point.write_to_sql(true, &mut buffer);
    assert_eq!(buffer[0], 1);
    let word = u32::from_le_bytes([buffer[1], buffer[2], buffer[3], buffer[4]]);
    assert_eq!(word, 0xE000_0001);
    let srid = u32::from_le_bytes([buffer[5], buffer[6], buffer[7], buffer[8]]);
    assert_eq!(srid, 0x10E6);
    let decoded = PointZM::read_from_sql(&buffer).unwrap();
    assert_eq!(f64::from_bits(decoded.x), 1.0);
    assert_eq!(f64::from_bits(decoded.y), 2.0);
    assert_eq!(f64::from_bits(decoded.z), 3.0);
    assert_eq!(f64::from_bits(decoded.m), 4.0);
    assert_eq!(decoded.srid, Some(4326));
}

#[test]
fn test_empty_collection() {
    let collection: GeometryCollection<Point> = GeometryCollection::new(Some(4326));
    let mut buffer = Vec::new();
    collection.write_to_sql(true, &mut buffer);
    let decoded = GeometryCollection::<Point>::read_from_sql(&buffer).unwrap();
    assert_eq!(decoded.geometries.len(), 0);
    assert_eq!(decoded.srid, Some(4326));
    assert_eq!(collection, decoded);
}

#[test]
fn test_nested_collection() {
    let point = Point::new(5.5f64.to_bits(), 6.5f64.to_bits(), Some(4326));
    let mut inner: GeometryCollection<Point> = GeometryCollection::new(Some(4326));
    inner.add_geometry(GeometryContainer::Point(point));
    let mut outer: GeometryCollection<Point> = GeometryCollection::new(Some(4326));
    outer.add_geometry(GeometryContainer::GeometryCollection(inner));
    let mut buffer = Vec::new();
    outer.write_to_sql(true, &mut buffer);
    let decoded = GeometryCollection::<Point>::read_from_sql(&buffer).unwrap();
    assert_eq!(outer, decoded);
}

#[test]
fn test_multi_geometry_member_independence() {
    let srid = Some(4326);
    let mut multiline: MultiLineString<Point> = MultiLineString::new(srid);
    multiline.add_points(vec![
        Point::new(1.0f64.to_bits(), 2.0f64.to_bits(), srid),
        Point::new(3.0f64.to_bits(), 4.0f64.to_bits(), srid),
    ])
        .unwrap();
    multiline.add_line();
    multiline.add_points(vec![
        Point::new(5.0f64.to_bits(), 6.0f64.to_bits(), srid),
        Point::new(7.0f64.to_bits(), 8.0f64.to_bits(), srid),
        Point::new(9.0f64.to_bits(), 10.0f64.to_bits(), srid),
    ])
        .unwrap();
    let mut buffer = Vec::new();
    multiline.write_to_sql(true, &mut buffer);
    let decoded = MultiLineString::<Point>::read_from_sql(&buffer).unwrap();
    assert_eq!(decoded.lines.len(), 2);
    assert_eq!(decoded.lines[0].points.len(), 2);
    assert_eq!(decoded.lines[1].points.len(), 3);
    assert_eq!(multiline, decoded);
}

#[test]
fn test_polygon_round_trip() {
    let srid = Some(31287);
    let mut polygon: Polygon<Point> = Polygon::new(srid);
    polygon.add_points(vec![
        Point::new(0.0f64.to_bits(), 0.0f64.to_bits(), srid),
        Point::new(1.0f64.to_bits(), 0.0f64.to_bits(), srid),
        Point::new(0.0f64.to_bits(), 1.0f64.to_bits(), srid),
        Point::new(0.0f64.to_bits(), 0.0f64.to_bits(), srid),
    ])
        .unwrap();
    polygon.add_ring();
    polygon.add_point(Point::new(0.25f64.to_bits(), 0.25f64.to_bits(), srid)).unwrap();
    let mut buffer = Vec::new();
    polygon.write_to_sql(true, &mut buffer);
    let decoded = Polygon::<Point>::read_from_sql(&buffer).unwrap();
    assert_eq!(decoded.rings.len(), 2);
    assert_eq!(decoded.rings[0].len(), 4);
    assert_eq!(decoded.rings[1].len(), 1);
    assert_eq!(polygon, decoded);
}

#[test]
fn test_multipoint_round_trip() {
    let srid = Some(4326);
    let mut mp: MultiPoint<Point> = MultiPoint::new(srid);
    mp.add_point(Point::new(1.5f64.to_bits(), 2.5f64.to_bits(), srid));
    mp.add_point(Point::new(3.5f64.to_bits(), 4.5f64.to_bits(), srid));
    let mut buffer = Vec::new();
    mp.write_to_sql(true, &mut buffer);
    let decoded = MultiPoint::<Point>::read_from_sql(&buffer).unwrap();
    assert_eq!(mp, decoded);
}

#[test]
fn test_multipolygon_round_trip() {
    let srid = None;
    let mut mpg: MultiPolygon<Point> = MultiPolygon::new(srid);
    mpg.add_points(vec![
        Point::new(0.0f64.to_bits(), 0.0f64.to_bits(), srid),
        Point::new(2.0f64.to_bits(), 0.0f64.to_bits(), srid),
        Point::new(0.0f64.to_bits(), 2.0f64.to_bits(), srid),
    ])
        .unwrap();
    mpg.add_empty_polygon();
    mpg.add_point(Point::new(9.0f64.to_bits(), 9.0f64.to_bits(), srid)).unwrap();
    let mut buffer = Vec::new();
    mpg.write_to_sql(true, &mut buffer);
    let decoded = MultiPolygon::<Point>::read_from_sql(&buffer).unwrap();
    assert_eq!(decoded.polygons.len(), 2);
    assert_eq!(mpg, decoded);
}

#[test]
fn test_heterogeneous_collection_round_trip() {
    let srid = Some(4326);
    let mut ls: LineString<Point> = LineString::new(srid);
    ls.add_point(Point::new(1.0f64.to_bits(), 1.0f64.to_bits(), srid)).unwrap();
    ls.add_point(Point::new(2.0f64.to_bits(), 2.0f64.to_bits(), srid)).unwrap();
    let mut gc: GeometryCollection<Point> = GeometryCollection::new(srid);
    gc.add_geometries(vec![
        GeometryContainer::Point(Point::new(0.5f64.to_bits(), 0.5f64.to_bits(), srid)),
        GeometryContainer::LineString(ls),
    ]);
    let mut buffer = Vec::new();
    gc.write_to_sql(true, &mut buffer);
    let decoded = GeometryCollection::<Point>::read_from_sql(&buffer).unwrap();
    assert_eq!(gc, decoded);
}

#[test]
fn test_container_round_trip_any_kind() {
    let point = Point::new(11.0f64.to_bits(), 12.0f64.to_bits(), Some(3857));
    let container = GeometryContainer::Point(point);
    let mut buffer = Vec::new();
    container.write_to_sql(true, &mut buffer);
    let decoded = GeometryContainer::<Point>::read_from_sql(&buffer).unwrap();
    assert_eq!(container, decoded);
}

#[test]
fn test_linestring_zm_round_trip() {
    let srid = Some(4326);
    let mut ls: LineString<PointZM> = LineString::new(srid);
    ls.add_point(PointZM::new(
        1.0f64.to_bits(),
        2.0f64.to_bits(),
        3.0f64.to_bits(),
        4.0f64.to_bits(),
        srid,
    ))
        .unwrap();
    ls.add_point(PointZM::new(
        5.0f64.to_bits(),
        6.0f64.to_bits(),
        7.0f64.to_bits(),
        8.0f64.to_bits(),
        srid,
    ))
        .unwrap();
    let mut buffer = Vec::new();
    ls.write_to_sql(true, &mut buffer);
    let decoded = LineString::<PointZM>::read_from_sql(&buffer).unwrap();
    assert_eq!(ls, decoded);
}

#[test]
fn test_collection_of_z_points_round_trip() {
    let srid = None;
    let mut gc: GeometryCollection<PointZ> = GeometryCollection::new(srid);
    gc.add_geometry(GeometryContainer::Point(PointZ::new(
        1.0f64.to_bits(),
        2.0f64.to_bits(),
        3.0f64.to_bits(),
        srid,
    )));
    let mut buffer = Vec::new();
    gc.write_to_sql(true, &mut buffer);
    let decoded = GeometryCollection::<PointZ>::read_from_sql(&buffer).unwrap();
    assert_eq!(gc, decoded);
}

#[test]
fn test_big_endian_decode() {
    // A hand-built big-endian point: endianness byte 0, word 1, X = 1.0,
    // Y = 2.0, all most-significant byte first.
    let mut buffer = vec![0u8];
    buffer.extend_from_slice(&1u32.to_be_bytes());
    buffer.extend_from_slice(&1.0f64.to_be_bytes());
    buffer.extend_from_slice(&2.0f64.to_be_bytes());
    let decoded = Point::read_from_sql(&buffer).unwrap();
    assert_eq!(decoded, Point::new(1.0f64.to_bits(), 2.0f64.to_bits(), None));
}

#[test]
fn test_unrecognised_ordinal_falls_back_to_point() {
    // A word whose low three bits are zero resolves to Point.
    let mut buffer = vec![1u8];
    buffer.extend_from_slice(&8u32.to_le_bytes());
    buffer.extend_from_slice(&1.0f64.to_le_bytes());
    buffer.extend_from_slice(&2.0f64.to_le_bytes());
    let decoded = GeometryContainer::<Point>::read_from_sql(&buffer).unwrap();
    assert_eq!(
        decoded,
        GeometryContainer::Point(Point::new(1.0f64.to_bits(), 2.0f64.to_bits(), None))
    );
}

#[test]
fn test_truncated_buffer() {
    let point = Point::new(1.0f64.to_bits(), 2.0f64.to_bits(), Some(4326));
    let mut buffer = Vec::new();
    point.write_to_sql(true, &mut buffer);
    for cut in [0usize, 1, 4, 8, 12, 20] {
        let err = Point::read_from_sql(&buffer[..cut]).unwrap_err();
        assert_eq!(err, Error::UnexpectedEndOfBuffer);
    }
}

#[test]
fn test_trailing_bytes_are_ignored() {
    let point = Point::new(1.0f64.to_bits(), 2.0f64.to_bits(), None);
    let mut buffer = Vec::new();
    point.write_to_sql(true, &mut buffer);
    buffer.extend_from_slice(&[0xAA, 0xBB, 0xCC]);
    let decoded = Point::read_from_sql(&buffer).unwrap();
    assert_eq!(point, decoded);
}

#[test]
fn test_wrong_shape_bytes_fail_construction() {
    // Point-shaped bytes decoded as PointZM: the Z and M flags are absent.
    let point = Point::new(1.0f64.to_bits(), 2.0f64.to_bits(), None);
    let mut buffer = Vec::new();
    point.write_to_sql(true, &mut buffer);
    let err = PointZM::read_from_sql(&buffer).unwrap_err();
    match err {
        Error::PointConstruction(e) => {
            assert_eq!(e.reason, "Z is not defined, but mandatory for PointZM");
        },
        other => panic!("unexpected error: {:?}", other),
    }
}
