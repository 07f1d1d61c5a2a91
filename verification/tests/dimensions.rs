//! The dimension flags each geometry shape reports, for every point
//! variant: no flags for XY, the high bit for Z, the next for M, both for
//! ZM.

use ewkb_codec::points::Dimension;
use ewkb_codec::types::{
    GeometryCollection, GeometryContainer, LineString, MultiLineString, MultiPoint, MultiPolygon,
    Point, PointM, PointT, PointZ, PointZM, Polygon,
};

const Z: u32 = 0x8000_0000;
const M: u32 = 0x4000_0000;
const ZM: u32 = 0xC000_0000;

fn b(v: f64) -> u64 {
    v.to_bits()
}

#[test]
fn test_dimension_bits() {
    assert_eq!(Dimension::Xy.bits(), 0);
    assert_eq!(Dimension::Xyz.bits(), Z);
    assert_eq!(Dimension::Xym.bits(), M);
    assert_eq!(Dimension::Xyzm.bits(), ZM);
}

#[test]
fn test_point_dimensions() {
    assert_eq!(0, Point::new(b(0.0), b(0.0), None).dimension());
    assert_eq!(Z, PointZ::new(b(0.0), b(0.0), b(0.0), None).dimension());
    assert_eq!(M, PointM::new(b(0.0), b(0.0), b(0.0), None).dimension());
    assert_eq!(ZM, PointZM::new(b(0.0), b(0.0), b(0.0), b(0.0), None).dimension());
}

#[test]
fn test_dimensions_point() {
    assert_eq!(0, GeometryContainer::Point(Point::new(b(0.0), b(0.0), None)).dimension());
    assert_eq!(
        Z,
        GeometryContainer::Point(PointZ::new(b(0.0), b(0.0), b(0.0), None)).dimension()
    );
    assert_eq!(
        M,
        GeometryContainer::Point(PointM::new(b(0.0), b(0.0), b(0.0), None)).dimension()
    );
    assert_eq!(
        ZM,
        GeometryContainer::Point(PointZM::new(b(0.0), b(0.0), b(0.0), b(0.0), None)).dimension()
    );
}

#[test]
fn test_dimensions_line_string() {
    let mut ls = LineString::new(None);
    ls.add_point(Point::new(b(0.0), b(0.0), None)).unwrap();
    assert_eq!(0, GeometryContainer::LineString(ls).dimension());
    let mut ls = LineString::new(None);
    ls.add_point(PointZ::new(b(0.0), b(0.0), b(0.0), None)).unwrap();
    assert_eq!(Z, GeometryContainer::LineString(ls).dimension());
    let mut ls = LineString::new(None);
    ls.add_point(PointM::new(b(0.0), b(0.0), b(0.0), None)).unwrap();
    assert_eq!(M, GeometryContainer::LineString(ls).dimension());
    let mut ls = LineString::new(None);
    ls.add_point(PointZM::new(b(0.0), b(0.0), b(0.0), b(0.0), None)).unwrap();
    assert_eq!(ZM, GeometryContainer::LineString(ls).dimension());
}

#[test]
fn test_dimensions_polygon() {
    let mut pg = Polygon::new(None);
    pg.add_point(Point::new(b(0.0), b(0.0), None)).unwrap();
    assert_eq!(0, GeometryContainer::Polygon(pg).dimension());
    let mut pg = Polygon::new(None);
    pg.add_point(PointZ::new(b(0.0), b(0.0), b(0.0), None)).unwrap();
    assert_eq!(Z, GeometryContainer::Polygon(pg).dimension());
    let mut pg = Polygon::new(None);
    pg.add_point(PointM::new(b(0.0), b(0.0), b(0.0), None)).unwrap();
    assert_eq!(M, GeometryContainer::Polygon(pg).dimension());
    let mut pg = Polygon::new(None);
    pg.add_point(PointZM::new(b(0.0), b(0.0), b(0.0), b(0.0), None)).unwrap();
    assert_eq!(ZM, GeometryContainer::Polygon(pg).dimension());
}

#[test]
fn test_dimensions_multi_point() {
    let mut mp = MultiPoint::new(None);
    mp.add_point(Point::new(b(0.0), b(0.0), None));
    assert_eq!(0, GeometryContainer::MultiPoint(mp).dimension());
    let mut mp = MultiPoint::new(None);
    mp.add_point(PointZ::new(b(0.0), b(0.0), b(0.0), None));
    assert_eq!(Z, GeometryContainer::MultiPoint(mp).dimension());
    let mut mp = MultiPoint::new(None);
    mp.add_point(PointM::new(b(0.0), b(0.0), b(0.0), None));
    assert_eq!(M, GeometryContainer::MultiPoint(mp).dimension());
    let mut mp = MultiPoint::new(None);
    mp.add_point(PointZM::new(b(0.0), b(0.0), b(0.0), b(0.0), None));
    assert_eq!(ZM, GeometryContainer::MultiPoint(mp).dimension());
}

#[test]
fn test_dimensions_multi_line_string() {
    let mut mls = MultiLineString::new(None);
    mls.add_point(Point::new(b(0.0), b(0.0), None)).unwrap();
    assert_eq!(0, GeometryContainer::MultiLineString(mls).dimension());
    let mut mls = MultiLineString::new(None);
    mls.add_point(PointZ::new(b(0.0), b(0.0), b(0.0), None)).unwrap();
    assert_eq!(Z, GeometryContainer::MultiLineString(mls).dimension());
    let mut mls = MultiLineString::new(None);
    mls.add_point(PointM::new(b(0.0), b(0.0), b(0.0), None)).unwrap();
    assert_eq!(M, GeometryContainer::MultiLineString(mls).dimension());
    let mut mls = MultiLineString::new(None);
    mls.add_point(PointZM::new(b(0.0), b(0.0), b(0.0), b(0.0), None)).unwrap();
    assert_eq!(ZM, GeometryContainer::MultiLineString(mls).dimension());
}

#[test]
fn test_dimensions_multi_polygon() {
    let mut mpg = MultiPolygon::new(None);
    mpg.add_point(Point::new(b(0.0), b(0.0), None)).unwrap();
    assert_eq!(0, GeometryContainer::MultiPolygon(mpg).dimension());
    let mut mpg = MultiPolygon::new(None);
    mpg.add_point(PointZ::new(b(0.0), b(0.0), b(0.0), None)).unwrap();
    assert_eq!(Z, GeometryContainer::MultiPolygon(mpg).dimension());
    let mut mpg = MultiPolygon::new(None);
    mpg.add_point(PointM::new(b(0.0), b(0.0), b(0.0), None)).unwrap();
    assert_eq!(M, GeometryContainer::MultiPolygon(mpg).dimension());
    let mut mpg = MultiPolygon::new(None);
    mpg.add_point(PointZM::new(b(0.0), b(0.0), b(0.0), b(0.0), None)).unwrap();
    assert_eq!(ZM, GeometryContainer::MultiPolygon(mpg).dimension());
}

#[test]
fn test_dimensions_geometry_collection() {
    let mut gc = GeometryCollection::new(None);
    gc.add_geometry(GeometryContainer::Point(Point::new(b(0.0), b(0.0), None)));
    assert_eq!(0, GeometryContainer::GeometryCollection(gc).dimension());
    let mut gc = GeometryCollection::new(None);
    gc.add_geometry(GeometryContainer::Point(PointZ::new(b(0.0), b(0.0), b(0.0), None)));
    assert_eq!(Z, GeometryContainer::GeometryCollection(gc).dimension());
    let mut gc = GeometryCollection::new(None);
    gc.add_geometry(GeometryContainer::Point(PointM::new(b(0.0), b(0.0), b(0.0), None)));
    assert_eq!(M, GeometryContainer::GeometryCollection(gc).dimension());
    let mut gc = GeometryCollection::new(None);
    gc.add_geometry(GeometryContainer::Point(PointZM::new(b(0.0), b(0.0), b(0.0), b(0.0), None)));
    assert_eq!(ZM, GeometryContainer::GeometryCollection(gc).dimension());
}
