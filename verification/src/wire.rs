//! The wire format, stated in full: a specification-level encoder and parser
//! over geometry models.  Every executable encode and decode function's
//! contract equates its behaviour with these functions.

use vstd::prelude::*;

use crate::bytes::{le_bytes_u32, le_bytes_u64, parse_u32, parse_u64};
use crate::errors::ErrorModel;
use crate::ewkb::{enc_header, kind_ordinal, parse_header, spec_kind_of, GeometryType};
use crate::model::{
    geometry_dim, geometry_srid, linestring_dim, point_dim, polygon_dim,
    GeometryCollectionModel, GeometryModel, LineStringModel, MultiLineStringModel,
    MultiPointModel, MultiPolygonModel, PointFields, PolygonModel, M_FLAG, Z_FLAG,
};
use crate::model::shape_reason;

verus! {

/// Whether a type word flags a Z ordinate.
pub open spec fn has_z_flag(w: u32) -> bool {
    w & Z_FLAG == Z_FLAG
}

/// Whether a type word flags an M ordinate.
pub open spec fn has_m_flag(w: u32) -> bool {
    w & M_FLAG == M_FLAG
}

/// The kind a geometry model belongs to.
pub open spec fn model_kind(g: GeometryModel) -> GeometryType {
    match g {
        GeometryModel::Point(_) => GeometryType::Point,
        GeometryModel::LineString(_) => GeometryType::LineString,
        GeometryModel::Polygon(_) => GeometryType::Polygon,
        GeometryModel::MultiPoint(_) => GeometryType::MultiPoint,
        GeometryModel::MultiLineString(_) => GeometryType::MultiLineString,
        GeometryModel::MultiPolygon(_) => GeometryType::MultiPolygon,
        GeometryModel::GeometryCollection(_) => GeometryType::GeometryCollection,
    }
}

/// The type word a geometry writes: its kind ordinal with its dimension
/// flags.
pub open spec fn geometry_word(g: GeometryModel) -> u32 {
    kind_ordinal(model_kind(g)) | geometry_dim(g)
}

/// A sequence length as the 32 bit count written on the wire, truncated as
/// the writer's cast truncates.
pub open spec fn count_word(n: nat) -> u32 {
    (n % 0x1_0000_0000) as u32
}

/// The serialised count of a sequence.
pub open spec fn enc_count(n: nat) -> Seq<u8> {
    le_bytes_u32(count_word(n))
}

/// The body of one point: X and Y, then Z and M where present, each eight
/// little-endian bytes.
pub open spec fn enc_point_body(f: PointFields) -> Seq<u8> {
    le_bytes_u64(f.x) + le_bytes_u64(f.y) + (match f.z {
        Some(z) => le_bytes_u64(z),
        None => Seq::empty(),
    }) + (match f.m {
        Some(m) => le_bytes_u64(m),
        None => Seq::empty(),
    })
}

/// The concatenated bodies of a point sequence.
pub open spec fn enc_points(s: Seq<PointFields>) -> Seq<u8>
    decreases s,
{
    if s.len() == 0 {
        Seq::empty()
    } else {
        enc_point_body(s[0]) + enc_points(s.drop_first())
    }
}

/// The body of a line string: the point count, then the point bodies.
pub open spec fn enc_linestring_body(m: LineStringModel) -> Seq<u8> {
    enc_count(m.points.len()) + enc_points(m.points)
}

/// The serialised rings of a polygon, each a point count and the point
/// bodies.
pub open spec fn enc_rings(s: Seq<Seq<PointFields>>) -> Seq<u8>
    decreases s,
{
    if s.len() == 0 {
        Seq::empty()
    } else {
        enc_count(s[0].len()) + enc_points(s[0]) + enc_rings(s.drop_first())
    }
}

/// The body of a polygon: the ring count, then the rings.
pub open spec fn enc_polygon_body(m: PolygonModel) -> Seq<u8> {
    enc_count(m.rings.len()) + enc_rings(m.rings)
}

/// The serialised members of a multi-point: each point behind its own
/// SRID-less sub-header.
pub open spec fn enc_point_members(s: Seq<PointFields>) -> Seq<u8>
    decreases s,
{
    if s.len() == 0 {
        Seq::empty()
    } else {
        enc_header(1u32 | point_dim(s[0]), s[0].srid, false) + enc_point_body(s[0])
            + enc_point_members(s.drop_first())
    }
}

/// The body of a multi-point: the member count, then the members.
pub open spec fn enc_multipoint_body(m: MultiPointModel) -> Seq<u8> {
    enc_count(m.points.len()) + enc_point_members(m.points)
}

/// The serialised members of a multi-line-string.
pub open spec fn enc_line_members(s: Seq<LineStringModel>) -> Seq<u8>
    decreases s,
{
    if s.len() == 0 {
        Seq::empty()
    } else {
        enc_header(2u32 | linestring_dim(s[0]), s[0].srid, false) + enc_linestring_body(s[0])
            + enc_line_members(s.drop_first())
    }
}

/// The body of a multi-line-string: the member count, then the members.
pub open spec fn enc_multilinestring_body(m: MultiLineStringModel) -> Seq<u8> {
    enc_count(m.lines.len()) + enc_line_members(m.lines)
}

/// The serialised members of a multi-polygon.
pub open spec fn enc_polygon_members(s: Seq<PolygonModel>) -> Seq<u8>
    decreases s,
{
    if s.len() == 0 {
        Seq::empty()
    } else {
        enc_header(3u32 | polygon_dim(s[0]), s[0].srid, false) + enc_polygon_body(s[0])
            + enc_polygon_members(s.drop_first())
    }
}

/// The body of a multi-polygon: the member count, then the members.
pub open spec fn enc_multipolygon_body(m: MultiPolygonModel) -> Seq<u8> {
    enc_count(m.polygons.len()) + enc_polygon_members(m.polygons)
}

/// One whole serialised geometry: its header, then its body.  `include_srid`
/// is set only at the outermost level; members inherit the outer SRID.
pub open spec fn enc_geometry(g: GeometryModel, include_srid: bool) -> Seq<u8>
    decreases g, 1int,
{
    enc_header(geometry_word(g), geometry_srid(g), include_srid) + enc_geometry_body(g)
}

/// The body of any one geometry.
pub open spec fn enc_geometry_body(g: GeometryModel) -> Seq<u8>
    decreases g, 0int,
{
    match g {
        GeometryModel::Point(f) => enc_point_body(f),
        GeometryModel::LineString(m) => enc_linestring_body(m),
        GeometryModel::Polygon(m) => enc_polygon_body(m),
        GeometryModel::MultiPoint(m) => enc_multipoint_body(m),
        GeometryModel::MultiLineString(m) => enc_multilinestring_body(m),
        GeometryModel::MultiPolygon(m) => enc_multipolygon_body(m),
        GeometryModel::GeometryCollection(c) => enc_count(c.geometries.len()) + enc_geo_members(
            c.geometries,
        ),
    }
}

/// The serialised members of a geometry collection: each member a whole
/// geometry without an SRID of its own.
pub open spec fn enc_geo_members(s: Seq<GeometryModel>) -> Seq<u8>
    decreases s, 2int,
{
    if s.len() == 0 {
        Seq::empty()
    } else {
        enc_geometry(s[0], false) + enc_geo_members(s.drop_first())
    }
}

/// An optional eight-byte read, taken exactly when `flag` is set.
pub open spec fn parse_opt_u64(b: Seq<u8>, pos: int, le: bool, flag: bool) -> Result<
    (Option<u64>, int),
    ErrorModel,
> {
    if flag {
        match parse_u64(b, pos, le) {
            None => Err(ErrorModel::UnexpectedEndOfBuffer),
            Some((v, p)) => Ok((Some(v), p)),
        }
    } else {
        Ok((None, pos))
    }
}

/// One point body read at `pos`: X and Y, then Z and M as the header flags
/// `flag_z`/`flag_m` direct, validated against the expected variant shape
/// `want_z`/`want_m`, with the outer SRID attached.
pub open spec fn parse_point_fields(b: Seq<u8>, pos: int, le: bool, flag_z: bool, flag_m: bool,
    want_z: bool, want_m: bool, srid: Option<u32>) -> Result<(PointFields, int), ErrorModel> {
    match parse_u64(b, pos, le) {
        None => Err(ErrorModel::UnexpectedEndOfBuffer),
        Some((x, p1)) => match parse_u64(b, p1, le) {
            None => Err(ErrorModel::UnexpectedEndOfBuffer),
            Some((y, p2)) => match parse_opt_u64(b, p2, le, flag_z) {
                Err(e) => Err(e),
                Ok((z, p3)) => match parse_opt_u64(b, p3, le, flag_m) {
                    Err(e) => Err(e),
                    Ok((m, p4)) => {
                        if z.is_some() == want_z && m.is_some() == want_m {
                            Ok((PointFields { x, y, z, m, srid }, p4))
                        } else {
                            Err(ErrorModel::PointConstruction {
                                reason: shape_reason(want_z, want_m, z.is_some(), m.is_some()),
                            })
                        }
                    },
                },
            },
        },
    }
}

/// `n` point bodies read in sequence onto `acc`.
pub open spec fn parse_points(b: Seq<u8>, pos: int, le: bool, flag_z: bool, flag_m: bool,
    want_z: bool, want_m: bool, srid: Option<u32>, n: nat, acc: Seq<PointFields>) -> Result<
    (Seq<PointFields>, int),
    ErrorModel,
>
    decreases n,
{
    if n == 0 {
        Ok((acc, pos))
    } else {
        match parse_point_fields(b, pos, le, flag_z, flag_m, want_z, want_m, srid) {
            Err(e) => Err(e),
            Ok((f, p2)) => parse_points(b, p2, le, flag_z, flag_m, want_z, want_m, srid,
                (n - 1) as nat, acc.push(f)),
        }
    }
}

/// A line string body: the point count, then that many points.
pub open spec fn parse_linestring_body(b: Seq<u8>, pos: int, le: bool, flag_z: bool, flag_m: bool,
    want_z: bool, want_m: bool, srid: Option<u32>) -> Result<(LineStringModel, int), ErrorModel> {
    match parse_u32(b, pos, le) {
        None => Err(ErrorModel::UnexpectedEndOfBuffer),
        Some((n, p1)) => match parse_points(b, p1, le, flag_z, flag_m, want_z, want_m, srid,
            n as nat, Seq::empty()) {
            Err(e) => Err(e),
            Ok((points, p2)) => Ok((LineStringModel { points, srid }, p2)),
        },
    }
}

/// `n` rings read in sequence onto `acc`, each a point count and points.
pub open spec fn parse_rings(b: Seq<u8>, pos: int, le: bool, flag_z: bool, flag_m: bool,
    want_z: bool, want_m: bool, srid: Option<u32>, n: nat, acc: Seq<Seq<PointFields>>) -> Result<
    (Seq<Seq<PointFields>>, int),
    ErrorModel,
>
    decreases n,
{
    if n == 0 {
        Ok((acc, pos))
    } else {
        match parse_u32(b, pos, le) {
            None => Err(ErrorModel::UnexpectedEndOfBuffer),
            Some((cnt, p1)) => match parse_points(b, p1, le, flag_z, flag_m, want_z, want_m, srid,
                cnt as nat, Seq::empty()) {
                Err(e) => Err(e),
                Ok((ring, p2)) => parse_rings(b, p2, le, flag_z, flag_m, want_z, want_m, srid,
                    (n - 1) as nat, acc.push(ring)),
            },
        }
    }
}

/// A polygon body: the ring count, then that many rings.
pub open spec fn parse_polygon_body(b: Seq<u8>, pos: int, le: bool, flag_z: bool, flag_m: bool,
    want_z: bool, want_m: bool, srid: Option<u32>) -> Result<(PolygonModel, int), ErrorModel> {
    match parse_u32(b, pos, le) {
        None => Err(ErrorModel::UnexpectedEndOfBuffer),
        Some((n, p1)) => match parse_rings(b, p1, le, flag_z, flag_m, want_z, want_m, srid,
            n as nat, Seq::empty()) {
            Err(e) => Err(e),
            Ok((rings, p2)) => Ok((PolygonModel { rings, srid }, p2)),
        },
    }
}

/// `n` multi-point members onto `acc`: each a five-byte sub-header, read and
/// discarded, then a point body by the outer flags.
pub open spec fn parse_point_members(b: Seq<u8>, pos: int, le: bool, flag_z: bool, flag_m: bool,
    want_z: bool, want_m: bool, srid: Option<u32>, n: nat, acc: Seq<PointFields>) -> Result<
    (Seq<PointFields>, int),
    ErrorModel,
>
    decreases n,
{
    if n == 0 {
        Ok((acc, pos))
    } else if !(0 <= pos && pos + 5 <= b.len()) {
        Err(ErrorModel::UnexpectedEndOfBuffer)
    } else {
        match parse_point_fields(b, pos + 5, le, flag_z, flag_m, want_z, want_m, srid) {
            Err(e) => Err(e),
            Ok((f, p2)) => parse_point_members(b, p2, le, flag_z, flag_m, want_z, want_m, srid,
                (n - 1) as nat, acc.push(f)),
        }
    }
}

/// A multi-point body: the member count, then that many members.
pub open spec fn parse_multipoint_body(b: Seq<u8>, pos: int, le: bool, flag_z: bool, flag_m: bool,
    want_z: bool, want_m: bool, srid: Option<u32>) -> Result<(MultiPointModel, int), ErrorModel> {
    match parse_u32(b, pos, le) {
        None => Err(ErrorModel::UnexpectedEndOfBuffer),
        Some((n, p1)) => match parse_point_members(b, p1, le, flag_z, flag_m, want_z, want_m, srid,
            n as nat, Seq::empty()) {
            Err(e) => Err(e),
            Ok((points, p2)) => Ok((MultiPointModel { points, srid }, p2)),
        },
    }
}

/// `n` multi-line-string members onto `acc`: each a discarded five-byte
/// sub-header, then a line string body inheriting the outer SRID.
pub open spec fn parse_line_members(b: Seq<u8>, pos: int, le: bool, flag_z: bool, flag_m: bool,
    want_z: bool, want_m: bool, srid: Option<u32>, n: nat, acc: Seq<LineStringModel>) -> Result<
    (Seq<LineStringModel>, int),
    ErrorModel,
>
    decreases n,
{
    if n == 0 {
        Ok((acc, pos))
    } else if !(0 <= pos && pos + 5 <= b.len()) {
        Err(ErrorModel::UnexpectedEndOfBuffer)
    } else {
        match parse_linestring_body(b, pos + 5, le, flag_z, flag_m, want_z, want_m, srid) {
            Err(e) => Err(e),
            Ok((line, p2)) => parse_line_members(b, p2, le, flag_z, flag_m, want_z, want_m, srid,
                (n - 1) as nat, acc.push(line)),
        }
    }
}

/// A multi-line-string body: the member count, then that many members.
pub open spec fn parse_multilinestring_body(b: Seq<u8>, pos: int, le: bool, flag_z: bool,
    flag_m: bool, want_z: bool, want_m: bool, srid: Option<u32>) -> Result<
    (MultiLineStringModel, int),
    ErrorModel,
> {
    match parse_u32(b, pos, le) {
        None => Err(ErrorModel::UnexpectedEndOfBuffer),
        Some((n, p1)) => match parse_line_members(b, p1, le, flag_z, flag_m, want_z, want_m, srid,
            n as nat, Seq::empty()) {
            Err(e) => Err(e),
            Ok((lines, p2)) => Ok((MultiLineStringModel { lines, srid }, p2)),
        },
    }
}

/// `n` multi-polygon members onto `acc`: each a discarded five-byte
/// sub-header, then a polygon body inheriting the outer SRID.
pub open spec fn parse_polygon_members(b: Seq<u8>, pos: int, le: bool, flag_z: bool, flag_m: bool,
    want_z: bool, want_m: bool, srid: Option<u32>, n: nat, acc: Seq<PolygonModel>) -> Result<
    (Seq<PolygonModel>, int),
    ErrorModel,
>
    decreases n,
{
    if n == 0 {
        Ok((acc, pos))
    } else if !(0 <= pos && pos + 5 <= b.len()) {
        Err(ErrorModel::UnexpectedEndOfBuffer)
    } else {
        match parse_polygon_body(b, pos + 5, le, flag_z, flag_m, want_z, want_m, srid) {
            Err(e) => Err(e),
            Ok((polygon, p2)) => parse_polygon_members(b, p2, le, flag_z, flag_m, want_z, want_m,
                srid, (n - 1) as nat, acc.push(polygon)),
        }
    }
}

/// A multi-polygon body: the member count, then that many members.
pub open spec fn parse_multipolygon_body(b: Seq<u8>, pos: int, le: bool, flag_z: bool,
    flag_m: bool, want_z: bool, want_m: bool, srid: Option<u32>) -> Result<
    (MultiPolygonModel, int),
    ErrorModel,
> {
    match parse_u32(b, pos, le) {
        None => Err(ErrorModel::UnexpectedEndOfBuffer),
        Some((n, p1)) => match parse_polygon_members(b, p1, le, flag_z, flag_m, want_z, want_m,
            srid, n as nat, Seq::empty()) {
            Err(e) => Err(e),
            Ok((polygons, p2)) => Ok((MultiPolygonModel { polygons, srid }, p2)),
        },
    }
}

/// The body of any one geometry, read by kind.  Every point is read by the
/// outer header's flags; sub-headers inside collections name their member's
/// kind but their flag bits are not consulted.
pub open spec fn parse_geometry_body(kind: GeometryType, b: Seq<u8>, pos: int, le: bool,
    flag_z: bool, flag_m: bool, want_z: bool, want_m: bool, srid: Option<u32>) -> Result<
    (GeometryModel, int),
    ErrorModel,
>
    decreases b.len() - pos, 0int,
{
    match kind {
        GeometryType::Point => match parse_point_fields(b, pos, le, flag_z, flag_m, want_z, want_m,
            srid) {
            Err(e) => Err(e),
            Ok((f, p)) => Ok((GeometryModel::Point(f), p)),
        },
        GeometryType::LineString => match parse_linestring_body(b, pos, le, flag_z, flag_m, want_z,
            want_m, srid) {
            Err(e) => Err(e),
            Ok((m, p)) => Ok((GeometryModel::LineString(m), p)),
        },
        GeometryType::Polygon => match parse_polygon_body(b, pos, le, flag_z, flag_m, want_z,
            want_m, srid) {
            Err(e) => Err(e),
            Ok((m, p)) => Ok((GeometryModel::Polygon(m), p)),
        },
        GeometryType::MultiPoint => match parse_multipoint_body(b, pos, le, flag_z, flag_m, want_z,
            want_m, srid) {
            Err(e) => Err(e),
            Ok((m, p)) => Ok((GeometryModel::MultiPoint(m), p)),
        },
        GeometryType::MultiLineString => match parse_multilinestring_body(b, pos, le, flag_z,
            flag_m, want_z, want_m, srid) {
            Err(e) => Err(e),
            Ok((m, p)) => Ok((GeometryModel::MultiLineString(m), p)),
        },
        GeometryType::MultiPolygon => match parse_multipolygon_body(b, pos, le, flag_z, flag_m,
            want_z, want_m, srid) {
            Err(e) => Err(e),
            Ok((m, p)) => Ok((GeometryModel::MultiPolygon(m), p)),
        },
        GeometryType::GeometryCollection => {
            if !(0 <= pos) {
                Err(ErrorModel::UnexpectedEndOfBuffer)
            } else {
                match parse_u32(b, pos, le) {
                    None => Err(ErrorModel::UnexpectedEndOfBuffer),
                    Some((n, p1)) => match parse_geo_members(b, p1, le, flag_z, flag_m, want_z,
                        want_m, srid, n as nat, Seq::empty()) {
                        Err(e) => Err(e),
                        Ok((geometries, p2)) => Ok(
                            (GeometryModel::GeometryCollection(
                                GeometryCollectionModel { geometries, srid },
                            ), p2),
                        ),
                    },
                }
            }
        },
    }
}

/// `n` collection members onto `acc`: each a five-byte sub-header whose word
/// names the member's kind, then that kind's body.
pub open spec fn parse_geo_members(b: Seq<u8>, pos: int, le: bool, flag_z: bool, flag_m: bool,
    want_z: bool, want_m: bool, srid: Option<u32>, n: nat, acc: Seq<GeometryModel>) -> Result<
    (Seq<GeometryModel>, int),
    ErrorModel,
>
    decreases b.len() - pos, n,
{
    if n == 0 {
        Ok((acc, pos))
    } else if !(0 <= pos && pos + 5 <= b.len()) {
        Err(ErrorModel::UnexpectedEndOfBuffer)
    } else {
        match parse_u32(b, pos + 1, le) {
            None => Err(ErrorModel::UnexpectedEndOfBuffer),
            Some((w, p1)) => match parse_geometry_body(spec_kind_of(w), b, p1, le, flag_z, flag_m,
                want_z, want_m, srid) {
                Err(e) => Err(e),
                Ok((g, p2)) => {
                    if pos < p2 <= b.len() {
                        parse_geo_members(b, p2, le, flag_z, flag_m, want_z, want_m, srid,
                            (n - 1) as nat, acc.push(g))
                    } else {
                        Err(ErrorModel::UnexpectedEndOfBuffer)
                    }
                },
            },
        }
    }
}

/// One whole geometry decoded from a buffer: the endianness byte, the header
/// with its optional SRID, the kind checked against `expected` when one is
/// given, then the body.  Trailing bytes are ignored.
pub open spec fn spec_decode(b: Seq<u8>, want_z: bool, want_m: bool,
    expected: Option<GeometryType>) -> Result<GeometryModel, ErrorModel> {
    if b.len() < 1 {
        Err(ErrorModel::UnexpectedEndOfBuffer)
    } else {
        let le = b[0] != 0;
        match parse_header(b, 1, le) {
            None => Err(ErrorModel::UnexpectedEndOfBuffer),
            Some((h, pos)) => {
                let kind = spec_kind_of(h.g_type);
                let mismatch = match expected {
                    Some(k) => k != kind,
                    None => false,
                };
                if mismatch {
                    Err(ErrorModel::UnexpectedGeometryType {
                        expected: expected.unwrap(),
                        actual: kind,
                    })
                } else {
                    match parse_geometry_body(kind, b, pos, le, has_z_flag(h.g_type), has_m_flag(
                        h.g_type,
                    ), want_z, want_m, h.srid) {
                        Err(e) => Err(e),
                        Ok((g, _)) => Ok(g),
                    }
                }
            },
        }
    }
}

} // verus!
