//! The four point variants: constructors, accessors, and their bodies on the
//! wire.

use vstd::prelude::*;

use crate::bytes::{read_u64_at, write_u64_le};
use crate::errors::{Error, ErrorModel};
use crate::ewkb::{read_header, write_header, EwkbHeader, GeometryType};
use crate::model::{GeometryModel, PointFields, M_FLAG, Z_FLAG};
use crate::types::{Point, PointConstructorError, PointM, PointT, PointZ, PointZM};
use crate::wire::{
    enc_geometry, has_m_flag, has_z_flag, parse_point_fields, spec_decode,
};

verus! {

/// The coordinate dimension of a point variant: XY alone, or with Z, M, or
/// both.
#[derive(Copy, Clone, Debug, PartialEq, Eq, Structural)]
pub enum Dimension {
    Xy,
    Xyz,
    Xym,
    Xyzm,
}

impl Dimension {
    /// The Z/M flag bits of this dimension.
    pub open spec fn spec_bits(self) -> u32 {
        match self {
            Dimension::Xy => 0u32,
            Dimension::Xyz => Z_FLAG,
            Dimension::Xym => M_FLAG,
            Dimension::Xyzm => 0xC000_0000u32,
        }
    }

    /// The Z/M flag bits of this dimension, as they stand in a type word.
    pub fn bits(self) -> (r: u32)
        ensures
            r == self.spec_bits(),
    {
        match self {
            Dimension::Xy => 0u32,
            Dimension::Xyz => Z_FLAG,
            Dimension::Xym => M_FLAG,
            Dimension::Xyzm => 0xC000_0000u32,
        }
    }
}

impl Point {
    /// A two-dimensional point; coordinates are IEEE-754 bit patterns.
    pub fn new(x: u64, y: u64, srid: Option<u32>) -> (r: Point)
        ensures
            r@ == (PointFields { x, y, z: None, m: None, srid }),
    {
        Point { x, y, srid }
    }
}

impl PointZ {
    /// A point with a Z ordinate; coordinates are IEEE-754 bit patterns.
    pub fn new(x: u64, y: u64, z: u64, srid: Option<u32>) -> (r: PointZ)
        ensures
            r@ == (PointFields { x, y, z: Some(z), m: None, srid }),
    {
        PointZ { x, y, z, srid }
    }
}

impl PointM {
    /// A point with an M ordinate; coordinates are IEEE-754 bit patterns.
    pub fn new(x: u64, y: u64, m: u64, srid: Option<u32>) -> (r: PointM)
        ensures
            r@ == (PointFields { x, y, z: None, m: Some(m), srid }),
    {
        PointM { x, y, m, srid }
    }
}

impl PointZM {
    /// A point with Z and M ordinates; coordinates are IEEE-754 bit patterns.
    pub fn new(x: u64, y: u64, z: u64, m: u64, srid: Option<u32>) -> (r: PointZM)
        ensures
            r@ == (PointFields { x, y, z: Some(z), m: Some(m), srid }),
    {
        PointZM { x, y, z, m, srid }
    }
}

impl PointT for Point {
    open spec fn spec_has_z() -> bool {
        false
    }

    open spec fn spec_has_m() -> bool {
        false
    }

    proof fn lemma_shape(&self) {
    }

    fn new_point(x: u64, y: u64, srid: Option<u32>, z: Option<u64>, m: Option<u64>) -> (r: Result<
        Self,
        PointConstructorError,
    >) {
        if z.is_some() || m.is_some() {
            return Err(
                PointConstructorError {
                    reason: "unexpectedly defined Z or M for Point".to_owned(),
                },
            );
        }
        Ok(Point { x, y, srid })
    }

    fn get_x(&self) -> u64 {
        self.x
    }

    fn get_y(&self) -> u64 {
        self.y
    }

    fn get_z(&self) -> Option<u64> {
        None
    }

    fn get_m(&self) -> Option<u64> {
        None
    }

    fn get_srid(&self) -> Option<u32> {
        self.srid
    }

    fn dimension(&self) -> u32 {
        0
    }
}

impl PointT for PointZ {
    open spec fn spec_has_z() -> bool {
        true
    }

    open spec fn spec_has_m() -> bool {
        false
    }

    proof fn lemma_shape(&self) {
    }

    fn new_point(x: u64, y: u64, srid: Option<u32>, z: Option<u64>, m: Option<u64>) -> (r: Result<
        Self,
        PointConstructorError,
    >) {
        let z_value = match z {
            None => {
                return Err(
                    PointConstructorError {
                        reason: "Z is not defined, but mandatory for PointZ".to_owned(),
                    },
                );
            },
            Some(v) => v,
        };
        if m.is_some() {
            return Err(
                PointConstructorError { reason: "unexpectedly defined M for PointZ".to_owned() },
            );
        }
        Ok(PointZ { x, y, z: z_value, srid })
    }

    fn get_x(&self) -> u64 {
        self.x
    }

    fn get_y(&self) -> u64 {
        self.y
    }

    fn get_z(&self) -> Option<u64> {
        Some(self.z)
    }

    fn get_m(&self) -> Option<u64> {
        None
    }

    fn get_srid(&self) -> Option<u32> {
        self.srid
    }

    fn dimension(&self) -> u32 {
        Z_FLAG
    }
}

impl PointT for PointM {
    open spec fn spec_has_z() -> bool {
        false
    }

    open spec fn spec_has_m() -> bool {
        true
    }

    proof fn lemma_shape(&self) {
    }

    fn new_point(x: u64, y: u64, srid: Option<u32>, z: Option<u64>, m: Option<u64>) -> (r: Result<
        Self,
        PointConstructorError,
    >) {
        let m_value = match m {
            None => {
                return Err(
                    PointConstructorError {
                        reason: "M is not defined, but mandatory for PointM".to_owned(),
                    },
                );
            },
            Some(v) => v,
        };
        if z.is_some() {
            return Err(
                PointConstructorError { reason: "unexpectedly defined Z for PointM".to_owned() },
            );
        }
        Ok(PointM { x, y, m: m_value, srid })
    }

    fn get_x(&self) -> u64 {
        self.x
    }

    fn get_y(&self) -> u64 {
        self.y
    }

    fn get_z(&self) -> Option<u64> {
        None
    }

    fn get_m(&self) -> Option<u64> {
        Some(self.m)
    }

    fn get_srid(&self) -> Option<u32> {
        self.srid
    }

    fn dimension(&self) -> u32 {
        M_FLAG
    }
}

impl PointT for PointZM {
    open spec fn spec_has_z() -> bool {
        true
    }

    open spec fn spec_has_m() -> bool {
        true
    }

    proof fn lemma_shape(&self) {
    }

    fn new_point(x: u64, y: u64, srid: Option<u32>, z: Option<u64>, m: Option<u64>) -> (r: Result<
        Self,
        PointConstructorError,
    >) {
        let z_value = match z {
            None => {
                return Err(
                    PointConstructorError {
                        reason: "Z is not defined, but mandatory for PointZM".to_owned(),
                    },
                );
            },
            Some(v) => v,
        };
        let m_value = match m {
            None => {
                return Err(
                    PointConstructorError {
                        reason: "M is not defined, but mandatory for PointZM".to_owned(),
                    },
                );
            },
            Some(v) => v,
        };
        Ok(PointZM { x, y, z: z_value, m: m_value, srid })
    }

    fn get_x(&self) -> u64 {
        self.x
    }

    fn get_y(&self) -> u64 {
        self.y
    }

    fn get_z(&self) -> Option<u64> {
        Some(self.z)
    }

    fn get_m(&self) -> Option<u64> {
        Some(self.m)
    }

    fn get_srid(&self) -> Option<u32> {
        self.srid
    }

    fn dimension(&self) -> u32 {
        0xC000_0000u32
    }
}

/// Writes one point body: X and Y, then Z and M where the variant carries
/// them.
pub fn write_body<P: PointT>(point: &P, out: &mut Vec<u8>)
    ensures
        final(out)@ == old(out)@ + crate::wire::enc_point_body(point@),
{
    write_u64_le(point.get_x(), out);
    write_u64_le(point.get_y(), out);
    if let Some(z) = point.get_z() {
        write_u64_le(z, out);
    }
    if let Some(m) = point.get_m() {
        write_u64_le(m, out);
    }
    assert(out@ =~= old(out)@ + crate::wire::enc_point_body(point@));
}

/// Reads one point body at `pos` by the header's flags and builds the
/// variant through its validating constructor.
pub fn read_body<P: PointT>(header: EwkbHeader, bytes: &[u8], pos: usize, le: bool) -> (r: Result<
    (P, usize),
    Error,
>)
    ensures
        match r {
            Ok((p, end)) => parse_point_fields(bytes@, pos as int, le, has_z_flag(header.g_type),
                has_m_flag(header.g_type), P::spec_has_z(), P::spec_has_m(), header.srid) == Ok::<
                (PointFields, int),
                ErrorModel,
            >((p@, end as int)) && pos < end <= bytes@.len(),
            Err(e) => parse_point_fields(bytes@, pos as int, le, has_z_flag(header.g_type),
                has_m_flag(header.g_type), P::spec_has_z(), P::spec_has_m(), header.srid) == Err::<
                (PointFields, int),
                ErrorModel,
            >(e@),
        },
{
    let (x, pos) = match read_u64_at(bytes, pos, le) {
        None => {
            return Err(Error::UnexpectedEndOfBuffer);
        },
        Some(v) => v,
    };
    let (y, pos) = match read_u64_at(bytes, pos, le) {
        None => {
            return Err(Error::UnexpectedEndOfBuffer);
        },
        Some(v) => v,
    };
    let (z, pos) = if header.g_type & Z_FLAG == Z_FLAG {
        match read_u64_at(bytes, pos, le) {
            None => {
                return Err(Error::UnexpectedEndOfBuffer);
            },
            Some((v, p)) => (Some(v), p),
        }
    } else {
        (None, pos)
    };
    let (m, pos) = if header.g_type & M_FLAG == M_FLAG {
        match read_u64_at(bytes, pos, le) {
            None => {
                return Err(Error::UnexpectedEndOfBuffer);
            },
            Some((v, p)) => (Some(v), p),
        }
    } else {
        (None, pos)
    };
    match P::new_point(x, y, header.srid, z, m) {
        Ok(p) => Ok((p, pos)),
        Err(e) => Err(Error::PointConstruction(e)),
    }
}

impl Point {
    /// The type word the point writes: its kind ordinal with its dimension
    /// flags.
    pub fn geometry_type(&self) -> (r: u32)
        ensures
            r == crate::wire::geometry_word(GeometryModel::Point(self@)),
    {
        1u32 | PointT::dimension(self)
    }

    /// Writes the whole point: its header, then its body.
    pub fn write_to_sql(&self, include_srid: bool, out: &mut Vec<u8>)
        ensures
            final(out)@ == old(out)@ + enc_geometry(GeometryModel::Point(self@), include_srid),
    {
        write_point_to_sql(self, include_srid, out)
    }

    /// Decodes one whole point from a buffer.
    pub fn read_from_sql(bytes: &[u8]) -> (r: Result<Self, Error>)
        ensures
            match r {
                Ok(p) => spec_decode(bytes@, false, false, Some(GeometryType::Point)) == Ok::<
                    GeometryModel,
                    ErrorModel,
                >(GeometryModel::Point(p@)),
                Err(e) => spec_decode(bytes@, false, false, Some(GeometryType::Point)) == Err::<
                    GeometryModel,
                    ErrorModel,
                >(e@),
            },
    {
        read_point_from_sql::<Point>(bytes)
    }
}

impl PointZ {
    /// The type word the point writes: its kind ordinal with its dimension
    /// flags.
    pub fn geometry_type(&self) -> (r: u32)
        ensures
            r == crate::wire::geometry_word(GeometryModel::Point(self@)),
    {
        1u32 | PointT::dimension(self)
    }

    /// Writes the whole point: its header, then its body.
    pub fn write_to_sql(&self, include_srid: bool, out: &mut Vec<u8>)
        ensures
            final(out)@ == old(out)@ + enc_geometry(GeometryModel::Point(self@), include_srid),
    {
        write_point_to_sql(self, include_srid, out)
    }

    /// Decodes one whole point from a buffer.
    pub fn read_from_sql(bytes: &[u8]) -> (r: Result<Self, Error>)
        ensures
            match r {
                Ok(p) => spec_decode(bytes@, true, false, Some(GeometryType::Point)) == Ok::<
                    GeometryModel,
                    ErrorModel,
                >(GeometryModel::Point(p@)),
                Err(e) => spec_decode(bytes@, true, false, Some(GeometryType::Point)) == Err::<
                    GeometryModel,
                    ErrorModel,
                >(e@),
            },
    {
        read_point_from_sql::<PointZ>(bytes)
    }
}

impl PointM {
    /// The type word the point writes: its kind ordinal with its dimension
    /// flags.
    pub fn geometry_type(&self) -> (r: u32)
        ensures
            r == crate::wire::geometry_word(GeometryModel::Point(self@)),
    {
        1u32 | PointT::dimension(self)
    }

    /// Writes the whole point: its header, then its body.
    pub fn write_to_sql(&self, include_srid: bool, out: &mut Vec<u8>)
        ensures
            final(out)@ == old(out)@ + enc_geometry(GeometryModel::Point(self@), include_srid),
    {
        write_point_to_sql(self, include_srid, out)
    }

    /// Decodes one whole point from a buffer.
    pub fn read_from_sql(bytes: &[u8]) -> (r: Result<Self, Error>)
        ensures
            match r {
                Ok(p) => spec_decode(bytes@, false, true, Some(GeometryType::Point)) == Ok::<
                    GeometryModel,
                    ErrorModel,
                >(GeometryModel::Point(p@)),
                Err(e) => spec_decode(bytes@, false, true, Some(GeometryType::Point)) == Err::<
                    GeometryModel,
                    ErrorModel,
                >(e@),
            },
    {
        read_point_from_sql::<PointM>(bytes)
    }
}

impl PointZM {
    /// The type word the point writes: its kind ordinal with its dimension
    /// flags.
    pub fn geometry_type(&self) -> (r: u32)
        ensures
            r == crate::wire::geometry_word(GeometryModel::Point(self@)),
    {
        1u32 | PointT::dimension(self)
    }

    /// Writes the whole point: its header, then its body.
    pub fn write_to_sql(&self, include_srid: bool, out: &mut Vec<u8>)
        ensures
            final(out)@ == old(out)@ + enc_geometry(GeometryModel::Point(self@), include_srid),
    {
        write_point_to_sql(self, include_srid, out)
    }

    /// Decodes one whole point from a buffer.
    pub fn read_from_sql(bytes: &[u8]) -> (r: Result<Self, Error>)
        ensures
            match r {
                Ok(p) => spec_decode(bytes@, true, true, Some(GeometryType::Point)) == Ok::<
                    GeometryModel,
                    ErrorModel,
                >(GeometryModel::Point(p@)),
                Err(e) => spec_decode(bytes@, true, true, Some(GeometryType::Point)) == Err::<
                    GeometryModel,
                    ErrorModel,
                >(e@),
            },
    {
        read_point_from_sql::<PointZM>(bytes)
    }
}

/// Writes the bodies of a point sequence, in order.
pub fn write_points<P: PointT>(points: &Vec<P>, out: &mut Vec<u8>)
    ensures
        final(out)@ == old(out)@ + crate::wire::enc_points(crate::model::points_view(points@)),
{
    let ghost s = crate::model::points_view(points@);
    proof {
        assert(s.skip(0) =~= s);
    }
    let mut i: usize = 0;
    while i < points.len()
        invariant
            0 <= i <= points@.len(),
            s == crate::model::points_view(points@),
            s.len() == points@.len(),
            out@ + crate::wire::enc_points(s.skip(i as int)) == old(out)@
                + crate::wire::enc_points(s),
        decreases points@.len() - i,
    {
        proof {
            assert(s.skip(i as int)[0] == s[i as int]);
            assert(s.skip(i as int).drop_first() =~= s.skip(i + 1));
        }
        write_body(&points[i], out);
        proof {
            assert(out@ + crate::wire::enc_points(s.skip(i + 1)) =~= old(out)@
                + crate::wire::enc_points(s));
        }
        i = i + 1;
    }
    proof {
        assert(s.skip(s.len() as int) =~= Seq::<PointFields>::empty());
        assert(out@ + Seq::<u8>::empty() =~= out@);
    }
}

/// Reads `n` point bodies in sequence, each inheriting the header's SRID.
pub fn read_points<P: PointT>(header: EwkbHeader, bytes: &[u8], pos: usize, le: bool, n: u32) -> (r:
    Result<(Vec<P>, usize), Error>)
    requires
        pos <= bytes@.len(),
    ensures
        match r {
            Ok((v, end)) => crate::wire::parse_points(bytes@, pos as int, le, has_z_flag(
                header.g_type,
            ), has_m_flag(header.g_type), P::spec_has_z(), P::spec_has_m(), header.srid, n as nat,
                Seq::empty()) == Ok::<(Seq<PointFields>, int), ErrorModel>(
                (crate::model::points_view(v@), end as int),
            ) && pos <= end <= bytes@.len(),
            Err(e) => crate::wire::parse_points(bytes@, pos as int, le, has_z_flag(header.g_type),
                has_m_flag(header.g_type), P::spec_has_z(), P::spec_has_m(), header.srid, n as nat,
                Seq::empty()) == Err::<(Seq<PointFields>, int), ErrorModel>(e@),
        },
{
    let ghost fz = has_z_flag(header.g_type);
    let ghost fm = has_m_flag(header.g_type);
    let ghost target = crate::wire::parse_points(bytes@, pos as int, le, fz, fm, P::spec_has_z(),
        P::spec_has_m(), header.srid, n as nat, Seq::empty());
    let mut v: Vec<P> = Vec::new();
    let mut cursor = pos;
    let mut i: u32 = 0;
    proof {
        assert(crate::model::points_view(v@) =~= Seq::<PointFields>::empty());
    }
    while i < n
        invariant
            0 <= i <= n,
            pos <= cursor <= bytes@.len(),
            target == crate::wire::parse_points(bytes@, cursor as int, le, fz, fm, P::spec_has_z(),
                P::spec_has_m(), header.srid, (n - i) as nat, crate::model::points_view(v@)),
            target == crate::wire::parse_points(bytes@, pos as int, le, fz, fm, P::spec_has_z(),
                P::spec_has_m(), header.srid, n as nat, Seq::empty()),
            fz == has_z_flag(header.g_type),
            fm == has_m_flag(header.g_type),
        decreases n - i,
    {
        match read_body::<P>(header, bytes, cursor, le) {
            Err(e) => {
                proof {
                    assert(target == Err::<(Seq<PointFields>, int), ErrorModel>(e@));
                }
                return Err(e);
            },
            Ok((point, p2)) => {
                proof {
                    crate::model::lemma_points_view_push(v@, point);
                }
                v.push(point);
                cursor = p2;
                i = i + 1;
            },
        }
    }
    Ok((v, cursor))
}

/// Writes one whole point: its header, then its body.
pub fn write_point_to_sql<P: PointT>(point: &P, include_srid: bool, out: &mut Vec<u8>)
    ensures
        final(out)@ == old(out)@ + enc_geometry(GeometryModel::Point(point@), include_srid),
{
    proof {
        point.lemma_shape();
    }
    let word = 1u32 | point.dimension();
    write_header(word, point.get_srid(), include_srid, out);
    write_body(point, out);
    assert(out@ =~= old(out)@ + enc_geometry(GeometryModel::Point(point@), include_srid));
}

/// Decodes one whole point from a buffer.
pub fn read_point_from_sql<P: PointT>(bytes: &[u8]) -> (r: Result<P, Error>)
    ensures
        match r {
            Ok(p) => spec_decode(bytes@, P::spec_has_z(), P::spec_has_m(), Some(
                GeometryType::Point,
            )) == Ok::<GeometryModel, ErrorModel>(GeometryModel::Point(p@)),
            Err(e) => spec_decode(bytes@, P::spec_has_z(), P::spec_has_m(), Some(
                GeometryType::Point,
            )) == Err::<GeometryModel, ErrorModel>(e@),
        },
{
    let (header, pos, le) = match read_preamble(bytes, Some(GeometryType::Point)) {
        Ok(v) => v,
        Err(e) => {
            return Err(e);
        },
    };
    match read_body::<P>(header, bytes, pos, le) {
        Ok((p, _)) => Ok(p),
        Err(e) => Err(e),
    }
}

/// Reads the endianness byte and the header, and checks the decoded kind
/// against the expected one when one is given: the front of every top-level
/// decode.
pub fn read_preamble(bytes: &[u8], expected: Option<GeometryType>) -> (r: Result<
    (EwkbHeader, usize, bool),
    Error,
>)
    ensures
        match r {
            Ok((h, pos, le)) => {
                &&& bytes@.len() >= 1
                &&& le == (bytes@[0] != 0)
                &&& crate::ewkb::parse_header(bytes@, 1, le) == Some((h, pos as int))
                &&& (expected matches Some(k) ==> crate::ewkb::spec_kind_of(h.g_type) == k)
                &&& 1 < pos <= bytes@.len()
            },
            Err(e) => forall|wz: bool, wm: bool|
                #[trigger] spec_decode(bytes@, wz, wm, expected) == Err::<
                    GeometryModel,
                    ErrorModel,
                >(e@),
        },
{
    if bytes.len() < 1 {
        return Err(Error::UnexpectedEndOfBuffer);
    }
    let le = bytes[0] != 0;
    let (header, pos) = match read_header(bytes, 1, le) {
        None => {
            return Err(Error::UnexpectedEndOfBuffer);
        },
        Some(v) => v,
    };
    match expected {
        None => Ok((header, pos, le)),
        Some(k) => match header.expect(k) {
            Ok(h) => Ok((h, pos, le)),
            Err(e) => Err(e),
        },
    }
}

} // verus!
