//! The geometry data model: the four point variants, the composite
//! containers, and the trait that gives the codec uniform access to any
//! point variant.
//!
//! Coordinates are the 64 bit patterns of IEEE-754 doubles — exactly the
//! bytes that stand on the wire.  Use `f64::to_bits` and `f64::from_bits` at
//! the boundary to move between them and floating-point values.

use vstd::prelude::*;

use crate::model::{dimension_bits, shape_reason, PointFields};

verus! {

/// Error returned when a point is constructed without a required ordinate or
/// with an ordinate its variant does not carry.
#[derive(Debug, Clone, PartialEq)]
pub struct PointConstructorError {
    pub reason: String,
}

/// A two-dimensional point, with an optional SRID.
#[derive(Copy, Clone, Debug, PartialEq)]
pub struct Point {
    pub x: u64,
    pub y: u64,
    pub srid: Option<u32>,
}

/// A point with a Z ordinate.
#[derive(Copy, Clone, Debug, PartialEq)]
pub struct PointZ {
    pub x: u64,
    pub y: u64,
    pub z: u64,
    pub srid: Option<u32>,
}

/// A point with an M ordinate.
#[derive(Copy, Clone, Debug, PartialEq)]
pub struct PointM {
    pub x: u64,
    pub y: u64,
    pub m: u64,
    pub srid: Option<u32>,
}

/// A point with both Z and M ordinates.
#[derive(Copy, Clone, Debug, PartialEq)]
pub struct PointZM {
    pub x: u64,
    pub y: u64,
    pub z: u64,
    pub m: u64,
    pub srid: Option<u32>,
}

impl View for Point {
    type V = PointFields;

    open spec fn view(&self) -> PointFields {
        PointFields { x: self.x, y: self.y, z: None, m: None, srid: self.srid }
    }
}

impl View for PointZ {
    type V = PointFields;

    open spec fn view(&self) -> PointFields {
        PointFields { x: self.x, y: self.y, z: Some(self.z), m: None, srid: self.srid }
    }
}

impl View for PointM {
    type V = PointFields;

    open spec fn view(&self) -> PointFields {
        PointFields { x: self.x, y: self.y, z: None, m: Some(self.m), srid: self.srid }
    }
}

impl View for PointZM {
    type V = PointFields;

    open spec fn view(&self) -> PointFields {
        PointFields { x: self.x, y: self.y, z: Some(self.z), m: Some(self.m), srid: self.srid }
    }
}

/// Uniform access across the four point variants.
///
/// A variant's shape — whether it carries Z and M — is a property of the
/// type, given by `spec_has_z` and `spec_has_m`; the validating constructor
/// `new_point` accepts exactly the ordinates of that shape.
pub trait PointT: Sized + Copy + View<V = PointFields> {
    /// Whether this variant carries a Z ordinate.
    spec fn spec_has_z() -> bool;

    /// Whether this variant carries an M ordinate.
    spec fn spec_has_m() -> bool;

    /// Every value of the variant has the variant's shape.
    proof fn lemma_shape(&self)
        ensures
            self@.z.is_some() == Self::spec_has_z(),
            self@.m.is_some() == Self::spec_has_m(),
    ;

    /// Validating constructor: fails unless `z` and `m` are supplied exactly
    /// per the variant's shape.
    fn new_point(x: u64, y: u64, srid: Option<u32>, z: Option<u64>, m: Option<u64>) -> (r: Result<
        Self,
        PointConstructorError,
    >)
        ensures
            r.is_ok() <==> (z.is_some() == Self::spec_has_z() && m.is_some()
                == Self::spec_has_m()),
            r matches Ok(p) ==> p@ == (PointFields { x, y, z, m, srid }),
            r matches Err(e) ==> e.reason@ == shape_reason(Self::spec_has_z(), Self::spec_has_m(),
                z.is_some(), m.is_some()),
    ;

    fn get_x(&self) -> (r: u64)
        ensures
            r == self@.x,
    ;

    fn get_y(&self) -> (r: u64)
        ensures
            r == self@.y,
    ;

    fn get_z(&self) -> (r: Option<u64>)
        ensures
            r == self@.z,
    ;

    fn get_m(&self) -> (r: Option<u64>)
        ensures
            r == self@.m,
    ;

    fn get_srid(&self) -> (r: Option<u32>)
        ensures
            r == self@.srid,
    ;

    /// The Z/M flag word of the variant.
    fn dimension(&self) -> (r: u32)
        ensures
            r == dimension_bits(Self::spec_has_z(), Self::spec_has_m()),
    ;
}

/// An ordered collection of points sharing one SRID; members are framed
/// individually on the wire.
#[derive(Clone, Debug, PartialEq)]
pub struct MultiPoint<T> {
    pub points: Vec<T>,
    pub srid: Option<u32>,
}

/// An ordered point sequence sharing one SRID.
#[derive(Clone, Debug, PartialEq)]
pub struct LineString<T> {
    pub points: Vec<T>,
    pub srid: Option<u32>,
}

/// An ordered collection of line strings sharing one SRID.
#[derive(Clone, Debug, PartialEq)]
pub struct MultiLineString<T> {
    pub lines: Vec<LineString<T>>,
    pub srid: Option<u32>,
}

/// An ordered sequence of rings, each an ordered point sequence.  The codec
/// does not enforce ring closure or a minimum vertex count.
#[derive(Clone, Debug, PartialEq)]
pub struct Polygon<T> {
    pub rings: Vec<Vec<T>>,
    pub srid: Option<u32>,
}

/// An ordered collection of polygons sharing one SRID.
#[derive(Clone, Debug, PartialEq)]
pub struct MultiPolygon<T> {
    pub polygons: Vec<Polygon<T>>,
    pub srid: Option<u32>,
}

/// Any one of the seven geometry kinds, over the point variant `T`.
#[derive(Debug, PartialEq)]
pub enum GeometryContainer<T> {
    Point(T),
    LineString(LineString<T>),
    Polygon(Polygon<T>),
    MultiPoint(MultiPoint<T>),
    MultiLineString(MultiLineString<T>),
    MultiPolygon(MultiPolygon<T>),
    GeometryCollection(GeometryCollection<T>),
}

/// A heterogeneous, recursive collection of geometries sharing one SRID.
#[derive(Debug, PartialEq)]
pub struct GeometryCollection<T> {
    pub geometries: Vec<GeometryContainer<T>>,
    pub srid: Option<u32>,
}

} // verus!
