//! Marker types naming the SQL column types a geometry may be stored in.
//! Database adapters attach their own machinery to these outside the
//! library.

use vstd::prelude::*;

verus! {

/// The geometry column type.
#[derive(Clone, Copy)]
pub struct Geometry;

/// The geography column type.
#[derive(Clone, Copy)]
pub struct Geography;

/// The column types a geometry value can be bound to.
pub trait GeoType {

}

impl GeoType for Geometry {

}

impl GeoType for Geography {

}

} // verus!
