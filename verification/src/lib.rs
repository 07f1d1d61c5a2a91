//! An EWKB (Extended Well-Known Binary) geometry codec.
//!
//! The codec serialises geographic vector geometries — points, line strings,
//! polygons, their homogeneous multi-variants and the heterogeneous,
//! recursive geometry collection — to the PostGIS EWKB wire format and reads
//! them back.  A geometry optionally carries a spatial reference system
//! identifier (SRID) and optional Z and M ordinates.
//!
//! Coordinates are held as the 64 bit patterns of IEEE-754 doubles, exactly
//! the eight bytes that stand on the wire, so the codec itself is free of
//! floating-point arithmetic.  Every encode and decode function carries a
//! contract that pins its result down to the byte, and the round-trip laws
//! (`roundtrip`) are proved from those contracts.

pub mod bytes;
pub mod errors;
pub mod ewkb;
pub mod geometrycollection;
pub mod geometrycontainer;
pub mod linestring;
pub mod model;
pub mod multiline;
pub mod multipoint;
pub mod multipolygon;
pub mod points;
pub mod polygon;
pub mod roundtrip;
pub mod sql_types;
pub mod types;
pub mod wire;
