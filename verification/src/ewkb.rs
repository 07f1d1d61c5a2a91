//! The EWKB header: the geometry kind, the type word with its flag bits, and
//! the optional SRID word.
//!
//! A serialised geometry opens with one endianness byte (1 little-endian,
//! 0 big-endian) and a four-byte type word.  The word's low three bits hold
//! the kind ordinal; three independent high bits flag a Z ordinate, an M
//! ordinate, and a trailing SRID word.

use vstd::prelude::*;

use crate::bytes::{le_bytes_u32, parse_u32, read_u32_at, write_u32_le};
use crate::errors::Error;

verus! {

/// The seven geometry kinds, ordinals 1 through 7 on the wire.
#[derive(Copy, Clone, Debug, PartialEq, Eq, Structural)]
pub enum GeometryType {
    Point,
    LineString,
    Polygon,
    MultiPoint,
    MultiLineString,
    MultiPolygon,
    GeometryCollection,
}

/// Type word bit flagging a trailing SRID word.
pub const SRID: u32 = 0x2000_0000;

/// Leading byte of a little-endian geometry.
pub const LITTLE_ENDIAN: u8 = 1;

/// Leading byte of a big-endian geometry.
pub const BIG_ENDIAN: u8 = 0;

/// The wire ordinal of a kind.
pub open spec fn kind_ordinal(k: GeometryType) -> u32 {
    match k {
        GeometryType::Point => 1u32,
        GeometryType::LineString => 2u32,
        GeometryType::Polygon => 3u32,
        GeometryType::MultiPoint => 4u32,
        GeometryType::MultiLineString => 5u32,
        GeometryType::MultiPolygon => 6u32,
        GeometryType::GeometryCollection => 7u32,
    }
}

/// The kind a type word names: its low three bits, with the zero pattern
/// falling back to `Point`, the permissive convention of EWKB readers.
pub open spec fn spec_kind_of(t: u32) -> GeometryType {
    let k = t & 7;
    if k == 7 {
        GeometryType::GeometryCollection
    } else if k == 6 {
        GeometryType::MultiPolygon
    } else if k == 5 {
        GeometryType::MultiLineString
    } else if k == 4 {
        GeometryType::MultiPoint
    } else if k == 3 {
        GeometryType::Polygon
    } else if k == 2 {
        GeometryType::LineString
    } else {
        GeometryType::Point
    }
}

impl From<u32> for GeometryType {
    /// Decodes the kind ordinal from the low bits of a type word.
    fn from(t: u32) -> (r: GeometryType)
        ensures
            r == spec_kind_of(t),
    {
        let k = t & 7;
        if k == 7 {
            GeometryType::GeometryCollection
        } else if k == 6 {
            GeometryType::MultiPolygon
        } else if k == 5 {
            GeometryType::MultiLineString
        } else if k == 4 {
            GeometryType::MultiPoint
        } else if k == 3 {
            GeometryType::Polygon
        } else if k == 2 {
            GeometryType::LineString
        } else {
            GeometryType::Point
        }
    }
}

impl vstd::std_specs::convert::FromSpecImpl<u32> for GeometryType {
    open spec fn obeys_from_spec() -> bool {
        true
    }

    open spec fn from_spec(t: u32) -> GeometryType {
        spec_kind_of(t)
    }
}

/// A decoded header: the type word with the SRID flag stripped (kind ordinal
/// and dimension flags), and the SRID when one was present.
#[derive(Debug, Copy, Clone, PartialEq)]
pub struct EwkbHeader {
    pub g_type: u32,
    pub srid: Option<u32>,
}

impl EwkbHeader {
    /// Checks the decoded kind against the statically expected one.
    pub fn expect(self, expected_type: GeometryType) -> (r: Result<EwkbHeader, Error>)
        ensures
            spec_kind_of(self.g_type) == expected_type ==> r == Ok::<EwkbHeader, Error>(self),
            spec_kind_of(self.g_type) != expected_type ==> r == Err::<EwkbHeader, Error>(
                Error::UnexpectedGeometryType {
                    expected: expected_type,
                    actual: spec_kind_of(self.g_type),
                },
            ),
    {
        let actual = GeometryType::from(self.g_type);
        if actual != expected_type {
            Err(Error::UnexpectedGeometryType { expected: expected_type, actual })
        } else {
            Ok(self)
        }
    }
}

/// The full serialised header: the endianness byte (always little-endian on
/// encode), the type word, and the SRID word exactly when `include_srid` is
/// set and an SRID is present — then the word also carries the SRID flag.
pub open spec fn enc_header(g_type: u32, srid: Option<u32>, include_srid: bool) -> Seq<u8> {
    if include_srid && srid.is_some() {
        seq![LITTLE_ENDIAN] + le_bytes_u32(g_type | SRID) + le_bytes_u32(srid.unwrap())
    } else {
        seq![LITTLE_ENDIAN] + le_bytes_u32(g_type)
    }
}

/// Writes the header for a geometry whose type word and SRID are given.
pub fn write_header(g_type: u32, srid: Option<u32>, include_srid: bool, out: &mut Vec<u8>)
    ensures
        final(out)@ == old(out)@ + enc_header(g_type, srid, include_srid),
{
    out.push(LITTLE_ENDIAN);
    if include_srid {
        if let Some(srid_value) = srid {
            write_u32_le(g_type | SRID, out);
            write_u32_le(srid_value, out);
            assert(final(out)@ =~= old(out)@ + enc_header(g_type, srid, include_srid));
            return ;
        }
    }
    write_u32_le(g_type, out);
    assert(final(out)@ =~= old(out)@ + enc_header(g_type, srid, include_srid));
}

/// The header read at `pos`: the type word, the SRID exactly when the word
/// carries the SRID flag, and the position after them; `None` on a short
/// buffer.  The endianness byte is already consumed; `le` gives its value.
pub open spec fn parse_header(b: Seq<u8>, pos: int, le: bool) -> Option<(EwkbHeader, int)> {
    match parse_u32(b, pos, le) {
        None => None,
        Some((w, p1)) => {
            if w & SRID == SRID {
                match parse_u32(b, p1, le) {
                    None => None,
                    Some((s, p2)) => Some(
                        (EwkbHeader { g_type: w & !SRID, srid: Some(s) }, p2),
                    ),
                }
            } else {
                Some((EwkbHeader { g_type: w, srid: None }, p1))
            }
        },
    }
}

/// Reads the type word and the optional SRID word at `pos`.
pub fn read_header(bytes: &[u8], pos: usize, le: bool) -> (r: Option<(EwkbHeader, usize)>)
    ensures
        match r {
            Some((h, p)) => parse_header(bytes@, pos as int, le) == Some((h, p as int)) && pos < p
                <= bytes@.len(),
            None => parse_header(bytes@, pos as int, le) is None,
        },
{
    match read_u32_at(bytes, pos, le) {
        None => None,
        Some((w, p1)) => {
            if w & SRID == SRID {
                match read_u32_at(bytes, p1, le) {
                    None => None,
                    Some((s, p2)) => Some((EwkbHeader { g_type: w & !SRID, srid: Some(s) }, p2)),
                }
            } else {
                Some((EwkbHeader { g_type: w, srid: None }, p1))
            }
        },
    }
}

} // verus!
