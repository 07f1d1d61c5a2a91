//! The tagged union over the seven geometry kinds: uniform dimension, type
//! word and SRID access, and whole-geometry encode and decode with recursive
//! dispatch on the kind.

use vstd::prelude::*;

use crate::errors::{Error, ErrorModel};
use crate::ewkb::{spec_kind_of, EwkbHeader, GeometryType};
use crate::model::{geometry_dim, geometry_srid, GeometryModel};
use crate::points::read_preamble;
use crate::types::{
    GeometryCollection, GeometryContainer, LineString, MultiLineString, MultiPoint, MultiPolygon,
    PointT, Polygon,
};
use crate::wire::{
    enc_geometry, geometry_word, has_m_flag, has_z_flag, parse_geometry_body, spec_decode,
};

verus! {

impl<P: PointT> GeometryContainer<P> {
    /// The dimension flags the contained geometry reports.
    pub fn dimension(&self) -> (r: u32)
        ensures
            r == geometry_dim(self@),
        decreases *self,
    {
        match self {
            GeometryContainer::Point(g) => {
                proof {
                    g.lemma_shape();
                }
                g.dimension()
            },
            GeometryContainer::LineString(g) => g.dimension(),
            GeometryContainer::Polygon(g) => g.dimension(),
            GeometryContainer::MultiPoint(g) => g.dimension(),
            GeometryContainer::MultiLineString(g) => g.dimension(),
            GeometryContainer::MultiPolygon(g) => g.dimension(),
            GeometryContainer::GeometryCollection(g) => g.dimension(),
        }
    }

    /// The type word the contained geometry writes.
    pub fn geometry_type(&self) -> (r: u32)
        ensures
            r == geometry_word(self@),
    {
        match self {
            GeometryContainer::Point(g) => {
                proof {
                    g.lemma_shape();
                }
                1u32 | g.dimension()
            },
            GeometryContainer::LineString(g) => g.geometry_type(),
            GeometryContainer::Polygon(g) => g.geometry_type(),
            GeometryContainer::MultiPoint(g) => g.geometry_type(),
            GeometryContainer::MultiLineString(g) => g.geometry_type(),
            GeometryContainer::MultiPolygon(g) => g.geometry_type(),
            GeometryContainer::GeometryCollection(g) => g.geometry_type(),
        }
    }

    /// The SRID the contained geometry carries.
    pub fn srid(&self) -> (r: Option<u32>)
        ensures
            r == geometry_srid(self@),
    {
        match self {
            GeometryContainer::Point(g) => g.get_srid(),
            GeometryContainer::LineString(g) => g.srid,
            GeometryContainer::Polygon(g) => g.srid,
            GeometryContainer::MultiPoint(g) => g.srid,
            GeometryContainer::MultiLineString(g) => g.srid,
            GeometryContainer::MultiPolygon(g) => g.srid,
            GeometryContainer::GeometryCollection(g) => g.srid,
        }
    }

    /// Writes the contained geometry whole, its SRID included when it has
    /// one: a container always frames a complete, self-describing geometry,
    /// so the flag is not consulted.
    pub fn write_to_sql(&self, _include_srid: bool, out: &mut Vec<u8>)
        ensures
            final(out)@ == old(out)@ + enc_geometry(self@, true),
        decreases *self, 1int,
    {
        self.write_body(out)
    }

    /// Writes the contained geometry whole, with its SRID when it has one.
    pub fn write_body(&self, out: &mut Vec<u8>)
        ensures
            final(out)@ == old(out)@ + enc_geometry(self@, true),
        decreases *self, 0int,
    {
        match self {
            GeometryContainer::Point(g) => crate::points::write_point_to_sql(g, true, out),
            GeometryContainer::LineString(g) => g.write_to_sql(true, out),
            GeometryContainer::Polygon(g) => g.write_to_sql(true, out),
            GeometryContainer::MultiPoint(g) => g.write_to_sql(true, out),
            GeometryContainer::MultiLineString(g) => g.write_to_sql(true, out),
            GeometryContainer::MultiPolygon(g) => g.write_to_sql(true, out),
            GeometryContainer::GeometryCollection(g) => g.write_to_sql(true, out),
        }
    }

    /// Reads the body of the kind the header's word names, at `pos`.
    pub fn read_body(header: EwkbHeader, bytes: &[u8], pos: usize, le: bool) -> (r: Result<
        (Self, usize),
        Error,
    >)
        ensures
            match r {
                Ok((g, end)) => parse_geometry_body(spec_kind_of(header.g_type), bytes@,
                    pos as int, le, has_z_flag(header.g_type), has_m_flag(header.g_type),
                    P::spec_has_z(), P::spec_has_m(), header.srid) == Ok::<
                    (GeometryModel, int),
                    ErrorModel,
                >((g@, end as int)) && pos <= end <= bytes@.len(),
                Err(e) => parse_geometry_body(spec_kind_of(header.g_type), bytes@, pos as int, le,
                    has_z_flag(header.g_type), has_m_flag(header.g_type), P::spec_has_z(),
                    P::spec_has_m(), header.srid) == Err::<(GeometryModel, int), ErrorModel>(e@),
            },
    {
        let kind = GeometryType::from(header.g_type);
        read_geometry_body(kind, header, bytes, pos, le)
    }

    /// Decodes one whole geometry of any kind from a buffer.
    pub fn read_from_sql(bytes: &[u8]) -> (r: Result<Self, Error>)
        ensures
            match r {
                Ok(g) => spec_decode(bytes@, P::spec_has_z(), P::spec_has_m(), None) == Ok::<
                    GeometryModel,
                    ErrorModel,
                >(g@),
                Err(e) => spec_decode(bytes@, P::spec_has_z(), P::spec_has_m(), None) == Err::<
                    GeometryModel,
                    ErrorModel,
                >(e@),
            },
    {
        let (header, pos, le) = match read_preamble(bytes, None) {
            Ok(v) => v,
            Err(e) => {
                return Err(e);
            },
        };
        match Self::read_body(header, bytes, pos, le) {
            Ok((g, _)) => Ok(g),
            Err(e) => Err(e),
        }
    }
}

/// Reads the body of the named kind at `pos`, by the outer header's flags
/// and SRID, and wraps the result in the matching container variant.
pub fn read_geometry_body<P: PointT>(kind: GeometryType, header: EwkbHeader, bytes: &[u8],
    pos: usize, le: bool) -> (r: Result<(GeometryContainer<P>, usize), Error>)
    ensures
        match r {
            Ok((g, end)) => parse_geometry_body(kind, bytes@, pos as int, le, has_z_flag(
                header.g_type,
            ), has_m_flag(header.g_type), P::spec_has_z(), P::spec_has_m(), header.srid) == Ok::<
                (GeometryModel, int),
                ErrorModel,
            >((g@, end as int)) && pos <= end <= bytes@.len(),
            Err(e) => parse_geometry_body(kind, bytes@, pos as int, le, has_z_flag(header.g_type),
                has_m_flag(header.g_type), P::spec_has_z(), P::spec_has_m(), header.srid) == Err::<
                (GeometryModel, int),
                ErrorModel,
            >(e@),
        },
    decreases bytes@.len() - pos, 1int,
{
    match kind {
        GeometryType::Point => match crate::points::read_body::<P>(header, bytes, pos, le) {
            Ok((g, end)) => Ok((GeometryContainer::Point(g), end)),
            Err(e) => Err(e),
        },
        GeometryType::LineString => match LineString::<P>::read_body(header, bytes, pos, le) {
            Ok((g, end)) => Ok((GeometryContainer::LineString(g), end)),
            Err(e) => Err(e),
        },
        GeometryType::Polygon => match Polygon::<P>::read_body(header, bytes, pos, le) {
            Ok((g, end)) => Ok((GeometryContainer::Polygon(g), end)),
            Err(e) => Err(e),
        },
        GeometryType::MultiPoint => match MultiPoint::<P>::read_body(header, bytes, pos, le) {
            Ok((g, end)) => Ok((GeometryContainer::MultiPoint(g), end)),
            Err(e) => Err(e),
        },
        GeometryType::MultiLineString => match MultiLineString::<P>::read_body(header, bytes, pos,
            le) {
            Ok((g, end)) => Ok((GeometryContainer::MultiLineString(g), end)),
            Err(e) => Err(e),
        },
        GeometryType::MultiPolygon => match MultiPolygon::<P>::read_body(header, bytes, pos, le) {
            Ok((g, end)) => Ok((GeometryContainer::MultiPolygon(g), end)),
            Err(e) => Err(e),
        },
        GeometryType::GeometryCollection => match GeometryCollection::<P>::read_body(header,
            bytes, pos, le) {
            Ok((g, end)) => Ok((GeometryContainer::GeometryCollection(g), end)),
            Err(e) => Err(e),
        },
    }
}

} // verus!
