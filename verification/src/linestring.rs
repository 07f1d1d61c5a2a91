//! Line strings: building, and their wire codec.

use vstd::prelude::*;

use crate::errors::{Error, ErrorModel};
use crate::ewkb::{write_header, EwkbHeader, GeometryType};
use crate::model::{
    first_srid_mismatch, lemma_first_srid_mismatch, lemma_points_view_push, linestring_dim,
    points_view, GeometryModel, LineStringModel, PointFields,
};
use crate::points::read_preamble;
use crate::types::{LineString, PointT};
use crate::wire::{
    count_word, enc_geometry, enc_linestring_body, has_m_flag, has_z_flag,
    parse_linestring_body, spec_decode,
};

verus! {

impl<P: PointT> LineString<P> {
    /// An empty line string with the given SRID.
    pub fn new(srid: Option<u32>) -> (r: Self)
        ensures
            r@ == (LineStringModel { points: Seq::empty(), srid }),
    {
        Self::with_capacity(srid, 0)
    }

    /// An empty line string with room reserved for `cap` points.
    pub fn with_capacity(srid: Option<u32>, cap: usize) -> (r: Self)
        ensures
            r@ == (LineStringModel { points: Seq::empty(), srid }),
    {
        let r = LineString { points: Vec::with_capacity(cap), srid };
        proof {
            assert(points_view(r.points@) =~= Seq::<PointFields>::empty());
        }
        r
    }

    /// Appends a point whose SRID must equal the line string's; otherwise
    /// fails and leaves the line string unchanged.
    pub fn add_point(&mut self, point: P) -> (r: Result<(), Error>)
        ensures
            point@.srid == old(self).srid ==> r.is_ok() && final(self)@ == (LineStringModel {
                points: old(self)@.points.push(point@),
                srid: old(self).srid,
            }),
            point@.srid != old(self).srid ==> r == Err::<(), Error>(
                Error::IncompatibleSpatialReferenceSystemIdentifier {
                    expected: old(self).srid,
                    actual: point@.srid,
                },
            ) && *final(self) == *old(self),
    {
        if point.get_srid() != self.srid {
            return Err(
                Error::IncompatibleSpatialReferenceSystemIdentifier {
                    expected: self.srid,
                    actual: point.get_srid(),
                },
            );
        }
        proof {
            lemma_points_view_push(self.points@, point);
        }
        self.points.push(point);
        Ok(())
    }

    /// Appends points in order until one's SRID disagrees; that point and
    /// those after it are not appended, and the first disagreeing point is
    /// reported.
    pub fn add_points(&mut self, points: Vec<P>) -> (r: Result<(), Error>)
        ensures
            first_srid_mismatch(points_view(points@), old(self).srid) == points@.len() ==> r.is_ok()
                && final(self)@ == (LineStringModel {
                points: old(self)@.points + points_view(points@),
                srid: old(self).srid,
            }),
            first_srid_mismatch(points_view(points@), old(self).srid) < points@.len() ==> r == Err::<
                (),
                Error,
            >(
                Error::IncompatibleSpatialReferenceSystemIdentifier {
                    expected: old(self).srid,
                    actual: points_view(points@)[first_srid_mismatch(points_view(points@),
                        old(self).srid)].srid,
                },
            ) && final(self)@ == (LineStringModel {
                points: old(self)@.points + points_view(points@).take(
                    first_srid_mismatch(points_view(points@), old(self).srid),
                ),
                srid: old(self).srid,
            }),
    {
        let ghost vs = points_view(points@);
        let ghost fm = first_srid_mismatch(vs, self.srid);
        proof {
            lemma_first_srid_mismatch(vs, self.srid);
        }
        let mut i: usize = 0;
        while i < points.len()
            invariant
                0 <= i <= points@.len(),
                vs == points_view(points@),
                vs.len() == points@.len(),
                fm == first_srid_mismatch(vs, old(self).srid),
                forall|k: int| 0 <= k < i ==> (#[trigger] vs[k]).srid == old(self).srid,
                self.srid == old(self).srid,
                self@.points == old(self)@.points + vs.take(i as int),
                0 <= fm <= vs.len(),
                forall|k: int| 0 <= k < fm ==> (#[trigger] vs[k]).srid == old(self).srid,
                fm < vs.len() ==> vs[fm].srid != old(self).srid,
            decreases points@.len() - i,
        {
            let point = points[i];
            if point.get_srid() != self.srid {
                proof {
                    assert(vs[i as int].srid != old(self).srid);
                    assert(fm == i as int);
                }
                return Err(
                    Error::IncompatibleSpatialReferenceSystemIdentifier {
                        expected: self.srid,
                        actual: point.get_srid(),
                    },
                );
            }
            proof {
                lemma_points_view_push(self.points@, point);
                assert(vs.take(i as int).push(vs[i as int]) =~= vs.take(i + 1));
                assert((old(self)@.points + vs.take(i as int)).push(vs[i as int]) =~= old(
                    self,
                )@.points + vs.take(i + 1));
            }
            self.points.push(point);
            i = i + 1;
        }
        proof {
            assert(fm == vs.len());
            assert(vs.take(vs.len() as int) =~= vs);
        }
        Ok(())
    }

    /// The dimension flags the line string reports: those of its first
    /// point, or none when it is empty.
    pub fn dimension(&self) -> (r: u32)
        ensures
            r == linestring_dim(self@),
    {
        if self.points.len() > 0 {
            let d = self.points[0].dimension();
            proof {
                self.points[0].lemma_shape();
            }
            d
        } else {
            0
        }
    }

    /// The type word the line string writes: its kind ordinal with its
    /// dimension flags.
    pub fn geometry_type(&self) -> (r: u32)
        ensures
            r == 2u32 | linestring_dim(self@),
    {
        2u32 | self.dimension()
    }

    /// Appends the line string's body: the point count, then the points.
    pub fn write_body(&self, out: &mut Vec<u8>)
        ensures
            final(out)@ == old(out)@ + enc_linestring_body(self@),
    {
        let count: u32 = ((self.points.len() as u64) % 0x1_0000_0000u64) as u32;
        proof {
            assert(count == count_word(self@.points.len()));
        }
        crate::bytes::write_u32_le(count, out);
        crate::points::write_points(&self.points, out);
        assert(out@ =~= old(out)@ + enc_linestring_body(self@));
    }

    /// Writes the whole line string: its header, then its body.
    pub fn write_to_sql(&self, include_srid: bool, out: &mut Vec<u8>)
        ensures
            final(out)@ == old(out)@ + enc_geometry(
                GeometryModel::LineString(self@),
                include_srid,
            ),
    {
        write_header(self.geometry_type(), self.srid, include_srid, out);
        self.write_body(out);
        assert(out@ =~= old(out)@ + enc_geometry(GeometryModel::LineString(self@), include_srid));
    }

    /// Reads a line string body at `pos`: the point count, then that many
    /// points, each inheriting the header's SRID.
    pub fn read_body(header: EwkbHeader, bytes: &[u8], pos: usize, le: bool) -> (r: Result<
        (Self, usize),
        Error,
    >)
        ensures
            match r {
                Ok((ls, end)) => parse_linestring_body(bytes@, pos as int, le, has_z_flag(
                    header.g_type,
                ), has_m_flag(header.g_type), P::spec_has_z(), P::spec_has_m(), header.srid)
                    == Ok::<(LineStringModel, int), ErrorModel>((ls@, end as int)) && pos <= end
                    <= bytes@.len(),
                Err(e) => parse_linestring_body(bytes@, pos as int, le, has_z_flag(header.g_type),
                    has_m_flag(header.g_type), P::spec_has_z(), P::spec_has_m(), header.srid)
                    == Err::<(LineStringModel, int), ErrorModel>(e@),
            },
    {
        let (n, start) = match crate::bytes::read_u32_at(bytes, pos, le) {
            None => {
                return Err(Error::UnexpectedEndOfBuffer);
            },
            Some(v) => v,
        };
        match crate::points::read_points::<P>(header, bytes, start, le, n) {
            Err(e) => Err(e),
            Ok((points, end)) => Ok((LineString { points, srid: header.srid }, end)),
        }
    }

    /// Decodes one whole line string from a buffer.
    pub fn read_from_sql(bytes: &[u8]) -> (r: Result<Self, Error>)
        ensures
            match r {
                Ok(ls) => spec_decode(bytes@, P::spec_has_z(), P::spec_has_m(), Some(
                    GeometryType::LineString,
                )) == Ok::<GeometryModel, ErrorModel>(GeometryModel::LineString(ls@)),
                Err(e) => spec_decode(bytes@, P::spec_has_z(), P::spec_has_m(), Some(
                    GeometryType::LineString,
                )) == Err::<GeometryModel, ErrorModel>(e@),
            },
    {
        let (header, pos, le) = match read_preamble(bytes, Some(GeometryType::LineString)) {
            Ok(v) => v,
            Err(e) => {
                return Err(e);
            },
        };
        match Self::read_body(header, bytes, pos, le) {
            Ok((ls, _)) => Ok(ls),
            Err(e) => Err(e),
        }
    }
}

} // verus!
