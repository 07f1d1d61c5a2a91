//! Multi-points: building, and their wire codec.  Each member point is
//! framed behind its own SRID-less sub-header.

use vstd::prelude::*;

use crate::errors::{Error, ErrorModel};
use crate::ewkb::{write_header, EwkbHeader, GeometryType};
use crate::model::{
    lemma_points_view_push, multipoint_dim, points_view, GeometryModel, MultiPointModel,
    PointFields,
};
use crate::points::{read_preamble, write_point_to_sql};
use crate::types::{MultiPoint, PointT};
use crate::wire::{
    count_word, enc_geometry, enc_multipoint_body, enc_point_members, has_m_flag, has_z_flag,
    parse_multipoint_body, parse_point_members, spec_decode,
};

verus! {

impl<P: PointT> MultiPoint<P> {
    /// An empty multi-point with the given SRID.
    pub fn new(srid: Option<u32>) -> (r: Self)
        ensures
            r@ == (MultiPointModel { points: Seq::empty(), srid }),
    {
        Self::with_capacity(srid, 0)
    }

    /// An empty multi-point with room reserved for `cap` points.
    pub fn with_capacity(srid: Option<u32>, cap: usize) -> (r: Self)
        ensures
            r@ == (MultiPointModel { points: Seq::empty(), srid }),
    {
        let r = MultiPoint { points: Vec::with_capacity(cap), srid };
        proof {
            assert(points_view(r.points@) =~= Seq::<PointFields>::empty());
        }
        r
    }

    /// Appends a point; the multi-point does not validate its SRID.
    pub fn add_point(&mut self, point: P)
        ensures
            final(self)@ == (MultiPointModel {
                points: old(self)@.points.push(point@),
                srid: old(self).srid,
            }),
    {
        proof {
            lemma_points_view_push(self.points@, point);
        }
        self.points.push(point);
    }

    /// Appends points in order; none is validated.
    pub fn add_points(&mut self, points: Vec<P>)
        ensures
            final(self)@ == (MultiPointModel {
                points: old(self)@.points + points_view(points@),
                srid: old(self).srid,
            }),
    {
        let ghost vs = points_view(points@);
        proof {
            assert(vs.take(0) =~= Seq::<PointFields>::empty());
            assert(old(self)@.points + vs.take(0) =~= old(self)@.points);
        }
        let mut i: usize = 0;
        while i < points.len()
            invariant
                0 <= i <= points@.len(),
                vs == points_view(points@),
                vs.len() == points@.len(),
                self.srid == old(self).srid,
                self@.points == old(self)@.points + vs.take(i as int),
            decreases points@.len() - i,
        {
            let point = points[i];
            proof {
                lemma_points_view_push(self.points@, point);
                assert((old(self)@.points + vs.take(i as int)).push(vs[i as int]) =~= old(
                    self,
                )@.points + vs.take(i + 1));
            }
            self.points.push(point);
            i = i + 1;
        }
        proof {
            assert(vs.take(vs.len() as int) =~= vs);
        }
    }

    /// The dimension flags the multi-point reports: those of its first
    /// point, or none when it is empty.
    pub fn dimension(&self) -> (r: u32)
        ensures
            r == multipoint_dim(self@),
    {
        if self.points.len() > 0 {
            let d = self.points[0].dimension();
            proof {
                self.points[0].lemma_shape();
            }
            d
        } else {
            0
        }
    }

    /// The type word the multi-point writes: its kind ordinal with its
    /// dimension flags.
    pub fn geometry_type(&self) -> (r: u32)
        ensures
            r == 4u32 | multipoint_dim(self@),
    {
        4u32 | self.dimension()
    }

    /// Appends the multi-point's body: the member count, then each point
    /// behind its own SRID-less sub-header.
    pub fn write_body(&self, out: &mut Vec<u8>)
        ensures
            final(out)@ == old(out)@ + enc_multipoint_body(self@),
    {
        let ghost s = self@.points;
        let count: u32 = ((self.points.len() as u64) % 0x1_0000_0000u64) as u32;
        proof {
            assert(count == count_word(s.len()));
        }
        crate::bytes::write_u32_le(count, out);
        proof {
            assert(s.skip(0) =~= s);
            assert(out@ + enc_point_members(s) =~= old(out)@ + enc_multipoint_body(self@));
        }
        let mut i: usize = 0;
        while i < self.points.len()
            invariant
                0 <= i <= self.points@.len(),
                s == points_view(self.points@),
                s.len() == self.points@.len(),
                out@ + enc_point_members(s.skip(i as int)) == old(out)@ + enc_multipoint_body(
                    self@,
                ),
            decreases self.points@.len() - i,
        {
            proof {
                assert(s.skip(i as int)[0] == s[i as int]);
                assert(s.skip(i as int).drop_first() =~= s.skip(i + 1));
            }
            write_point_to_sql(&self.points[i], false, out);
            proof {
                assert(out@ + enc_point_members(s.skip(i + 1)) =~= old(out)@
                    + enc_multipoint_body(self@));
            }
            i = i + 1;
        }
        proof {
            assert(s.skip(s.len() as int) =~= Seq::<PointFields>::empty());
            assert(out@ + Seq::<u8>::empty() =~= out@);
        }
    }

    /// Writes the whole multi-point: its header, then its body.
    pub fn write_to_sql(&self, include_srid: bool, out: &mut Vec<u8>)
        ensures
            final(out)@ == old(out)@ + enc_geometry(
                GeometryModel::MultiPoint(self@),
                include_srid,
            ),
    {
        write_header(self.geometry_type(), self.srid, include_srid, out);
        self.write_body(out);
        assert(out@ =~= old(out)@ + enc_geometry(GeometryModel::MultiPoint(self@), include_srid));
    }

    /// Reads a multi-point body at `pos`: the member count, then that many
    /// members, each a discarded five-byte sub-header and a point read by
    /// the outer header's flags.
    pub fn read_body(header: EwkbHeader, bytes: &[u8], pos: usize, le: bool) -> (r: Result<
        (Self, usize),
        Error,
    >)
        ensures
            match r {
                Ok((mp, end)) => parse_multipoint_body(bytes@, pos as int, le, has_z_flag(
                    header.g_type,
                ), has_m_flag(header.g_type), P::spec_has_z(), P::spec_has_m(), header.srid)
                    == Ok::<(MultiPointModel, int), ErrorModel>((mp@, end as int)) && pos <= end
                    <= bytes@.len(),
                Err(e) => parse_multipoint_body(bytes@, pos as int, le, has_z_flag(header.g_type),
                    has_m_flag(header.g_type), P::spec_has_z(), P::spec_has_m(), header.srid)
                    == Err::<(MultiPointModel, int), ErrorModel>(e@),
            },
    {
        let ghost fz = has_z_flag(header.g_type);
        let ghost fm = has_m_flag(header.g_type);
        let (n, start) = match crate::bytes::read_u32_at(bytes, pos, le) {
            None => {
                return Err(Error::UnexpectedEndOfBuffer);
            },
            Some(v) => v,
        };
        let ghost target = parse_point_members(bytes@, start as int, le, fz, fm, P::spec_has_z(),
            P::spec_has_m(), header.srid, n as nat, Seq::empty());
        let mut mp = Self::with_capacity(header.srid, n as usize);
        let mut cursor = start;
        let mut i: u32 = 0;
        while i < n
            invariant
                0 <= i <= n,
                pos < start <= cursor <= bytes@.len(),
                mp.srid == header.srid,
                target == parse_point_members(bytes@, cursor as int, le, fz, fm, P::spec_has_z(),
                    P::spec_has_m(), header.srid, (n - i) as nat, points_view(mp.points@)),
                parse_multipoint_body(bytes@, pos as int, le, fz, fm, P::spec_has_z(),
                    P::spec_has_m(), header.srid) == (match target {
                    Err(e) => Err::<(MultiPointModel, int), ErrorModel>(e),
                    Ok((points, p2)) => Ok::<(MultiPointModel, int), ErrorModel>(
                        (MultiPointModel { points, srid: header.srid }, p2),
                    ),
                }),
                fz == has_z_flag(header.g_type),
                fm == has_m_flag(header.g_type),
            decreases n - i,
        {
            if bytes.len() < 5 || cursor > bytes.len() - 5 {
                return Err(Error::UnexpectedEndOfBuffer);
            }
            match crate::points::read_body::<P>(header, bytes, cursor + 5, le) {
                Err(e) => {
                    proof {
                        assert(target == Err::<(Seq<PointFields>, int), ErrorModel>(e@));
                    }
                    return Err(e);
                },
                Ok((point, p2)) => {
                    proof {
                        lemma_points_view_push(mp.points@, point);
                    }
                    mp.points.push(point);
                    cursor = p2;
                    i = i + 1;
                },
            }
        }
        proof {
            assert(target == Ok::<(Seq<PointFields>, int), ErrorModel>(
                (points_view(mp.points@), cursor as int),
            ));
        }
        Ok((mp, cursor))
    }

    /// Decodes one whole multi-point from a buffer.
    pub fn read_from_sql(bytes: &[u8]) -> (r: Result<Self, Error>)
        ensures
            match r {
                Ok(mp) => spec_decode(bytes@, P::spec_has_z(), P::spec_has_m(), Some(
                    GeometryType::MultiPoint,
                )) == Ok::<GeometryModel, ErrorModel>(GeometryModel::MultiPoint(mp@)),
                Err(e) => spec_decode(bytes@, P::spec_has_z(), P::spec_has_m(), Some(
                    GeometryType::MultiPoint,
                )) == Err::<GeometryModel, ErrorModel>(e@),
            },
    {
        let (header, pos, le) = match read_preamble(bytes, Some(GeometryType::MultiPoint)) {
            Ok(v) => v,
            Err(e) => {
                return Err(e);
            },
        };
        match Self::read_body(header, bytes, pos, le) {
            Ok((mp, _)) => Ok(mp),
            Err(e) => Err(e),
        }
    }
}

} // verus!
