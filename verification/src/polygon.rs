//! Polygons: ring building, and their wire codec.  The codec frames rings
//! and points but checks no geometric validity: ring closure and vertex
//! counts are the caller's concern.

use vstd::prelude::*;

use crate::errors::{Error, ErrorModel};
use crate::ewkb::{write_header, EwkbHeader, GeometryType};
use crate::model::{
    first_srid_mismatch, lemma_first_srid_mismatch, lemma_points_view_push, lemma_polygon_append_step,
    lemma_rings_view_push, points_view, polygon_append, polygon_append_all, polygon_dim,
    rings_view, GeometryModel, PointFields, PolygonModel,
};
use crate::points::{read_points, read_preamble, write_points};
use crate::types::{PointT, Polygon};
use crate::wire::{
    count_word, enc_geometry, enc_polygon_body, enc_rings, has_m_flag, has_z_flag,
    parse_polygon_body, parse_rings, spec_decode,
};

verus! {

impl<P: PointT> Polygon<P> {
    /// An empty polygon with the given SRID.
    pub fn new(srid: Option<u32>) -> (r: Self)
        ensures
            r@ == (PolygonModel { rings: Seq::empty(), srid }),
    {
        Self::with_capacity(srid, 0)
    }

    /// An empty polygon with room reserved for `cap` rings.
    pub fn with_capacity(srid: Option<u32>, cap: usize) -> (r: Self)
        ensures
            r@ == (PolygonModel { rings: Seq::empty(), srid }),
    {
        let r = Polygon { rings: Vec::with_capacity(cap), srid };
        proof {
            assert(rings_view(r.rings@) =~= Seq::<Seq<PointFields>>::empty());
        }
        r
    }

    /// Opens a new, empty ring; points append to it.
    pub fn add_ring(&mut self)
        ensures
            final(self)@ == (PolygonModel {
                rings: old(self)@.rings.push(Seq::empty()),
                srid: old(self).srid,
            }),
    {
        self.add_ring_with_capacity(0)
    }

    /// Opens a new, empty ring with room reserved for `cap` points.
    pub fn add_ring_with_capacity(&mut self, cap: usize)
        ensures
            final(self)@ == (PolygonModel {
                rings: old(self)@.rings.push(Seq::empty()),
                srid: old(self).srid,
            }),
    {
        let ring: Vec<P> = Vec::with_capacity(cap);
        proof {
            lemma_rings_view_push(self.rings@, ring);
            assert(points_view(ring@) =~= Seq::<PointFields>::empty());
        }
        self.rings.push(ring);
    }

    /// Appends a point to the last ring, opening a first ring when none
    /// exists.  A point whose SRID disagrees is refused and the polygon is
    /// left unchanged.
    pub fn add_point(&mut self, point: P) -> (r: Result<(), Error>)
        ensures
            point@.srid == old(self).srid ==> r.is_ok() && final(self)@ == (PolygonModel {
                rings: polygon_append(old(self)@.rings, point@),
                srid: old(self).srid,
            }),
            point@.srid != old(self).srid ==> r == Err::<(), Error>(
                Error::IncompatibleSpatialReferenceSystemIdentifier {
                    expected: old(self).srid,
                    actual: point@.srid,
                },
            ) && *final(self) == *old(self),
    {
        if point.get_srid() != self.srid {
            return Err(
                Error::IncompatibleSpatialReferenceSystemIdentifier {
                    expected: self.srid,
                    actual: point.get_srid(),
                },
            );
        }
        if self.rings.len() == 0 {
            self.add_ring();
        }
        let ghost base = self.rings@;
        let mut last = match self.rings.pop() {
            Some(v) => v,
            None => unreached(),
        };
        proof {
            lemma_points_view_push(last@, point);
        }
        last.push(point);
        proof {
            lemma_rings_view_push(base.drop_last(), last);
        }
        self.rings.push(last);
        proof {
            assert(rings_view(base.drop_last()) =~= rings_view(base).drop_last());
            assert(rings_view(base).drop_last().push(
                points_view(base.last()@).push(point@),
            ) =~= polygon_append(old(self)@.rings, point@));
        }
        Ok(())
    }

    /// Appends points to the last ring in order until one's SRID disagrees;
    /// that point and those after it are not appended.
    pub fn add_points(&mut self, points: Vec<P>) -> (r: Result<(), Error>)
        ensures
            first_srid_mismatch(points_view(points@), old(self).srid) == points@.len() ==> r.is_ok()
                && final(self)@ == (PolygonModel {
                rings: polygon_append_all(old(self)@.rings, points_view(points@)),
                srid: old(self).srid,
            }),
            first_srid_mismatch(points_view(points@), old(self).srid) < points@.len() ==> r == Err::<
                (),
                Error,
            >(
                Error::IncompatibleSpatialReferenceSystemIdentifier {
                    expected: old(self).srid,
                    actual: points_view(points@)[first_srid_mismatch(points_view(points@),
                        old(self).srid)].srid,
                },
            ) && final(self)@ == (PolygonModel {
                rings: polygon_append_all(old(self)@.rings, points_view(points@).take(
                    first_srid_mismatch(points_view(points@), old(self).srid),
                )),
                srid: old(self).srid,
            }),
    {
        let ghost vs = points_view(points@);
        let ghost fm = first_srid_mismatch(vs, self.srid);
        proof {
            lemma_first_srid_mismatch(vs, self.srid);
            assert(vs.take(0) =~= Seq::<PointFields>::empty());
        }
        let mut i: usize = 0;
        while i < points.len()
            invariant
                0 <= i <= points@.len(),
                vs == points_view(points@),
                vs.len() == points@.len(),
                fm == first_srid_mismatch(vs, old(self).srid),
                forall|k: int| 0 <= k < i ==> (#[trigger] vs[k]).srid == old(self).srid,
                self.srid == old(self).srid,
                self@.rings == polygon_append_all(old(self)@.rings, vs.take(i as int)),
                0 <= fm <= vs.len(),
                forall|k: int| 0 <= k < fm ==> (#[trigger] vs[k]).srid == old(self).srid,
                fm < vs.len() ==> vs[fm].srid != old(self).srid,
            decreases points@.len() - i,
        {
            let point = points[i];
            match self.add_point(point) {
                Err(e) => {
                    proof {
                        assert(vs[i as int].srid != old(self).srid);
                        assert(fm == i as int);
                    }
                    return Err(e);
                },
                Ok(_) => {
                    proof {
                        lemma_polygon_append_step(old(self)@.rings, vs.take(i as int),
                            vs[i as int]);
                        assert(vs.take(i as int).push(vs[i as int]) =~= vs.take(i + 1));
                    }
                    i = i + 1;
                },
            }
        }
        proof {
            assert(fm == vs.len());
            assert(vs.take(vs.len() as int) =~= vs);
        }
        Ok(())
    }

    /// The dimension flags the polygon reports: those of the first point of
    /// its first ring, or none.
    pub fn dimension(&self) -> (r: u32)
        ensures
            r == polygon_dim(self@),
    {
        if self.rings.len() > 0 {
            let first = &self.rings[0];
            if first.len() > 0 {
                let d = first[0].dimension();
                proof {
                    first[0].lemma_shape();
                }
                return d;
            }
        }
        0
    }

    /// The type word the polygon writes: its kind ordinal with its dimension
    /// flags.
    pub fn geometry_type(&self) -> (r: u32)
        ensures
            r == 3u32 | polygon_dim(self@),
    {
        3u32 | self.dimension()
    }

    /// Appends the polygon's body: the ring count, then each ring as its
    /// point count and points.
    pub fn write_body(&self, out: &mut Vec<u8>)
        ensures
            final(out)@ == old(out)@ + enc_polygon_body(self@),
    {
        let ghost rv = self@.rings;
        let count: u32 = ((self.rings.len() as u64) % 0x1_0000_0000u64) as u32;
        proof {
            assert(count == count_word(rv.len()));
        }
        crate::bytes::write_u32_le(count, out);
        proof {
            assert(rv.skip(0) =~= rv);
            assert(out@ + enc_rings(rv) =~= old(out)@ + enc_polygon_body(self@));
        }
        let mut i: usize = 0;
        while i < self.rings.len()
            invariant
                0 <= i <= self.rings@.len(),
                rv == rings_view(self.rings@),
                rv.len() == self.rings@.len(),
                out@ + enc_rings(rv.skip(i as int)) == old(out)@ + enc_polygon_body(self@),
            decreases self.rings@.len() - i,
        {
            proof {
                assert(rv.skip(i as int)[0] == rv[i as int]);
                assert(rv.skip(i as int).drop_first() =~= rv.skip(i + 1));
            }
            let ring = &self.rings[i];
            let ring_count: u32 = ((ring.len() as u64) % 0x1_0000_0000u64) as u32;
            proof {
                assert(ring_count == count_word(rv[i as int].len()));
            }
            crate::bytes::write_u32_le(ring_count, out);
            write_points(ring, out);
            proof {
                assert(out@ + enc_rings(rv.skip(i + 1)) =~= old(out)@ + enc_polygon_body(self@));
            }
            i = i + 1;
        }
        proof {
            assert(rv.skip(rv.len() as int) =~= Seq::<Seq<PointFields>>::empty());
            assert(out@ + Seq::<u8>::empty() =~= out@);
        }
    }

    /// Writes the whole polygon: its header, then its body.
    pub fn write_to_sql(&self, include_srid: bool, out: &mut Vec<u8>)
        ensures
            final(out)@ == old(out)@ + enc_geometry(GeometryModel::Polygon(self@), include_srid),
    {
        write_header(self.geometry_type(), self.srid, include_srid, out);
        self.write_body(out);
        assert(out@ =~= old(out)@ + enc_geometry(GeometryModel::Polygon(self@), include_srid));
    }

    /// Reads a polygon body at `pos`: the ring count, then that many rings,
    /// every point inheriting the header's SRID.
    pub fn read_body(header: EwkbHeader, bytes: &[u8], pos: usize, le: bool) -> (r: Result<
        (Self, usize),
        Error,
    >)
        ensures
            match r {
                Ok((pg, end)) => parse_polygon_body(bytes@, pos as int, le, has_z_flag(
                    header.g_type,
                ), has_m_flag(header.g_type), P::spec_has_z(), P::spec_has_m(), header.srid)
                    == Ok::<(PolygonModel, int), ErrorModel>((pg@, end as int)) && pos <= end
                    <= bytes@.len(),
                Err(e) => parse_polygon_body(bytes@, pos as int, le, has_z_flag(header.g_type),
                    has_m_flag(header.g_type), P::spec_has_z(), P::spec_has_m(), header.srid)
                    == Err::<(PolygonModel, int), ErrorModel>(e@),
            },
    {
        let ghost fz = has_z_flag(header.g_type);
        let ghost fm = has_m_flag(header.g_type);
        let (n, start) = match crate::bytes::read_u32_at(bytes, pos, le) {
            None => {
                return Err(Error::UnexpectedEndOfBuffer);
            },
            Some(v) => v,
        };
        let ghost target = parse_rings(bytes@, start as int, le, fz, fm, P::spec_has_z(),
            P::spec_has_m(), header.srid, n as nat, Seq::empty());
        let mut pg = Self::with_capacity(header.srid, n as usize);
        let mut cursor = start;
        let mut i: u32 = 0;
        while i < n
            invariant
                0 <= i <= n,
                pos < start <= cursor <= bytes@.len(),
                pg.srid == header.srid,
                target == parse_rings(bytes@, cursor as int, le, fz, fm, P::spec_has_z(),
                    P::spec_has_m(), header.srid, (n - i) as nat, rings_view(pg.rings@)),
                target == parse_rings(bytes@, start as int, le, fz, fm, P::spec_has_z(),
                    P::spec_has_m(), header.srid, n as nat, Seq::empty()),
                parse_polygon_body(bytes@, pos as int, le, fz, fm, P::spec_has_z(),
                    P::spec_has_m(), header.srid) == (match target {
                    Err(e) => Err::<(PolygonModel, int), ErrorModel>(e),
                    Ok((rings, p2)) => Ok::<(PolygonModel, int), ErrorModel>(
                        (PolygonModel { rings, srid: header.srid }, p2),
                    ),
                }),
                fz == has_z_flag(header.g_type),
                fm == has_m_flag(header.g_type),
            decreases n - i,
        {
            let (ring_count, p1) = match crate::bytes::read_u32_at(bytes, cursor, le) {
                None => {
                    proof {
                        assert(target == Err::<(Seq<Seq<PointFields>>, int), ErrorModel>(
                            ErrorModel::UnexpectedEndOfBuffer,
                        ));
                    }
                    return Err(Error::UnexpectedEndOfBuffer);
                },
                Some(v) => v,
            };
            match read_points::<P>(header, bytes, p1, le, ring_count) {
                Err(e) => {
                    proof {
                        assert(target == Err::<(Seq<Seq<PointFields>>, int), ErrorModel>(e@));
                    }
                    return Err(e);
                },
                Ok((ring, p2)) => {
                    proof {
                        lemma_rings_view_push(pg.rings@, ring);
                    }
                    pg.rings.push(ring);
                    cursor = p2;
                    i = i + 1;
                },
            }
        }
        proof {
            assert(target == Ok::<(Seq<Seq<PointFields>>, int), ErrorModel>(
                (rings_view(pg.rings@), cursor as int),
            ));
        }
        Ok((pg, cursor))
    }

    /// Decodes one whole polygon from a buffer.
    pub fn read_from_sql(bytes: &[u8]) -> (r: Result<Self, Error>)
        ensures
            match r {
                Ok(pg) => spec_decode(bytes@, P::spec_has_z(), P::spec_has_m(), Some(
                    GeometryType::Polygon,
                )) == Ok::<GeometryModel, ErrorModel>(GeometryModel::Polygon(pg@)),
                Err(e) => spec_decode(bytes@, P::spec_has_z(), P::spec_has_m(), Some(
                    GeometryType::Polygon,
                )) == Err::<GeometryModel, ErrorModel>(e@),
            },
    {
        let (header, pos, le) = match read_preamble(bytes, Some(GeometryType::Polygon)) {
            Ok(v) => v,
            Err(e) => {
                return Err(e);
            },
        };
        match Self::read_body(header, bytes, pos, le) {
            Ok((pg, _)) => Ok(pg),
            Err(e) => Err(e),
        }
    }
}

} // verus!
