//! Multi-polygons: building, and their wire codec.  Each member polygon is
//! framed behind its own SRID-less sub-header.

use vstd::prelude::*;

use crate::errors::{Error, ErrorModel};
use crate::ewkb::{write_header, EwkbHeader, GeometryType};
use crate::model::{
    first_srid_mismatch, lemma_polygons_view_push, multipolygon_base, multipolygon_dim,
    points_view, polygon_append, polygon_append_all, polygons_view, GeometryModel,
    MultiPolygonModel, PolygonModel,
};
use crate::points::read_preamble;
use crate::types::{MultiPolygon, PointT, Polygon};
use crate::wire::{
    count_word, enc_geometry, enc_multipolygon_body, enc_polygon_members, has_m_flag, has_z_flag,
    parse_multipolygon_body, parse_polygon_members, spec_decode,
};

verus! {

impl<P: PointT> MultiPolygon<P> {
    /// An empty multi-polygon with the given SRID.
    pub fn new(srid: Option<u32>) -> (r: Self)
        ensures
            r@ == (MultiPolygonModel { polygons: Seq::empty(), srid }),
    {
        Self::with_capacity(srid, 0)
    }

    /// An empty multi-polygon with room reserved for `cap` polygons.
    pub fn with_capacity(srid: Option<u32>, cap: usize) -> (r: Self)
        ensures
            r@ == (MultiPolygonModel { polygons: Seq::empty(), srid }),
    {
        let r = MultiPolygon { polygons: Vec::with_capacity(cap), srid };
        proof {
            assert(polygons_view(r.polygons@) =~= Seq::<PolygonModel>::empty());
        }
        r
    }

    /// Opens a new, empty polygon carrying the collection's SRID; points
    /// append to it.
    pub fn add_empty_polygon(&mut self)
        ensures
            final(self)@ == (MultiPolygonModel {
                polygons: old(self)@.polygons.push(
                    PolygonModel { rings: Seq::empty(), srid: old(self).srid },
                ),
                srid: old(self).srid,
            }),
    {
        self.add_empty_polygon_with_capacity(0)
    }

    /// Opens a new, empty polygon with room reserved for `cap` rings.
    pub fn add_empty_polygon_with_capacity(&mut self, cap: usize)
        ensures
            final(self)@ == (MultiPolygonModel {
                polygons: old(self)@.polygons.push(
                    PolygonModel { rings: Seq::empty(), srid: old(self).srid },
                ),
                srid: old(self).srid,
            }),
    {
        let polygon: Polygon<P> = Polygon::with_capacity(self.srid, cap);
        proof {
            lemma_polygons_view_push(self.polygons@, polygon);
        }
        self.polygons.push(polygon);
    }

    /// Appends a point to the last polygon's last ring, opening a first
    /// polygon when none exists.  The point's SRID must equal that polygon's
    /// SRID; a freshly opened polygon remains even when the append fails.
    pub fn add_point(&mut self, point: P) -> (r: Result<(), Error>)
        ensures
            point@.srid == multipolygon_base(old(self)@.polygons, old(self).srid).last().srid
                ==> r.is_ok() && final(self)@ == (MultiPolygonModel {
                polygons: multipolygon_base(old(self)@.polygons, old(self).srid).update(
                    multipolygon_base(old(self)@.polygons, old(self).srid).len() - 1,
                    PolygonModel {
                        rings: polygon_append(
                            multipolygon_base(old(self)@.polygons,
                                old(self).srid).last().rings,
                            point@,
                        ),
                        srid: multipolygon_base(old(self)@.polygons, old(self).srid).last().srid,
                    },
                ),
                srid: old(self).srid,
            }),
            point@.srid != multipolygon_base(old(self)@.polygons, old(self).srid).last().srid
                ==> r == Err::<(), Error>(
                Error::IncompatibleSpatialReferenceSystemIdentifier {
                    expected: multipolygon_base(old(self)@.polygons, old(self).srid).last().srid,
                    actual: point@.srid,
                },
            ) && final(self)@ == (MultiPolygonModel {
                polygons: multipolygon_base(old(self)@.polygons, old(self).srid),
                srid: old(self).srid,
            }),
    {
        if self.polygons.len() == 0 {
            self.add_empty_polygon();
        }
        let ghost base = self.polygons@;
        let mut last = match self.polygons.pop() {
            Some(v) => v,
            None => unreached(),
        };
        let r = last.add_point(point);
        proof {
            lemma_polygons_view_push(base.drop_last(), last);
        }
        self.polygons.push(last);
        proof {
            assert(polygons_view(base.drop_last()) =~= polygons_view(base).drop_last());
            assert(polygons_view(base).drop_last().push(last@) =~= polygons_view(base).update(
                polygons_view(base).len() - 1,
                last@,
            ));
            assert(polygons_view(base) == multipolygon_base(old(self)@.polygons, old(self).srid));
            if point@.srid != base.last()@.srid {
                assert(polygons_view(base).update(polygons_view(base).len() - 1, last@)
                    =~= polygons_view(base));
            }
        }
        r
    }

    /// Appends points to the last polygon, opening a first polygon when none
    /// exists, until one's SRID disagrees with that polygon's; that point
    /// and those after it are not appended.
    pub fn add_points(&mut self, points: Vec<P>) -> (r: Result<(), Error>)
        ensures
            first_srid_mismatch(points_view(points@),
                multipolygon_base(old(self)@.polygons, old(self).srid).last().srid)
                == points@.len() ==> r.is_ok() && final(self)@ == (MultiPolygonModel {
                polygons: multipolygon_base(old(self)@.polygons, old(self).srid).update(
                    multipolygon_base(old(self)@.polygons, old(self).srid).len() - 1,
                    PolygonModel {
                        rings: polygon_append_all(
                            multipolygon_base(old(self)@.polygons,
                                old(self).srid).last().rings,
                            points_view(points@),
                        ),
                        srid: multipolygon_base(old(self)@.polygons, old(self).srid).last().srid,
                    },
                ),
                srid: old(self).srid,
            }),
            first_srid_mismatch(points_view(points@),
                multipolygon_base(old(self)@.polygons, old(self).srid).last().srid)
                < points@.len() ==> r == Err::<(), Error>(
                Error::IncompatibleSpatialReferenceSystemIdentifier {
                    expected: multipolygon_base(old(self)@.polygons, old(self).srid).last().srid,
                    actual: points_view(points@)[first_srid_mismatch(points_view(points@),
                        multipolygon_base(old(self)@.polygons,
                            old(self).srid).last().srid)].srid,
                },
            ) && final(self)@ == (MultiPolygonModel {
                polygons: multipolygon_base(old(self)@.polygons, old(self).srid).update(
                    multipolygon_base(old(self)@.polygons, old(self).srid).len() - 1,
                    PolygonModel {
                        rings: polygon_append_all(
                            multipolygon_base(old(self)@.polygons,
                                old(self).srid).last().rings,
                            points_view(points@).take(
                                first_srid_mismatch(points_view(points@),
                                    multipolygon_base(old(self)@.polygons,
                                        old(self).srid).last().srid),
                            ),
                        ),
                        srid: multipolygon_base(old(self)@.polygons, old(self).srid).last().srid,
                    },
                ),
                srid: old(self).srid,
            }),
    {
        if self.polygons.len() == 0 {
            self.add_empty_polygon();
        }
        let ghost base = self.polygons@;
        let mut last = match self.polygons.pop() {
            Some(v) => v,
            None => unreached(),
        };
        let r = match last.add_points(points) {
            Ok(_) => Ok(()),
            Err(e) => Err(e),
        };
        proof {
            lemma_polygons_view_push(base.drop_last(), last);
        }
        self.polygons.push(last);
        proof {
            assert(polygons_view(base.drop_last()) =~= polygons_view(base).drop_last());
            assert(polygons_view(base).drop_last().push(last@) =~= polygons_view(base).update(
                polygons_view(base).len() - 1,
                last@,
            ));
            assert(polygons_view(base) == multipolygon_base(old(self)@.polygons, old(self).srid));
        }
        r
    }

    /// The dimension flags the multi-polygon reports: those of its first
    /// polygon, or none when it has none.
    pub fn dimension(&self) -> (r: u32)
        ensures
            r == multipolygon_dim(self@),
    {
        if self.polygons.len() > 0 {
            self.polygons[0].dimension()
        } else {
            0
        }
    }

    /// The type word the multi-polygon writes: its kind ordinal with its
    /// dimension flags.
    pub fn geometry_type(&self) -> (r: u32)
        ensures
            r == 6u32 | multipolygon_dim(self@),
    {
        6u32 | self.dimension()
    }

    /// Appends the multi-polygon's body: the member count, then each polygon
    /// behind its own SRID-less sub-header.
    pub fn write_body(&self, out: &mut Vec<u8>)
        ensures
            final(out)@ == old(out)@ + enc_multipolygon_body(self@),
    {
        let ghost s = self@.polygons;
        let count: u32 = ((self.polygons.len() as u64) % 0x1_0000_0000u64) as u32;
        proof {
            assert(count == count_word(s.len()));
        }
        crate::bytes::write_u32_le(count, out);
        proof {
            assert(s.skip(0) =~= s);
            assert(out@ + enc_polygon_members(s) =~= old(out)@ + enc_multipolygon_body(self@));
        }
        let mut i: usize = 0;
        while i < self.polygons.len()
            invariant
                0 <= i <= self.polygons@.len(),
                s == polygons_view(self.polygons@),
                s.len() == self.polygons@.len(),
                out@ + enc_polygon_members(s.skip(i as int)) == old(out)@ + enc_multipolygon_body(
                    self@,
                ),
            decreases self.polygons@.len() - i,
        {
            proof {
                assert(s.skip(i as int)[0] == s[i as int]);
                assert(s.skip(i as int).drop_first() =~= s.skip(i + 1));
            }
            self.polygons[i].write_to_sql(false, out);
            proof {
                assert(out@ + enc_polygon_members(s.skip(i + 1)) =~= old(out)@
                    + enc_multipolygon_body(self@));
            }
            i = i + 1;
        }
        proof {
            assert(s.skip(s.len() as int) =~= Seq::<PolygonModel>::empty());
            assert(out@ + Seq::<u8>::empty() =~= out@);
        }
    }

    /// Writes the whole multi-polygon: its header, then its body.
    pub fn write_to_sql(&self, include_srid: bool, out: &mut Vec<u8>)
        ensures
            final(out)@ == old(out)@ + enc_geometry(
                GeometryModel::MultiPolygon(self@),
                include_srid,
            ),
    {
        write_header(self.geometry_type(), self.srid, include_srid, out);
        self.write_body(out);
        assert(out@ =~= old(out)@ + enc_geometry(
            GeometryModel::MultiPolygon(self@),
            include_srid,
        ));
    }

    /// Reads a multi-polygon body at `pos`: the member count, then that many
    /// members, each a discarded five-byte sub-header and a polygon body
    /// inheriting the header's SRID.
    pub fn read_body(header: EwkbHeader, bytes: &[u8], pos: usize, le: bool) -> (r: Result<
        (Self, usize),
        Error,
    >)
        ensures
            match r {
                Ok((mpg, end)) => parse_multipolygon_body(bytes@, pos as int, le, has_z_flag(
                    header.g_type,
                ), has_m_flag(header.g_type), P::spec_has_z(), P::spec_has_m(), header.srid)
                    == Ok::<(MultiPolygonModel, int), ErrorModel>((mpg@, end as int)) && pos <= end
                    <= bytes@.len(),
                Err(e) => parse_multipolygon_body(bytes@, pos as int, le, has_z_flag(
                    header.g_type,
                ), has_m_flag(header.g_type), P::spec_has_z(), P::spec_has_m(), header.srid)
                    == Err::<(MultiPolygonModel, int), ErrorModel>(e@),
            },
    {
        let ghost fz = has_z_flag(header.g_type);
        let ghost fm = has_m_flag(header.g_type);
        let (n, start) = match crate::bytes::read_u32_at(bytes, pos, le) {
            None => {
                return Err(Error::UnexpectedEndOfBuffer);
            },
            Some(v) => v,
        };
        let ghost target = parse_polygon_members(bytes@, start as int, le, fz, fm, P::spec_has_z(),
            P::spec_has_m(), header.srid, n as nat, Seq::empty());
        let mut mpg = Self::with_capacity(header.srid, n as usize);
        let mut cursor = start;
        let mut i: u32 = 0;
        while i < n
            invariant
                0 <= i <= n,
                pos < start <= cursor <= bytes@.len(),
                mpg.srid == header.srid,
                target == parse_polygon_members(bytes@, cursor as int, le, fz, fm, P::spec_has_z(),
                    P::spec_has_m(), header.srid, (n - i) as nat, polygons_view(mpg.polygons@)),
                parse_multipolygon_body(bytes@, pos as int, le, fz, fm, P::spec_has_z(),
                    P::spec_has_m(), header.srid) == (match target {
                    Err(e) => Err::<(MultiPolygonModel, int), ErrorModel>(e),
                    Ok((polygons, p2)) => Ok::<(MultiPolygonModel, int), ErrorModel>(
                        (MultiPolygonModel { polygons, srid: header.srid }, p2),
                    ),
                }),
                fz == has_z_flag(header.g_type),
                fm == has_m_flag(header.g_type),
            decreases n - i,
        {
            if bytes.len() < 5 || cursor > bytes.len() - 5 {
                return Err(Error::UnexpectedEndOfBuffer);
            }
            match Polygon::<P>::read_body(header, bytes, cursor + 5, le) {
                Err(e) => {
                    proof {
                        assert(target == Err::<(Seq<PolygonModel>, int), ErrorModel>(e@));
                    }
                    return Err(e);
                },
                Ok((polygon, p2)) => {
                    proof {
                        lemma_polygons_view_push(mpg.polygons@, polygon);
                    }
                    mpg.polygons.push(polygon);
                    cursor = p2;
                    i = i + 1;
                },
            }
        }
        proof {
            assert(target == Ok::<(Seq<PolygonModel>, int), ErrorModel>(
                (polygons_view(mpg.polygons@), cursor as int),
            ));
        }
        Ok((mpg, cursor))
    }

    /// Decodes one whole multi-polygon from a buffer.
    pub fn read_from_sql(bytes: &[u8]) -> (r: Result<Self, Error>)
        ensures
            match r {
                Ok(mpg) => spec_decode(bytes@, P::spec_has_z(), P::spec_has_m(), Some(
                    GeometryType::MultiPolygon,
                )) == Ok::<GeometryModel, ErrorModel>(GeometryModel::MultiPolygon(mpg@)),
                Err(e) => spec_decode(bytes@, P::spec_has_z(), P::spec_has_m(), Some(
                    GeometryType::MultiPolygon,
                )) == Err::<GeometryModel, ErrorModel>(e@),
            },
    {
        let (header, pos, le) = match read_preamble(bytes, Some(GeometryType::MultiPolygon)) {
            Ok(v) => v,
            Err(e) => {
                return Err(e);
            },
        };
        match Self::read_body(header, bytes, pos, le) {
            Ok((mpg, _)) => Ok(mpg),
            Err(e) => Err(e),
        }
    }
}

} // verus!
