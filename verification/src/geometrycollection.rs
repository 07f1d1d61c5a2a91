//! Geometry collections: heterogeneous, recursive containers, and their wire
//! codec.  Members are whole geometries behind SRID-less sub-headers; on
//! decode every member inherits the outer header's SRID and flags.

use vstd::prelude::*;

use crate::errors::{Error, ErrorModel};
use crate::ewkb::{write_header, EwkbHeader, GeometryType};
use crate::model::{
    collection_dim, container_view, container_views, lemma_container_views_index,
    lemma_container_views_push, GeometryCollectionModel, GeometryModel,
};
use crate::points::read_preamble;
use crate::types::{GeometryCollection, GeometryContainer, PointT};
use crate::wire::{
    count_word, enc_geo_members, enc_geometry, enc_geometry_body, has_m_flag, has_z_flag,
    parse_geo_members, parse_geometry_body, spec_decode,
};

verus! {

impl<P: PointT> GeometryCollection<P> {
    /// An empty collection with the given SRID.
    pub fn new(srid: Option<u32>) -> (r: Self)
        ensures
            r@ == (GeometryCollectionModel { geometries: Seq::empty(), srid }),
    {
        let r = GeometryCollection { geometries: Vec::new(), srid };
        proof {
            lemma_container_views_index(r.geometries@);
            assert(container_views(r.geometries@) =~= Seq::<GeometryModel>::empty());
        }
        r
    }

    /// Appends one geometry; the collection does not validate its SRID.
    pub fn add_geometry(&mut self, geometry: GeometryContainer<P>)
        ensures
            final(self)@ == (GeometryCollectionModel {
                geometries: old(self)@.geometries.push(geometry@),
                srid: old(self).srid,
            }),
    {
        proof {
            lemma_container_views_push(self.geometries@, geometry);
        }
        self.geometries.push(geometry);
    }

    /// Appends geometries in order; none is validated.
    pub fn add_geometries(&mut self, geometries: Vec<GeometryContainer<P>>)
        ensures
            final(self)@ == (GeometryCollectionModel {
                geometries: old(self)@.geometries + container_views(geometries@),
                srid: old(self).srid,
            }),
    {
        let ghost vs = container_views(geometries@);
        let ghost orig = geometries@;
        proof {
            lemma_container_views_index(orig);
            assert(container_views(orig.take(0)) =~= Seq::<GeometryModel>::empty());
            assert(old(self)@.geometries + container_views(orig.take(0)) =~= old(
                self,
            )@.geometries);
        }
        let mut rest = geometries;
        let ghost mut i: int = 0;
        while rest.len() > 0
            invariant
                0 <= i <= orig.len(),
                i + rest@.len() == orig.len(),
                rest@ == orig.skip(i),
                vs == container_views(orig),
                self.srid == old(self).srid,
                self@.geometries == old(self)@.geometries + container_views(orig.take(i)),
            decreases rest@.len(),
        {
            let g = rest.remove(0);
            proof {
                assert(orig.skip(i)[0] == orig[i]);
                lemma_container_views_push(orig.take(i), g);
                assert(orig.take(i).push(orig[i]) =~= orig.take(i + 1));
                lemma_container_views_index(orig.take(i));
                lemma_container_views_index(orig.take(i + 1));
                assert((old(self)@.geometries + container_views(orig.take(i))).push(
                    container_view(orig[i]),
                ) =~= old(self)@.geometries + container_views(orig.take(i + 1)));
                assert(orig.skip(i).drop_first() =~= orig.skip(i + 1));
            }
            self.add_geometry(g);
            proof {
                i = i + 1;
            }
        }
        proof {
            assert(orig.take(orig.len() as int) =~= orig);
        }
    }

    /// The dimension flags the collection reports: those of its first
    /// member, or none when it is empty.
    pub fn dimension(&self) -> (r: u32)
        ensures
            r == collection_dim(self@),
        decreases *self,
    {
        if self.geometries.len() > 0 {
            proof {
                lemma_container_views_index(self.geometries@);
            }
            self.geometries[0].dimension()
        } else {
            0
        }
    }

    /// The type word the collection writes: its kind ordinal with its
    /// dimension flags.
    pub fn geometry_type(&self) -> (r: u32)
        ensures
            r == 7u32 | collection_dim(self@),
    {
        7u32 | self.dimension()
    }

    /// Appends the collection's body: the member count, then each member as
    /// a whole geometry without an SRID of its own.
    pub fn write_body(&self, out: &mut Vec<u8>)
        ensures
            final(out)@ == old(out)@ + enc_geometry_body(
                GeometryModel::GeometryCollection(self@),
            ),
        decreases *self, 0int,
    {
        let ghost s = container_views(self.geometries@);
        proof {
            lemma_container_views_index(self.geometries@);
        }
        let count: u32 = ((self.geometries.len() as u64) % 0x1_0000_0000u64) as u32;
        proof {
            assert(count == count_word(s.len()));
        }
        crate::bytes::write_u32_le(count, out);
        proof {
            assert(s.skip(0) =~= s);
            assert(out@ + enc_geo_members(s) =~= old(out)@ + enc_geometry_body(
                GeometryModel::GeometryCollection(self@),
            ));
        }
        let mut i: usize = 0;
        while i < self.geometries.len()
            invariant
                0 <= i <= self.geometries@.len(),
                s == container_views(self.geometries@),
                s.len() == self.geometries@.len(),
                forall|k: int| 0 <= k < s.len() ==> s[k] == container_view(
                    #[trigger] self.geometries@[k],
                ),
                out@ + enc_geo_members(s.skip(i as int)) == old(out)@ + enc_geometry_body(
                    GeometryModel::GeometryCollection(self@),
                ),
            decreases self.geometries@.len() - i,
        {
            proof {
                assert(s.skip(i as int)[0] == s[i as int]);
                assert(s.skip(i as int).drop_first() =~= s.skip(i + 1));
            }
            let member = &self.geometries[i];
            match member {
                GeometryContainer::Point(g) => crate::points::write_point_to_sql(g, false, out),
                GeometryContainer::LineString(g) => g.write_to_sql(false, out),
                GeometryContainer::Polygon(g) => g.write_to_sql(false, out),
                GeometryContainer::MultiPoint(g) => g.write_to_sql(false, out),
                GeometryContainer::MultiLineString(g) => g.write_to_sql(false, out),
                GeometryContainer::MultiPolygon(g) => g.write_to_sql(false, out),
                GeometryContainer::GeometryCollection(g) => g.write_to_sql(false, out),
            }
            proof {
                assert(out@ + enc_geo_members(s.skip(i + 1)) =~= old(out)@ + enc_geometry_body(
                    GeometryModel::GeometryCollection(self@),
                ));
            }
            i = i + 1;
        }
        proof {
            assert(s.skip(s.len() as int) =~= Seq::<GeometryModel>::empty());
            assert(out@ + Seq::<u8>::empty() =~= out@);
        }
    }

    /// Writes the whole collection: its header, then its body.
    pub fn write_to_sql(&self, include_srid: bool, out: &mut Vec<u8>)
        ensures
            final(out)@ == old(out)@ + enc_geometry(
                GeometryModel::GeometryCollection(self@),
                include_srid,
            ),
        decreases *self, 1int,
    {
        write_header(self.geometry_type(), self.srid, include_srid, out);
        self.write_body(out);
        assert(out@ =~= old(out)@ + enc_geometry(
            GeometryModel::GeometryCollection(self@),
            include_srid,
        ));
    }

    /// Reads a collection body at `pos`: the member count, then that many
    /// members, each a sub-header whose word names the member's kind and
    /// then that kind's body, every point read by the outer header's flags.
    pub fn read_body(header: EwkbHeader, bytes: &[u8], pos: usize, le: bool) -> (r: Result<
        (Self, usize),
        Error,
    >)
        ensures
            match r {
                Ok((c, end)) => parse_geometry_body(GeometryType::GeometryCollection, bytes@,
                    pos as int, le, has_z_flag(header.g_type), has_m_flag(header.g_type),
                    P::spec_has_z(), P::spec_has_m(), header.srid) == Ok::<
                    (GeometryModel, int),
                    ErrorModel,
                >((GeometryModel::GeometryCollection(c@), end as int)) && pos <= end
                    <= bytes@.len(),
                Err(e) => parse_geometry_body(GeometryType::GeometryCollection, bytes@, pos as int,
                    le, has_z_flag(header.g_type), has_m_flag(header.g_type), P::spec_has_z(),
                    P::spec_has_m(), header.srid) == Err::<(GeometryModel, int), ErrorModel>(e@),
            },
        decreases bytes@.len() - pos, 0int,
    {
        let ghost fz = has_z_flag(header.g_type);
        let ghost fm = has_m_flag(header.g_type);
        let (n, start) = match crate::bytes::read_u32_at(bytes, pos, le) {
            None => {
                return Err(Error::UnexpectedEndOfBuffer);
            },
            Some(v) => v,
        };
        let ghost target = parse_geo_members(bytes@, start as int, le, fz, fm, P::spec_has_z(),
            P::spec_has_m(), header.srid, n as nat, Seq::empty());
        let mut c = GeometryCollection { geometries: Vec::new(), srid: header.srid };
        proof {
            lemma_container_views_index(c.geometries@);
            assert(container_views(c.geometries@) =~= Seq::<GeometryModel>::empty());
        }
        let mut cursor = start;
        let mut i: u32 = 0;
        while i < n
            invariant
                0 <= i <= n,
                pos < start <= cursor <= bytes@.len(),
                c.srid == header.srid,
                target == parse_geo_members(bytes@, cursor as int, le, fz, fm, P::spec_has_z(),
                    P::spec_has_m(), header.srid, (n - i) as nat,
                    container_views(c.geometries@)),
                parse_geometry_body(GeometryType::GeometryCollection, bytes@, pos as int, le, fz,
                    fm, P::spec_has_z(), P::spec_has_m(), header.srid) == (match target {
                    Err(e) => Err::<(GeometryModel, int), ErrorModel>(e),
                    Ok((geometries, p2)) => Ok::<(GeometryModel, int), ErrorModel>(
                        (GeometryModel::GeometryCollection(
                            GeometryCollectionModel { geometries, srid: header.srid },
                        ), p2),
                    ),
                }),
                fz == has_z_flag(header.g_type),
                fm == has_m_flag(header.g_type),
            decreases n - i,
        {
            if bytes.len() < 5 || cursor > bytes.len() - 5 {
                return Err(Error::UnexpectedEndOfBuffer);
            }
            let (w, p1) = match crate::bytes::read_u32_at(bytes, cursor + 1, le) {
                None => {
                    return Err(Error::UnexpectedEndOfBuffer);
                },
                Some(v) => v,
            };
            let kind = GeometryType::from(w);
            match crate::geometrycontainer::read_geometry_body::<P>(kind, header, bytes, p1, le) {
                Err(e) => {
                    proof {
                        assert(target == Err::<(Seq<GeometryModel>, int), ErrorModel>(e@));
                    }
                    return Err(e);
                },
                Ok((g, p2)) => {
                    proof {
                        lemma_container_views_push(c.geometries@, g);
                    }
                    c.geometries.push(g);
                    cursor = p2;
                    i = i + 1;
                },
            }
        }
        proof {
            assert(target == Ok::<(Seq<GeometryModel>, int), ErrorModel>(
                (container_views(c.geometries@), cursor as int),
            ));
        }
        Ok((c, cursor))
    }

    /// Decodes one whole geometry collection from a buffer.
    pub fn read_from_sql(bytes: &[u8]) -> (r: Result<Self, Error>)
        ensures
            match r {
                Ok(c) => spec_decode(bytes@, P::spec_has_z(), P::spec_has_m(), Some(
                    GeometryType::GeometryCollection,
                )) == Ok::<GeometryModel, ErrorModel>(GeometryModel::GeometryCollection(c@)),
                Err(e) => spec_decode(bytes@, P::spec_has_z(), P::spec_has_m(), Some(
                    GeometryType::GeometryCollection,
                )) == Err::<GeometryModel, ErrorModel>(e@),
            },
    {
        let (header, pos, le) = match read_preamble(bytes, Some(GeometryType::GeometryCollection)) {
            Ok(v) => v,
            Err(e) => {
                return Err(e);
            },
        };
        match Self::read_body(header, bytes, pos, le) {
            Ok((c, _)) => Ok(c),
            Err(e) => Err(e),
        }
    }
}

} // verus!
