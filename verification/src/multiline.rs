//! Multi-line-strings: building, and their wire codec.  Each member line is
//! framed behind its own SRID-less sub-header.

use vstd::prelude::*;

use crate::errors::{Error, ErrorModel};
use crate::ewkb::{write_header, EwkbHeader, GeometryType};
use crate::model::{
    first_srid_mismatch, lemma_lines_view_push, lines_view, multilinestring_base,
    multilinestring_dim, points_view, GeometryModel, LineStringModel, MultiLineStringModel,
};
use crate::points::read_preamble;
use crate::types::{LineString, MultiLineString, PointT};
use crate::wire::{
    count_word, enc_geometry, enc_line_members, enc_multilinestring_body, has_m_flag, has_z_flag,
    parse_line_members, parse_multilinestring_body, spec_decode,
};

verus! {

impl<P: PointT> MultiLineString<P> {
    /// An empty multi-line-string with the given SRID.
    pub fn new(srid: Option<u32>) -> (r: Self)
        ensures
            r@ == (MultiLineStringModel { lines: Seq::empty(), srid }),
    {
        Self::with_capacity(srid, 0)
    }

    /// An empty multi-line-string with room reserved for `cap` lines.
    pub fn with_capacity(srid: Option<u32>, cap: usize) -> (r: Self)
        ensures
            r@ == (MultiLineStringModel { lines: Seq::empty(), srid }),
    {
        let r = MultiLineString { lines: Vec::with_capacity(cap), srid };
        proof {
            assert(lines_view(r.lines@) =~= Seq::<LineStringModel>::empty());
        }
        r
    }

    /// Opens a new, empty line carrying the collection's SRID; points append
    /// to it.
    pub fn add_line(&mut self)
        ensures
            final(self)@ == (MultiLineStringModel {
                lines: old(self)@.lines.push(
                    LineStringModel { points: Seq::empty(), srid: old(self).srid },
                ),
                srid: old(self).srid,
            }),
    {
        self.add_line_with_cap(0)
    }

    /// Opens a new, empty line with room reserved for `cap` points.
    pub fn add_line_with_cap(&mut self, cap: usize)
        ensures
            final(self)@ == (MultiLineStringModel {
                lines: old(self)@.lines.push(
                    LineStringModel { points: Seq::empty(), srid: old(self).srid },
                ),
                srid: old(self).srid,
            }),
    {
        let line: LineString<P> = LineString::with_capacity(self.srid, cap);
        proof {
            lemma_lines_view_push(self.lines@, line);
        }
        self.lines.push(line);
    }

    /// Appends a point to the last line, opening a first line when none
    /// exists.  The point's SRID must equal that line's SRID; a freshly
    /// opened line remains even when the append fails.
    pub fn add_point(&mut self, point: P) -> (r: Result<(), Error>)
        ensures
            point@.srid == multilinestring_base(old(self)@.lines, old(self).srid).last().srid
                ==> r.is_ok() && final(self)@ == (MultiLineStringModel {
                lines: multilinestring_base(old(self)@.lines, old(self).srid).update(
                    multilinestring_base(old(self)@.lines, old(self).srid).len() - 1,
                    LineStringModel {
                        points: multilinestring_base(old(self)@.lines,
                            old(self).srid).last().points.push(point@),
                        srid: multilinestring_base(old(self)@.lines, old(self).srid).last().srid,
                    },
                ),
                srid: old(self).srid,
            }),
            point@.srid != multilinestring_base(old(self)@.lines, old(self).srid).last().srid
                ==> r == Err::<(), Error>(
                Error::IncompatibleSpatialReferenceSystemIdentifier {
                    expected: multilinestring_base(old(self)@.lines, old(self).srid).last().srid,
                    actual: point@.srid,
                },
            ) && final(self)@ == (MultiLineStringModel {
                lines: multilinestring_base(old(self)@.lines, old(self).srid),
                srid: old(self).srid,
            }),
    {
        if self.lines.len() == 0 {
            self.add_line();
        }
        let ghost base = self.lines@;
        let mut last = match self.lines.pop() {
            Some(v) => v,
            None => unreached(),
        };
        let r = last.add_point(point);
        proof {
            lemma_lines_view_push(base.drop_last(), last);
        }
        self.lines.push(last);
        proof {
            assert(lines_view(base.drop_last()) =~= lines_view(base).drop_last());
            assert(lines_view(base).drop_last().push(last@) =~= lines_view(base).update(
                lines_view(base).len() - 1,
                last@,
            ));
            if point@.srid == base.last()@.srid {
                assert(lines_view(base).update(lines_view(base).len() - 1, last@)
                    =~= multilinestring_base(old(self)@.lines, old(self).srid).update(
                    multilinestring_base(old(self)@.lines, old(self).srid).len() - 1,
                    last@,
                ));
            } else {
                assert(lines_view(base).update(lines_view(base).len() - 1, last@)
                    =~= multilinestring_base(old(self)@.lines, old(self).srid));
            }
        }
        r
    }

    /// Appends points to the last line, opening a first line when none
    /// exists, until one's SRID disagrees with that line's; that point and
    /// those after it are not appended.
    pub fn add_points(&mut self, points: Vec<P>) -> (r: Result<(), Error>)
        ensures
            first_srid_mismatch(points_view(points@),
                multilinestring_base(old(self)@.lines, old(self).srid).last().srid)
                == points@.len() ==> r.is_ok() && final(self)@ == (MultiLineStringModel {
                lines: multilinestring_base(old(self)@.lines, old(self).srid).update(
                    multilinestring_base(old(self)@.lines, old(self).srid).len() - 1,
                    LineStringModel {
                        points: multilinestring_base(old(self)@.lines,
                            old(self).srid).last().points + points_view(points@),
                        srid: multilinestring_base(old(self)@.lines, old(self).srid).last().srid,
                    },
                ),
                srid: old(self).srid,
            }),
            first_srid_mismatch(points_view(points@),
                multilinestring_base(old(self)@.lines, old(self).srid).last().srid)
                < points@.len() ==> r == Err::<(), Error>(
                Error::IncompatibleSpatialReferenceSystemIdentifier {
                    expected: multilinestring_base(old(self)@.lines, old(self).srid).last().srid,
                    actual: points_view(points@)[first_srid_mismatch(points_view(points@),
                        multilinestring_base(old(self)@.lines, old(self).srid).last().srid)].srid,
                },
            ) && final(self)@ == (MultiLineStringModel {
                lines: multilinestring_base(old(self)@.lines, old(self).srid).update(
                    multilinestring_base(old(self)@.lines, old(self).srid).len() - 1,
                    LineStringModel {
                        points: multilinestring_base(old(self)@.lines,
                            old(self).srid).last().points + points_view(points@).take(
                            first_srid_mismatch(points_view(points@),
                                multilinestring_base(old(self)@.lines,
                                    old(self).srid).last().srid),
                        ),
                        srid: multilinestring_base(old(self)@.lines, old(self).srid).last().srid,
                    },
                ),
                srid: old(self).srid,
            }),
    {
        if self.lines.len() == 0 {
            self.add_line();
        }
        let ghost base = self.lines@;
        let mut last = match self.lines.pop() {
            Some(v) => v,
            None => unreached(),
        };
        let r = match last.add_points(points) {
            Ok(_) => Ok(()),
            Err(e) => Err(e),
        };
        proof {
            lemma_lines_view_push(base.drop_last(), last);
        }
        self.lines.push(last);
        proof {
            assert(lines_view(base.drop_last()) =~= lines_view(base).drop_last());
            assert(lines_view(base).drop_last().push(last@) =~= lines_view(base).update(
                lines_view(base).len() - 1,
                last@,
            ));
            assert(lines_view(base) == multilinestring_base(old(self)@.lines, old(self).srid));
        }
        r
    }

    /// The dimension flags the multi-line-string reports: those of its first
    /// line, or none when it has none.
    pub fn dimension(&self) -> (r: u32)
        ensures
            r == multilinestring_dim(self@),
    {
        if self.lines.len() > 0 {
            self.lines[0].dimension()
        } else {
            0
        }
    }

    /// The type word the multi-line-string writes: its kind ordinal with its
    /// dimension flags.
    pub fn geometry_type(&self) -> (r: u32)
        ensures
            r == 5u32 | multilinestring_dim(self@),
    {
        5u32 | self.dimension()
    }

    /// Appends the multi-line-string's body: the member count, then each
    /// line behind its own SRID-less sub-header.
    pub fn write_body(&self, out: &mut Vec<u8>)
        ensures
            final(out)@ == old(out)@ + enc_multilinestring_body(self@),
    {
        let ghost s = self@.lines;
        let count: u32 = ((self.lines.len() as u64) % 0x1_0000_0000u64) as u32;
        proof {
            assert(count == count_word(s.len()));
        }
        crate::bytes::write_u32_le(count, out);
        proof {
            assert(s.skip(0) =~= s);
            assert(out@ + enc_line_members(s) =~= old(out)@ + enc_multilinestring_body(self@));
        }
        let mut i: usize = 0;
        while i < self.lines.len()
            invariant
                0 <= i <= self.lines@.len(),
                s == lines_view(self.lines@),
                s.len() == self.lines@.len(),
                out@ + enc_line_members(s.skip(i as int)) == old(out)@ + enc_multilinestring_body(
                    self@,
                ),
            decreases self.lines@.len() - i,
        {
            proof {
                assert(s.skip(i as int)[0] == s[i as int]);
                assert(s.skip(i as int).drop_first() =~= s.skip(i + 1));
            }
            self.lines[i].write_to_sql(false, out);
            proof {
                assert(out@ + enc_line_members(s.skip(i + 1)) =~= old(out)@
                    + enc_multilinestring_body(self@));
            }
            i = i + 1;
        }
        proof {
            assert(s.skip(s.len() as int) =~= Seq::<LineStringModel>::empty());
            assert(out@ + Seq::<u8>::empty() =~= out@);
        }
    }

    /// Writes the whole multi-line-string: its header, then its body.
    pub fn write_to_sql(&self, include_srid: bool, out: &mut Vec<u8>)
        ensures
            final(out)@ == old(out)@ + enc_geometry(
                GeometryModel::MultiLineString(self@),
                include_srid,
            ),
    {
        write_header(self.geometry_type(), self.srid, include_srid, out);
        self.write_body(out);
        assert(out@ =~= old(out)@ + enc_geometry(
            GeometryModel::MultiLineString(self@),
            include_srid,
        ));
    }

    /// Reads a multi-line-string body at `pos`: the member count, then that
    /// many members, each a discarded five-byte sub-header and a line string
    /// body inheriting the header's SRID.
    pub fn read_body(header: EwkbHeader, bytes: &[u8], pos: usize, le: bool) -> (r: Result<
        (Self, usize),
        Error,
    >)
        ensures
            match r {
                Ok((mls, end)) => parse_multilinestring_body(bytes@, pos as int, le, has_z_flag(
                    header.g_type,
                ), has_m_flag(header.g_type), P::spec_has_z(), P::spec_has_m(), header.srid)
                    == Ok::<(MultiLineStringModel, int), ErrorModel>((mls@, end as int)) && pos
                    <= end <= bytes@.len(),
                Err(e) => parse_multilinestring_body(bytes@, pos as int, le, has_z_flag(
                    header.g_type,
                ), has_m_flag(header.g_type), P::spec_has_z(), P::spec_has_m(), header.srid)
                    == Err::<(MultiLineStringModel, int), ErrorModel>(e@),
            },
    {
        let ghost fz = has_z_flag(header.g_type);
        let ghost fm = has_m_flag(header.g_type);
        let (n, start) = match crate::bytes::read_u32_at(bytes, pos, le) {
            None => {
                return Err(Error::UnexpectedEndOfBuffer);
            },
            Some(v) => v,
        };
        let ghost target = parse_line_members(bytes@, start as int, le, fz, fm, P::spec_has_z(),
            P::spec_has_m(), header.srid, n as nat, Seq::empty());
        let mut mls = Self::with_capacity(header.srid, n as usize);
        let mut cursor = start;
        let mut i: u32 = 0;
        while i < n
            invariant
                0 <= i <= n,
                pos < start <= cursor <= bytes@.len(),
                mls.srid == header.srid,
                target == parse_line_members(bytes@, cursor as int, le, fz, fm, P::spec_has_z(),
                    P::spec_has_m(), header.srid, (n - i) as nat, lines_view(mls.lines@)),
                parse_multilinestring_body(bytes@, pos as int, le, fz, fm, P::spec_has_z(),
                    P::spec_has_m(), header.srid) == (match target {
                    Err(e) => Err::<(MultiLineStringModel, int), ErrorModel>(e),
                    Ok((lines, p2)) => Ok::<(MultiLineStringModel, int), ErrorModel>(
                        (MultiLineStringModel { lines, srid: header.srid }, p2),
                    ),
                }),
                fz == has_z_flag(header.g_type),
                fm == has_m_flag(header.g_type),
            decreases n - i,
        {
            if bytes.len() < 5 || cursor > bytes.len() - 5 {
                return Err(Error::UnexpectedEndOfBuffer);
            }
            match LineString::<P>::read_body(header, bytes, cursor + 5, le) {
                Err(e) => {
                    proof {
                        assert(target == Err::<(Seq<LineStringModel>, int), ErrorModel>(e@));
                    }
                    return Err(e);
                },
                Ok((line, p2)) => {
                    proof {
                        lemma_lines_view_push(mls.lines@, line);
                    }
                    mls.lines.push(line);
                    cursor = p2;
                    i = i + 1;
                },
            }
        }
        proof {
            assert(target == Ok::<(Seq<LineStringModel>, int), ErrorModel>(
                (lines_view(mls.lines@), cursor as int),
            ));
        }
        Ok((mls, cursor))
    }

    /// Decodes one whole multi-line-string from a buffer.
    pub fn read_from_sql(bytes: &[u8]) -> (r: Result<Self, Error>)
        ensures
            match r {
                Ok(mls) => spec_decode(bytes@, P::spec_has_z(), P::spec_has_m(), Some(
                    GeometryType::MultiLineString,
                )) == Ok::<GeometryModel, ErrorModel>(GeometryModel::MultiLineString(mls@)),
                Err(e) => spec_decode(bytes@, P::spec_has_z(), P::spec_has_m(), Some(
                    GeometryType::MultiLineString,
                )) == Err::<GeometryModel, ErrorModel>(e@),
            },
    {
        let (header, pos, le) = match read_preamble(bytes, Some(GeometryType::MultiLineString)) {
            Ok(v) => v,
            Err(e) => {
                return Err(e);
            },
        };
        match Self::read_body(header, bytes, pos, le) {
            Ok((mls, _)) => Ok(mls),
            Err(e) => Err(e),
        }
    }
}

} // verus!
