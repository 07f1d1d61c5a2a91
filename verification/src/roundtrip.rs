//! The laws of the codec, proved against the wire specification: decoding an
//! encoding returns the geometry unchanged, an encoding without an SRID
//! never carries the SRID flag, and a kind mismatch is reported exactly.

use vstd::prelude::*;

use crate::bytes::{
    le_bytes_u32, le_bytes_u64, lemma_parse_u32_of_le, lemma_parse_u64_of_le, lemma_subrange_split,
    parse_u32,
};
use crate::errors::ErrorModel;
use crate::ewkb::{
    enc_header, kind_ordinal, parse_header, spec_kind_of, EwkbHeader, GeometryType, SRID,
};
use crate::model::{
    collection_dim, dimension_bits, geometry_dim, geometry_has_point, geometry_srid, geometry_wf,
    linestring_dim, linestring_wf, members_have_point, members_wf, multilinestring_wf,
    multipoint_wf, multipolygon_wf, point_dim, point_wf, points_wf, polygon_dim,
    polygon_has_point, polygon_wf, round_trip_safe, GeometryCollectionModel, GeometryModel,
    LineStringModel, MultiLineStringModel, MultiPointModel, MultiPolygonModel, PointFields,
    PolygonModel, MAX_COUNT, M_FLAG, Z_FLAG,
};
use crate::wire::{
    count_word, enc_count, enc_geo_members, enc_geometry, enc_geometry_body, enc_line_members,
    enc_linestring_body, enc_multilinestring_body, enc_multipoint_body, enc_multipolygon_body,
    enc_point_body, enc_point_members, enc_points, enc_polygon_body, enc_polygon_members,
    enc_rings, geometry_word, has_m_flag, has_z_flag, model_kind, parse_geo_members,
    parse_geometry_body, parse_line_members, parse_linestring_body, parse_multilinestring_body,
    parse_multipoint_body, parse_multipolygon_body, parse_point_fields, parse_point_members,
    parse_points, parse_polygon_body, parse_polygon_members, parse_rings, spec_decode,
};

verus! {

/// The dimension flags of any geometry are one of the four flag words.
pub proof fn lemma_geometry_dim_range(g: GeometryModel)
    ensures
        geometry_dim(g) == 0 || geometry_dim(g) == Z_FLAG || geometry_dim(g) == M_FLAG
            || geometry_dim(g) == 0xC000_0000u32,
    decreases g,
{
    match g {
        GeometryModel::GeometryCollection(c) => {
            if c.geometries.len() > 0 {
                lemma_geometry_dim_range(c.geometries[0]);
            }
        },
        _ => {},
    }
}

/// How the bits of a type word built from a kind ordinal and dimension flags
/// read back: the low bits give the ordinal, the high bits the flags, and
/// the SRID bit is clear until it is set.
pub proof fn lemma_word_bits(ord: u32, d: u32)
    requires
        1 <= ord <= 7,
        d == 0 || d == 0x8000_0000u32 || d == 0x4000_0000u32 || d == 0xC000_0000u32,
    ensures
        (ord | d) & 0x2000_0000u32 != 0x2000_0000u32,
        ((ord | d) | 0x2000_0000u32) & 0x2000_0000u32 == 0x2000_0000u32,
        ((ord | d) | 0x2000_0000u32) & !0x2000_0000u32 == ord | d,
        (ord | d) & 7 == ord,
        ((ord | d) & 0x8000_0000u32 == 0x8000_0000u32) == (d == 0x8000_0000u32 || d
            == 0xC000_0000u32),
        ((ord | d) & 0x4000_0000u32 == 0x4000_0000u32) == (d == 0x4000_0000u32 || d
            == 0xC000_0000u32),
{
    assert((1 <= ord <= 7 && (d == 0 || d == 0x8000_0000u32 || d == 0x4000_0000u32 || d
        == 0xC000_0000u32)) ==> ((ord | d) & 0x2000_0000u32 != 0x2000_0000u32 && ((ord | d)
        | 0x2000_0000u32) & 0x2000_0000u32 == 0x2000_0000u32 && ((ord | d) | 0x2000_0000u32)
        & !0x2000_0000u32 == (ord | d) && (ord | d) & 7 == ord && (((ord | d) & 0x8000_0000u32
        == 0x8000_0000u32) == (d == 0x8000_0000u32 || d == 0xC000_0000u32)) && (((ord | d)
        & 0x4000_0000u32 == 0x4000_0000u32) == (d == 0x4000_0000u32 || d == 0xC000_0000u32))))
        by (bit_vector);
}

/// A type word built from a geometry names that geometry's kind.
pub proof fn lemma_kind_of_word(g: GeometryModel)
    ensures
        spec_kind_of(geometry_word(g)) == model_kind(g),
        geometry_word(g) & SRID != SRID,
        (geometry_word(g) | SRID) & SRID == SRID,
        (geometry_word(g) | SRID) & !SRID == geometry_word(g),
{
    lemma_geometry_dim_range(g);
    lemma_word_bits(kind_ordinal(model_kind(g)), geometry_dim(g));
}

/// The flags of a geometry's type word agree with the expected point shape
/// whenever the geometry holds a point, on the strength of
/// `round_trip_safe`.
pub proof fn lemma_word_flags_of_safe(g: GeometryModel, want_z: bool, want_m: bool)
    requires
        geometry_has_point(g) ==> geometry_dim(g) == dimension_bits(want_z, want_m),
    ensures
        geometry_has_point(g) ==> has_z_flag(geometry_word(g)) == want_z && has_m_flag(
            geometry_word(g),
        ) == want_m,
{
    lemma_geometry_dim_range(g);
    lemma_word_bits(kind_ordinal(model_kind(g)), geometry_dim(g));
}

/// A header written for a word whose SRID bit is clear parses back exactly,
/// little-endian.
pub proof fn lemma_header_roundtrip(b: Seq<u8>, word: u32, srid: Option<u32>, include_srid: bool)
    requires
        word & SRID != SRID,
        b.len() >= enc_header(word, srid, include_srid).len(),
        b.subrange(0, enc_header(word, srid, include_srid).len() as int) == enc_header(word, srid,
            include_srid),
        (word | SRID) & SRID == SRID,
        (word | SRID) & !SRID == word,
    ensures
        b[0] == 1u8,
        parse_header(b, 1, true) == Some(
            (EwkbHeader { g_type: word, srid: if include_srid && srid.is_some() { srid } else { None } },
                enc_header(word, srid, include_srid).len() as int),
        ),
{
    let h = enc_header(word, srid, include_srid);
    let pre = b.subrange(0, h.len() as int);
    assert(b[0] == pre[0]);
    if include_srid && srid.is_some() {
        assert(h == seq![1u8] + (le_bytes_u32(word | SRID) + le_bytes_u32(srid.unwrap()))) by {
            assert(seq![1u8] + le_bytes_u32(word | SRID) + le_bytes_u32(srid.unwrap())
                =~= seq![1u8] + (le_bytes_u32(word | SRID) + le_bytes_u32(srid.unwrap())));
        }
        lemma_subrange_split(b, 0, seq![1u8], le_bytes_u32(word | SRID) + le_bytes_u32(
            srid.unwrap(),
        ));
        lemma_subrange_split(b, 1, le_bytes_u32(word | SRID), le_bytes_u32(srid.unwrap()));
        lemma_parse_u32_of_le(b, 1, word | SRID);
        lemma_parse_u32_of_le(b, 5, srid.unwrap());
    } else {
        lemma_subrange_split(b, 0, seq![1u8], le_bytes_u32(word));
        lemma_parse_u32_of_le(b, 1, word);
    }
}

/// A point body parses back to its own fields, little-endian, when the flags
/// and the expected shape both match the point's.
pub proof fn lemma_point_body_roundtrip(b: Seq<u8>, pos: int, f: PointFields, want_z: bool,
    want_m: bool, srid: Option<u32>)
    requires
        point_wf(f, want_z, want_m, srid),
        0 <= pos,
        pos + enc_point_body(f).len() <= b.len(),
        b.subrange(pos, pos + enc_point_body(f).len()) == enc_point_body(f),
    ensures
        parse_point_fields(b, pos, true, want_z, want_m, want_z, want_m, srid) == Ok::<
            (PointFields, int),
            ErrorModel,
        >((f, pos + enc_point_body(f).len())),
{
    let zs: Seq<u8> = match f.z {
        Some(z) => le_bytes_u64(z),
        None => Seq::empty(),
    };
    let ms: Seq<u8> = match f.m {
        Some(m) => le_bytes_u64(m),
        None => Seq::empty(),
    };
    let body = enc_point_body(f);
    assert(body == le_bytes_u64(f.x) + (le_bytes_u64(f.y) + (zs + ms))) by {
        assert(le_bytes_u64(f.x) + le_bytes_u64(f.y) + zs + ms =~= le_bytes_u64(f.x) + (
        le_bytes_u64(f.y) + (zs + ms)));
    }
    lemma_subrange_split(b, pos, le_bytes_u64(f.x), le_bytes_u64(f.y) + (zs + ms));
    lemma_subrange_split(b, pos + 8, le_bytes_u64(f.y), zs + ms);
    lemma_subrange_split(b, pos + 16, zs, ms);
    lemma_parse_u64_of_le(b, pos, f.x);
    lemma_parse_u64_of_le(b, pos + 8, f.y);
    if let Some(z) = f.z {
        lemma_parse_u64_of_le(b, pos + 16, z);
    }
    if let Some(m) = f.m {
        lemma_parse_u64_of_le(b, pos + 16 + zs.len(), m);
    }
}

/// A sequence of point bodies parses back onto the accumulator.  The
/// header flags may be anything when the sequence is empty; otherwise they
/// must match the expected shape.
pub proof fn lemma_points_roundtrip(b: Seq<u8>, pos: int, s: Seq<PointFields>, flag_z: bool,
    flag_m: bool, want_z: bool, want_m: bool, srid: Option<u32>, acc: Seq<PointFields>)
    requires
        points_wf(s, want_z, want_m, srid),
        s.len() > 0 ==> flag_z == want_z && flag_m == want_m,
        0 <= pos,
        pos + enc_points(s).len() <= b.len(),
        b.subrange(pos, pos + enc_points(s).len()) == enc_points(s),
    ensures
        parse_points(b, pos, true, flag_z, flag_m, want_z, want_m, srid, s.len(), acc) == Ok::<
            (Seq<PointFields>, int),
            ErrorModel,
        >((acc + s, pos + enc_points(s).len())),
    decreases s.len(),
{
    if s.len() == 0 {
        assert(acc + s =~= acc);
    } else {
        let first = enc_point_body(s[0]);
        let rest = enc_points(s.drop_first());
        lemma_subrange_split(b, pos, first, rest);
        lemma_point_body_roundtrip(b, pos, s[0], want_z, want_m, srid);
        assert(points_wf(s.drop_first(), want_z, want_m, srid)) by {
            assert(forall|i: int|
                0 <= i < s.drop_first().len() ==> #[trigger] s.drop_first()[i] == s[i + 1]);
        }
        lemma_points_roundtrip(b, pos + first.len(), s.drop_first(), flag_z, flag_m, want_z,
            want_m, srid, acc.push(s[0]));
        assert(acc.push(s[0]) + s.drop_first() =~= acc + s);
    }
}

/// A count written for a sequence shorter than the 32 bit limit parses back
/// to the exact length.
pub proof fn lemma_count_roundtrip(b: Seq<u8>, pos: int, n: nat)
    requires
        n < MAX_COUNT,
        0 <= pos,
        pos + 4 <= b.len(),
        b.subrange(pos, pos + 4) == enc_count(n),
    ensures
        parse_u32(b, pos, true) == Some((count_word(n), pos + 4)),
        count_word(n) as nat == n,
    {
    lemma_parse_u32_of_le(b, pos, count_word(n));
}

/// A line string body parses back to its own model.
pub proof fn lemma_linestring_body_roundtrip(b: Seq<u8>, pos: int, m: LineStringModel,
    flag_z: bool, flag_m: bool, want_z: bool, want_m: bool, srid: Option<u32>)
    requires
        linestring_wf(m, want_z, want_m, srid),
        m.points.len() > 0 ==> flag_z == want_z && flag_m == want_m,
        0 <= pos,
        pos + enc_linestring_body(m).len() <= b.len(),
        b.subrange(pos, pos + enc_linestring_body(m).len()) == enc_linestring_body(m),
    ensures
        parse_linestring_body(b, pos, true, flag_z, flag_m, want_z, want_m, srid) == Ok::<
            (LineStringModel, int),
            ErrorModel,
        >((m, pos + enc_linestring_body(m).len())),
{
    lemma_subrange_split(b, pos, enc_count(m.points.len()), enc_points(m.points));
    lemma_count_roundtrip(b, pos, m.points.len());
    lemma_points_roundtrip(b, pos + 4, m.points, flag_z, flag_m, want_z, want_m, srid,
        Seq::empty());
    assert(Seq::<PointFields>::empty() + m.points =~= m.points);
}

/// A sequence of rings parses back onto the accumulator.
pub proof fn lemma_rings_roundtrip(b: Seq<u8>, pos: int, s: Seq<Seq<PointFields>>, flag_z: bool,
    flag_m: bool, want_z: bool, want_m: bool, srid: Option<u32>, acc: Seq<Seq<PointFields>>)
    requires
        forall|i: int| 0 <= i < s.len() ==> (#[trigger] s[i]).len() < MAX_COUNT && points_wf(s[i],
            want_z, want_m, srid),
        (exists|i: int| 0 <= i < s.len() && (#[trigger] s[i]).len() > 0) ==> flag_z == want_z
            && flag_m == want_m,
        0 <= pos,
        pos + enc_rings(s).len() <= b.len(),
        b.subrange(pos, pos + enc_rings(s).len()) == enc_rings(s),
    ensures
        parse_rings(b, pos, true, flag_z, flag_m, want_z, want_m, srid, s.len(), acc) == Ok::<
            (Seq<Seq<PointFields>>, int),
            ErrorModel,
        >((acc + s, pos + enc_rings(s).len())),
    decreases s.len(),
{
    if s.len() == 0 {
        assert(acc + s =~= acc);
    } else {
        let first = enc_count(s[0].len()) + enc_points(s[0]);
        let rest = enc_rings(s.drop_first());
        assert(enc_rings(s) == first + rest) by {
            assert(enc_count(s[0].len()) + enc_points(s[0]) + enc_rings(s.drop_first())
                =~= first + rest);
        }
        lemma_subrange_split(b, pos, first, rest);
        lemma_subrange_split(b, pos, enc_count(s[0].len()), enc_points(s[0]));
        lemma_count_roundtrip(b, pos, s[0].len());
        if s[0].len() > 0 {
            assert(flag_z == want_z && flag_m == want_m);
        }
        lemma_points_roundtrip(b, pos + 4, s[0], flag_z, flag_m, want_z, want_m, srid,
            Seq::empty());
        assert(Seq::<PointFields>::empty() + s[0] =~= s[0]);
        assert(forall|i: int|
            0 <= i < s.drop_first().len() ==> #[trigger] s.drop_first()[i] == s[i + 1]);
        if exists|i: int| 0 <= i < s.drop_first().len() && (#[trigger] s.drop_first()[i]).len()
            > 0 {
            let i = choose|i: int|
                0 <= i < s.drop_first().len() && (#[trigger] s.drop_first()[i]).len() > 0;
            assert(s[i + 1].len() > 0);
        }
        lemma_rings_roundtrip(b, pos + first.len(), s.drop_first(), flag_z, flag_m, want_z,
            want_m, srid, acc.push(s[0]));
        assert(acc.push(s[0]) + s.drop_first() =~= acc + s);
    }
}

/// A polygon body parses back to its own model.
pub proof fn lemma_polygon_body_roundtrip(b: Seq<u8>, pos: int, m: PolygonModel, flag_z: bool,
    flag_m: bool, want_z: bool, want_m: bool, srid: Option<u32>)
    requires
        polygon_wf(m, want_z, want_m, srid),
        polygon_has_point(m) ==> flag_z == want_z && flag_m == want_m,
        0 <= pos,
        pos + enc_polygon_body(m).len() <= b.len(),
        b.subrange(pos, pos + enc_polygon_body(m).len()) == enc_polygon_body(m),
    ensures
        parse_polygon_body(b, pos, true, flag_z, flag_m, want_z, want_m, srid) == Ok::<
            (PolygonModel, int),
            ErrorModel,
        >((m, pos + enc_polygon_body(m).len())),
{
    lemma_subrange_split(b, pos, enc_count(m.rings.len()), enc_rings(m.rings));
    lemma_count_roundtrip(b, pos, m.rings.len());
    lemma_rings_roundtrip(b, pos + 4, m.rings, flag_z, flag_m, want_z, want_m, srid,
        Seq::empty());
    assert(Seq::<Seq<PointFields>>::empty() + m.rings =~= m.rings);
}

/// A sequence of framed point members parses back onto the accumulator; the
/// five-byte sub-headers are skipped.
pub proof fn lemma_point_members_roundtrip(b: Seq<u8>, pos: int, s: Seq<PointFields>,
    flag_z: bool, flag_m: bool, want_z: bool, want_m: bool, srid: Option<u32>,
    acc: Seq<PointFields>)
    requires
        points_wf(s, want_z, want_m, srid),
        s.len() > 0 ==> flag_z == want_z && flag_m == want_m,
        0 <= pos,
        pos + enc_point_members(s).len() <= b.len(),
        b.subrange(pos, pos + enc_point_members(s).len()) == enc_point_members(s),
    ensures
        parse_point_members(b, pos, true, flag_z, flag_m, want_z, want_m, srid, s.len(), acc)
            == Ok::<(Seq<PointFields>, int), ErrorModel>(
            (acc + s, pos + enc_point_members(s).len()),
        ),
    decreases s.len(),
{
    if s.len() == 0 {
        assert(acc + s =~= acc);
    } else {
        let head = enc_header(1u32 | point_dim(s[0]), s[0].srid, false);
        let body = enc_point_body(s[0]);
        let rest = enc_point_members(s.drop_first());
        assert(enc_point_members(s) == head + (body + rest)) by {
            assert(head + body + rest =~= head + (body + rest));
        }
        lemma_subrange_split(b, pos, head, body + rest);
        lemma_subrange_split(b, pos + head.len(), body, rest);
        assert(head.len() == 5);
        lemma_point_body_roundtrip(b, pos + 5, s[0], want_z, want_m, srid);
        assert(points_wf(s.drop_first(), want_z, want_m, srid)) by {
            assert(forall|i: int|
                0 <= i < s.drop_first().len() ==> #[trigger] s.drop_first()[i] == s[i + 1]);
        }
        lemma_point_members_roundtrip(b, pos + 5 + body.len(), s.drop_first(), flag_z, flag_m,
            want_z, want_m, srid, acc.push(s[0]));
        assert(acc.push(s[0]) + s.drop_first() =~= acc + s);
    }
}

/// A multi-point body parses back to its own model.
pub proof fn lemma_multipoint_body_roundtrip(b: Seq<u8>, pos: int, m: MultiPointModel,
    flag_z: bool, flag_m: bool, want_z: bool, want_m: bool, srid: Option<u32>)
    requires
        multipoint_wf(m, want_z, want_m, srid),
        m.points.len() > 0 ==> flag_z == want_z && flag_m == want_m,
        0 <= pos,
        pos + enc_multipoint_body(m).len() <= b.len(),
        b.subrange(pos, pos + enc_multipoint_body(m).len()) == enc_multipoint_body(m),
    ensures
        parse_multipoint_body(b, pos, true, flag_z, flag_m, want_z, want_m, srid) == Ok::<
            (MultiPointModel, int),
            ErrorModel,
        >((m, pos + enc_multipoint_body(m).len())),
{
    lemma_subrange_split(b, pos, enc_count(m.points.len()), enc_point_members(m.points));
    lemma_count_roundtrip(b, pos, m.points.len());
    lemma_point_members_roundtrip(b, pos + 4, m.points, flag_z, flag_m, want_z, want_m, srid,
        Seq::empty());
    assert(Seq::<PointFields>::empty() + m.points =~= m.points);
}

/// A sequence of framed line members parses back onto the accumulator; the
/// five-byte sub-headers are skipped.
pub proof fn lemma_line_members_roundtrip(b: Seq<u8>, pos: int, s: Seq<LineStringModel>,
    flag_z: bool, flag_m: bool, want_z: bool, want_m: bool, srid: Option<u32>,
    acc: Seq<LineStringModel>)
    requires
        forall|i: int| 0 <= i < s.len() ==> linestring_wf(#[trigger] s[i], want_z, want_m, srid),
        (exists|i: int| 0 <= i < s.len() && (#[trigger] s[i]).points.len() > 0) ==> flag_z
            == want_z && flag_m == want_m,
        0 <= pos,
        pos + enc_line_members(s).len() <= b.len(),
        b.subrange(pos, pos + enc_line_members(s).len()) == enc_line_members(s),
    ensures
        parse_line_members(b, pos, true, flag_z, flag_m, want_z, want_m, srid, s.len(), acc)
            == Ok::<(Seq<LineStringModel>, int), ErrorModel>(
            (acc + s, pos + enc_line_members(s).len()),
        ),
    decreases s.len(),
{
    if s.len() == 0 {
        assert(acc + s =~= acc);
    } else {
        let head = enc_header(2u32 | linestring_dim(s[0]), s[0].srid, false);
        let body = enc_linestring_body(s[0]);
        let rest = enc_line_members(s.drop_first());
        assert(enc_line_members(s) == head + (body + rest)) by {
            assert(head + body + rest =~= head + (body + rest));
        }
        lemma_subrange_split(b, pos, head, body + rest);
        lemma_subrange_split(b, pos + head.len(), body, rest);
        assert(head.len() == 5);
        if s[0].points.len() > 0 {
            assert(flag_z == want_z && flag_m == want_m);
        }
        lemma_linestring_body_roundtrip(b, pos + 5, s[0], flag_z, flag_m, want_z, want_m, srid);
        assert(forall|i: int|
            0 <= i < s.drop_first().len() ==> #[trigger] s.drop_first()[i] == s[i + 1]);
        if exists|i: int|
            0 <= i < s.drop_first().len() && (#[trigger] s.drop_first()[i]).points.len() > 0 {
            let i = choose|i: int|
                0 <= i < s.drop_first().len() && (#[trigger] s.drop_first()[i]).points.len() > 0;
            assert(s[i + 1].points.len() > 0);
        }
        lemma_line_members_roundtrip(b, pos + 5 + body.len(), s.drop_first(), flag_z, flag_m,
            want_z, want_m, srid, acc.push(s[0]));
        assert(acc.push(s[0]) + s.drop_first() =~= acc + s);
    }
}

/// A multi-line-string body parses back to its own model.
pub proof fn lemma_multilinestring_body_roundtrip(b: Seq<u8>, pos: int, m: MultiLineStringModel,
    flag_z: bool, flag_m: bool, want_z: bool, want_m: bool, srid: Option<u32>)
    requires
        multilinestring_wf(m, want_z, want_m, srid),
        (exists|i: int| 0 <= i < m.lines.len() && (#[trigger] m.lines[i]).points.len() > 0)
            ==> flag_z == want_z && flag_m == want_m,
        0 <= pos,
        pos + enc_multilinestring_body(m).len() <= b.len(),
        b.subrange(pos, pos + enc_multilinestring_body(m).len()) == enc_multilinestring_body(m),
    ensures
        parse_multilinestring_body(b, pos, true, flag_z, flag_m, want_z, want_m, srid) == Ok::<
            (MultiLineStringModel, int),
            ErrorModel,
        >((m, pos + enc_multilinestring_body(m).len())),
{
    lemma_subrange_split(b, pos, enc_count(m.lines.len()), enc_line_members(m.lines));
    lemma_count_roundtrip(b, pos, m.lines.len());
    lemma_line_members_roundtrip(b, pos + 4, m.lines, flag_z, flag_m, want_z, want_m, srid,
        Seq::empty());
    assert(Seq::<LineStringModel>::empty() + m.lines =~= m.lines);
}

/// A sequence of framed polygon members parses back onto the accumulator;
/// the five-byte sub-headers are skipped.
pub proof fn lemma_polygon_members_roundtrip(b: Seq<u8>, pos: int, s: Seq<PolygonModel>,
    flag_z: bool, flag_m: bool, want_z: bool, want_m: bool, srid: Option<u32>,
    acc: Seq<PolygonModel>)
    requires
        forall|i: int| 0 <= i < s.len() ==> polygon_wf(#[trigger] s[i], want_z, want_m, srid),
        (exists|i: int| 0 <= i < s.len() && polygon_has_point(#[trigger] s[i])) ==> flag_z
            == want_z && flag_m == want_m,
        0 <= pos,
        pos + enc_polygon_members(s).len() <= b.len(),
        b.subrange(pos, pos + enc_polygon_members(s).len()) == enc_polygon_members(s),
    ensures
        parse_polygon_members(b, pos, true, flag_z, flag_m, want_z, want_m, srid, s.len(), acc)
            == Ok::<(Seq<PolygonModel>, int), ErrorModel>(
            (acc + s, pos + enc_polygon_members(s).len()),
        ),
    decreases s.len(),
{
    if s.len() == 0 {
        assert(acc + s =~= acc);
    } else {
        let head = enc_header(3u32 | polygon_dim(s[0]), s[0].srid, false);
        let body = enc_polygon_body(s[0]);
        let rest = enc_polygon_members(s.drop_first());
        assert(enc_polygon_members(s) == head + (body + rest)) by {
            assert(head + body + rest =~= head + (body + rest));
        }
        lemma_subrange_split(b, pos, head, body + rest);
        lemma_subrange_split(b, pos + head.len(), body, rest);
        assert(head.len() == 5);
        if polygon_has_point(s[0]) {
            assert(flag_z == want_z && flag_m == want_m);
        }
        lemma_polygon_body_roundtrip(b, pos + 5, s[0], flag_z, flag_m, want_z, want_m, srid);
        assert(forall|i: int|
            0 <= i < s.drop_first().len() ==> #[trigger] s.drop_first()[i] == s[i + 1]);
        if exists|i: int| 0 <= i < s.drop_first().len() && polygon_has_point(
            #[trigger] s.drop_first()[i],
        ) {
            let i = choose|i: int|
                0 <= i < s.drop_first().len() && polygon_has_point(#[trigger] s.drop_first()[i]);
            assert(polygon_has_point(s[i + 1]));
        }
        lemma_polygon_members_roundtrip(b, pos + 5 + body.len(), s.drop_first(), flag_z, flag_m,
            want_z, want_m, srid, acc.push(s[0]));
        assert(acc.push(s[0]) + s.drop_first() =~= acc + s);
    }
}

/// A multi-polygon body parses back to its own model.
pub proof fn lemma_multipolygon_body_roundtrip(b: Seq<u8>, pos: int, m: MultiPolygonModel,
    flag_z: bool, flag_m: bool, want_z: bool, want_m: bool, srid: Option<u32>)
    requires
        multipolygon_wf(m, want_z, want_m, srid),
        (exists|i: int| 0 <= i < m.polygons.len() && polygon_has_point(#[trigger] m.polygons[i]))
            ==> flag_z == want_z && flag_m == want_m,
        0 <= pos,
        pos + enc_multipolygon_body(m).len() <= b.len(),
        b.subrange(pos, pos + enc_multipolygon_body(m).len()) == enc_multipolygon_body(m),
    ensures
        parse_multipolygon_body(b, pos, true, flag_z, flag_m, want_z, want_m, srid) == Ok::<
            (MultiPolygonModel, int),
            ErrorModel,
        >((m, pos + enc_multipolygon_body(m).len())),
{
    lemma_subrange_split(b, pos, enc_count(m.polygons.len()), enc_polygon_members(m.polygons));
    lemma_count_roundtrip(b, pos, m.polygons.len());
    lemma_polygon_members_roundtrip(b, pos + 4, m.polygons, flag_z, flag_m, want_z, want_m, srid,
        Seq::empty());
    assert(Seq::<PolygonModel>::empty() + m.polygons =~= m.polygons);
}

/// Any geometry body parses back to its own model under its own kind.
#[verifier::rlimit(100)]
pub proof fn lemma_geometry_body_roundtrip(b: Seq<u8>, pos: int, g: GeometryModel, flag_z: bool,
    flag_m: bool, want_z: bool, want_m: bool, srid: Option<u32>)
    requires
        geometry_wf(g, want_z, want_m, srid),
        geometry_has_point(g) ==> flag_z == want_z && flag_m == want_m,
        0 <= pos,
        pos + enc_geometry_body(g).len() <= b.len(),
        b.subrange(pos, pos + enc_geometry_body(g).len()) == enc_geometry_body(g),
    ensures
        parse_geometry_body(model_kind(g), b, pos, true, flag_z, flag_m, want_z, want_m, srid)
            == Ok::<(GeometryModel, int), ErrorModel>((g, pos + enc_geometry_body(g).len())),
    decreases g,
{
    match g {
        GeometryModel::Point(f) => {
            lemma_point_body_roundtrip(b, pos, f, want_z, want_m, srid);
        },
        GeometryModel::LineString(m) => {
            lemma_linestring_body_roundtrip(b, pos, m, flag_z, flag_m, want_z, want_m, srid);
        },
        GeometryModel::Polygon(m) => {
            lemma_polygon_body_roundtrip(b, pos, m, flag_z, flag_m, want_z, want_m, srid);
        },
        GeometryModel::MultiPoint(m) => {
            lemma_multipoint_body_roundtrip(b, pos, m, flag_z, flag_m, want_z, want_m, srid);
        },
        GeometryModel::MultiLineString(m) => {
            lemma_multilinestring_body_roundtrip(b, pos, m, flag_z, flag_m, want_z, want_m, srid);
        },
        GeometryModel::MultiPolygon(m) => {
            lemma_multipolygon_body_roundtrip(b, pos, m, flag_z, flag_m, want_z, want_m, srid);
        },
        GeometryModel::GeometryCollection(c) => {
            lemma_subrange_split(b, pos, enc_count(c.geometries.len()), enc_geo_members(
                c.geometries,
            ));
            lemma_count_roundtrip(b, pos, c.geometries.len());
            lemma_geo_members_roundtrip(b, pos + 4, c.geometries, flag_z, flag_m, want_z, want_m,
                srid, Seq::empty());
            assert(Seq::<GeometryModel>::empty() + c.geometries =~= c.geometries);
        },
    }
}

/// A sequence of framed collection members parses back onto the
/// accumulator; each sub-header's word names the member's kind.
#[verifier::rlimit(100)]
pub proof fn lemma_geo_members_roundtrip(b: Seq<u8>, pos: int, s: Seq<GeometryModel>,
    flag_z: bool, flag_m: bool, want_z: bool, want_m: bool, srid: Option<u32>,
    acc: Seq<GeometryModel>)
    requires
        members_wf(s, want_z, want_m, srid),
        members_have_point(s) ==> flag_z == want_z && flag_m == want_m,
        0 <= pos,
        pos + enc_geo_members(s).len() <= b.len(),
        b.subrange(pos, pos + enc_geo_members(s).len()) == enc_geo_members(s),
    ensures
        parse_geo_members(b, pos, true, flag_z, flag_m, want_z, want_m, srid, s.len(), acc)
            == Ok::<(Seq<GeometryModel>, int), ErrorModel>(
            (acc + s, pos + enc_geo_members(s).len()),
        ),
    decreases s,
{
    if s.len() == 0 {
        assert(acc + s =~= acc);
    } else {
        let word = geometry_word(s[0]);
        let head = enc_header(word, geometry_srid(s[0]), false);
        let body = enc_geometry_body(s[0]);
        let rest = enc_geo_members(s.drop_first());
        assert(enc_geo_members(s) == head + (body + rest)) by {
            assert(enc_geometry(s[0], false) == head + body);
            assert(head + body + rest =~= head + (body + rest));
        }
        lemma_subrange_split(b, pos, head, body + rest);
        lemma_subrange_split(b, pos + head.len(), body, rest);
        assert(head.len() == 5);
        lemma_subrange_split(b, pos, seq![1u8], le_bytes_u32(word));
        lemma_parse_u32_of_le(b, pos + 1, word);
        lemma_kind_of_word(s[0]);
        lemma_geometry_body_roundtrip(b, pos + 5, s[0], flag_z, flag_m, want_z, want_m, srid);
        lemma_geo_members_roundtrip(b, pos + 5 + body.len(), s.drop_first(), flag_z, flag_m,
            want_z, want_m, srid, acc.push(s[0]));
        assert(acc.push(s[0]) + s.drop_first() =~= acc + s);
    }
}

/// Decoding any buffer that opens with the encoding of a geometry — with
/// its SRID, trailing bytes ignored — returns exactly that geometry, when
/// the expected kind, if one is named, is the geometry's own.
pub proof fn lemma_decode_of_encoding(b: Seq<u8>, g: GeometryModel, want_z: bool, want_m: bool,
    expected: Option<GeometryType>)
    requires
        round_trip_safe(g, want_z, want_m),
        b.len() >= enc_geometry(g, true).len(),
        b.subrange(0, enc_geometry(g, true).len() as int) == enc_geometry(g, true),
        expected matches Some(k) ==> k == model_kind(g),
    ensures
        spec_decode(b, want_z, want_m, expected) == Ok::<GeometryModel, ErrorModel>(g),
{
    let word = geometry_word(g);
    let srid = geometry_srid(g);
    let h = enc_header(word, srid, true);
    let body = enc_geometry_body(g);
    lemma_kind_of_word(g);
    lemma_subrange_split(b, 0, h, body);
    lemma_header_roundtrip(b, word, srid, true);
    lemma_word_flags_of_safe(g, want_z, want_m);
    lemma_geometry_body_roundtrip(b, h.len() as int, g, has_z_flag(word), has_m_flag(word),
        want_z, want_m, srid);
}

/// Round trip: for every geometry that is well formed against its own SRID
/// and consistent in dimension, decoding its encoding — whether or not a
/// kind is expected — returns the geometry unchanged.
pub proof fn lemma_round_trip(g: GeometryModel, want_z: bool, want_m: bool)
    requires
        round_trip_safe(g, want_z, want_m),
    ensures
        spec_decode(enc_geometry(g, true), want_z, want_m, Some(model_kind(g))) == Ok::<
            GeometryModel,
            ErrorModel,
        >(g),
        spec_decode(enc_geometry(g, true), want_z, want_m, None) == Ok::<
            GeometryModel,
            ErrorModel,
        >(g),
{
    let b = enc_geometry(g, true);
    assert(b.subrange(0, b.len() as int) =~= b);
    lemma_decode_of_encoding(b, g, want_z, want_m, Some(model_kind(g)));
    lemma_decode_of_encoding(b, g, want_z, want_m, None);
}

/// Header SRID omission: an encoding made without the SRID is exactly the
/// endianness byte, the bare type word — whose SRID bit is clear — and the
/// body; no SRID bytes stand anywhere in its header.
pub proof fn lemma_srid_omitted(g: GeometryModel)
    ensures
        enc_geometry(g, false) == seq![1u8] + le_bytes_u32(geometry_word(g)) + enc_geometry_body(
            g,
        ),
        geometry_word(g) & SRID != SRID,
        parse_header(enc_geometry(g, false), 1, true) == Some(
            (EwkbHeader { g_type: geometry_word(g), srid: None }, 5int),
        ),
{
    let b = enc_geometry(g, false);
    lemma_kind_of_word(g);
    assert(b =~= seq![1u8] + le_bytes_u32(geometry_word(g)) + enc_geometry_body(g));
    assert(b.subrange(0, b.len() as int) =~= b);
    lemma_subrange_split(b, 0, enc_header(geometry_word(g), geometry_srid(g), false),
        enc_geometry_body(g));
    lemma_header_roundtrip(b, geometry_word(g), geometry_srid(g), false);
}

/// Type mismatch detection: decoding any geometry's encoding while
/// expecting a different kind fails with exactly that pair of kinds.
pub proof fn lemma_type_mismatch(g: GeometryModel, want_z: bool, want_m: bool,
    expected: GeometryType)
    requires
        expected != model_kind(g),
    ensures
        spec_decode(enc_geometry(g, true), want_z, want_m, Some(expected)) == Err::<
            GeometryModel,
            ErrorModel,
        >(ErrorModel::UnexpectedGeometryType { expected, actual: model_kind(g) }),
{
    let b = enc_geometry(g, true);
    let word = geometry_word(g);
    let srid = geometry_srid(g);
    lemma_kind_of_word(g);
    assert(b.subrange(0, b.len() as int) =~= b);
    lemma_subrange_split(b, 0, enc_header(word, srid, true), enc_geometry_body(g));
    lemma_header_roundtrip(b, word, srid, true);
}

/// Empty collection: a geometry collection with no members and any SRID
/// round-trips exactly, for every expected point shape.
pub proof fn lemma_empty_collection_round_trip(srid: Option<u32>, want_z: bool, want_m: bool)
    ensures
        spec_decode(
            enc_geometry(
                GeometryModel::GeometryCollection(
                    GeometryCollectionModel { geometries: Seq::empty(), srid },
                ),
                true,
            ),
            want_z,
            want_m,
            Some(GeometryType::GeometryCollection),
        ) == Ok::<GeometryModel, ErrorModel>(
            GeometryModel::GeometryCollection(
                GeometryCollectionModel { geometries: Seq::empty(), srid },
            ),
        ),
{
    let g = GeometryModel::GeometryCollection(
        GeometryCollectionModel { geometries: Seq::empty(), srid },
    );
    assert(round_trip_safe(g, want_z, want_m));
    lemma_round_trip(g, want_z, want_m);
}

/// Nested collection: a collection holding one collection holding one
/// point, all sharing one SRID, round-trips exactly through the mutually
/// recursive decode path.
pub proof fn lemma_nested_collection_round_trip(f: PointFields, srid: Option<u32>,
    inner: GeometryCollectionModel, outer: GeometryCollectionModel)
    requires
        f.srid == srid,
        inner == (GeometryCollectionModel { geometries: seq![GeometryModel::Point(f)], srid }),
        outer == (GeometryCollectionModel {
            geometries: seq![GeometryModel::GeometryCollection(inner)],
            srid,
        }),
    ensures
        spec_decode(enc_geometry(GeometryModel::GeometryCollection(outer), true), f.z.is_some(),
            f.m.is_some(), Some(GeometryType::GeometryCollection)) == Ok::<
            GeometryModel,
            ErrorModel,
        >(GeometryModel::GeometryCollection(outer)),
{
    let want_z = f.z.is_some();
    let want_m = f.m.is_some();
    let g = GeometryModel::GeometryCollection(outer);
    assert(inner.geometries[0] == GeometryModel::Point(f));
    assert(outer.geometries[0] == GeometryModel::GeometryCollection(inner));
    assert(inner.geometries.drop_first() =~= Seq::<GeometryModel>::empty());
    assert(outer.geometries.drop_first() =~= Seq::<GeometryModel>::empty());
    assert(members_wf(Seq::<GeometryModel>::empty(), want_z, want_m, srid));
    assert(point_wf(f, want_z, want_m, srid));
    assert(geometry_wf(GeometryModel::Point(f), want_z, want_m, srid));
    assert(members_wf(inner.geometries, want_z, want_m, srid));
    assert(geometry_wf(GeometryModel::GeometryCollection(inner), want_z, want_m, srid));
    assert(members_wf(outer.geometries, want_z, want_m, srid));
    assert(collection_dim(inner) == point_dim(f));
    assert(collection_dim(outer) == collection_dim(inner));
    assert(geometry_dim(g) == point_dim(f));
    assert(round_trip_safe(g, want_z, want_m));
    lemma_round_trip(g, want_z, want_m);
}

/// Multi-geometry member independence: a multi-line-string of two lines
/// round-trips exactly, each member line keeping its own point count.
pub proof fn lemma_two_line_multilinestring_round_trip(m: MultiLineStringModel, want_z: bool,
    want_m: bool)
    requires
        m.lines.len() == 2,
        round_trip_safe(GeometryModel::MultiLineString(m), want_z, want_m),
    ensures
        spec_decode(enc_geometry(GeometryModel::MultiLineString(m), true), want_z, want_m, Some(
            GeometryType::MultiLineString,
        )) == Ok::<GeometryModel, ErrorModel>(GeometryModel::MultiLineString(m)),
        spec_decode(enc_geometry(GeometryModel::MultiLineString(m), true), want_z, want_m, Some(
            GeometryType::MultiLineString,
        )) matches Ok(d) ==> d matches GeometryModel::MultiLineString(dm) && dm.lines.len() == 2
            && dm.lines[0].points.len() == m.lines[0].points.len() && dm.lines[1].points.len()
            == m.lines[1].points.len(),
{
    lemma_round_trip(GeometryModel::MultiLineString(m), want_z, want_m);
}

} // verus!
