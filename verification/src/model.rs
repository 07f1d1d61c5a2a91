//! The mathematical model of the geometry types.
//!
//! Every executable geometry type has a model built from `Seq` and plain
//! values; the contracts of the codec speak of these models.  A point is
//! modelled by [`PointFields`]: its coordinates as IEEE-754 bit patterns,
//! with `Z` and `M` present exactly where the point variant carries them.

use vstd::prelude::*;

use crate::types::{
    GeometryCollection, GeometryContainer, LineString, MultiLineString, MultiPoint, MultiPolygon,
    PointT, Polygon,
};

verus! {

/// Bit flagging a Z ordinate in the type word.
pub const Z_FLAG: u32 = 0x8000_0000;

/// Bit flagging an M ordinate in the type word.
pub const M_FLAG: u32 = 0x4000_0000;

/// Counts on the wire are 32 bit words: sequences longer than this cannot be
/// framed faithfully.
pub const MAX_COUNT: u64 = 0x1_0000_0000;

/// What any point variant holds: coordinates as 64 bit patterns of IEEE-754
/// doubles, `z` and `m` exactly where the variant carries them, and the
/// optional spatial reference system identifier.
pub struct PointFields {
    pub x: u64,
    pub y: u64,
    pub z: Option<u64>,
    pub m: Option<u64>,
    pub srid: Option<u32>,
}

/// Model of a line string: its points in order, and the shared SRID.
pub struct LineStringModel {
    pub points: Seq<PointFields>,
    pub srid: Option<u32>,
}

/// Model of a polygon: its rings in order, each a point sequence.
pub struct PolygonModel {
    pub rings: Seq<Seq<PointFields>>,
    pub srid: Option<u32>,
}

/// Model of a multi-point.
pub struct MultiPointModel {
    pub points: Seq<PointFields>,
    pub srid: Option<u32>,
}

/// Model of a multi-line-string: each member line keeps its own model.
pub struct MultiLineStringModel {
    pub lines: Seq<LineStringModel>,
    pub srid: Option<u32>,
}

/// Model of a multi-polygon.
pub struct MultiPolygonModel {
    pub polygons: Seq<PolygonModel>,
    pub srid: Option<u32>,
}

/// Model of a geometry collection; the only recursive entity.
pub struct GeometryCollectionModel {
    pub geometries: Seq<GeometryModel>,
    pub srid: Option<u32>,
}

/// Model of any one geometry: the tagged union over the seven kinds.
pub enum GeometryModel {
    Point(PointFields),
    LineString(LineStringModel),
    Polygon(PolygonModel),
    MultiPoint(MultiPointModel),
    MultiLineString(MultiLineStringModel),
    MultiPolygon(MultiPolygonModel),
    GeometryCollection(GeometryCollectionModel),
}

/// The Z/M flag word for a point shape: `Z_FLAG` if a Z ordinate is present,
/// `M_FLAG` if an M ordinate is; the two bits are disjoint.
pub open spec fn dimension_bits(has_z: bool, has_m: bool) -> u32 {
    if has_z && has_m {
        0xC000_0000u32
    } else if has_z {
        Z_FLAG
    } else if has_m {
        M_FLAG
    } else {
        0u32
    }
}

/// The dimension flags of one point value.
pub open spec fn point_dim(f: PointFields) -> u32 {
    dimension_bits(f.z.is_some(), f.m.is_some())
}

/// The dimension flags a line string reports: those of its first point, or
/// none when it is empty.
pub open spec fn linestring_dim(m: LineStringModel) -> u32 {
    if m.points.len() > 0 {
        point_dim(m.points[0])
    } else {
        0u32
    }
}

/// The dimension flags a polygon reports: those of the first point of its
/// first ring, or none.
pub open spec fn polygon_dim(m: PolygonModel) -> u32 {
    if m.rings.len() > 0 && m.rings[0].len() > 0 {
        point_dim(m.rings[0][0])
    } else {
        0u32
    }
}

/// The dimension flags a multi-point reports.
pub open spec fn multipoint_dim(m: MultiPointModel) -> u32 {
    if m.points.len() > 0 {
        point_dim(m.points[0])
    } else {
        0u32
    }
}

/// The dimension flags a multi-line-string reports: those of its first line.
pub open spec fn multilinestring_dim(m: MultiLineStringModel) -> u32 {
    if m.lines.len() > 0 {
        linestring_dim(m.lines[0])
    } else {
        0u32
    }
}

/// The dimension flags a multi-polygon reports: those of its first polygon.
pub open spec fn multipolygon_dim(m: MultiPolygonModel) -> u32 {
    if m.polygons.len() > 0 {
        polygon_dim(m.polygons[0])
    } else {
        0u32
    }
}

/// The dimension flags a geometry reports: those of its first member, down
/// the chain of first members.
pub open spec fn geometry_dim(g: GeometryModel) -> u32
    decreases g,
{
    match g {
        GeometryModel::Point(f) => point_dim(f),
        GeometryModel::LineString(m) => linestring_dim(m),
        GeometryModel::Polygon(m) => polygon_dim(m),
        GeometryModel::MultiPoint(m) => multipoint_dim(m),
        GeometryModel::MultiLineString(m) => multilinestring_dim(m),
        GeometryModel::MultiPolygon(m) => multipolygon_dim(m),
        GeometryModel::GeometryCollection(c) => collection_dim(c),
    }
}

/// The dimension flags a geometry collection reports: those of its first
/// member, or none when it is empty.
pub open spec fn collection_dim(c: GeometryCollectionModel) -> u32
    decreases c,
{
    if c.geometries.len() > 0 {
        geometry_dim(c.geometries[0])
    } else {
        0u32
    }
}

/// The SRID a geometry carries at its top level.
pub open spec fn geometry_srid(g: GeometryModel) -> Option<u32> {
    match g {
        GeometryModel::Point(f) => f.srid,
        GeometryModel::LineString(m) => m.srid,
        GeometryModel::Polygon(m) => m.srid,
        GeometryModel::MultiPoint(m) => m.srid,
        GeometryModel::MultiLineString(m) => m.srid,
        GeometryModel::MultiPolygon(m) => m.srid,
        GeometryModel::GeometryCollection(c) => c.srid,
    }
}

/// Whether a polygon holds at least one point.
pub open spec fn polygon_has_point(m: PolygonModel) -> bool {
    exists|i: int| 0 <= i < m.rings.len() && m.rings[i].len() > 0
}

/// Whether any geometry in the sequence holds at least one point.
pub open spec fn members_have_point(s: Seq<GeometryModel>) -> bool
    decreases s,
{
    if s.len() == 0 {
        false
    } else {
        geometry_has_point(s[0]) || members_have_point(s.drop_first())
    }
}

/// Whether a geometry holds at least one point anywhere in its structure.
pub open spec fn geometry_has_point(g: GeometryModel) -> bool
    decreases g,
{
    match g {
        GeometryModel::Point(_) => true,
        GeometryModel::LineString(m) => m.points.len() > 0,
        GeometryModel::Polygon(m) => polygon_has_point(m),
        GeometryModel::MultiPoint(m) => m.points.len() > 0,
        GeometryModel::MultiLineString(m) => exists|i: int|
            0 <= i < m.lines.len() && m.lines[i].points.len() > 0,
        GeometryModel::MultiPolygon(m) => exists|i: int|
            0 <= i < m.polygons.len() && polygon_has_point(m.polygons[i]),
        GeometryModel::GeometryCollection(c) => members_have_point(c.geometries),
    }
}

/// A point value of the shape the codec expects: `z` and `m` present exactly
/// per the expected flags, and the SRID inherited from the outer header.
pub open spec fn point_wf(f: PointFields, want_z: bool, want_m: bool, srid: Option<u32>) -> bool {
    f.z.is_some() == want_z && f.m.is_some() == want_m && f.srid == srid
}

/// Every point in the sequence is well formed.
pub open spec fn points_wf(s: Seq<PointFields>, want_z: bool, want_m: bool,
    srid: Option<u32>) -> bool {
    forall|i: int| 0 <= i < s.len() ==> point_wf(#[trigger] s[i], want_z, want_m, srid)
}

/// A line string whose every point is well formed, whose SRID equals the
/// outer one, and whose length fits the 32 bit count on the wire.
pub open spec fn linestring_wf(m: LineStringModel, want_z: bool, want_m: bool,
    srid: Option<u32>) -> bool {
    &&& m.srid == srid
    &&& m.points.len() < MAX_COUNT
    &&& points_wf(m.points, want_z, want_m, srid)
}

/// A polygon whose rings and points are well formed and countable.
pub open spec fn polygon_wf(m: PolygonModel, want_z: bool, want_m: bool,
    srid: Option<u32>) -> bool {
    &&& m.srid == srid
    &&& m.rings.len() < MAX_COUNT
    &&& forall|i: int| 0 <= i < m.rings.len() ==> (#[trigger] m.rings[i]).len() < MAX_COUNT
        && points_wf(m.rings[i], want_z, want_m, srid)
}

/// A multi-point whose points are well formed and countable.
pub open spec fn multipoint_wf(m: MultiPointModel, want_z: bool, want_m: bool,
    srid: Option<u32>) -> bool {
    &&& m.srid == srid
    &&& m.points.len() < MAX_COUNT
    &&& points_wf(m.points, want_z, want_m, srid)
}

/// A multi-line-string whose member lines are well formed and countable.
pub open spec fn multilinestring_wf(m: MultiLineStringModel, want_z: bool, want_m: bool,
    srid: Option<u32>) -> bool {
    &&& m.srid == srid
    &&& m.lines.len() < MAX_COUNT
    &&& forall|i: int| 0 <= i < m.lines.len()
        ==> linestring_wf(#[trigger] m.lines[i], want_z, want_m, srid)
}

/// A multi-polygon whose member polygons are well formed and countable.
pub open spec fn multipolygon_wf(m: MultiPolygonModel, want_z: bool, want_m: bool,
    srid: Option<u32>) -> bool {
    &&& m.srid == srid
    &&& m.polygons.len() < MAX_COUNT
    &&& forall|i: int| 0 <= i < m.polygons.len()
        ==> polygon_wf(#[trigger] m.polygons[i], want_z, want_m, srid)
}

/// Every geometry in the sequence is well formed.
pub open spec fn members_wf(s: Seq<GeometryModel>, want_z: bool, want_m: bool,
    srid: Option<u32>) -> bool
    decreases s,
{
    if s.len() == 0 {
        true
    } else {
        geometry_wf(s[0], want_z, want_m, srid) && members_wf(s.drop_first(), want_z, want_m, srid)
    }
}

/// A geometry whose every point has the expected shape, whose every level
/// carries the one SRID, and whose every count fits 32 bits.
pub open spec fn geometry_wf(g: GeometryModel, want_z: bool, want_m: bool,
    srid: Option<u32>) -> bool
    decreases g,
{
    match g {
        GeometryModel::Point(f) => point_wf(f, want_z, want_m, srid),
        GeometryModel::LineString(m) => linestring_wf(m, want_z, want_m, srid),
        GeometryModel::Polygon(m) => polygon_wf(m, want_z, want_m, srid),
        GeometryModel::MultiPoint(m) => multipoint_wf(m, want_z, want_m, srid),
        GeometryModel::MultiLineString(m) => multilinestring_wf(m, want_z, want_m, srid),
        GeometryModel::MultiPolygon(m) => multipolygon_wf(m, want_z, want_m, srid),
        GeometryModel::GeometryCollection(c) => c.srid == srid
            && c.geometries.len() < MAX_COUNT
            && members_wf(c.geometries, want_z, want_m, srid),
    }
}

/// A geometry the codec reproduces exactly: well formed against its own
/// SRID, and reporting the expected dimension flags whenever it holds a
/// point — the decoder reads every point by the top header's flags alone.
pub open spec fn round_trip_safe(g: GeometryModel, want_z: bool, want_m: bool) -> bool {
    &&& geometry_wf(g, want_z, want_m, geometry_srid(g))
    &&& (geometry_has_point(g) ==> geometry_dim(g) == dimension_bits(want_z, want_m))
}

/// The models of a sequence of points.
pub open spec fn points_view<P: PointT>(s: Seq<P>) -> Seq<PointFields> {
    Seq::new(s.len(), |i: int| s[i]@)
}

impl<P: PointT> View for LineString<P> {
    type V = LineStringModel;

    open spec fn view(&self) -> LineStringModel {
        LineStringModel { points: points_view(self.points@), srid: self.srid }
    }
}

/// The models of a sequence of rings.
pub open spec fn rings_view<P: PointT>(s: Seq<Vec<P>>) -> Seq<Seq<PointFields>> {
    Seq::new(s.len(), |i: int| points_view(s[i]@))
}

/// The models of a sequence of line strings.
pub open spec fn lines_view<P: PointT>(s: Seq<LineString<P>>) -> Seq<LineStringModel> {
    Seq::new(s.len(), |i: int| s[i]@)
}

/// The models of a sequence of polygons.
pub open spec fn polygons_view<P: PointT>(s: Seq<Polygon<P>>) -> Seq<PolygonModel> {
    Seq::new(s.len(), |i: int| s[i]@)
}

impl<P: PointT> View for Polygon<P> {
    type V = PolygonModel;

    open spec fn view(&self) -> PolygonModel {
        PolygonModel { rings: rings_view(self.rings@), srid: self.srid }
    }
}

impl<P: PointT> View for MultiPoint<P> {
    type V = MultiPointModel;

    open spec fn view(&self) -> MultiPointModel {
        MultiPointModel { points: points_view(self.points@), srid: self.srid }
    }
}

impl<P: PointT> View for MultiLineString<P> {
    type V = MultiLineStringModel;

    open spec fn view(&self) -> MultiLineStringModel {
        MultiLineStringModel { lines: lines_view(self.lines@), srid: self.srid }
    }
}

impl<P: PointT> View for MultiPolygon<P> {
    type V = MultiPolygonModel;

    open spec fn view(&self) -> MultiPolygonModel {
        MultiPolygonModel { polygons: polygons_view(self.polygons@), srid: self.srid }
    }
}

/// The model of one geometry container.
pub open spec fn container_view<P: PointT>(g: GeometryContainer<P>) -> GeometryModel
    decreases g,
{
    match g {
        GeometryContainer::Point(p) => GeometryModel::Point(p@),
        GeometryContainer::LineString(ls) => GeometryModel::LineString(ls@),
        GeometryContainer::Polygon(pg) => GeometryModel::Polygon(pg@),
        GeometryContainer::MultiPoint(mp) => GeometryModel::MultiPoint(mp@),
        GeometryContainer::MultiLineString(mls) => GeometryModel::MultiLineString(mls@),
        GeometryContainer::MultiPolygon(mpg) => GeometryModel::MultiPolygon(mpg@),
        GeometryContainer::GeometryCollection(c) => GeometryModel::GeometryCollection(
            GeometryCollectionModel { geometries: container_views(c.geometries@), srid: c.srid },
        ),
    }
}

/// The models of a sequence of geometry containers, in order.
pub open spec fn container_views<P: PointT>(s: Seq<GeometryContainer<P>>) -> Seq<GeometryModel>
    decreases s,
{
    if s.len() == 0 {
        Seq::empty()
    } else {
        seq![container_view(s[0])] + container_views(s.drop_first())
    }
}

impl<P: PointT> View for GeometryContainer<P> {
    type V = GeometryModel;

    open spec fn view(&self) -> GeometryModel {
        container_view(*self)
    }
}

impl<P: PointT> View for GeometryCollection<P> {
    type V = GeometryCollectionModel;

    open spec fn view(&self) -> GeometryCollectionModel {
        GeometryCollectionModel { geometries: container_views(self.geometries@), srid: self.srid }
    }
}

/// `container_views` maps the sequence pointwise: it keeps the length and
/// models each member in place.
pub proof fn lemma_container_views_index<P: PointT>(s: Seq<GeometryContainer<P>>)
    ensures
        container_views(s).len() == s.len(),
        forall|i: int| 0 <= i < s.len()
            ==> container_views(s)[i] == container_view(#[trigger] s[i]),
    decreases s.len(),
{
    if s.len() > 0 {
        lemma_container_views_index(s.drop_first());
        assert forall|i: int| 0 <= i < s.len() implies container_views(s)[i] == container_view(
            #[trigger] s[i],
        ) by {
            if i > 0 {
                assert(s.drop_first()[i - 1] == s[i]);
                assert(container_views(s)[i] == container_views(s.drop_first())[i - 1]);
            }
        }
    }
}

/// Modelling commutes with appending one member.
pub proof fn lemma_container_views_push<P: PointT>(s: Seq<GeometryContainer<P>>,
    g: GeometryContainer<P>)
    ensures
        container_views(s.push(g)) == container_views(s).push(container_view(g)),
{
    lemma_container_views_index(s);
    lemma_container_views_index(s.push(g));
    let lhs = container_views(s.push(g));
    let rhs = container_views(s).push(container_view(g));
    assert forall|i: int| 0 <= i < lhs.len() implies lhs[i] == rhs[i] by {
        if i < s.len() {
            assert(s.push(g)[i] == s[i]);
        } else {
            assert(s.push(g)[i] == g);
        }
    }
    assert(lhs =~= rhs);
}

/// Modelling a ring sequence commutes with appending one ring.
pub proof fn lemma_rings_view_push<P: PointT>(s: Seq<Vec<P>>, v: Vec<P>)
    ensures
        rings_view(s.push(v)) == rings_view(s).push(points_view(v@)),
{
    let lhs = rings_view(s.push(v));
    let rhs = rings_view(s).push(points_view(v@));
    assert forall|i: int| 0 <= i < lhs.len() implies lhs[i] == rhs[i] by {
        if i < s.len() {
            assert(s.push(v)[i] == s[i]);
        } else {
            assert(s.push(v)[i] == v);
        }
    }
    assert(lhs =~= rhs);
}

/// Modelling a line sequence commutes with appending one line.
pub proof fn lemma_lines_view_push<P: PointT>(s: Seq<LineString<P>>, v: LineString<P>)
    ensures
        lines_view(s.push(v)) == lines_view(s).push(v@),
{
    let lhs = lines_view(s.push(v));
    let rhs = lines_view(s).push(v@);
    assert forall|i: int| 0 <= i < lhs.len() implies lhs[i] == rhs[i] by {
        if i < s.len() {
            assert(s.push(v)[i] == s[i]);
        } else {
            assert(s.push(v)[i] == v);
        }
    }
    assert(lhs =~= rhs);
}

/// Modelling a polygon sequence commutes with appending one polygon.
pub proof fn lemma_polygons_view_push<P: PointT>(s: Seq<Polygon<P>>, v: Polygon<P>)
    ensures
        polygons_view(s.push(v)) == polygons_view(s).push(v@),
{
    let lhs = polygons_view(s.push(v));
    let rhs = polygons_view(s).push(v@);
    assert forall|i: int| 0 <= i < lhs.len() implies lhs[i] == rhs[i] by {
        if i < s.len() {
            assert(s.push(v)[i] == s[i]);
        } else {
            assert(s.push(v)[i] == v);
        }
    }
    assert(lhs =~= rhs);
}

/// Modelling a point sequence commutes with appending one point.
pub proof fn lemma_points_view_push<P: PointT>(s: Seq<P>, p: P)
    ensures
        points_view(s.push(p)) == points_view(s).push(p@),
{
    let lhs = points_view(s.push(p));
    let rhs = points_view(s).push(p@);
    assert forall|i: int| 0 <= i < lhs.len() implies lhs[i] == rhs[i] by {
        if i < s.len() {
            assert(s.push(p)[i] == s[i]);
        } else {
            assert(s.push(p)[i] == p);
        }
    }
    assert(lhs =~= rhs);
}

/// The lines of a multi-line-string once an append has made sure one line
/// exists: a first, empty line carrying the collection's SRID is created
/// when none does.
pub open spec fn multilinestring_base(lines: Seq<LineStringModel>, srid: Option<u32>) -> Seq<
    LineStringModel,
> {
    if lines.len() == 0 {
        lines.push(LineStringModel { points: Seq::empty(), srid })
    } else {
        lines
    }
}

/// The polygons of a multi-polygon once an append has made sure one polygon
/// exists: a first, empty polygon carrying the collection's SRID is created
/// when none does.
pub open spec fn multipolygon_base(polygons: Seq<PolygonModel>, srid: Option<u32>) -> Seq<
    PolygonModel,
> {
    if polygons.len() == 0 {
        polygons.push(PolygonModel { rings: Seq::empty(), srid })
    } else {
        polygons
    }
}

/// The rings after appending one point to a polygon's last ring; a first
/// ring is created when none exists.
pub open spec fn polygon_append(rings: Seq<Seq<PointFields>>, f: PointFields) -> Seq<
    Seq<PointFields>,
> {
    let base = if rings.len() == 0 {
        rings.push(Seq::empty())
    } else {
        rings
    };
    base.update(base.len() - 1, base.last().push(f))
}

/// The rings after appending a batch of points to the last ring; appending
/// nothing leaves the rings as they stand.
pub open spec fn polygon_append_all(rings: Seq<Seq<PointFields>>, pts: Seq<PointFields>) -> Seq<
    Seq<PointFields>,
> {
    if pts.len() == 0 {
        rings
    } else {
        let base = if rings.len() == 0 {
            rings.push(Seq::empty())
        } else {
            rings
        };
        base.update(base.len() - 1, base.last() + pts)
    }
}

/// Appending a batch and then one point is appending the batch grown by that
/// point.
pub proof fn lemma_polygon_append_step(rings: Seq<Seq<PointFields>>, pts: Seq<PointFields>,
    f: PointFields)
    ensures
        polygon_append(polygon_append_all(rings, pts), f) == polygon_append_all(
            rings,
            pts.push(f),
        ),
{
    let base = if rings.len() == 0 {
        rings.push(Seq::empty())
    } else {
        rings
    };
    let k = base.len() - 1;
    if pts.len() == 0 {
        assert(pts.push(f) =~= seq![f]);
        assert(base.last().push(f) =~= base.last() + pts.push(f));
    } else {
        let mid = base.update(k, base.last() + pts);
        assert(mid.len() == base.len());
        assert(mid.last() == base.last() + pts);
        assert((base.last() + pts).push(f) =~= base.last() + pts.push(f));
        assert(mid.update(k, base.last() + pts.push(f)) =~= base.update(
            k,
            base.last() + pts.push(f),
        ));
    }
}

/// The index of the first point whose SRID differs from `srid`, or the
/// length when every point agrees.
pub open spec fn first_srid_mismatch(s: Seq<PointFields>, srid: Option<u32>) -> int
    decreases s.len(),
{
    if s.len() == 0 {
        0
    } else if s[0].srid != srid {
        0
    } else {
        1 + first_srid_mismatch(s.drop_first(), srid)
    }
}

/// `first_srid_mismatch` names the first disagreeing index: everything
/// before it agrees, and it disagrees unless it is the length.
pub proof fn lemma_first_srid_mismatch(s: Seq<PointFields>, srid: Option<u32>)
    ensures
        0 <= first_srid_mismatch(s, srid) <= s.len(),
        forall|k: int| 0 <= k < first_srid_mismatch(s, srid) ==> (#[trigger] s[k]).srid == srid,
        first_srid_mismatch(s, srid) < s.len() ==> s[first_srid_mismatch(s, srid)].srid != srid,
    decreases s.len(),
{
    if s.len() > 0 && s[0].srid == srid {
        lemma_first_srid_mismatch(s.drop_first(), srid);
        let j = first_srid_mismatch(s.drop_first(), srid);
        assert(forall|k: int| 0 <= k < j ==> (#[trigger] s.drop_first()[k]).srid == srid);
        assert forall|k: int| 0 <= k < first_srid_mismatch(s, srid) implies (
        #[trigger] s[k]).srid == srid by {
            if k > 0 {
                assert(s.drop_first()[k - 1] == s[k]);
            }
        }
        if j < s.drop_first().len() {
            assert(s.drop_first()[j] == s[j + 1]);
        }
    }
}

/// The reason a point constructor gives when the supplied optional
/// ordinates do not fit the variant's shape.  `want_z`/`want_m` name the
/// variant, `given_z`/`given_m` what was supplied.
pub open spec fn shape_reason(want_z: bool, want_m: bool, given_z: bool, given_m: bool)
    -> Seq<char> {
    if !want_z && !want_m {
        "unexpectedly defined Z or M for Point"@
    } else if want_z && !want_m {
        if !given_z {
            "Z is not defined, but mandatory for PointZ"@
        } else {
            "unexpectedly defined M for PointZ"@
        }
    } else if !want_z && want_m {
        if !given_m {
            "M is not defined, but mandatory for PointM"@
        } else {
            "unexpectedly defined Z for PointM"@
        }
    } else {
        if !given_z {
            "Z is not defined, but mandatory for PointZM"@
        } else {
            "M is not defined, but mandatory for PointZM"@
        }
    }
}

} // verus!
