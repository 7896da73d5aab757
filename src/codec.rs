use vstd::prelude::*;

use crate::coordinates::{
    decode_position, decode_position_grids, decode_position_lists, decode_positions,
    encode_position, encode_position_grids, encode_position_lists, encode_positions, grids_view,
    lists_view, position_grids_of, position_lists_of, position_of, positions_of, Coordinates,
};
use crate::error::GeoError;
use crate::shapes::{
    shape_of, shapes_of, AnyGeometry, GeometryCollection, LineString, MultiLineString,
    MultiPoint, MultiPolygon, Point, Polygon, Shape,
};

verus! {

/// The seven geometry shapes, as named by the `type` tag.
#[derive(Debug, Clone, Copy, PartialEq, Eq, Structural)]
pub enum GeometryKind {
    Point,
    MultiPoint,
    LineString,
    MultiLineString,
    Polygon,
    MultiPolygon,
    GeometryCollection,
}

impl GeometryKind {
    /// The tag that names this shape.
    pub open spec fn tag_text(self) -> Seq<char> {
        match self {
            GeometryKind::Point => "Point"@,
            GeometryKind::MultiPoint => "MultiPoint"@,
            GeometryKind::LineString => "LineString"@,
            GeometryKind::MultiLineString => "MultiLineString"@,
            GeometryKind::Polygon => "Polygon"@,
            GeometryKind::MultiPolygon => "MultiPolygon"@,
            GeometryKind::GeometryCollection => "GeometryCollection"@,
        }
    }

    /// The shape that `tag` names exactly, if any.
    pub open spec fn named(tag: Seq<char>) -> Option<GeometryKind> {
        if tag == "Point"@ {
            Some(GeometryKind::Point)
        } else if tag == "MultiPoint"@ {
            Some(GeometryKind::MultiPoint)
        } else if tag == "LineString"@ {
            Some(GeometryKind::LineString)
        } else if tag == "MultiLineString"@ {
            Some(GeometryKind::MultiLineString)
        } else if tag == "Polygon"@ {
            Some(GeometryKind::Polygon)
        } else if tag == "MultiPolygon"@ {
            Some(GeometryKind::MultiPolygon)
        } else if tag == "GeometryCollection"@ {
            Some(GeometryKind::GeometryCollection)
        } else {
            None
        }
    }

    /// The tag that names this shape.
    pub fn tag(&self) -> (r: String)
        ensures
            r@ == self.tag_text(),
    {
        match self {
            GeometryKind::Point => "Point".to_owned(),
            GeometryKind::MultiPoint => "MultiPoint".to_owned(),
            GeometryKind::LineString => "LineString".to_owned(),
            GeometryKind::MultiLineString => "MultiLineString".to_owned(),
            GeometryKind::Polygon => "Polygon".to_owned(),
            GeometryKind::MultiPolygon => "MultiPolygon".to_owned(),
            GeometryKind::GeometryCollection => "GeometryCollection".to_owned(),
        }
    }

    /// The shape that `tag` names; tags are matched exactly.
    pub fn from_tag(tag: &String) -> (r: Option<GeometryKind>)
        ensures
            r == Self::named(tag@),
    {
        if *tag == GeometryKind::Point.tag() {
            Some(GeometryKind::Point)
        } else if *tag == GeometryKind::MultiPoint.tag() {
            Some(GeometryKind::MultiPoint)
        } else if *tag == GeometryKind::LineString.tag() {
            Some(GeometryKind::LineString)
        } else if *tag == GeometryKind::MultiLineString.tag() {
            Some(GeometryKind::MultiLineString)
        } else if *tag == GeometryKind::Polygon.tag() {
            Some(GeometryKind::Polygon)
        } else if *tag == GeometryKind::MultiPolygon.tag() {
            Some(GeometryKind::MultiPolygon)
        } else if *tag == GeometryKind::GeometryCollection.tag() {
            Some(GeometryKind::GeometryCollection)
        } else {
            None
        }
    }
}

/// The kind of a geometry.
pub open spec fn kind_of<C>(g: AnyGeometry<C>) -> GeometryKind {
    match g {
        AnyGeometry::Point(_) => GeometryKind::Point,
        AnyGeometry::MultiPoint(_) => GeometryKind::MultiPoint,
        AnyGeometry::LineString(_) => GeometryKind::LineString,
        AnyGeometry::MultiLineString(_) => GeometryKind::MultiLineString,
        AnyGeometry::Polygon(_) => GeometryKind::Polygon,
        AnyGeometry::MultiPolygon(_) => GeometryKind::MultiPolygon,
        AnyGeometry::GeometryCollection(_) => GeometryKind::GeometryCollection,
    }
}

/// Each shape's tag names that shape and no other.
pub proof fn lemma_tag_names_kind(k: GeometryKind)
    ensures
        GeometryKind::named(k.tag_text()) == Some(k),
{
    reveal_strlit("Point");
    reveal_strlit("MultiPoint");
    reveal_strlit("LineString");
    reveal_strlit("MultiLineString");
    reveal_strlit("Polygon");
    reveal_strlit("MultiPolygon");
    reveal_strlit("GeometryCollection");
    assert("Point"@.len() == 5);
    assert("MultiPoint"@.len() == 10);
    assert("LineString"@.len() == 10);
    assert("MultiLineString"@.len() == 15);
    assert("Polygon"@.len() == 7);
    assert("MultiPolygon"@.len() == 12);
    assert("GeometryCollection"@.len() == 18);
    assert("MultiPoint"@[0] != "LineString"@[0]);
}

/// A geometry in its external object form: the `type` tag, and the
/// `coordinates` member or, for a collection, the `geometries` member.
#[derive(Debug)]
pub struct RawGeometry<C> {
    pub tag: String,
    pub coordinates: Option<Coordinates<C>>,
    pub geometries: Option<Vec<RawGeometry<C>>>,
}

/// What the coordinates of a geometry of kind `k` decode to.
pub open spec fn shape_from_coordinates<C: Copy>(k: GeometryKind, c: Coordinates<C>) -> Result<
    Shape<C>,
    GeoError,
> {
    match k {
        GeometryKind::Point => match position_of(c) {
            Ok(p) => Ok(Shape::Point(p)),
            Err(e) => Err(e),
        },
        GeometryKind::MultiPoint => match positions_of(c) {
            Ok(p) => Ok(Shape::MultiPoint(p)),
            Err(e) => Err(e),
        },
        GeometryKind::LineString => match positions_of(c) {
            Ok(p) => Ok(Shape::LineString(p)),
            Err(e) => Err(e),
        },
        GeometryKind::MultiLineString => match position_lists_of(c) {
            Ok(p) => Ok(Shape::MultiLineString(p)),
            Err(e) => Err(e),
        },
        GeometryKind::Polygon => match position_lists_of(c) {
            Ok(p) => Ok(Shape::Polygon(p)),
            Err(e) => Err(e),
        },
        GeometryKind::MultiPolygon => match position_grids_of(c) {
            Ok(p) => Ok(Shape::MultiPolygon(p)),
            Err(e) => Err(e),
        },
        GeometryKind::GeometryCollection => Err(GeoError::MalformedStructure),
    }
}

/// What a geometry in object form decodes to: the tag is read first and
/// selects the decoder; an unknown tag is reported with the tag itself.
pub open spec fn decoded_shape<C: Copy>(raw: RawGeometry<C>) -> Result<Shape<C>, GeoError>
    decreases raw, 0nat,
{
    match GeometryKind::named(raw.tag@) {
        None => Err(GeoError::UnknownGeometryType { tag: raw.tag }),
        Some(GeometryKind::GeometryCollection) => match raw.geometries {
            None => Err(GeoError::MalformedStructure),
            Some(members) => match decoded_members(members@, members@.len() as nat) {
                Ok(s) => Ok(Shape::GeometryCollection(s)),
                Err(e) => Err(e),
            },
        },
        Some(k) => match raw.coordinates {
            None => Err(GeoError::MalformedStructure),
            Some(c) => shape_from_coordinates(k, c),
        },
    }
}

/// What the first `n` members of a collection decode to, in order, stopping
/// at the first member that fails.
pub open spec fn decoded_members<C: Copy>(s: Seq<RawGeometry<C>>, n: nat) -> Result<
    Seq<Shape<C>>,
    GeoError,
>
    decreases s, n,
{
    if n == 0 || n > s.len() {
        Ok(Seq::empty())
    } else {
        match decoded_members(s, (n - 1) as nat) {
            Err(e) => Err(e),
            Ok(done) => match decoded_shape(s[n - 1]) {
                Err(e) => Err(e),
                Ok(x) => Ok(done.push(x)),
            },
        }
    }
}

proof fn lemma_members_prefix_fails<C: Copy>(s: Seq<RawGeometry<C>>, k: nat, n: nat)
    requires
        k <= n <= s.len(),
        decoded_members(s, k) is Err,
    ensures
        decoded_members(s, n) == decoded_members(s, k),
    decreases n - k,
{
    if k < n {
        lemma_members_prefix_fails(s, k, (n - 1) as nat);
    }
}

proof fn lemma_members_push<C: Copy>(s: Seq<RawGeometry<C>>, x: RawGeometry<C>, n: nat)
    requires
        n <= s.len(),
    ensures
        decoded_members(s.push(x), n) == decoded_members(s, n),
    decreases n,
{
    if n > 0 {
        lemma_members_push(s, x, (n - 1) as nat);
        assert(s.push(x)[n - 1] == s[n - 1]);
    }
}

proof fn lemma_shapes_push<C>(s: Seq<AnyGeometry<C>>, x: AnyGeometry<C>, n: nat)
    requires
        n <= s.len(),
    ensures
        shapes_of(s.push(x), n) == shapes_of(s, n),
    decreases n,
{
    if n > 0 {
        lemma_shapes_push(s, x, (n - 1) as nat);
        assert(s.push(x)[n - 1] == s[n - 1]);
    }
}

/// Decodes the coordinates of a geometry of kind `k`.
fn decode_coordinates<C: Copy>(k: GeometryKind, c: &Coordinates<C>) -> (r: Result<
    AnyGeometry<C>,
    GeoError,
>)
    ensures
        match r {
            Ok(g) => shape_from_coordinates(k, *c) == Ok::<Shape<C>, GeoError>(shape_of(g)),
            Err(e) => shape_from_coordinates(k, *c) == Err::<Shape<C>, GeoError>(e),
        },
{
    match k {
        GeometryKind::Point => match decode_position(c) {
            Ok(p) => Ok(AnyGeometry::Point(Point { coordinates: p })),
            Err(e) => Err(e),
        },
        GeometryKind::MultiPoint => match decode_positions(c) {
            Ok(p) => Ok(AnyGeometry::MultiPoint(MultiPoint { coordinates: p })),
            Err(e) => Err(e),
        },
        GeometryKind::LineString => match decode_positions(c) {
            Ok(p) => Ok(AnyGeometry::LineString(LineString { coordinates: p })),
            Err(e) => Err(e),
        },
        GeometryKind::MultiLineString => match decode_position_lists(c) {
            Ok(p) => Ok(AnyGeometry::MultiLineString(MultiLineString { coordinates: p })),
            Err(e) => Err(e),
        },
        GeometryKind::Polygon => match decode_position_lists(c) {
            Ok(p) => Ok(AnyGeometry::Polygon(Polygon { coordinates: p })),
            Err(e) => Err(e),
        },
        GeometryKind::MultiPolygon => match decode_position_grids(c) {
            Ok(p) => Ok(AnyGeometry::MultiPolygon(MultiPolygon { coordinates: p })),
            Err(e) => Err(e),
        },
        GeometryKind::GeometryCollection => Err(GeoError::MalformedStructure),
    }
}

/// Decodes a geometry from its object form. Nothing partial is returned: a
/// failure anywhere, in a nested collection too, fails the whole decode with
/// the first error met.
pub fn decode_geometry<C: Copy>(raw: &RawGeometry<C>) -> (r: Result<AnyGeometry<C>, GeoError>)
    ensures
        match r {
            Ok(g) => decoded_shape(*raw) == Ok::<Shape<C>, GeoError>(shape_of(g)),
            Err(e) => decoded_shape(*raw) == Err::<Shape<C>, GeoError>(e),
        },
    decreases raw,
{
    match GeometryKind::from_tag(&raw.tag) {
        None => Err(GeoError::UnknownGeometryType { tag: raw.tag.clone() }),
        Some(GeometryKind::GeometryCollection) => match &raw.geometries {
            None => Err(GeoError::MalformedStructure),
            Some(members) => {
                let mut out: Vec<AnyGeometry<C>> = Vec::new();
                let mut i: usize = 0;
                while i < members.len()
                    invariant
                        raw.geometries == Some(*members),
                        GeometryKind::named(raw.tag@) == Some(GeometryKind::GeometryCollection),
                        0 <= i <= members@.len(),
                        out@.len() == i,
                        decoded_members(members@, i as nat) == Ok::<Seq<Shape<C>>, GeoError>(
                            shapes_of(out@, i as nat),
                        ),
                    decreases members@.len() - i,
                {
                    match decode_geometry(&members[i]) {
                        Ok(g) => {
                            let ghost before = out@;
                            out.push(g);
                            proof {
                                lemma_shapes_push(before, g, i as nat);
                                assert(out@ == before.push(g));
                            }
                        },
                        Err(e) => {
                            proof {
                                lemma_members_prefix_fails(
                                    members@,
                                    (i + 1) as nat,
                                    members@.len() as nat,
                                );
                            }
                            return Err(e);
                        },
                    }
                    i += 1;
                }
                Ok(AnyGeometry::GeometryCollection(GeometryCollection { geometries: out }))
            },
        },
        Some(k) => match &raw.coordinates {
            None => Err(GeoError::MalformedStructure),
            Some(c) => decode_coordinates(k, c),
        },
    }
}

/// A geometry in object form with coordinates and no `geometries` member.
fn shape_object<C: Copy>(k: GeometryKind, c: Coordinates<C>) -> (r: RawGeometry<C>)
    ensures
        r.tag@ == k.tag_text(),
        r.coordinates == Some(c),
        r.geometries is None,
{
    RawGeometry { tag: k.tag(), coordinates: Some(c), geometries: None }
}

/// Encodes a geometry in object form: its tag, and its coordinates or, for
/// a collection, its members. Decoding the result gives back the same
/// geometry.
pub fn encode_geometry<C: Copy>(g: &AnyGeometry<C>) -> (r: RawGeometry<C>)
    ensures
        r.tag@ == kind_of(*g).tag_text(),
        r.coordinates is Some <==> !(*g is GeometryCollection),
        r.geometries is Some <==> *g is GeometryCollection,
        decoded_shape(r) == Ok::<Shape<C>, GeoError>(shape_of(*g)),
    decreases g,
{
    match g {
        AnyGeometry::Point(p) => {
            proof {
                lemma_tag_names_kind(GeometryKind::Point);
            }
            shape_object(GeometryKind::Point, encode_position(&p.coordinates))
        },
        AnyGeometry::MultiPoint(m) => {
            proof {
                lemma_tag_names_kind(GeometryKind::MultiPoint);
            }
            shape_object(GeometryKind::MultiPoint, encode_positions(&m.coordinates))
        },
        AnyGeometry::LineString(l) => {
            proof {
                lemma_tag_names_kind(GeometryKind::LineString);
            }
            shape_object(GeometryKind::LineString, encode_positions(&l.coordinates))
        },
        AnyGeometry::MultiLineString(m) => {
            proof {
                lemma_tag_names_kind(GeometryKind::MultiLineString);
            }
            shape_object(GeometryKind::MultiLineString, encode_position_lists(&m.coordinates))
        },
        AnyGeometry::Polygon(p) => {
            proof {
                lemma_tag_names_kind(GeometryKind::Polygon);
            }
            shape_object(GeometryKind::Polygon, encode_position_lists(&p.coordinates))
        },
        AnyGeometry::MultiPolygon(m) => {
            proof {
                lemma_tag_names_kind(GeometryKind::MultiPolygon);
            }
            shape_object(GeometryKind::MultiPolygon, encode_position_grids(&m.coordinates))
        },
        AnyGeometry::GeometryCollection(c) => {
            proof {
                lemma_tag_names_kind(GeometryKind::GeometryCollection);
            }
            let mut members: Vec<RawGeometry<C>> = Vec::new();
            let mut i: usize = 0;
            while i < c.geometries.len()
                invariant
                    *g == AnyGeometry::GeometryCollection(*c),
                    0 <= i <= c.geometries@.len(),
                    members@.len() == i,
                    decoded_members(members@, i as nat) == Ok::<Seq<Shape<C>>, GeoError>(
                        shapes_of(c.geometries@, i as nat),
                    ),
                decreases c.geometries@.len() - i,
            {
                proof {
                    broadcast use vstd::std_specs::vec::axiom_vec_index_decreases;

                    assert(*g is GeometryCollection);
                    assert(g->GeometryCollection_0 == *c);
                }
                let m = encode_geometry(&c.geometries[i]);
                let ghost before = members@;
                members.push(m);
                proof {
                    lemma_members_push(before, m, i as nat);
                    assert(members@ == before.push(m));
                }
                i += 1;
            }
            RawGeometry {
                tag: GeometryKind::GeometryCollection.tag(),
                coordinates: None,
                geometries: Some(members),
            }
        },
    }
}

/// Decoding a collection decodes each member with the decoder that its own
/// tag selects: the collection decodes exactly when every member does, and
/// then holds the members' shapes in the members' order.
pub proof fn lemma_collection_decodes_members_in_order<C: Copy>(
    raw: RawGeometry<C>,
    members: Vec<RawGeometry<C>>,
)
    requires
        GeometryKind::named(raw.tag@) == Some(GeometryKind::GeometryCollection),
        raw.geometries == Some(members),
    ensures
        decoded_shape(raw) is Ok <==> (forall|i: int|
            0 <= i < members@.len() ==> #[trigger] decoded_shape(members@[i]) is Ok),
        decoded_shape(raw) is Ok ==> {
            &&& decoded_shape(raw)->Ok_0 is GeometryCollection
            &&& decoded_shape(raw)->Ok_0->GeometryCollection_0.len() == members@.len()
            &&& forall|i: int|
                0 <= i < members@.len() ==> decoded_shape(members@[i]) == Ok::<Shape<C>, GeoError>(
                    #[trigger] decoded_shape(raw)->Ok_0->GeometryCollection_0[i],
                )
        },
{
    lemma_members_in_order(members@, members@.len() as nat);
}

proof fn lemma_members_in_order<C: Copy>(s: Seq<RawGeometry<C>>, n: nat)
    requires
        n <= s.len(),
    ensures
        decoded_members(s, n) is Ok <==> (forall|i: int|
            0 <= i < n ==> #[trigger] decoded_shape(s[i]) is Ok),
        decoded_members(s, n) is Ok ==> {
            &&& decoded_members(s, n)->Ok_0.len() == n
            &&& forall|i: int|
                0 <= i < n ==> decoded_shape(s[i]) == Ok::<Shape<C>, GeoError>(
                    #[trigger] decoded_members(s, n)->Ok_0[i],
                )
        },
    decreases n,
{
    if n > 0 {
        lemma_members_in_order(s, (n - 1) as nat);
        if decoded_members(s, n) is Ok {
            assert(decoded_shape(s[n - 1]) is Ok);
        }
        if forall|i: int| 0 <= i < n ==> #[trigger] decoded_shape(s[i]) is Ok {
            assert(decoded_shape(s[n - 1]) is Ok);
        }
    }
}

} // verus!
