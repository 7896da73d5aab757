use vstd::prelude::*;

use crate::coordinates::{grids_view, lists_view};
use crate::position::Position;

verus! {

/// Marks the types that are one of the seven geometry shapes.
pub trait Geometry {}

/// One position.
#[derive(Debug, Clone, Copy, PartialEq)]
pub struct Point<C> {
    pub coordinates: Position<C>,
}

/// A set of positions.
#[derive(Debug)]
pub struct MultiPoint<C> {
    pub coordinates: Vec<Position<C>>,
}

/// A path through positions, in order.
#[derive(Debug)]
pub struct LineString<C> {
    pub coordinates: Vec<Position<C>>,
}

/// A set of paths.
#[derive(Debug)]
pub struct MultiLineString<C> {
    pub coordinates: Vec<Vec<Position<C>>>,
}

/// An area given by its rings.
#[derive(Debug)]
pub struct Polygon<C> {
    pub coordinates: Vec<Vec<Position<C>>>,
}

/// A set of areas.
#[derive(Debug)]
pub struct MultiPolygon<C> {
    pub coordinates: Vec<Vec<Vec<Position<C>>>>,
}

/// A sequence of geometries of any shape, collections included.
#[derive(Debug)]
pub struct GeometryCollection<C> {
    pub geometries: Vec<AnyGeometry<C>>,
}

/// Any one of the seven geometry shapes.
#[derive(Debug)]
pub enum AnyGeometry<C> {
    Point(Point<C>),
    MultiPoint(MultiPoint<C>),
    LineString(LineString<C>),
    MultiLineString(MultiLineString<C>),
    Polygon(Polygon<C>),
    MultiPolygon(MultiPolygon<C>),
    GeometryCollection(GeometryCollection<C>),
}

impl<C> Geometry for Point<C> {}

impl<C> Geometry for MultiPoint<C> {}

impl<C> Geometry for LineString<C> {}

impl<C> Geometry for MultiLineString<C> {}

impl<C> Geometry for Polygon<C> {}

impl<C> Geometry for MultiPolygon<C> {}

impl<C> Geometry for GeometryCollection<C> {}

impl<C> Geometry for AnyGeometry<C> {}

impl<C: Copy> From<Position<C>> for Point<C> {
    /// The point at `position`.
    fn from(position: Position<C>) -> (r: Point<C>) {
        Point { coordinates: position }
    }
}

impl<C: Copy> vstd::std_specs::convert::FromSpecImpl<Position<C>> for Point<C> {
    open spec fn obeys_from_spec() -> bool {
        true
    }

    open spec fn from_spec(position: Position<C>) -> Point<C> {
        Point { coordinates: position }
    }
}

/// The mathematical value of a geometry: its shape and its positions, with
/// every list seen as a sequence.
pub enum Shape<C> {
    Point(Position<C>),
    MultiPoint(Seq<Position<C>>),
    LineString(Seq<Position<C>>),
    MultiLineString(Seq<Seq<Position<C>>>),
    Polygon(Seq<Seq<Position<C>>>),
    MultiPolygon(Seq<Seq<Seq<Position<C>>>>),
    GeometryCollection(Seq<Shape<C>>),
}

/// The shape of a geometry.
pub open spec fn shape_of<C>(g: AnyGeometry<C>) -> Shape<C>
    decreases g, 0nat,
{
    match g {
        AnyGeometry::Point(p) => Shape::Point(p.coordinates),
        AnyGeometry::MultiPoint(m) => Shape::MultiPoint(m.coordinates@),
        AnyGeometry::LineString(l) => Shape::LineString(l.coordinates@),
        AnyGeometry::MultiLineString(m) => Shape::MultiLineString(lists_view(m.coordinates@)),
        AnyGeometry::Polygon(p) => Shape::Polygon(lists_view(p.coordinates@)),
        AnyGeometry::MultiPolygon(m) => Shape::MultiPolygon(grids_view(m.coordinates@)),
        AnyGeometry::GeometryCollection(c) => Shape::GeometryCollection(
            shapes_of(c.geometries@, c.geometries@.len() as nat),
        ),
    }
}

/// The shapes of the first `n` geometries of `s`, in order.
pub open spec fn shapes_of<C>(s: Seq<AnyGeometry<C>>, n: nat) -> Seq<Shape<C>>
    decreases s, n,
{
    if n == 0 || n > s.len() {
        Seq::empty()
    } else {
        shapes_of(s, (n - 1) as nat).push(shape_of(s[n - 1]))
    }
}

} // verus!
