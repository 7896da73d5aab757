use loam::codec::{decode_geometry, encode_geometry, GeometryKind, RawGeometry};
use loam::coordinates::{
    decode_position_grids, decode_position_lists, decode_positions, encode_position_grids,
    encode_position_lists, encode_positions, Coordinates,
};
use loam::error::GeoError;
use loam::position::Position;
use loam::shapes::{AnyGeometry, GeometryCollection, LineString, Point, Polygon};
use serde_json::Value;

fn coordinates_to_json(c: &Coordinates<f64>) -> Value {
    match c {
        Coordinates::Number(x) => Value::from(*x),
        Coordinates::Array(items) => Value::Array(items.iter().map(coordinates_to_json).collect()),
    }
}

fn coordinates_from_json(v: &Value) -> Coordinates<f64> {
    match v {
        Value::Array(items) => Coordinates::Array(items.iter().map(coordinates_from_json).collect()),
        other => Coordinates::Number(other.as_f64().unwrap()),
    }
}

fn raw_to_json(raw: &RawGeometry<f64>) -> Value {
    let mut object = serde_json::Map::new();
    object.insert("type".to_string(), Value::String(raw.tag.clone()));
    if let Some(c) = &raw.coordinates {
        object.insert("coordinates".to_string(), coordinates_to_json(c));
    }
    if let Some(members) = &raw.geometries {
        object.insert(
            "geometries".to_string(),
            Value::Array(members.iter().map(raw_to_json).collect()),
        );
    }
    Value::Object(object)
}

fn raw_from_json(v: &Value) -> RawGeometry<f64> {
    let object = v.as_object().unwrap();
    RawGeometry {
        tag: object["type"].as_str().unwrap().to_string(),
        coordinates: object.get("coordinates").map(coordinates_from_json),
        geometries: object
            .get("geometries")
            .map(|g| g.as_array().unwrap().iter().map(raw_from_json).collect()),
    }
}

fn to_json_text(g: &AnyGeometry<f64>) -> String {
    serde_json::to_string(&raw_to_json(&encode_geometry(g))).unwrap()
}

fn from_json_text(json: &str) -> Result<AnyGeometry<f64>, GeoError> {
    let value: Value = serde_json::from_str(json).unwrap();
    decode_geometry(&raw_from_json(&value))
}

fn number(x: f64) -> Coordinates<f64> {
    Coordinates::Number(x)
}

fn pair(a: f64, b: f64) -> Coordinates<f64> {
    Coordinates::Array(vec![number(a), number(b)])
}

#[test]
fn serialize_a_point() {
    let point: Point<f64> = Position::from((1.0, 2.0)).into();
    let serialized = to_json_text(&AnyGeometry::Point(point));
    assert_eq!(serialized, r#"{"type":"Point","coordinates":[1.0,2.0]}"#);
}

#[test]
fn deserialize_a_point() {
    let json = r#"{"type":"Point","coordinates":[1.0,2.0,3.0]}"#;
    let point = match from_json_text(json).unwrap() {
        AnyGeometry::Point(p) => p,
        other => panic!("expected a point, got {:?}", other),
    };
    let position: Position<f64> = (1.0, 2.0, 3.0).into();
    assert_eq!(point.coordinates, position);
}

#[test]
fn point_round_trip_through_text() {
    let point: Point<f64> = Position::from((1.0, 2.0)).into();
    let text = to_json_text(&AnyGeometry::Point(point));
    match from_json_text(&text).unwrap() {
        AnyGeometry::Point(back) => assert_eq!(back, point),
        other => panic!("expected a point, got {:?}", other),
    }
}

#[test]
fn collection_dispatches_each_member_by_tag_in_order() {
    let json = r#"{"type":"GeometryCollection","geometries":[
        {"type":"Point","coordinates":[1.0,2.0]},
        {"type":"LineString","coordinates":[[3.0,4.0],[5.0,6.0,7.0]]}
    ]}"#;
    let members = match from_json_text(json).unwrap() {
        AnyGeometry::GeometryCollection(c) => c.geometries,
        other => panic!("expected a collection, got {:?}", other),
    };
    assert_eq!(members.len(), 2);
    match &members[0] {
        AnyGeometry::Point(p) => assert_eq!(p.coordinates, Position::from((1.0, 2.0))),
        other => panic!("expected a point first, got {:?}", other),
    }
    match &members[1] {
        AnyGeometry::LineString(l) => assert_eq!(
            l.coordinates,
            vec![Position::from((3.0, 4.0)), Position::from((5.0, 6.0, 7.0))]
        ),
        other => panic!("expected a line string second, got {:?}", other),
    }
}

#[test]
fn unknown_tag_is_reported_with_the_tag() {
    let json = r#"{"type":"Circle","coordinates":[1.0,2.0]}"#;
    assert_eq!(
        from_json_text(json).unwrap_err(),
        GeoError::UnknownGeometryType { tag: "Circle".to_string() }
    );
    let lower = r#"{"type":"point","coordinates":[1.0,2.0]}"#;
    assert_eq!(
        from_json_text(lower).unwrap_err(),
        GeoError::UnknownGeometryType { tag: "point".to_string() }
    );
}

#[test]
fn wrong_nesting_is_malformed_structure() {
    let flat_line = r#"{"type":"LineString","coordinates":[1.0,2.0]}"#;
    assert_eq!(from_json_text(flat_line).unwrap_err(), GeoError::MalformedStructure);
    let missing = r#"{"type":"Polygon"}"#;
    assert_eq!(from_json_text(missing).unwrap_err(), GeoError::MalformedStructure);
    let no_members = r#"{"type":"GeometryCollection","coordinates":[1.0,2.0]}"#;
    assert_eq!(from_json_text(no_members).unwrap_err(), GeoError::MalformedStructure);
}

#[test]
fn bad_member_fails_the_whole_collection_with_the_first_error() {
    let json = r#"{"type":"GeometryCollection","geometries":[
        {"type":"Point","coordinates":[1.0,2.0]},
        {"type":"Point","coordinates":[1.0,2.0,3.0,4.0]},
        {"type":"Blob","coordinates":[1.0,2.0]}
    ]}"#;
    assert_eq!(
        from_json_text(json).unwrap_err(),
        GeoError::MalformedPosition { found_length: 4 }
    );
}

#[test]
fn list_decoders_report_the_first_bad_position() {
    let line = Coordinates::Array(vec![
        pair(1.0, 2.0),
        Coordinates::Array(vec![number(1.0)]),
        Coordinates::Array(vec![]),
    ]);
    assert_eq!(
        decode_positions(&line).unwrap_err(),
        GeoError::MalformedPosition { found_length: 1 }
    );
    assert_eq!(decode_positions(&number(1.0)).unwrap_err(), GeoError::MalformedStructure);
    let empty: Coordinates<f64> = Coordinates::Array(vec![]);
    assert_eq!(decode_positions(&empty).unwrap(), Vec::<Position<f64>>::new());
}

#[test]
fn nested_lists_round_trip() {
    let rings = vec![
        vec![Position::from((0.0, 0.0)), Position::from((1.0, 0.0)), Position::from((0.0, 0.0))],
        vec![Position::from((2.0, 2.0, 9.0))],
    ];
    assert_eq!(decode_position_lists(&encode_position_lists(&rings)).unwrap(), rings);
    let grids = vec![rings.clone(), vec![], vec![vec![]]];
    assert_eq!(decode_position_grids(&encode_position_grids(&grids)).unwrap(), grids);
    let line = vec![Position::from((5.0, 6.0))];
    assert_eq!(decode_positions(&encode_positions(&line)).unwrap(), line);
}

#[test]
fn nested_collection_round_trip_through_text() {
    let polygon = Polygon {
        coordinates: vec![vec![
            Position::from((0.0, 0.0)),
            Position::from((1.0, 1.0)),
            Position::from((0.0, 0.0)),
        ]],
    };
    let inner = GeometryCollection {
        geometries: vec![AnyGeometry::LineString(LineString {
            coordinates: vec![Position::from((1.0, 2.0, 3.0))],
        })],
    };
    let outer = AnyGeometry::GeometryCollection(GeometryCollection {
        geometries: vec![AnyGeometry::Polygon(polygon), AnyGeometry::GeometryCollection(inner)],
    });
    let text = to_json_text(&outer);
    assert_eq!(
        text,
        r#"{"type":"GeometryCollection","geometries":[{"type":"Polygon","coordinates":[[[0.0,0.0],[1.0,1.0],[0.0,0.0]]]},{"type":"GeometryCollection","geometries":[{"type":"LineString","coordinates":[[1.0,2.0,3.0]]}]}]}"#
    );
    let back = from_json_text(&text).unwrap();
    assert_eq!(to_json_text(&back), text);
}

#[test]
fn every_tag_names_its_kind() {
    let kinds = [
        (GeometryKind::Point, "Point"),
        (GeometryKind::MultiPoint, "MultiPoint"),
        (GeometryKind::LineString, "LineString"),
        (GeometryKind::MultiLineString, "MultiLineString"),
        (GeometryKind::Polygon, "Polygon"),
        (GeometryKind::MultiPolygon, "MultiPolygon"),
        (GeometryKind::GeometryCollection, "GeometryCollection"),
    ];
    for (kind, name) in kinds.iter() {
        assert_eq!(kind.tag(), *name);
        assert_eq!(GeometryKind::from_tag(&name.to_string()), Some(*kind));
    }
    assert_eq!(GeometryKind::from_tag(&"Feature".to_string()), None);
}

#[test]
fn multi_shapes_decode_at_their_depth() {
    let multi_point = r#"{"type":"MultiPoint","coordinates":[[1.0,2.0],[3.0,4.0]]}"#;
    match from_json_text(multi_point).unwrap() {
        AnyGeometry::MultiPoint(m) => assert_eq!(m.coordinates.len(), 2),
        other => panic!("expected a multi point, got {:?}", other),
    }
    let multi_line = r#"{"type":"MultiLineString","coordinates":[[[1.0,2.0]],[[3.0,4.0],[5.0,6.0]]]}"#;
    match from_json_text(multi_line).unwrap() {
        AnyGeometry::MultiLineString(m) => assert_eq!(m.coordinates[1].len(), 2),
        other => panic!("expected a multi line string, got {:?}", other),
    }
    let multi_polygon = r#"{"type":"MultiPolygon","coordinates":[[[[1.0,2.0]]]]}"#;
    match from_json_text(multi_polygon).unwrap() {
        AnyGeometry::MultiPolygon(m) => {
            assert_eq!(m.coordinates[0][0][0], Position::from((1.0, 2.0)))
        }
        other => panic!("expected a multi polygon, got {:?}", other),
    }
}
