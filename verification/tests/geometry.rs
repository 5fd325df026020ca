use infra_hex_rs::geometry::{
    coords_to_linestring, polygon_to_geojson, rings_to_polygon, Coord, FromGeoJson, GeoJsonValue,
    LineString, MultiPolygon, Polygon, ToGeoJson,
};
use infra_hex_rs::error::InfraHexError;
use infra_hex_rs::types::{BBox, GeoPoint2d};

fn square(x0: f64, y0: f64, side: f64) -> LineString<f64> {
    LineString(vec![
        Coord { x: x0, y: y0 },
        Coord { x: x0 + side, y: y0 },
        Coord { x: x0 + side, y: y0 + side },
        Coord { x: x0, y: y0 + side },
        Coord { x: x0, y: y0 },
    ])
}

#[test]
fn test_linestring_from_geojson() {
    let geom = GeoJsonValue::LineString(vec![vec![0.0, 0.0], vec![1.0, 1.0], vec![2.0, 0.0]]);

    let ls = LineString::from_geojson(&geom).unwrap();
    assert_eq!(ls.0.len(), 3);
    assert_eq!(ls.0[0], Coord { x: 0.0, y: 0.0 });
}

#[test]
fn test_multilinestring_to_linestring() {
    let geom = GeoJsonValue::MultiLineString(vec![
        vec![vec![0.0, 0.0], vec![1.0, 1.0]],
        vec![vec![2.0, 2.0], vec![3.0, 3.0]],
    ]);

    let ls = LineString::from_geojson(&geom).unwrap();
    assert_eq!(ls.0.len(), 4);
}

#[test]
fn test_polygon_from_geojson() {
    let geom = GeoJsonValue::Polygon(vec![vec![
        vec![0.0, 0.0],
        vec![1.0, 0.0],
        vec![1.0, 1.0],
        vec![0.0, 0.0],
    ]]);

    let poly = Polygon::from_geojson(&geom).unwrap();
    assert_eq!(poly.exterior().0.len(), 4);
    assert!(poly.interiors().is_empty());
}

#[test]
fn test_multipolygon_from_polygon_geojson() {
    let geom = GeoJsonValue::Polygon(vec![vec![
        vec![0.0, 0.0],
        vec![1.0, 0.0],
        vec![1.0, 1.0],
        vec![0.0, 0.0],
    ]]);

    let mp = MultiPolygon::from_geojson(&geom).unwrap();
    assert_eq!(mp.0.len(), 1);
}

#[test]
fn test_multipolygon_from_multipolygon_geojson() {
    let geom = GeoJsonValue::MultiPolygon(vec![
        vec![vec![
            vec![0.0, 0.0],
            vec![1.0, 0.0],
            vec![1.0, 1.0],
            vec![0.0, 0.0],
        ]],
        vec![vec![
            vec![2.0, 2.0],
            vec![3.0, 2.0],
            vec![3.0, 3.0],
            vec![2.0, 2.0],
        ]],
    ]);

    let mp = MultiPolygon::from_geojson(&geom).unwrap();
    assert_eq!(mp.0.len(), 2);
}

#[test]
fn test_polygon_to_geojson() {
    let poly = Polygon {
        exterior: LineString(vec![
            Coord { x: 0.0, y: 0.0 },
            Coord { x: 1.0, y: 0.0 },
            Coord { x: 1.0, y: 1.0 },
            Coord { x: 0.0, y: 0.0 },
        ]),
        interiors: vec![],
    };

    let geom = poly.to_geojson();
    match geom {
        GeoJsonValue::Polygon(rings) => {
            assert_eq!(rings.len(), 1);
            assert_eq!(rings[0].len(), 4);
        }
        _ => panic!("Expected Polygon"),
    }
}

#[test]
fn test_multipolygon_to_geojson() {
    let mp = MultiPolygon(vec![
        Polygon {
            exterior: LineString(vec![
                Coord { x: 0.0, y: 0.0 },
                Coord { x: 1.0, y: 0.0 },
                Coord { x: 0.0, y: 0.0 },
            ]),
            interiors: vec![],
        },
        Polygon {
            exterior: LineString(vec![
                Coord { x: 2.0, y: 2.0 },
                Coord { x: 3.0, y: 2.0 },
                Coord { x: 2.0, y: 2.0 },
            ]),
            interiors: vec![],
        },
    ]);

    let geom = mp.to_geojson();
    match geom {
        GeoJsonValue::MultiPolygon(polys) => {
            assert_eq!(polys.len(), 2);
        }
        _ => panic!("Expected MultiPolygon"),
    }
}

#[test]
fn test_polygon_with_hole_roundtrip() {
    let exterior = square(0.0, 0.0, 10.0);
    let hole = square(2.0, 2.0, 6.0);
    let poly = Polygon { exterior, interiors: vec![hole] };

    let geom = poly.to_geojson();
    let parsed = Polygon::from_geojson(&geom).unwrap();

    assert_eq!(parsed.exterior().0.len(), 5);
    assert_eq!(parsed.interiors().len(), 1);
    assert_eq!(parsed.interiors()[0].0.len(), 5);
    assert_eq!(parsed, poly);
}

#[test]
fn test_rejects_point_geometry() {
    let geom = GeoJsonValue::Point(vec![0.0, 0.0]);

    assert!(LineString::from_geojson(&geom).is_err());
    assert!(Polygon::from_geojson(&geom).is_err());
    assert!(MultiPolygon::from_geojson(&geom).is_err());
}

#[test]
fn test_polygon_to_geojson_simple() {
    let polygon = Polygon { exterior: square(0.0, 0.0, 1.0), interiors: vec![] };

    let geojson = polygon_to_geojson(&polygon);

    match geojson {
        GeoJsonValue::Polygon(rings) => {
            assert_eq!(rings.len(), 1, "Should have one ring (exterior)");
            assert_eq!(rings[0].len(), 5, "Exterior should have 5 coordinates");
            assert_eq!(rings[0][0], vec![0.0, 0.0]);
            assert_eq!(rings[0][1], vec![1.0, 0.0]);
        }
        _ => panic!("Expected Polygon geometry"),
    }
}

#[test]
fn test_polygon_to_geojson_with_hole() {
    let polygon = Polygon {
        exterior: square(0.0, 0.0, 10.0),
        interiors: vec![square(2.0, 2.0, 6.0)],
    };

    let geojson = polygon_to_geojson(&polygon);

    match geojson {
        GeoJsonValue::Polygon(rings) => {
            assert_eq!(rings.len(), 2, "Should have exterior + 1 hole");
            assert_eq!(rings[0].len(), 5, "Exterior ring");
            assert_eq!(rings[1].len(), 5, "Interior hole");
        }
        _ => panic!("Expected Polygon geometry"),
    }
}

#[test]
fn test_multipolygon_from_geojson_polygon() {
    let geojson = GeoJsonValue::Polygon(vec![vec![
        vec![0.0, 0.0],
        vec![1.0, 0.0],
        vec![1.0, 1.0],
        vec![0.0, 0.0],
    ]]);

    let result = MultiPolygon::from_geojson(&geojson);
    assert!(result.is_ok());

    let mp = result.unwrap();
    assert_eq!(mp.0.len(), 1, "Should wrap single polygon in MultiPolygon");
}

#[test]
fn test_multipolygon_from_geojson_multipolygon() {
    let geojson = GeoJsonValue::MultiPolygon(vec![
        vec![vec![
            vec![0.0, 0.0],
            vec![1.0, 0.0],
            vec![1.0, 1.0],
            vec![0.0, 0.0],
        ]],
        vec![vec![
            vec![2.0, 2.0],
            vec![3.0, 2.0],
            vec![3.0, 3.0],
            vec![2.0, 2.0],
        ]],
    ]);

    let result = MultiPolygon::from_geojson(&geojson);
    assert!(result.is_ok());

    let mp = result.unwrap();
    assert_eq!(mp.0.len(), 2, "Should have 2 polygons");
}

#[test]
fn test_multipolygon_from_geojson_rejects_point() {
    let geojson = GeoJsonValue::Point(vec![0.0, 0.0]);
    let result: Result<MultiPolygon<f64>, InfraHexError> = MultiPolygon::from_geojson(&geojson);
    assert!(result.is_err());
}

#[test]
fn test_geopoint_to_point() {
    let gp = GeoPoint2d { lon: -2.0, lat: 53.0 };
    let p: Coord<f64> = gp.into();
    assert_eq!(p.x, -2.0);
    assert_eq!(p.y, 53.0);
}

#[test]
fn bbox_keeps_its_bounds() {
    let bbox = BBox::new(51.54, -0.20, 51.58, 0.00);
    assert_eq!(bbox.min_lat, 51.54);
    assert_eq!(bbox.min_lon, -0.20);
    assert_eq!(bbox.max_lat, 51.58);
    assert_eq!(bbox.max_lon, 0.00);
}

#[test]
fn line_passes_over_short_positions() {
    let line = coords_to_linestring(&vec![
        vec![1, 2],
        vec![3],
        vec![],
        vec![4, 5, 6],
    ]);
    assert_eq!(line.0, vec![Coord { x: 1, y: 2 }, Coord { x: 4, y: 5 }]);
}

#[test]
fn wrong_kind_names_what_came() {
    let point: GeoJsonValue<i32> = GeoJsonValue::Point(vec![0, 0]);
    match LineString::from_geojson(&point) {
        Err(InfraHexError::Geometry(message)) => {
            assert_eq!(message, "Expected LineString or MultiLineString, got Point")
        }
        other => panic!("expected a geometry error, got {:?}", other),
    }
    let line: GeoJsonValue<i32> = GeoJsonValue::LineString(vec![vec![0, 0]]);
    match Polygon::from_geojson(&line) {
        Err(InfraHexError::Geometry(message)) => {
            assert_eq!(message, "Expected Polygon, got LineString")
        }
        other => panic!("expected a geometry error, got {:?}", other),
    }
    let collection: GeoJsonValue<i32> = GeoJsonValue::GeometryCollection;
    match MultiPolygon::from_geojson(&collection) {
        Err(InfraHexError::Geometry(message)) => {
            assert_eq!(message, "Expected Polygon or MultiPolygon, got GeometryCollection")
        }
        other => panic!("expected a geometry error, got {:?}", other),
    }
}

#[test]
fn polygon_needs_an_outer_ring_with_points() {
    let none: Vec<Vec<Vec<i32>>> = vec![];
    match rings_to_polygon(&none) {
        Err(InfraHexError::Geometry(message)) => assert_eq!(message, "No rings in polygon"),
        other => panic!("expected a geometry error, got {:?}", other),
    }
    match rings_to_polygon(&vec![vec![vec![1]], vec![vec![1, 2]]]) {
        Err(InfraHexError::Geometry(message)) => {
            assert_eq!(message, "No valid coordinates in exterior ring")
        }
        other => panic!("expected a geometry error, got {:?}", other),
    }
}

#[test]
fn holes_without_points_are_dropped() {
    let polygon = rings_to_polygon(&vec![
        vec![vec![0, 0], vec![4, 0], vec![0, 4], vec![0, 0]],
        vec![vec![9]],
        vec![vec![1, 1], vec![2, 1], vec![1, 1]],
        vec![],
    ])
    .unwrap();
    assert_eq!(polygon.exterior.0.len(), 4);
    assert_eq!(
        polygon.interiors,
        vec![LineString(vec![
            Coord { x: 1, y: 1 },
            Coord { x: 2, y: 1 },
            Coord { x: 1, y: 1 }
        ])]
    );
}

#[test]
fn multipolygon_fails_on_its_first_bad_part() {
    let geometry = GeoJsonValue::MultiPolygon(vec![
        vec![vec![vec![0, 0], vec![1, 0], vec![0, 0]]],
        vec![],
        vec![vec![vec![7]]],
    ]);
    match MultiPolygon::from_geojson(&geometry) {
        Err(InfraHexError::Geometry(message)) => assert_eq!(message, "No rings in polygon"),
        other => panic!("expected a geometry error, got {:?}", other),
    }
}

#[test]
fn multipolygon_round_trip() {
    let multi = MultiPolygon(vec![
        Polygon { exterior: square(0.0, 0.0, 1.0), interiors: vec![] },
        Polygon { exterior: square(5.0, 5.0, 3.0), interiors: vec![square(6.0, 6.0, 1.0)] },
    ]);
    let written = multi.to_geojson();
    assert_eq!(written.kind(), "MultiPolygon");
    assert_eq!(MultiPolygon::from_geojson(&written).unwrap(), multi);
}
