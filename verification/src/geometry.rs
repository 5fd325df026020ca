use vstd::prelude::*;
use crate::error::InfraHexError;

verus! {

/// A point of a line or a ring. The library moves coordinates and never
/// computes with them, so it leaves their number type open.
#[derive(Debug, Clone, Copy, PartialEq)]
pub struct Coord<T> {
    pub x: T,
    pub y: T,
}

/// A line: the points that it runs through.
#[derive(Debug, PartialEq)]
pub struct LineString<T>(pub Vec<Coord<T>>);

/// A polygon: its outer ring and the rings of its holes. The rings are kept
/// as they are given: a ring that does not end where it starts is not closed
/// here.
#[derive(Debug, PartialEq)]
pub struct Polygon<T> {
    pub exterior: LineString<T>,
    pub interiors: Vec<LineString<T>>,
}

/// Several polygons.
#[derive(Debug, PartialEq)]
pub struct MultiPolygon<T>(pub Vec<Polygon<T>>);

/// The coordinates of a GeoJSON geometry, by the kind of the geometry. A
/// position is a list of numbers, of which the first two are read.
#[derive(Debug, PartialEq)]
pub enum GeoJsonValue<T> {
    Point(Vec<T>),
    MultiPoint(Vec<Vec<T>>),
    LineString(Vec<Vec<T>>),
    MultiLineString(Vec<Vec<Vec<T>>>),
    Polygon(Vec<Vec<Vec<T>>>),
    MultiPolygon(Vec<Vec<Vec<Vec<T>>>>),
    GeometryCollection,
}

impl<T> Polygon<T> {
    pub fn exterior(&self) -> (ring: &LineString<T>)
        ensures
            *ring == self.exterior,
    {
        &self.exterior
    }

    pub fn interiors(&self) -> (rings: &Vec<LineString<T>>)
        ensures
            *rings == self.interiors,
    {
        &self.interiors
    }
}

/// Whether a position has the two numbers of a point.
pub open spec fn is_point<T>(position: Vec<T>) -> bool {
    position@.len() >= 2
}

/// The point of a position: its first two numbers.
pub open spec fn point_of<T>(position: Vec<T>) -> Coord<T> {
    Coord { x: position@[0], y: position@[1] }
}

/// The points of some positions; a position with fewer than two numbers is
/// passed over.
pub open spec fn line_points<T>(positions: Seq<Vec<T>>) -> Seq<Coord<T>> {
    positions.filter(|position: Vec<T>| is_point(position)).map_values(
        |position: Vec<T>| point_of(position),
    )
}

/// The points of some positions, each of which has two numbers.
pub open spec fn plain_points<T>(positions: Seq<Vec<T>>) -> Seq<Coord<T>> {
    positions.map_values(|position: Vec<T>| point_of(position))
}

/// The points of several lines as one line, line after line.
pub open spec fn joined_points<T>(lines: Seq<Vec<Vec<T>>>) -> Seq<Coord<T>>
    decreases lines.len(),
{
    if lines.len() == 0 {
        Seq::empty()
    } else {
        joined_points(lines.drop_last()) + plain_points(lines.last()@)
    }
}

/// The rings of the holes of a polygon: the rings behind the first, without
/// those that have no point.
pub open spec fn hole_rings<T>(rings: Seq<Vec<Vec<T>>>) -> Seq<Seq<Coord<T>>> {
    rings.skip(1).map_values(|ring: Vec<Vec<T>>| line_points(ring@)).filter(
        |ring: Seq<Coord<T>>| ring.len() > 0,
    )
}

/// The points of the rings of a polygon's holes.
pub open spec fn interior_points<T>(interiors: Seq<LineString<T>>) -> Seq<Seq<Coord<T>>> {
    interiors.map_values(|ring: LineString<T>| ring.0@)
}

/// Whether `polygon` is the polygon of `rings`: the first ring is its outer
/// ring, the others are its holes.
pub open spec fn is_polygon_of<T>(polygon: Polygon<T>, rings: Seq<Vec<Vec<T>>>) -> bool {
    &&& rings.len() > 0
    &&& polygon.exterior.0@ == line_points(rings[0]@)
    &&& polygon.exterior.0@.len() > 0
    &&& interior_points(polygon.interiors@) == hole_rings(rings)
}

/// Whether rings make a polygon: there is a first ring, and it has a point.
pub open spec fn makes_polygon<T>(rings: Seq<Vec<Vec<T>>>) -> bool {
    rings.len() > 0 && line_points(rings[0]@).len() > 0
}

/// The message of a geometry that cannot be a polygon.
pub open spec fn polygon_fault<T>(rings: Seq<Vec<Vec<T>>>) -> Seq<char> {
    if rings.len() == 0 {
        "No rings in polygon"@
    } else {
        "No valid coordinates in exterior ring"@
    }
}

/// Reads the points of a line from its positions.
pub fn coords_to_linestring<T: Copy>(coords: &Vec<Vec<T>>) -> (line: LineString<T>)
    ensures
        line.0@ == line_points(coords@),
{
    let ghost keep = |position: Vec<T>| is_point(position);
    let ghost read = |position: Vec<T>| point_of(position);
    let mut points: Vec<Coord<T>> = Vec::new();
    let mut i: usize = 0;
    assert(coords@.take(0).filter(keep) =~= Seq::<Vec<T>>::empty());
    assert(line_points(coords@.take(0)) =~= Seq::<Coord<T>>::empty());
    while i < coords.len()
        invariant
            i <= coords@.len(),
            points@ == line_points(coords@.take(i as int)),
        decreases coords@.len() - i,
    {
        let position = &coords[i];
        proof {
            let met = coords@.take(i as int);
            assert(coords@.take(i + 1) =~= met.push(*position));
            met.lemma_filter_push(*position, |p: Vec<T>| is_point(p));
            if is_point(*position) {
                assert(line_points(met.push(*position)) =~= line_points(met).push(
                    point_of(*position),
                ));
            }
        }
        if position.len() >= 2 {
            points.push(Coord { x: position[0], y: position[1] });
        }
        i = i + 1;
    }
    assert(coords@.take(coords@.len() as int) =~= coords@);
    LineString(points)
}

/// Reads a polygon from its rings.
pub fn rings_to_polygon<T: Copy>(rings: &Vec<Vec<Vec<T>>>) -> (outcome: Result<
    Polygon<T>,
    InfraHexError,
>)
    ensures
        match outcome {
            Ok(polygon) => is_polygon_of(polygon, rings@),
            Err(error) => {
                &&& !makes_polygon(rings@)
                &&& error matches InfraHexError::Geometry(message) && message@ == polygon_fault(
                    rings@,
                )
            },
        },
{
    if rings.len() == 0 {
        return Err(InfraHexError::Geometry("No rings in polygon".to_owned()));
    }
    let exterior = coords_to_linestring(&rings[0]);
    if exterior.0.len() == 0 {
        return Err(InfraHexError::Geometry("No valid coordinates in exterior ring".to_owned()));
    }
    let ghost read = |ring: Vec<Vec<T>>| line_points(ring@);
    let ghost keep = |ring: Seq<Coord<T>>| ring.len() > 0;
    let ghost behind = rings@.skip(1);
    let mut holes: Vec<LineString<T>> = Vec::new();
    let mut i: usize = 1;
    assert(behind.take(0).map_values(read).filter(keep) =~= Seq::<Seq<Coord<T>>>::empty());
    assert(interior_points(holes@) =~= Seq::<Seq<Coord<T>>>::empty());
    while i < rings.len()
        invariant
            1 <= i <= rings@.len(),
            behind == rings@.skip(1),
            read == |ring: Vec<Vec<T>>| line_points(ring@),
            keep == |ring: Seq<Coord<T>>| ring.len() > 0,
            interior_points(holes@) == behind.take(i - 1).map_values(read).filter(keep),
        decreases rings@.len() - i,
    {
        let ring = coords_to_linestring(&rings[i]);
        proof {
            let met = behind.take(i - 1);
            assert(behind.take(i as int) =~= met.push(rings@[i as int]));
            assert(met.push(rings@[i as int]).map_values(read) =~= met.map_values(read).push(
                ring.0@,
            ));
            met.map_values(read).lemma_filter_push(ring.0@, keep);
        }
        if ring.0.len() > 0 {
            let ghost before = holes@;
            holes.push(ring);
            assert(interior_points(holes@) =~= interior_points(before).push(ring.0@));
        }
        i = i + 1;
    }
    assert(behind.take(rings@.len() - 1) =~= behind);
    Ok(Polygon { exterior, interiors: holes })
}


impl<T> GeoJsonValue<T> {
    /// The name of the kind of the geometry.
    pub open spec fn kind_name(self) -> Seq<char> {
        match self {
            GeoJsonValue::Point(_) => "Point"@,
            GeoJsonValue::MultiPoint(_) => "MultiPoint"@,
            GeoJsonValue::LineString(_) => "LineString"@,
            GeoJsonValue::MultiLineString(_) => "MultiLineString"@,
            GeoJsonValue::Polygon(_) => "Polygon"@,
            GeoJsonValue::MultiPolygon(_) => "MultiPolygon"@,
            GeoJsonValue::GeometryCollection => "GeometryCollection"@,
        }
    }

    pub fn kind(&self) -> (name: &'static str)
        ensures
            name@ == self.kind_name(),
    {
        match self {
            GeoJsonValue::Point(_) => "Point",
            GeoJsonValue::MultiPoint(_) => "MultiPoint",
            GeoJsonValue::LineString(_) => "LineString",
            GeoJsonValue::MultiLineString(_) => "MultiLineString",
            GeoJsonValue::Polygon(_) => "Polygon",
            GeoJsonValue::MultiPolygon(_) => "MultiPolygon",
            GeoJsonValue::GeometryCollection => "GeometryCollection",
        }
    }
}

/// The message of a geometry of the wrong kind.
pub open spec fn wrong_kind_message<T>(expected: Seq<char>, geometry: GeoJsonValue<T>) -> Seq<
    char,
> {
    "Expected "@ + expected + ", got "@ + geometry.kind_name()
}

fn wrong_kind_error<T>(expected: &str, geometry: &GeoJsonValue<T>) -> (error: InfraHexError)
    ensures
        error matches InfraHexError::Geometry(message) && message@ == wrong_kind_message(
            expected@,
            *geometry,
        ),
{
    let mut message = "Expected ".to_owned();
    message.push_str(expected);
    message.push_str(", got ");
    message.push_str(geometry.kind());
    InfraHexError::Geometry(message)
}

/// A geometry that can be read from the coordinates of a GeoJSON geometry.
pub trait FromGeoJson<T>: Sized {
    /// Whether the coordinates can be read at all: where no position is
    /// passed over, every position must be a point.
    spec fn readable(geometry: GeoJsonValue<T>) -> bool;

    /// Whether `outcome` is what reading `geometry` gives.
    spec fn reads(geometry: GeoJsonValue<T>, outcome: Result<Self, InfraHexError>) -> bool;

    fn from_geojson(geometry: &GeoJsonValue<T>) -> (outcome: Result<Self, InfraHexError>)
        requires
            Self::readable(*geometry),
        ensures
            Self::reads(*geometry, outcome),
    ;
}

/// A geometry that can be written as the coordinates of a GeoJSON geometry.
pub trait ToGeoJson<T> {
    /// Whether `value` is this geometry, written as coordinates.
    spec fn written(&self, value: GeoJsonValue<T>) -> bool;

    fn to_geojson(&self) -> (value: GeoJsonValue<T>)
        ensures
            self.written(value),
    ;
}

/// Whether every position of every line is a point.
pub open spec fn all_points<T>(lines: Seq<Vec<Vec<T>>>) -> bool {
    forall|i: int, j: int|
        0 <= i < lines.len() && 0 <= j < lines[i]@.len() ==> is_point(#[trigger] lines[i]@[j])
}

impl<T: Copy> FromGeoJson<T> for LineString<T> {
    open spec fn readable(geometry: GeoJsonValue<T>) -> bool {
        geometry matches GeoJsonValue::MultiLineString(lines) ==> all_points(lines@)
    }

    /// A line is read as it stands, without the positions that are no
    /// points; several lines are read as one line. Nothing else is a line.
    open spec fn reads(geometry: GeoJsonValue<T>, outcome: Result<Self, InfraHexError>) -> bool {
        match geometry {
            GeoJsonValue::LineString(coords) => outcome matches Ok(line) && line.0@ == line_points(
                coords@,
            ),
            GeoJsonValue::MultiLineString(lines) => outcome matches Ok(line) && line.0@
                == joined_points(lines@),
            _ => outcome matches Err(InfraHexError::Geometry(message)) && message@
                == wrong_kind_message("LineString or MultiLineString"@, geometry),
        }
    }

    fn from_geojson(geometry: &GeoJsonValue<T>) -> (outcome: Result<Self, InfraHexError>) {
        match geometry {
            GeoJsonValue::LineString(coords) => Ok(coords_to_linestring(coords)),
            GeoJsonValue::MultiLineString(lines) => {
                let mut points: Vec<Coord<T>> = Vec::new();
                let mut i: usize = 0;
                assert(lines@.take(0) =~= Seq::<Vec<Vec<T>>>::empty());
                while i < lines.len()
                    invariant
                        i <= lines@.len(),
                        all_points(lines@),
                        points@ == joined_points(lines@.take(i as int)),
                    decreases lines@.len() - i,
                {
                    let line = &lines[i];
                    let ghost before = points@;
                    let mut j: usize = 0;
                    while j < line.len()
                        invariant
                            j <= line@.len(),
                            i < lines@.len(),
                            *line == lines@[i as int],
                            all_points(lines@),
                            points@ == before + plain_points(line@.take(j as int)),
                        decreases line@.len() - j,
                    {
                        let position = &line[j];
                        assert(is_point(lines@[i as int]@[j as int]));
                        points.push(Coord { x: position[0], y: position[1] });
                        assert(line@.take(j + 1) =~= line@.take(j as int).push(*position));
                        assert(points@ =~= before + plain_points(line@.take(j + 1)));
                        j = j + 1;
                    }
                    proof {
                        assert(line@.take(line@.len() as int) =~= line@);
                        let grown = lines@.take(i + 1);
                        assert(grown.drop_last() =~= lines@.take(i as int));
                        assert(grown.last() == *line);
                    }
                    i = i + 1;
                }
                assert(lines@.take(lines@.len() as int) =~= lines@);
                Ok(LineString(points))
            },
            _ => Err(wrong_kind_error("LineString or MultiLineString", geometry)),
        }
    }
}

impl<T: Copy> FromGeoJson<T> for Polygon<T> {
    open spec fn readable(geometry: GeoJsonValue<T>) -> bool {
        true
    }

    /// A polygon is read from its rings where they make a polygon. Nothing
    /// else is a polygon.
    open spec fn reads(geometry: GeoJsonValue<T>, outcome: Result<Self, InfraHexError>) -> bool {
        match geometry {
            GeoJsonValue::Polygon(rings) => match outcome {
                Ok(polygon) => is_polygon_of(polygon, rings@),
                Err(error) => {
                    &&& !makes_polygon(rings@)
                    &&& error matches InfraHexError::Geometry(message) && message@
                        == polygon_fault(rings@)
                },
            },
            _ => outcome matches Err(InfraHexError::Geometry(message)) && message@
                == wrong_kind_message("Polygon"@, geometry),
        }
    }

    fn from_geojson(geometry: &GeoJsonValue<T>) -> (outcome: Result<Self, InfraHexError>) {
        match geometry {
            GeoJsonValue::Polygon(rings) => rings_to_polygon(rings),
            _ => Err(wrong_kind_error("Polygon", geometry)),
        }
    }
}

/// Whether `polygons` are the polygons of `parts`, one for one.
pub open spec fn are_polygons_of<T>(
    polygons: Seq<Polygon<T>>,
    parts: Seq<Vec<Vec<Vec<T>>>>,
) -> bool {
    &&& polygons.len() == parts.len()
    &&& forall|i: int| 0 <= i < parts.len() ==> is_polygon_of(#[trigger] polygons[i], parts[i]@)
}

/// The first of `parts` whose rings make no polygon, or their number where
/// all do.
pub open spec fn first_fault<T>(parts: Seq<Vec<Vec<Vec<T>>>>) -> int
    decreases parts.len(),
{
    if parts.len() == 0 {
        0
    } else if !makes_polygon(parts[0]@) {
        0
    } else {
        1 + first_fault(parts.skip(1))
    }
}

impl<T: Copy> FromGeoJson<T> for MultiPolygon<T> {
    open spec fn readable(geometry: GeoJsonValue<T>) -> bool {
        true
    }

    /// One polygon is read as a multi-polygon of one; several polygons are
    /// read one for one, and the first whose rings make no polygon fails the
    /// whole. Nothing else is a multi-polygon.
    open spec fn reads(geometry: GeoJsonValue<T>, outcome: Result<Self, InfraHexError>) -> bool {
        match geometry {
            GeoJsonValue::Polygon(rings) => match outcome {
                Ok(multi) => multi.0@.len() == 1 && is_polygon_of(multi.0@[0], rings@),
                Err(error) => {
                    &&& !makes_polygon(rings@)
                    &&& error matches InfraHexError::Geometry(message) && message@
                        == polygon_fault(rings@)
                },
            },
            GeoJsonValue::MultiPolygon(parts) => match outcome {
                Ok(multi) => are_polygons_of(multi.0@, parts@),
                Err(error) => {
                    &&& 0 <= first_fault(parts@) < parts@.len()
                    &&& !makes_polygon(parts@[first_fault(parts@)]@)
                    &&& error matches InfraHexError::Geometry(message) && message@
                        == polygon_fault(parts@[first_fault(parts@)]@)
                },
            },
            _ => outcome matches Err(InfraHexError::Geometry(message)) && message@
                == wrong_kind_message("Polygon or MultiPolygon"@, geometry),
        }
    }

    fn from_geojson(geometry: &GeoJsonValue<T>) -> (outcome: Result<Self, InfraHexError>) {
        match geometry {
            GeoJsonValue::Polygon(rings) => {
                match rings_to_polygon(rings) {
                    Ok(polygon) => {
                        let mut polygons: Vec<Polygon<T>> = Vec::new();
                        polygons.push(polygon);
                        Ok(MultiPolygon(polygons))
                    },
                    Err(error) => Err(error),
                }
            },
            GeoJsonValue::MultiPolygon(parts) => {
                let mut polygons: Vec<Polygon<T>> = Vec::new();
                let mut i: usize = 0;
                assert(parts@.skip(0) =~= parts@);
                while i < parts.len()
                    invariant
                        i <= parts@.len(),
                        polygons@.len() == i,
                        forall|k: int|
                            0 <= k < i ==> is_polygon_of(#[trigger] polygons@[k], parts@[k]@),
                        first_fault(parts@) == i + first_fault(parts@.skip(i as int)),
                        *geometry == GeoJsonValue::<T>::MultiPolygon(*parts),
                    decreases parts@.len() - i,
                {
                    proof {
                        let rest = parts@.skip(i as int);
                        assert(rest[0] == parts@[i as int]);
                        assert(rest.skip(1) =~= parts@.skip(i + 1));
                        assert(first_fault(rest) == if !makes_polygon(rest[0]@) {
                            0
                        } else {
                            1 + first_fault(rest.skip(1))
                        });
                    }
                    match rings_to_polygon(&parts[i]) {
                        Ok(polygon) => {
                            polygons.push(polygon);
                        },
                        Err(error) => {
                            return Err(error);
                        },
                    }
                    i = i + 1;
                }
                Ok(MultiPolygon(polygons))
            },
            _ => Err(wrong_kind_error("Polygon or MultiPolygon", geometry)),
        }
    }
}

/// A point as a position.
pub open spec fn position_of<T>(point: Coord<T>) -> Seq<T> {
    seq![point.x, point.y]
}

/// The positions of a ring.
pub open spec fn ring_positions<T>(ring: Seq<Coord<T>>) -> Seq<Seq<T>> {
    ring.map_values(|point: Coord<T>| position_of(point))
}

/// The rings of a polygon as positions: the outer ring, then the holes.
pub open spec fn polygon_positions<T>(polygon: Polygon<T>) -> Seq<Seq<Seq<T>>> {
    seq![ring_positions(polygon.exterior.0@)] + polygon.interiors@.map_values(
        |ring: LineString<T>| ring_positions(ring.0@),
    )
}

/// The positions that the coordinates of one ring hold.
pub open spec fn ring_view<T>(ring: Vec<Vec<T>>) -> Seq<Seq<T>> {
    ring@.map_values(|position: Vec<T>| position@)
}

/// The positions that the coordinates of some rings hold.
pub open spec fn rings_view<T>(rings: Vec<Vec<Vec<T>>>) -> Seq<Seq<Seq<T>>> {
    rings@.map_values(|ring: Vec<Vec<T>>| ring_view(ring))
}

fn ring_to_positions<T: Copy>(ring: &LineString<T>) -> (positions: Vec<Vec<T>>)
    ensures
        ring_view(positions) == ring_positions(ring.0@),
{
    let mut positions: Vec<Vec<T>> = Vec::new();
    let mut i: usize = 0;
    while i < ring.0.len()
        invariant
            i <= ring.0@.len(),
            positions@.len() == i,
            forall|k: int| 0 <= k < i ==> (#[trigger] positions@[k])@ == position_of(ring.0@[k]),
        decreases ring.0@.len() - i,
    {
        let point = ring.0[i];
        let position = vec![point.x, point.y];
        assert(position@ =~= position_of(point));
        positions.push(position);
        i = i + 1;
    }
    assert(ring_view(positions) =~= ring_positions(ring.0@));
    positions
}

/// Writes the rings of a polygon as positions: the outer ring first, then
/// each hole.
pub fn polygon_to_rings<T: Copy>(polygon: &Polygon<T>) -> (rings: Vec<Vec<Vec<T>>>)
    ensures
        rings_view(rings) == polygon_positions(*polygon),
{
    let mut rings: Vec<Vec<Vec<T>>> = Vec::new();
    rings.push(ring_to_positions(&polygon.exterior));
    let mut i: usize = 0;
    while i < polygon.interiors.len()
        invariant
            i <= polygon.interiors@.len(),
            rings@.len() == i + 1,
            ring_view(rings@[0]) == ring_positions(polygon.exterior.0@),
            forall|m: int|
                1 <= m < i + 1 ==> ring_view(#[trigger] rings@[m]) == ring_positions(
                    polygon.interiors@[m - 1].0@,
                ),
        decreases polygon.interiors@.len() - i,
    {
        rings.push(ring_to_positions(&polygon.interiors[i]));
        i = i + 1;
    }
    assert(rings_view(rings) =~= polygon_positions(*polygon));
    rings
}

impl<T: Copy> ToGeoJson<T> for Polygon<T> {
    open spec fn written(&self, value: GeoJsonValue<T>) -> bool {
        value matches GeoJsonValue::Polygon(rings) && rings_view(rings) == polygon_positions(*self)
    }

    fn to_geojson(&self) -> (value: GeoJsonValue<T>) {
        GeoJsonValue::Polygon(polygon_to_rings(self))
    }
}

impl<T: Copy> ToGeoJson<T> for MultiPolygon<T> {
    open spec fn written(&self, value: GeoJsonValue<T>) -> bool {
        value matches GeoJsonValue::MultiPolygon(parts) && parts@.len() == self.0@.len()
            && forall|i: int|
            0 <= i < parts@.len() ==> rings_view(#[trigger] parts@[i]) == polygon_positions(
                self.0@[i],
            )
    }

    fn to_geojson(&self) -> (value: GeoJsonValue<T>) {
        let mut parts: Vec<Vec<Vec<Vec<T>>>> = Vec::new();
        let mut i: usize = 0;
        while i < self.0.len()
            invariant
                i <= self.0@.len(),
                parts@.len() == i,
                forall|k: int|
                    0 <= k < i ==> rings_view(#[trigger] parts@[k]) == polygon_positions(
                        self.0@[k],
                    ),
            decreases self.0@.len() - i,
        {
            parts.push(polygon_to_rings(&self.0[i]));
            i = i + 1;
        }
        GeoJsonValue::MultiPolygon(parts)
    }
}

/// Writes a polygon as the coordinates of a GeoJSON polygon.
pub fn polygon_to_geojson<T: Copy>(polygon: &Polygon<T>) -> (value: GeoJsonValue<T>)
    ensures
        value matches GeoJsonValue::Polygon(rings) && rings_view(rings) == polygon_positions(
            *polygon,
        ),
{
    polygon.to_geojson()
}

} // verus!
