use vstd::prelude::*;
use crate::error::InfraHexError;
use crate::geometry::{FromGeoJson, GeoJsonValue, MultiPolygon, ToGeoJson};

verus! {

/// A text without the white space at its two ends, as `str::trim` leaves it.
pub uninterp spec fn trimmed_text(text: Seq<char>) -> Seq<char>;

/// `str::trim` from std: the text without leading and trailing white space.
/// The result depends on the text alone.
#[verifier::external_body]
fn trim_text(text: &str) -> (trimmed: String)
    ensures
        trimmed@ == trimmed_text(text@),
{
    text.trim().to_owned()
}

/// The boundary of a built-up area, with what the source says about it.
#[derive(Debug, PartialEq)]
pub struct BuiltUpArea<T> {
    pub object_id: i64,
    pub code: String,
    pub name: String,
    pub name_welsh: Option<String>,
    pub area_hectares: Option<T>,
    pub geometry: MultiPolygon<T>,
}

/// The properties of a feature of the source, as far as they are read. A
/// property that is absent, or not of the kind that is read, is `None`.
#[derive(Debug)]
pub struct AreaProperties<T> {
    pub object_id: Option<i64>,
    pub code: Option<String>,
    pub name: Option<String>,
    pub name_welsh: Option<String>,
    pub area_hectares: Option<T>,
}

/// A property of a feature that is written.
#[derive(Debug, PartialEq)]
pub enum PropertyValue<T> {
    Integer(i64),
    Text(String),
    Number(T),
}

/// The text of an optional string, or the empty text.
pub open spec fn text_or_empty(value: Option<String>) -> Seq<char> {
    match value {
        Some(text) => text@,
        None => Seq::empty(),
    }
}

/// The Welsh name that is kept: the name without the white space at its
/// ends, unless nothing is left of it.
pub open spec fn kept_welsh_name(value: Option<String>) -> Option<Seq<char>> {
    match value {
        Some(text) => if trimmed_text(text@).len() == 0 {
            None
        } else {
            Some(trimmed_text(text@))
        },
        None => None,
    }
}

/// Whether `area` is the area that the properties of a feature describe.
pub open spec fn describes<T>(properties: AreaProperties<T>, area: BuiltUpArea<T>) -> bool {
    &&& properties.object_id == Some(area.object_id)
    &&& area.code@ == text_or_empty(properties.code)
    &&& area.name@ == text_or_empty(properties.name)
    &&& (match area.name_welsh {
        Some(text) => Some(text@),
        None => None,
    }) == kept_welsh_name(properties.name_welsh)
    &&& area.area_hectares == properties.area_hectares
}

/// The message with which a feature fails before its geometry is read: it
/// has no properties, no object identifier, or no geometry.
pub open spec fn feature_fault<T>(
    properties: Option<AreaProperties<T>>,
    geometry: Option<GeoJsonValue<T>>,
) -> Option<Seq<char>> {
    match properties {
        None => Some("Feature has no properties"@),
        Some(read) => if read.object_id is None {
            Some("Missing OBJECTID"@)
        } else if geometry is None {
            Some("Feature has no geometry"@)
        } else {
            None
        },
    }
}

fn clone_or_empty(value: &Option<String>) -> (text: String)
    ensures
        text@ == text_or_empty(*value),
{
    match value {
        Some(text) => text.clone(),
        None => String::new(),
    }
}

/// Reads a built-up area from the properties and the geometry of a feature.
///
/// A feature without properties, without an object identifier or without
/// geometry is refused, as is a geometry that is no polygon and no
/// multi-polygon. A code or a name that is missing is empty; a Welsh name of
/// white space alone is no name.
pub fn parse_feature<T: Copy>(
    properties: Option<&AreaProperties<T>>,
    geometry: Option<&GeoJsonValue<T>>,
) -> (outcome: Result<BuiltUpArea<T>, InfraHexError>)
    ensures
        match (properties, geometry) {
            (Some(read), Some(shape)) if read.object_id is Some => exists|
                parsed: Result<MultiPolygon<T>, InfraHexError>,
            |
                {
                    &&& #[trigger] MultiPolygon::<T>::reads(*shape, parsed)
                    &&& match parsed {
                        Ok(multi) => outcome matches Ok(area) && describes(*read, area)
                            && area.geometry == multi,
                        Err(error) => outcome == Err::<BuiltUpArea<T>, InfraHexError>(error),
                    }
                },
            _ => outcome matches Err(InfraHexError::Geometry(message)) && Some(message@)
                == feature_fault(
                match properties {
                    Some(read) => Some(*read),
                    None => None,
                },
                match geometry {
                    Some(shape) => Some(*shape),
                    None => None,
                },
            ),
        },
{
    let read = match properties {
        Some(read) => read,
        None => {
            return Err(InfraHexError::Geometry("Feature has no properties".to_owned()));
        },
    };
    let object_id = match read.object_id {
        Some(id) => id,
        None => {
            return Err(InfraHexError::Geometry("Missing OBJECTID".to_owned()));
        },
    };
    let code = clone_or_empty(&read.code);
    let name = clone_or_empty(&read.name);
    let name_welsh = match &read.name_welsh {
        Some(text) => {
            let trimmed = trim_text(text.as_str());
            if trimmed.as_str().is_empty() {
                None
            } else {
                Some(trimmed)
            }
        },
        None => None,
    };
    let shape = match geometry {
        Some(shape) => shape,
        None => {
            return Err(InfraHexError::Geometry("Feature has no geometry".to_owned()));
        },
    };
    let parsed = MultiPolygon::from_geojson(shape);
    let ghost witness = parsed;
    match parsed {
        Ok(multi) => {
            let area = BuiltUpArea {
                object_id,
                code,
                name,
                name_welsh,
                area_hectares: read.area_hectares,
                geometry: multi,
            };
            assert(MultiPolygon::<T>::reads(*shape, witness));
            Ok(area)
        },
        Err(error) => {
            assert(MultiPolygon::<T>::reads(*shape, witness));
            Err(error)
        },
    }
}

/// The properties that are written for an area, as names and values: the
/// object identifier, the code and the name, then the Welsh name and the
/// area where the area has them.
pub open spec fn written_properties<T>(area: BuiltUpArea<T>) -> Seq<(Seq<char>, PropertyView<T>)> {
    seq![
        ("object_id"@, PropertyView::Integer(area.object_id)),
        ("code"@, PropertyView::Text(area.code@)),
        ("name"@, PropertyView::Text(area.name@)),
    ] + (match area.name_welsh {
        Some(text) => seq![("name_welsh"@, PropertyView::Text(text@))],
        None => Seq::empty(),
    }) + (match area.area_hectares {
        Some(number) => seq![("area_hectares"@, PropertyView::Number(number))],
        None => Seq::empty(),
    })
}

/// A `PropertyValue` as a plain value.
pub enum PropertyView<T> {
    Integer(i64),
    Text(Seq<char>),
    Number(T),
}

impl<T> View for PropertyValue<T> {
    type V = PropertyView<T>;

    open spec fn view(&self) -> PropertyView<T> {
        match self {
            PropertyValue::Integer(value) => PropertyView::Integer(*value),
            PropertyValue::Text(text) => PropertyView::Text(text@),
            PropertyValue::Number(number) => PropertyView::Number(*number),
        }
    }
}

/// The names and values of some properties as plain values.
pub open spec fn properties_view<T>(properties: Seq<(String, PropertyValue<T>)>) -> Seq<
    (Seq<char>, PropertyView<T>),
> {
    properties.map_values(|entry: (String, PropertyValue<T>)| (entry.0@, entry.1@))
}

/// A built-up area as a feature: its geometry and its properties.
#[derive(Debug)]
pub struct AreaFeature<T> {
    pub geometry: GeoJsonValue<T>,
    pub properties: Vec<(String, PropertyValue<T>)>,
}

impl<T: Copy> BuiltUpArea<T> {
    /// Writes the area as a feature: the geometry as a multi-polygon, and
    /// the properties that the area has.
    pub fn to_geojson_feature(&self) -> (feature: AreaFeature<T>)
        ensures
            self.geometry.written(feature.geometry),
            properties_view(feature.properties@) == written_properties(*self),
    {
        let geometry = self.geometry.to_geojson();
        let mut properties: Vec<(String, PropertyValue<T>)> = Vec::new();
        properties.push(("object_id".to_owned(), PropertyValue::Integer(self.object_id)));
        properties.push(("code".to_owned(), PropertyValue::Text(self.code.clone())));
        properties.push(("name".to_owned(), PropertyValue::Text(self.name.clone())));
        match &self.name_welsh {
            Some(text) => {
                properties.push(("name_welsh".to_owned(), PropertyValue::Text(text.clone())));
            },
            None => {},
        }
        match self.area_hectares {
            Some(number) => {
                properties.push(("area_hectares".to_owned(), PropertyValue::Number(number)));
            },
            None => {},
        }
        assert(properties_view(properties@) =~= written_properties(*self));
        AreaFeature { geometry, properties }
    }
}

} // verus!
