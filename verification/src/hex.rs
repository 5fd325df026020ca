use vstd::prelude::*;
use crate::cells::HexCell;
use crate::error::InfraHexError;
use crate::geometry::{FromGeoJson, GeoJsonValue, LineString};
use crate::table::PipelineData;

verus! {

/// Whether `outcome` is what the extraction of the cells of a geometry gives:
/// a record without geometry fails; a geometry that is no line fails with
/// the error of the reading; for a line, the grid resolver decides.
pub open spec fn cells_of<T: Copy, F: Fn(&LineString<T>, u8) -> Result<Vec<HexCell>, InfraHexError>>(
    resolve: F,
    shape: Option<GeoJsonValue<T>>,
    zoom: u8,
    outcome: Result<Vec<HexCell>, InfraHexError>,
) -> bool {
    match shape {
        None => outcome matches Err(InfraHexError::Geometry(message)) && message@
            == "Feature has no geometry"@,
        Some(geometry) => exists|read: Result<LineString<T>, InfraHexError>|
            {
                &&& #[trigger] LineString::<T>::reads(geometry, read)
                &&& match read {
                    Ok(line) => resolve.ensures((&line, zoom), outcome),
                    Err(error) => outcome == Err::<Vec<HexCell>, InfraHexError>(error),
                }
            },
    }
}

/// Whether the cells of a geometry can be asked for: its positions can be
/// read, and the grid resolver takes every line.
pub open spec fn extractable<T: Copy, F: Fn(&LineString<T>, u8) -> Result<
    Vec<HexCell>,
    InfraHexError,
>>(resolve: F, shape: Option<GeoJsonValue<T>>, zoom: u8) -> bool {
    shape matches Some(geometry) ==> {
        &&& LineString::<T>::readable(geometry)
        &&& forall|line: LineString<T>| #[trigger] resolve.requires((&line, zoom))
    }
}

/// The cells that the geometry of a record touches at a zoom level.
///
/// `resolve` is the grid resolver: it gives the cells that a line touches.
pub fn get_hex_cells<T, R, F>(record: &R, zoom: u8, resolve: &F) -> (outcome: Result<
    Vec<HexCell>,
    InfraHexError,
>) where
    T: Copy,
    R: PipelineData<T>,
    F: Fn(&LineString<T>, u8) -> Result<Vec<HexCell>, InfraHexError>,

    requires
        extractable(*resolve, record.shape(), zoom),
    ensures
        cells_of(*resolve, record.shape(), zoom, outcome),
{
    match record.geo_shape() {
        None => Err(InfraHexError::Geometry("Feature has no geometry".to_owned())),
        Some(geometry) => {
            let read = LineString::from_geojson(geometry);
            let ghost witness = read;
            match read {
                Ok(line) => {
                    let outcome = resolve(&line, zoom);
                    assert(LineString::<T>::reads(*geometry, witness));
                    outcome
                },
                Err(error) => {
                    assert(LineString::<T>::reads(*geometry, witness));
                    Err(error)
                },
            }
        },
    }
}

} // verus!
