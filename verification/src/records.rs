use vstd::prelude::*;
use crate::geometry::GeoJsonValue;
use crate::table::{as_text, owned_text_of, PipelineData};
use crate::types::GeoPoint2d;

verus! {

/// One record of the Cadent gas-pipe dataset. The number type of its
/// coordinates and measures is left open; the library reads none of them.
#[derive(Debug)]
pub struct CadentPipelineRecord<T> {
    pub geo_point_2d: GeoPoint2d<T>,
    pub geo_shape: Option<GeoJsonValue<T>>,
    pub pipe_type: Option<String>,
    pub pressure: Option<String>,
    pub material: Option<String>,
    pub diameter: Option<T>,
    pub diam_unit: Option<String>,
    pub carr_mat: Option<String>,
    pub carr_dia: Option<T>,
    pub carr_di_un: Option<String>,
    pub asset_id: Option<String>,
    pub depth: Option<T>,
    pub ag_ind: Option<String>,
    pub inst_date: Option<String>,
}

/// The record that the aggregation works on.
pub type PipelineRecord<T> = CadentPipelineRecord<T>;

impl<T> PipelineData<T> for CadentPipelineRecord<T> {
    open spec fn shape(&self) -> Option<GeoJsonValue<T>> {
        self.geo_shape
    }

    open spec fn asset_id_text(&self) -> Option<Seq<char>> {
        owned_text_of(self.asset_id)
    }

    open spec fn pipe_type_text(&self) -> Option<Seq<char>> {
        owned_text_of(self.pipe_type)
    }

    open spec fn material_text(&self) -> Option<Seq<char>> {
        owned_text_of(self.material)
    }

    open spec fn pressure_text(&self) -> Option<Seq<char>> {
        owned_text_of(self.pressure)
    }

    fn geo_shape(&self) -> (shape: Option<&GeoJsonValue<T>>) {
        match &self.geo_shape {
            Some(value) => Some(value),
            None => None,
        }
    }

    fn asset_id(&self) -> (value: Option<&str>) {
        as_text(&self.asset_id)
    }

    fn pipe_type(&self) -> (value: Option<&str>) {
        as_text(&self.pipe_type)
    }

    fn material(&self) -> (value: Option<&str>) {
        as_text(&self.material)
    }

    fn pressure(&self) -> (value: Option<&str>) {
        as_text(&self.pressure)
    }
}

} // verus!
