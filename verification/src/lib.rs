//! Hexagonal-grid aggregation of linear infrastructure records.
//!
//! The crate has two halves. The first plans and folds a paginated retrieval:
//! which pages to ask for, in which waves, with which pauses, and how the page
//! results combine into one outcome. The second turns the grid cells that each
//! record touches into a per-record table or a per-cell summary, optionally
//! restricted to the cells of a boundary.
//!
//! The grid itself is not part of the crate: the cells that a line or a
//! polygon touches come from a grid resolver, which the caller hands in as a
//! function. Coordinates are moved and never computed with, so their number
//! type is left open.
//!
//! The logic is verified with Verus, with contracts over sequences and sets of
//! plain values. Where the crate calls into `arrow`, `urlencoding` or a part
//! of std that Verus does not know, the call stands behind a contract that is
//! stated and believed, and its documentation says what is believed.

pub mod aggregate;
pub mod batch;
pub mod boundary;
pub mod built_up_area;
pub mod cells;
pub mod error;
pub mod fetch;
pub mod geometry;
pub mod hex;
pub mod invariance;
pub mod pagination;
pub mod records;
pub mod summary;
pub mod table;
pub mod types;
pub mod url;

pub use aggregate::{
    to_hex_summary, to_hex_summary_no_geom, to_hex_summary_within, to_record_batch,
    to_record_batch_no_geom, to_record_batch_within,
};
pub use boundary::BoundaryFilter;
pub use built_up_area::BuiltUpArea;
pub use cells::{CellIdSet, HexCell};
pub use error::InfraHexError;
pub use fetch::{fetch_all_counted, fetch_all_pages, plan_fetch_all};
pub use geometry::{polygon_to_geojson, FromGeoJson, ToGeoJson};
pub use hex::get_hex_cells;
pub use pagination::{FetchAction, FetchPlan, PageQuery, PaginationConfig};
pub use records::{CadentPipelineRecord, PipelineRecord};
pub use summary::SummaryRow;
pub use table::{PipelineData, RecordRow};
pub use types::{ApiResponse, BBox, GeoPoint2d, InfraResult};
