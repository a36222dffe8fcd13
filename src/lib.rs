//! Query construction, visibility policy and read-model assembly for a
//! photo-album service.
//!
//! The filter compiler turns a list request and the caller's identity into a
//! typed list of conditions, then renders them as a parameterised SQL predicate
//! whose text depends only on the shape of the request; the values travel as
//! bound parameters. The assembler shapes storage rows into the list summary
//! and the detail record.
pub mod model;
pub mod filter;
pub mod assemble;
pub mod laws;

pub use model::{AlbumRow, Timeframe};
pub use filter::{
    apply_filters, list_query, split_users, AlbumFilters, CompiledQuery, Condition,
    ConditionView, FiltersView, ParamValue, SqlParam,
};
pub use assemble::{
    album_by_token_query, album_images_query, assemble_detail, list_response, summary_of,
    tagged_users_query, AlbumDetail, AlbumSummary, DetailError,
};
