use vstd::prelude::*;

verus! {

/// The span of time an album depicts; either end may be absent (unbounded).
#[derive(Clone, Copy, Debug, PartialEq, Eq)]
pub struct Timeframe {
    pub from: Option<u64>,
    pub to: Option<u64>,
}

/// One row of the `albums` table, as read from storage.
#[derive(Clone, Debug, PartialEq, Eq)]
pub struct AlbumRow {
    pub key: String,
    pub title: String,
    pub description: Option<String>,
    pub cover_key: Option<String>,
    pub locations: Option<String>,
    pub uploader_key: String,
    pub draft: bool,
    pub timeframe_from: Option<u64>,
    pub timeframe_to: Option<u64>,
    pub created_at: u64,
}

/// The text of an optional string.
pub open spec fn opt_text(s: Option<String>) -> Option<Seq<char>> {
    match s {
        Some(v) => Some(v@),
        None => None,
    }
}

/// The texts of a sequence of strings.
pub open spec fn texts(v: Seq<String>) -> Seq<Seq<char>> {
    v.map_values(|s: String| s@)
}

} // verus!
