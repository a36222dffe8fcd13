use vstd::multiset::Multiset;
use vstd::prelude::*;

use crate::filter::{CompiledQuery, SqlParam};
use crate::model::{AlbumRow, Timeframe};

verus! {

broadcast use vstd::seq_lib::group_to_multiset_ensures;

/// An album as a list query returns it.
#[derive(Clone, Debug, PartialEq, Eq)]
pub struct AlbumSummary {
    pub key: String,
    pub title: String,
    pub description: Option<String>,
    pub cover_key: Option<String>,
    pub locations: Option<String>,
    pub uploader_key: String,
    pub draft: bool,
    pub timeframe: Timeframe,
    pub created_at: u64,
}

/// The summary of a row: the same fields, the two ends of the timeframe
/// gathered into one.
pub open spec fn summary_spec(row: AlbumRow) -> AlbumSummary {
    AlbumSummary {
        key: row.key,
        title: row.title,
        description: row.description,
        cover_key: row.cover_key,
        locations: row.locations,
        uploader_key: row.uploader_key,
        draft: row.draft,
        timeframe: Timeframe { from: row.timeframe_from, to: row.timeframe_to },
        created_at: row.created_at,
    }
}

/// Where an optional end of a timeframe ranks: an absent end below every
/// timestamp.
pub open spec fn rank(x: Option<u64>) -> int {
    match x {
        Some(v) => v as int,
        None => -1,
    }
}

/// `a` may be listed ahead of `b`: it starts later, or starts together and
/// ends no earlier.
pub open spec fn listed_no_later(a: Timeframe, b: Timeframe) -> bool {
    rank(a.from) > rank(b.from) || (rank(a.from) == rank(b.from) && rank(a.to) >= rank(b.to))
}

/// Each summary may be listed ahead of every one after it.
pub open spec fn in_list_order(s: Seq<AlbumSummary>) -> bool {
    forall|i: int, j: int|
        0 <= i < j < s.len() ==> listed_no_later(#[trigger] s[i].timeframe, #[trigger] s[j].timeframe)
}

/// The summaries of rows, in the rows' order.
pub open spec fn summaries(rows: Seq<AlbumRow>) -> Seq<AlbumSummary> {
    rows.map_values(|row: AlbumRow| summary_spec(row))
}

/// Shapes one row as a list item.
pub fn summary_of(row: AlbumRow) -> (r: AlbumSummary)
    ensures
        r == summary_spec(row),
{
    AlbumSummary {
        key: row.key,
        title: row.title,
        description: row.description,
        cover_key: row.cover_key,
        locations: row.locations,
        uploader_key: row.uploader_key,
        draft: row.draft,
        timeframe: Timeframe { from: row.timeframe_from, to: row.timeframe_to },
        created_at: row.created_at,
    }
}

fn rank_cmp(x: Option<u64>, y: Option<u64>) -> (r: (bool, bool))
    ensures
        r.0 == (rank(x) > rank(y)),
        r.1 == (rank(x) == rank(y)),
{
    match (x, y) {
        (Some(a), Some(b)) => (a > b, a == b),
        (Some(_), None) => (true, false),
        (None, Some(_)) => (false, false),
        (None, None) => (false, true),
    }
}

fn no_later(a: &Timeframe, b: &Timeframe) -> (r: bool)
    ensures
        r == listed_no_later(*a, *b),
{
    let (gt_from, eq_from) = rank_cmp(a.from, b.from);
    let (gt_to, eq_to) = rank_cmp(a.to, b.to);
    gt_from || (eq_from && (gt_to || eq_to))
}

/// Shapes the rows of a list query as summaries, latest timeframes first:
/// by start, then by end, both descending, an absent end last.
pub fn list_response(rows: Vec<AlbumRow>) -> (r: Vec<AlbumSummary>)
    ensures
        in_list_order(r@),
        r@.to_multiset() == summaries(rows@).to_multiset(),
{
    let ghost all = summaries(rows@);
    let mut rows = rows;
    let mut out: Vec<AlbumSummary> = Vec::new();
    while rows.len() > 0
        invariant
            in_list_order(out@),
            out@.to_multiset().add(summaries(rows@).to_multiset()) == all.to_multiset(),
        decreases rows@.len(),
    {
        let ghost before = rows@;
        let row = rows.pop().unwrap();
        proof {
            assert(before =~= rows@.push(row));
            assert(summaries(before) =~= summaries(rows@).push(summary_spec(row)));
        }
        let s = summary_of(row);
        let mut pos: usize = 0;
        while pos < out.len() && !no_later(&s.timeframe, &out[pos].timeframe)
            invariant
                0 <= pos <= out@.len(),
                forall|k: int|
                    0 <= k < pos ==> !listed_no_later(s.timeframe, #[trigger] out@[k].timeframe),
            decreases out@.len() - pos,
        {
            pos = pos + 1;
        }
        let ghost prev = out@;
        proof {
            if pos < out@.len() {
                assert(listed_no_later(s.timeframe, out@[pos as int].timeframe));
            }
        }
        out.insert(pos, s);
        proof {
            assert(out@ == prev.insert(pos as int, s));
            assert forall|i: int, j: int|
                0 <= i < j < out@.len() implies listed_no_later(
                #[trigger] out@[i].timeframe,
                #[trigger] out@[j].timeframe,
            ) by {
                if j < pos {
                    assert(listed_no_later(prev[i].timeframe, prev[j].timeframe));
                } else if j == pos {
                    assert(!listed_no_later(s.timeframe, prev[i].timeframe));
                } else if i < pos {
                    assert(listed_no_later(prev[i].timeframe, prev[j - 1].timeframe));
                } else if i == pos {
                    assert(listed_no_later(s.timeframe, prev[pos as int].timeframe));
                    if pos < j - 1 {
                        assert(listed_no_later(prev[pos as int].timeframe, prev[j - 1].timeframe));
                    }
                } else {
                    assert(listed_no_later(prev[i - 1].timeframe, prev[j - 1].timeframe));
                }
            }
            assert(out@.to_multiset() == prev.to_multiset().insert(s));
            assert(summaries(before).to_multiset() == summaries(rows@).to_multiset().insert(s));
            assert(out@.to_multiset().add(summaries(rows@).to_multiset()) =~= prev.to_multiset().add(
                summaries(before).to_multiset(),
            ));
        }
    }
    proof {
        assert(summaries(rows@) =~= Seq::<AlbumSummary>::empty());
        assert(summaries(rows@).to_multiset() =~= Multiset::empty());
        assert(out@.to_multiset().add(Multiset::empty()) =~= out@.to_multiset());
    }
    out
}

/// An album as a share-token fetch returns it, with its images and tagged
/// users. `I` is the image record of the caller's choosing.
#[derive(Clone, Debug, PartialEq, Eq)]
pub struct AlbumDetail<I> {
    pub key: String,
    pub title: String,
    pub description: Option<String>,
    pub cover_key: String,
    pub author: String,
    pub draft: bool,
    pub timeframe: Timeframe,
    pub created_at: u64,
    pub images: Vec<I>,
    pub tagged_users: Vec<String>,
}

/// Why a share-token fetch yields no album.
#[derive(Clone, Copy, Debug, PartialEq, Eq)]
pub enum DetailError {
    /// No album is shared under the token.
    NotFound,
    /// The shared album's row has no cover key, which the detail requires.
    MissingCover,
}

/// The detail of a row, with its images and tagged users.
pub open spec fn detail_spec<I>(row: AlbumRow, cover_key: String, images: Vec<I>, tagged_users: Vec<
    String,
>) -> AlbumDetail<I> {
    AlbumDetail {
        key: row.key,
        title: row.title,
        description: row.description,
        cover_key,
        author: row.uploader_key,
        draft: row.draft,
        timeframe: Timeframe { from: row.timeframe_from, to: row.timeframe_to },
        created_at: row.created_at,
        images,
        tagged_users,
    }
}

/// Merges the three reads of a share-token fetch: the album row the token
/// resolved to, if any, the album's images and its tagged users. No row is
/// the not-found condition, never an empty album.
pub fn assemble_detail<I>(album: Option<AlbumRow>, images: Vec<I>, tagged_users: Vec<String>) -> (r:
    Result<AlbumDetail<I>, DetailError>)
    ensures
        match album {
            None => r == Err::<AlbumDetail<I>, DetailError>(DetailError::NotFound),
            Some(row) => match row.cover_key {
                None => r == Err::<AlbumDetail<I>, DetailError>(DetailError::MissingCover),
                Some(c) => r == Ok::<AlbumDetail<I>, DetailError>(
                    detail_spec(row, c, images, tagged_users),
                ),
            },
        },
{
    match album {
        None => Err(DetailError::NotFound),
        Some(row) => match row.cover_key {
            None => Err(DetailError::MissingCover),
            Some(cover_key) => Ok(
                AlbumDetail {
                    key: row.key,
                    title: row.title,
                    description: row.description,
                    cover_key,
                    author: row.uploader_key,
                    draft: row.draft,
                    timeframe: Timeframe { from: row.timeframe_from, to: row.timeframe_to },
                    created_at: row.created_at,
                    images,
                    tagged_users,
                },
            ),
        },
    }
}

/// The statement that resolves a share token to its album row.
pub open spec fn album_by_token_sql() -> Seq<char> {
    "SELECT a.key, a.title, a.description, a.cover_key, a.locations, a.uploader_key, a.draft, a.timeframe_from, a.timeframe_to, a.created_at FROM albums a JOIN album_share_tokens t ON t.album_key = a.key WHERE t.share_token = ?1"@
}

/// The statement that reads an album's images through the association table.
pub open spec fn album_images_sql() -> Seq<char> {
    "SELECT i.key, i.uploader, i.uploaded_at, i.file_name, i.size_bytes, i.taken_at, i.location_latitude, i.location_longitude, i.camera_brand, i.camera_model, i.exposure_time, i.f_number, i.focal_length FROM images i INNER JOIN album_image_associations aia ON aia.image_key = i.key WHERE aia.album_key = ?1 ORDER BY i.key"@
}

/// The statement that reads the users tagged in an album.
pub open spec fn tagged_users_sql() -> Seq<char> {
    "SELECT username FROM user_album_associations WHERE album_key = ?1"@
}

/// The query that resolves `share_token`, bound as its only value.
pub fn album_by_token_query(share_token: String) -> (r: CompiledQuery)
    ensures
        r.sql@ == album_by_token_sql(),
        r.params@ == seq![SqlParam::Text(share_token)],
{
    let sql = String::from_str(
        "SELECT a.key, a.title, a.description, a.cover_key, a.locations, a.uploader_key, a.draft, a.timeframe_from, a.timeframe_to, a.created_at FROM albums a JOIN album_share_tokens t ON t.album_key = a.key WHERE t.share_token = ?1",
    );
    let mut params: Vec<SqlParam> = Vec::new();
    params.push(SqlParam::Text(share_token));
    assert(params@ =~= seq![SqlParam::Text(share_token)]);
    CompiledQuery { sql, params }
}

/// The query for the images of the album `album_key`, ordered by image key.
pub fn album_images_query(album_key: String) -> (r: CompiledQuery)
    ensures
        r.sql@ == album_images_sql(),
        r.params@ == seq![SqlParam::Text(album_key)],
{
    let sql = String::from_str(
        "SELECT i.key, i.uploader, i.uploaded_at, i.file_name, i.size_bytes, i.taken_at, i.location_latitude, i.location_longitude, i.camera_brand, i.camera_model, i.exposure_time, i.f_number, i.focal_length FROM images i INNER JOIN album_image_associations aia ON aia.image_key = i.key WHERE aia.album_key = ?1 ORDER BY i.key",
    );
    let mut params: Vec<SqlParam> = Vec::new();
    params.push(SqlParam::Text(album_key));
    assert(params@ =~= seq![SqlParam::Text(album_key)]);
    CompiledQuery { sql, params }
}

/// The query for the users tagged in the album `album_key`.
pub fn tagged_users_query(album_key: String) -> (r: CompiledQuery)
    ensures
        r.sql@ == tagged_users_sql(),
        r.params@ == seq![SqlParam::Text(album_key)],
{
    let sql = String::from_str("SELECT username FROM user_album_associations WHERE album_key = ?1");
    let mut params: Vec<SqlParam> = Vec::new();
    params.push(SqlParam::Text(album_key));
    assert(params@ =~= seq![SqlParam::Text(album_key)]);
    CompiledQuery { sql, params }
}

} // verus!
