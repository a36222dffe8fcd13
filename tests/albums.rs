use album_query::{
    album_by_token_query, album_images_query, apply_filters, assemble_detail, list_query,
    list_response, split_users, summary_of, tagged_users_query, AlbumDetail, AlbumFilters,
    AlbumRow, Condition, DetailError, SqlParam, Timeframe,
};

const SELECT: &str = "SELECT key, title, description, cover_key, locations, uploader_key, draft, timeframe_from, timeframe_to, created_at FROM albums";
const ORDER: &str = " ORDER BY timeframe_from DESC, timeframe_to DESC";

fn row(key: &str, uploader: &str, draft: bool, from: Option<u64>, to: Option<u64>) -> AlbumRow {
    AlbumRow {
        key: key.to_string(),
        title: "Test Title".to_string(),
        description: Some("Test Description".to_string()),
        cover_key: Some("cover".to_string()),
        locations: Some("home,outside".to_string()),
        uploader_key: uploader.to_string(),
        draft,
        timeframe_from: from,
        timeframe_to: to,
        created_at: 1700,
    }
}

fn filters(user: Option<Vec<&str>>, from: Option<u64>, to: Option<u64>, draft: bool) -> AlbumFilters {
    AlbumFilters {
        user: user.map(|us| us.into_iter().map(|u| u.to_string()).collect()),
        from,
        to,
        draft,
    }
}

fn text(s: &str) -> SqlParam {
    SqlParam::Text(s.to_string())
}

fn caller(s: &str) -> Option<String> {
    Some(s.to_string())
}

#[test]
fn list_query_without_filters_is_published_only() {
    let q = list_query(filters(None, None, None, false), caller("alice"));
    assert_eq!(q.sql, format!("{SELECT} WHERE draft = false{ORDER}"));
    assert!(q.params.is_empty());
}

#[test]
fn list_query_with_every_filter_binds_in_order() {
    let q = list_query(filters(Some(vec!["alice", "bob"]), Some(15), Some(30), true), caller("carol"));
    assert_eq!(
        q.sql,
        format!(
            "{SELECT} WHERE uploader_key IN (?1,?2) AND (timeframe_from >= ?3 OR timeframe_to >= ?3) AND (timeframe_to <= ?4 OR timeframe_from <= ?4) AND (uploader_key = ?5 OR draft = false){ORDER}"
        )
    );
    assert_eq!(
        q.params,
        vec![text("alice"), text("bob"), SqlParam::Integer(15), SqlParam::Integer(30), text("carol")]
    );
}

#[test]
fn list_query_numbers_placeholders_past_nine() {
    let users: Vec<String> = (0..11).map(|i| format!("u{i}")).collect();
    let f = AlbumFilters { user: Some(users), from: Some(3), to: None, draft: false };
    let q = list_query(f, None);
    assert_eq!(
        q.sql,
        format!(
            "{SELECT} WHERE uploader_key IN (?1,?2,?3,?4,?5,?6,?7,?8,?9,?10,?11) AND (timeframe_from >= ?12 OR timeframe_to >= ?12) AND draft = false{ORDER}"
        )
    );
    assert_eq!(q.params.len(), 12);
    assert_eq!(q.params[10], text("u10"));
    assert_eq!(q.params[11], SqlParam::Integer(3));
}

#[test]
fn anonymous_draft_request_degrades_to_published_only() {
    let q = list_query(filters(None, None, None, true), None);
    assert_eq!(q.sql, format!("{SELECT} WHERE draft = false{ORDER}"));
    assert!(q.params.is_empty());
    let d = row("d", "alice", true, None, None);
    assert!(!filters(None, None, None, true).admits(&None, &d));
}

#[test]
fn apply_filters_numbers_after_bound_values() {
    let mut query = String::from("SELECT key FROM albums");
    let mut params = vec![SqlParam::Integer(7)];
    apply_filters(&mut query, &mut params, filters(None, None, Some(9), true), caller("dave"));
    assert_eq!(
        query,
        "SELECT key FROM albums WHERE (timeframe_to <= ?2 OR timeframe_from <= ?2) AND (uploader_key = ?3 OR draft = false)"
    );
    assert_eq!(params, vec![SqlParam::Integer(7), SqlParam::Integer(9), text("dave")]);
}

#[test]
fn conditions_come_in_fixed_order() {
    let cs = filters(Some(vec!["alice"]), Some(1), Some(2), false).conditions(caller("x"));
    assert_eq!(cs.len(), 4);
    assert!(matches!(&cs[0], Condition::UploaderIn(us) if us == &vec!["alice".to_string()]));
    assert!(matches!(cs[1], Condition::ReachesFrom(1)));
    assert!(matches!(cs[2], Condition::ReachesTo(2)));
    assert!(matches!(cs[3], Condition::PublishedOnly));
    let cs = filters(None, None, None, true).conditions(caller("x"));
    assert_eq!(cs.len(), 1);
    assert!(matches!(&cs[0], Condition::OwnerOrPublished(o) if o == "x"));
}

#[test]
fn draft_isolation() {
    let d = row("d", "alice", true, Some(1), Some(2));
    let f = filters(None, None, None, true);
    assert!(!f.admits(&caller("bob"), &d));
    assert!(f.admits(&caller("alice"), &d));
    assert!(!filters(None, None, None, false).admits(&caller("alice"), &d));
}

#[test]
fn published_albums_are_visible_to_everyone() {
    let p = row("p", "alice", false, Some(1), Some(2));
    for who in [caller("alice"), caller("bob"), None] {
        assert!(filters(None, None, None, true).admits(&who, &p));
        assert!(filters(None, None, None, false).admits(&who, &p));
    }
    assert!(!filters(Some(vec!["bob"]), None, None, false).admits(&caller("bob"), &p));
}

#[test]
fn time_overlap_lower_bound() {
    let a = row("a", "alice", false, Some(10), Some(20));
    assert!(filters(None, Some(15), None, false).admits(&None, &a));
    assert!(filters(None, Some(20), None, false).admits(&None, &a));
    assert!(!filters(None, Some(25), None, false).admits(&None, &a));
}

#[test]
fn time_overlap_upper_bound() {
    let a = row("a", "alice", false, Some(10), Some(20));
    assert!(filters(None, None, Some(15), false).admits(&None, &a));
    assert!(filters(None, None, Some(10), false).admits(&None, &a));
    assert!(!filters(None, None, Some(5), false).admits(&None, &a));
}

#[test]
fn time_overlap_with_open_ends() {
    let open_start = row("a", "alice", false, None, Some(20));
    assert!(filters(None, Some(15), None, false).admits(&None, &open_start));
    assert!(!filters(None, Some(25), None, false).admits(&None, &open_start));
    let open = row("b", "alice", false, None, None);
    assert!(!filters(None, Some(0), None, false).admits(&None, &open));
    assert!(!filters(None, None, Some(u64::MAX), false).admits(&None, &open));
    assert!(filters(None, None, None, false).admits(&None, &open));
}

#[test]
fn uploader_filter() {
    let f = filters(Some(vec!["alice", "bob"]), None, None, false);
    assert!(f.admits(&None, &row("1", "alice", false, None, None)));
    assert!(f.admits(&None, &row("2", "bob", false, None, None)));
    assert!(!f.admits(&None, &row("3", "carol", false, None, None)));
    assert!(!f.admits(&None, &row("4", "alic", false, None, None)));
    assert!(filters(None, None, None, false).admits(&None, &row("3", "carol", false, None, None)));
}

#[test]
fn injection_is_bound_not_spliced() {
    let evil = "\"'); DROP TABLE albums;--";
    let plain = list_query(filters(Some(vec!["alice"]), None, None, false), None);
    let q = list_query(filters(Some(vec![evil]), None, None, false), None);
    assert_eq!(q.sql, plain.sql);
    assert!(!q.sql.contains("DROP"));
    assert_eq!(q.params, vec![text(evil)]);
    let f = filters(Some(vec![evil]), None, None, false);
    assert!(!f.admits(&None, &row("1", "alice", false, None, None)));
}

#[test]
fn list_response_orders_latest_first() {
    let rows = vec![
        row("a", "u", false, Some(5), Some(6)),
        row("b", "u", false, None, Some(100)),
        row("c", "u", false, Some(9), None),
        row("d", "u", false, Some(9), Some(12)),
        row("e", "u", false, Some(5), Some(8)),
        row("f", "u", false, None, None),
    ];
    let out = list_response(rows);
    let keys: Vec<&str> = out.iter().map(|s| s.key.as_str()).collect();
    assert_eq!(keys, vec!["d", "c", "e", "a", "b", "f"]);
    assert_eq!(out[0].timeframe, Timeframe { from: Some(9), to: Some(12) });
}

#[test]
fn list_response_keeps_ties_in_row_order() {
    let rows = vec![
        row("x", "u", false, Some(1), Some(2)),
        row("y", "u", false, Some(1), Some(2)),
        row("z", "u", false, Some(1), Some(2)),
    ];
    let keys: Vec<String> = list_response(rows).into_iter().map(|s| s.key).collect();
    assert_eq!(keys, vec!["x", "y", "z"]);
    assert!(list_response(Vec::new()).is_empty());
}

#[test]
fn summary_keeps_every_field() {
    let s = summary_of(row("k", "alice", true, Some(3), None));
    assert_eq!(s.key, "k");
    assert_eq!(s.title, "Test Title");
    assert_eq!(s.description.as_deref(), Some("Test Description"));
    assert_eq!(s.cover_key.as_deref(), Some("cover"));
    assert_eq!(s.locations.as_deref(), Some("home,outside"));
    assert_eq!(s.uploader_key, "alice");
    assert!(s.draft);
    assert_eq!(s.timeframe, Timeframe { from: Some(3), to: None });
    assert_eq!(s.created_at, 1700);
}

#[test]
fn get_album_by_token() {
    let r = row("album-1", "test", true, Some(10), Some(20));
    let images = vec!["img-a".to_string(), "img-b".to_string()];
    let tagged = vec!["friend".to_string()];
    let detail: AlbumDetail<String> = assemble_detail(Some(r), images, tagged).unwrap();
    assert_eq!(detail.key, "album-1");
    assert_eq!(detail.images, vec!["img-a".to_string(), "img-b".to_string()]);
    assert_eq!(detail.tagged_users, vec!["friend".to_string()]);
    assert_eq!(detail.title, "Test Title");
    assert_eq!(detail.description.as_deref(), Some("Test Description"));
    assert_eq!(detail.cover_key, "cover");
    assert_eq!(detail.author, "test");
    assert!(detail.draft);
    assert_eq!(detail.timeframe, Timeframe { from: Some(10), to: Some(20) });
    assert_eq!(detail.created_at, 1700);
}

#[test]
fn unknown_token_is_not_found() {
    let r: Result<AlbumDetail<String>, DetailError> =
        assemble_detail(None, vec!["img".to_string()], vec!["friend".to_string()]);
    assert_eq!(r, Err(DetailError::NotFound));
}

#[test]
fn detail_without_cover_is_refused() {
    let mut r = row("k", "u", false, None, None);
    r.cover_key = None;
    let d: Result<AlbumDetail<String>, DetailError> = assemble_detail(Some(r), vec![], vec![]);
    assert_eq!(d, Err(DetailError::MissingCover));
}

#[test]
fn detail_queries_bind_their_key() {
    let q = album_by_token_query("tok'en".to_string());
    assert!(q.sql.ends_with("WHERE t.share_token = ?1"));
    assert_eq!(q.params, vec![text("tok'en")]);
    let q = album_images_query("k1".to_string());
    assert!(q.sql.contains("WHERE aia.album_key = ?1"));
    assert_eq!(q.params, vec![text("k1")]);
    let q = tagged_users_query("k1".to_string());
    assert_eq!(q.sql, "SELECT username FROM user_album_associations WHERE album_key = ?1");
    assert_eq!(q.params, vec![text("k1")]);
}

#[test]
fn get_all_with_drafts() {
    let mine = row("album-1", "uploader", true, None, None);
    assert!(filters(None, None, None, true).admits(&caller("uploader"), &mine));
}

#[test]
fn get_all_without_drafts() {
    let mine = row("album-1", "uploader", true, None, None);
    assert!(!filters(None, None, None, false).admits(&caller("uploader"), &mine));
}

#[test]
fn split_users_on_commas() {
    assert_eq!(split_users("alice,bob"), vec!["alice".to_string(), "bob".to_string()]);
    assert_eq!(split_users("alice"), vec!["alice".to_string()]);
    assert_eq!(split_users(""), vec![String::new()]);
    assert_eq!(split_users("a,,b,"), vec!["a".to_string(), String::new(), "b".to_string(), String::new()]);
    assert_eq!(split_users("äö,ü"), vec!["äö".to_string(), "ü".to_string()]);
}
