use url_shortener::errors::{classify_db_conflict, DbConflict, UrlError};
use url_shortener::service::{resolve, shorten, shorten_with_candidates};
use url_shortener::store::{InsertConflict, LinkStore};
use url_shortener::web::{
    error_response, handle_shorten, short_link_url, ShortenReq, STATUS_CREATED,
    STATUS_PERMANENT_REDIRECT,
};

fn id_char_ok(c: char) -> bool {
    c == '_' || c == '-' || c.is_ascii_digit() || c.is_ascii_lowercase() || c.is_ascii_uppercase()
}

#[test]
fn distinct_urls_get_distinct_ids() {
    let mut store = LinkStore::new();
    let a = shorten(&mut store, "https://example.com/a".to_string()).unwrap();
    let b = shorten(&mut store, "https://example.com/b".to_string()).unwrap();
    assert_ne!(a.id, b.id);
    assert_eq!(store.len(), 2);
    assert_eq!(
        resolve(&mut store, &a.id).unwrap(),
        "https://example.com/a"
    );
    assert_eq!(
        resolve(&mut store, &b.id).unwrap(),
        "https://example.com/b"
    );
}

#[test]
fn duplicate_url_is_rejected_without_second_row() {
    let mut store = LinkStore::new();
    let url = "https://example.com/a".to_string();
    let first = shorten(&mut store, url.clone()).unwrap();
    assert_eq!(first.clicks, 0);
    assert_eq!(store.len(), 1);
    let second = shorten(&mut store, url.clone());
    match second {
        Err(UrlError::UrlExisted(u)) => assert_eq!(u, url),
        other => panic!("expected a duplicate-URL conflict, got {:?}", other),
    }
    assert_eq!(store.len(), 1);
}

#[test]
fn every_redirect_is_counted() {
    let mut store = LinkStore::new();
    let l = shorten(&mut store, "https://example.com/a".to_string()).unwrap();
    assert_eq!(store.get_clicks(&l.id), Some(0));
    let n: u64 = 5;
    for _ in 0..n {
        resolve(&mut store, &l.id).unwrap();
    }
    assert_eq!(store.get_clicks(&l.id), Some(n));
}

#[test]
fn unknown_identifier_is_not_found() {
    let mut store = LinkStore::new();
    shorten(&mut store, "https://example.com/a".to_string()).unwrap();
    shorten(&mut store, "https://example.com/b".to_string()).unwrap();
    shorten(&mut store, "https://example.com/c".to_string()).unwrap();
    let missing = "zzzzzz".to_string();
    match resolve(&mut store, &missing) {
        Err(UrlError::UrlNotFound(i)) => assert_eq!(i, missing),
        other => panic!("expected not-found, got {:?}", other),
    }
    assert_eq!(store.len(), 3);
}

#[test]
fn round_trip_counts_first_click() {
    let mut store = LinkStore::new();
    let l = shorten(&mut store, "https://example.com/a".to_string()).unwrap();
    assert_eq!(l.clicks, 0);
    assert_eq!(store.get_clicks(&l.id), Some(0));
    let u = resolve(&mut store, &l.id).unwrap();
    assert_eq!(u, "https://example.com/a");
    assert_eq!(store.get_clicks(&l.id), Some(1));
}

#[test]
fn exhaustion_after_bounded_retries() {
    let mut store = LinkStore::new();
    store
        .insert("aaaaa0".to_string(), "https://example.com/x".to_string())
        .unwrap();
    store
        .insert("aaaaa1".to_string(), "https://example.com/y".to_string())
        .unwrap();
    let candidates = vec![
        "aaaaa0".to_string(),
        "aaaaa1".to_string(),
        "aaaaa0".to_string(),
    ];
    let r = shorten_with_candidates(&mut store, "https://example.com/z".to_string(), &candidates);
    assert!(matches!(r, Err(UrlError::TooManyCollisions)));
    assert_eq!(r.unwrap_err().status_code(), 500);
    assert_eq!(store.len(), 2);
}

#[test]
fn no_candidates_means_exhaustion() {
    let mut store = LinkStore::new();
    store
        .insert("aaaaa0".to_string(), "https://example.com/x".to_string())
        .unwrap();
    let candidates: Vec<String> = vec![];
    let r = shorten_with_candidates(&mut store, "https://example.com/z".to_string(), &candidates);
    assert!(matches!(r, Err(UrlError::TooManyCollisions)));
    assert_eq!(store.len(), 1);
}

#[test]
fn first_fresh_candidate_is_allocated() {
    let mut store = LinkStore::new();
    store
        .insert("aaaaa0".to_string(), "https://example.com/x".to_string())
        .unwrap();
    let candidates = vec!["aaaaa0".to_string(), "bbbbb1".to_string()];
    let l = shorten_with_candidates(&mut store, "https://example.com/z".to_string(), &candidates)
        .unwrap();
    assert_eq!(l.id, "bbbbb1");
    assert_eq!(l.url, "https://example.com/z");
    assert_eq!(l.clicks, 0);
}

#[test]
fn repeated_redirects_return_same_url() {
    let mut store = LinkStore::new();
    let l = shorten(&mut store, "https://example.com/a".to_string()).unwrap();
    for _ in 0..3 {
        assert_eq!(
            resolve(&mut store, &l.id).unwrap(),
            "https://example.com/a"
        );
    }
    assert_eq!(store.get_clicks(&l.id), Some(3));
}

#[test]
fn insert_reports_which_constraint_fired() {
    let mut store = LinkStore::new();
    store
        .insert("aaaaa0".to_string(), "https://example.com/x".to_string())
        .unwrap();
    let id_clash = store.insert("aaaaa0".to_string(), "https://example.com/y".to_string());
    assert!(matches!(id_clash, Err(InsertConflict::IdCollision)));
    let url_clash = store.insert("bbbbb1".to_string(), "https://example.com/x".to_string());
    assert!(matches!(url_clash, Err(InsertConflict::UrlExists)));
    assert_eq!(store.len(), 1);
}

#[test]
fn generated_identifiers_are_well_formed() {
    let mut store = LinkStore::new();
    let l = shorten(&mut store, "https://example.com/a".to_string()).unwrap();
    assert_eq!(l.id.chars().count(), 6);
    assert!(l.id.chars().all(id_char_ok));
}

#[test]
fn short_link_is_base_plus_identifier() {
    let base = "http://127.0.0.1:6688/".to_string();
    let id = "abc123".to_string();
    assert_eq!(short_link_url(&base, &id), "http://127.0.0.1:6688/abc123");
}

#[test]
fn shorten_response_carries_full_link_and_zero_clicks() {
    let mut store = LinkStore::new();
    let base = "http://127.0.0.1:6688/".to_string();
    let req = ShortenReq { url: "https://example.com/a".to_string() };
    let res = handle_shorten(&mut store, &base, req).unwrap();
    assert!(res.url.starts_with("http://127.0.0.1:6688/"));
    assert_eq!(res.url.len(), base.len() + 6);
    assert_eq!(res.clicks, 0);
    assert_eq!(STATUS_CREATED, 201);
}

#[test]
fn duplicate_url_maps_to_unprocessable_envelope() {
    let mut store = LinkStore::new();
    let base = "http://127.0.0.1:6688/".to_string();
    let url = "https://example.com/a".to_string();
    handle_shorten(&mut store, &base, ShortenReq { url: url.clone() }).unwrap();
    let e = handle_shorten(&mut store, &base, ShortenReq { url: url.clone() }).unwrap_err();
    let (status, body) = error_response(&e);
    assert_eq!(status, 422);
    assert_eq!(body.error, "url already existed: https://example.com/a");
}

#[test]
fn error_statuses_and_messages() {
    assert_eq!(UrlError::Storage("boom".to_string()).status_code(), 500);
    assert_eq!(
        UrlError::Storage("boom".to_string()).message(),
        "sql error: boom"
    );
    assert_eq!(
        UrlError::UrlExisted("https://example.com/a".to_string()).status_code(),
        422
    );
    assert_eq!(
        UrlError::UrlNotFound("abc123".to_string()).status_code(),
        404
    );
    assert_eq!(
        UrlError::UrlNotFound("abc123".to_string()).message(),
        "url not found: abc123"
    );
    assert_eq!(UrlError::TooManyCollisions.status_code(), 500);
    assert_eq!(
        UrlError::TooManyCollisions.message(),
        "too many identifier collisions"
    );
    assert_eq!(STATUS_PERMANENT_REDIRECT, 308);
}

#[test]
fn storage_conflicts_are_classified_by_constraint() {
    let uv = Some("23505".to_string());
    assert_eq!(
        classify_db_conflict(&uv, &Some("urls_pkey".to_string())),
        DbConflict::IdTaken
    );
    assert_eq!(
        classify_db_conflict(&uv, &Some("urls_url_key".to_string())),
        DbConflict::UrlTaken
    );
    assert_eq!(classify_db_conflict(&uv, &None), DbConflict::Other);
    assert_eq!(
        classify_db_conflict(&uv, &Some("other_constraint".to_string())),
        DbConflict::Other
    );
    assert_eq!(
        classify_db_conflict(&Some("40001".to_string()), &Some("urls_pkey".to_string())),
        DbConflict::Other
    );
    assert_eq!(classify_db_conflict(&None, &None), DbConflict::Other);
}
