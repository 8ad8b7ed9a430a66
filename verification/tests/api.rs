use ente_api::account::{AccountSecrets, LoginError};
use ente_api::api::{
    auth, auth_two_factor, authed_client, bearer_token, default_limit, delete_image,
    ensure_library, find_image, get_image, health, image_page, library_needed, list_images,
    forget_image, keep_library, list_people, login_client, logout, master_key, pending_answer,
    people_doc, require_token, session_client, session_image, session_key, session_needs_library,
    session_people, sniff_media_type, take_pending, upstream_error, AppError,
};
use ente_api::client::EnteApiError;
use ente_api::config::Settings;
use ente_api::doc::Doc;
use ente_api::files::{ImageFile, ImageFilter};
use ente_api::json::parse_json;
use ente_api::people::{ingest_cgroup, PeopleIndex};
use ente_api::sessions::{PendingInfo, Session, SessionStore};
use ente_api::sync::Synced;
use std::collections::HashMap;

const SECOND: u128 = 1_000_000_000;

fn secrets(id: i64) -> AccountSecrets {
    AccountSecrets {
        user_id: id,
        token: "museum".to_string(),
        master_key: vec![1; 32],
        secret_key: vec![2; 32],
        public_key: vec![3; 32],
    }
}

fn settings() -> Settings {
    Settings::from_env(&vec![])
}

fn field<'a>(doc: &'a Doc, key: &str) -> &'a Doc {
    match doc {
        Doc::Fields(fields) => &fields.iter().find(|(k, _)| k == key).unwrap().1,
        _ => panic!("no fields"),
    }
}

fn text(doc: &Doc) -> String {
    match doc {
        Doc::Text(t) => t.clone(),
        _ => panic!("no text"),
    }
}

fn fault<T>(r: Result<T, AppError>) -> (u16, String) {
    match r {
        Ok(_) => panic!("no fault"),
        Err(e) => (e.status, e.detail),
    }
}

fn image(id: i64) -> ImageFile {
    ImageFile {
        id,
        collection_id: 10,
        album_name: "A".to_string(),
        key: vec![],
        decryption_header: String::new(),
        file_size: None,
        title: None,
        file_type: 0,
        creation_time: Some(id),
        modification_time: None,
        latitude: None,
        longitude: None,
        file_hash: None,
        is_deleted: false,
        faces: vec![],
        face_image_width: None,
        face_image_height: None,
    }
}

fn library(n: i64) -> HashMap<i64, ImageFile> {
    (1..=n).map(|id| (id, image(id))).collect()
}

fn nothing() -> ImageFilter {
    ImageFilter {
        album: None,
        media_type: None,
        time_from: None,
        time_to: None,
        has_location: None,
        min_lat: None,
        max_lat: None,
        min_lon: None,
        max_lon: None,
        filename: None,
        has_faces: None,
        min_faces: None,
        person: None,
    }
}

#[test]
fn sessions_expire_when_idle() {
    let mut store = SessionStore::new(10);
    store.create_at(secrets(7), "t", 100 * SECOND);
    assert!(store.with_session_at("none", 100 * SECOND, 100 * SECOND).is_none());
    let s = store.with_session_at("t", 110 * SECOND, 110 * SECOND).unwrap();
    assert_eq!((s.created_at, s.last_used), (100 * SECOND, 110 * SECOND));
    assert_eq!(s.secrets.user_id, 7);
    assert!(s.library.is_none());
    // Each use refreshes.
    assert!(store.with_session_at("t", 120 * SECOND, 119 * SECOND).is_some());
    assert!(store.with_session_at("t", 129 * SECOND + 1, 130 * SECOND).is_none());
    // An expired session is gone for good.
    assert!(store.with_session_at("t", 119 * SECOND, 119 * SECOND).is_none());
    assert!(!store.delete("t"));
}

#[test]
fn clocks_that_go_back_expire_nothing() {
    let mut store = SessionStore::new(10);
    store.create_at(secrets(7), "t", 100 * SECOND);
    assert!(store.with_session_at("t", 1, 1).is_some());
}

#[test]
fn deleted_sessions_are_gone_and_others_stay() {
    let mut store = SessionStore::new(1000);
    let a = store.create(secrets(1));
    let b = store.create(secrets(2));
    assert_ne!(a, b);
    assert_eq!(a.len(), 43);
    assert!(a.chars().all(|c| c.is_ascii_alphanumeric() || c == '-' || c == '_'));
    assert!(store.with_session(&a).is_some());
    assert!(store.delete(&a));
    assert!(!store.delete(&a));
    assert!(store.with_session(&a).is_none());
    assert_eq!(store.with_session(&b).unwrap().secrets.user_id, 2);
}

#[test]
fn pending_logins_are_taken_once_and_in_time() {
    let mut store = SessionStore::new(1000);
    store.create_pending_at("s".to_string(), [4; 32], "t", 5 * SECOND);
    let info = store.pop_pending_at("t", 605 * SECOND).unwrap();
    assert_eq!(info.two_factor_session_id, "s");
    assert_eq!(info.kek, [4; 32]);
    assert!(store.pop_pending_at("t", 6 * SECOND).is_none());
    store.create_pending_at("s".to_string(), [4; 32], "t", 5 * SECOND);
    assert!(store.pop_pending_at("t", 605 * SECOND + 1).is_none());
    assert!(store.pop_pending_at("t", 6 * SECOND).is_none());
    let token = store.create_pending("x".to_string(), [5; 32]);
    assert_eq!(token.len(), 32);
    assert!(store.pop_pending(&token).is_some());
    assert!(store.pop_pending(&token).is_none());
}

#[test]
fn bearer_tokens_are_read_from_the_header() {
    assert_eq!(bearer_token(None), None);
    assert_eq!(bearer_token(Some("Bearer abc")), Some("abc".to_string()));
    assert_eq!(bearer_token(Some("bearer   abc  ")), Some("abc".to_string()));
    assert_eq!(bearer_token(Some("BEARER abc")), None);
    assert_eq!(bearer_token(Some("Bearer   ")), None);
    assert_eq!(bearer_token(Some("Bearer")), None);
    assert_eq!(bearer_token(Some("Basic abc")), None);
    assert_eq!(require_token(Some("Bearer x")).unwrap(), "x");
    assert_eq!(fault(require_token(None)), (401, "missing bearer token".to_string()));
}

#[test]
fn logins_are_answered() {
    let mut store = SessionStore::new(1000);
    let doc = auth(&mut store, Ok(secrets(7))).unwrap();
    assert!(matches!(field(&doc, "user_id"), Doc::Int(7)));
    let token = text(field(&doc, "token"));
    assert_eq!(store.with_session(&token).unwrap().secrets.user_id, 7);

    let wanted = LoginError::TwoFactorRequired { session_id: "s".to_string(), kek: [6; 32] };
    let doc = auth(&mut store, Err(wanted)).unwrap();
    assert!(matches!(field(&doc, "two_factor_required"), Doc::Bool(true)));
    let mfa = text(field(&doc, "mfa_token"));
    let pending = take_pending(&mut store, &mfa).unwrap();
    assert_eq!(pending.two_factor_session_id, "s");
    assert_eq!(pending.kek, [6; 32]);
    assert_eq!(
        fault(take_pending(&mut store, &mfa)),
        (401, "invalid or expired 2FA token".to_string())
    );

    let m = || "msg".to_string();
    assert_eq!(fault(auth(&mut store, Err(LoginError::Unsupported(m())))), (400, m()));
    assert_eq!(fault(auth(&mut store, Err(LoginError::Recoverable(m())))), (401, m()));
    let api = LoginError::Api(EnteApiError::Transport(m()));
    assert_eq!(
        fault(auth(&mut store, Err(api))),
        (502, "cannot reach museum instance: msg".to_string())
    );
}

#[test]
fn second_factors_are_answered() {
    let mut store = SessionStore::new(1000);
    let doc = auth_two_factor(&mut store, Ok(secrets(8))).unwrap();
    assert!(matches!(field(&doc, "user_id"), Doc::Int(8)));
    assert!(store.with_session(&text(field(&doc, "token"))).is_some());
    let m = || "msg".to_string();
    let api = LoginError::Api(EnteApiError::Status(500, m()));
    assert_eq!(
        fault(auth_two_factor(&mut store, Err(api))),
        (502, "museum returned 500: msg".to_string())
    );
    assert_eq!(
        fault(auth_two_factor(&mut store, Err(LoginError::Unsupported(m())))),
        (401, m())
    );
    let again = LoginError::TwoFactorRequired { session_id: m(), kek: [0; 32] };
    assert_eq!(
        fault(auth_two_factor(&mut store, Err(again))),
        (401, "two-factor authentication required".to_string())
    );
}

#[test]
fn logout_drops_the_session() {
    let mut store = SessionStore::new(1000);
    store.create_at(secrets(1), "tok", 5);
    assert_eq!(logout(&mut store, None), 204);
    assert_eq!(logout(&mut store, Some("Bearer other")), 204);
    assert!(store.with_session_at("tok", 5, 5).is_some());
    assert_eq!(logout(&mut store, Some("Bearer tok")), 204);
    assert!(store.with_session_at("tok", 5, 5).is_none());
    let expired = (401, "invalid or expired token".to_string());
    assert_eq!(fault(authed_client(&settings(), &mut store, "tok")), expired);
    assert_eq!(fault(library_needed(&mut store, "tok", false)), expired);
    assert_eq!(fault(master_key(&mut store, "tok")), expired);
    assert_eq!(fault(find_image(&mut store, "tok", 1)), expired);
    assert_eq!(
        fault(list_images(&settings(), &mut store, "tok", &nothing(), 1, 0)),
        expired
    );
    assert_eq!(fault(list_people(&mut store, "tok")), expired);
    let synced = Synced { library: library(1), people: None };
    assert_eq!(fault(ensure_library(&mut store, "tok", Ok(synced))), expired);
    assert_eq!(delete_image(&mut store, "tok", 1), 204);
}

#[test]
fn clients_carry_the_token_of_the_session() {
    let mut store = SessionStore::new(1000);
    let token = store.create(secrets(1));
    let client = authed_client(&settings(), &mut store, &token).unwrap();
    let request = client.get("/x", vec![]);
    assert_eq!(request.url, "http://localhost:8080/x");
    assert!(request.headers.contains(&("X-Auth-Token".to_string(), "museum".to_string())));
    assert_eq!(client.timeout(), 60);
    assert_eq!(login_client(&settings()).get("/x", vec![]).headers.len(), 2);
    assert_eq!(master_key(&mut store, &token).unwrap(), vec![1; 32]);
}

fn ready_store(n: i64) -> (SessionStore, String) {
    let mut store = SessionStore::new(1000);
    let token = store.create(secrets(1));
    assert!(library_needed(&mut store, &token, false).unwrap());
    assert!(!store.library_is_ready(&token));
    let mut people = PeopleIndex::default();
    let data = parse_json(br#"{"name": "Ann", "manuallyAssigned": [1, 2, 99]}"#).unwrap();
    ingest_cgroup(&mut people, "p", &data);
    let synced = Synced { library: library(n), people: Some(people) };
    assert!(ensure_library(&mut store, &token, Ok(synced)).is_ok());
    assert!(store.library_is_ready(&token));
    (store, token)
}

#[test]
fn libraries_are_loaded_once_unless_forced() {
    let (mut store, token) = ready_store(2);
    assert!(!library_needed(&mut store, &token, false).unwrap());
    assert!(library_needed(&mut store, &token, true).unwrap());
    let failed = Err(EnteApiError::Decode("x".to_string()));
    assert_eq!(
        fault(ensure_library(&mut store, &token, failed)),
        (502, "unexpected response: x".to_string())
    );
    assert_eq!(store.with_session(&token).unwrap().library.as_ref().unwrap().len(), 2);
}

fn ids(doc: &Doc) -> Vec<i64> {
    match field(doc, "images") {
        Doc::List(items) => items
            .iter()
            .map(|d| match field(d, "id") {
                Doc::Int(n) => *n,
                _ => panic!("no id"),
            })
            .collect(),
        _ => panic!("no list"),
    }
}

#[test]
fn images_are_listed_in_pages() {
    let (mut store, token) = ready_store(7);
    let doc = list_images(&settings(), &mut store, &token, &nothing(), 3, 2).unwrap();
    assert!(matches!(field(&doc, "count"), Doc::Count(7)));
    assert_eq!(ids(&doc), vec![5, 4, 3]);
    let page = |limit, offset| {
        ids(&image_page(&settings(), &library(7), &nothing(), limit, offset))
    };
    assert_eq!(page(0, 0), vec![7]);
    assert_eq!(page(500, 0), vec![7, 6, 5, 4, 3, 2, 1]);
    assert_eq!(page(5, 5), vec![2, 1]);
    assert_eq!(page(5, 7), Vec::<i64>::new());
    assert_eq!(page(5, usize::MAX), Vec::<i64>::new());
    let mut tiled = page(2, 1);
    tiled.extend(page(3, 3));
    assert_eq!(tiled, page(5, 1));
    assert_eq!(default_limit(), 500);
    let many = library(10050);
    let doc = image_page(&settings(), &many, &nothing(), usize::MAX, 0);
    assert_eq!(ids(&doc).len(), 10000);
    match field(&doc, "images") {
        Doc::List(items) => assert_eq!(
            text(field(&items[0], "downloadUrl")),
            "http://localhost:8080/files/download/10050"
        ),
        _ => panic!("no list"),
    }
}

#[test]
fn people_are_listed() {
    let (mut store, token) = ready_store(2);
    let doc = list_people(&mut store, &token).unwrap();
    assert!(matches!(field(&doc, "count"), Doc::Count(1)));
    match field(&doc, "people") {
        Doc::List(items) => {
            assert_eq!(text(field(&items[0], "id")), "p");
            assert_eq!(text(field(&items[0], "name")), "Ann");
            assert!(matches!(field(&items[0], "imageCount"), Doc::Count(2)));
        }
        _ => panic!("no list"),
    }
    let synced = Synced { library: library(1), people: None };
    assert!(ensure_library(&mut store, &token, Ok(synced)).is_ok());
    let doc = list_people(&mut store, &token).unwrap();
    assert!(matches!(field(&doc, "count"), Doc::Count(0)));
}

#[test]
fn images_are_found_and_deleted() {
    let (mut store, token) = ready_store(3);
    assert_eq!(find_image(&mut store, &token, 2).unwrap().id, 2);
    let missing = (404, "image not found".to_string());
    assert_eq!(fault(find_image(&mut store, &token, 9)), missing);
    assert_eq!(delete_image(&mut store, &token, 2), 204);
    assert_eq!(fault(find_image(&mut store, &token, 2)), missing);
    assert!(find_image(&mut store, &token, 1).is_ok());
    if let Some(s) = store.with_session(&token) {
        s.library.as_mut().unwrap().get_mut(&1).unwrap().is_deleted = true;
    }
    assert_eq!(fault(find_image(&mut store, &token, 1)), missing);
    let fresh = store.create(secrets(2));
    assert_eq!(fault(find_image(&mut store, &fresh, 1)), missing);
}

#[test]
fn images_come_with_their_headers() {
    let mut f = image(5);
    let headers = get_image(&settings(), &f, 5, b"BM..");
    let pair = |k: &str, v: &str| (k.to_string(), v.to_string());
    assert_eq!(
        headers,
        vec![
            pair("content-type", "image/bmp"),
            pair("content-disposition", "inline; filename=\"5\""),
            pair("X-Encrypted-Download-Url", "http://localhost:8080/files/download/5"),
        ]
    );
    f.title = Some("a b.jpg".to_string());
    assert_eq!(get_image(&settings(), &f, 5, b"")[1].1, "inline; filename=\"a b.jpg\"");
}

#[test]
fn media_types_are_sniffed() {
    for (data, expected) in [
        (&b"\xff\xd8\xff\xe0"[..], "image/jpeg"),
        (b"\x89PNG\r\n\x1a\nrest", "image/png"),
        (b"GIF87a", "image/gif"),
        (b"GIF89a..", "image/gif"),
        (b"BM", "image/bmp"),
        (b"\0\0\0\x18ftypheic", "image/heic"),
        (b"\0\0\0\x18ftypheix..", "image/heic"),
        (b"\0\0\0\x18ftypmif1", "image/heic"),
        (b"\0\0\0\x18ftypheim", "image/heic"),
        (b"\0\0\0\x18ftypavif", "image/avif"),
        (b"\0\0\0\x18ftypisom", "application/octet-stream"),
        (b"\0\0\0\x18ftyphei", "application/octet-stream"),
        (b"\xff\xd8", "application/octet-stream"),
        (b"\x89PNG\r\n\x1a", "application/octet-stream"),
        (b"", "application/octet-stream"),
    ] {
        assert_eq!(sniff_media_type(data), expected);
    }
}

#[test]
fn errors_have_a_detail() {
    let e = upstream_error(&EnteApiError::Status(418, "tea".to_string()));
    assert_eq!((e.status, e.detail.as_str()), (502, "museum returned 418: tea"));
    assert_eq!(text(field(&e.body(), "detail")), "museum returned 418: tea");
    assert_eq!(text(field(&health(), "status")), "ok");
}

#[test]
fn sessions_answer_without_a_store() {
    let mut session = Session {
        secrets: secrets(3),
        created_at: 1,
        last_used: 2,
        library: None,
        people: None,
    };
    let expired = (401, "invalid or expired token".to_string());
    let missing = (404, "image not found".to_string());
    assert_eq!(fault(session_client(&settings(), None)), expired);
    assert_eq!(fault(session_key(None)), expired);
    assert_eq!(fault(session_needs_library(None, true)), expired);
    assert_eq!(fault(session_image(None, 1)), expired);
    assert_eq!(fault(session_image(Some(&session), 1)), missing);
    assert!(session_needs_library(Some(&session), false).unwrap());
    assert_eq!(session_key(Some(&session)).unwrap(), vec![1; 32]);
    let client = session_client(&settings(), Some(&session)).unwrap();
    assert_eq!(client.get("/x", vec![]).headers.len(), 3);

    forget_image(&mut session, 1);
    assert!(session.library.is_none());
    keep_library(&mut session, Synced { library: library(2), people: None });
    assert!(!session_needs_library(Some(&session), false).unwrap());
    assert!(session_needs_library(Some(&session), true).unwrap());
    assert_eq!(session_image(Some(&session), 2).unwrap().id, 2);
    forget_image(&mut session, 2);
    assert_eq!(fault(session_image(Some(&session), 2)), missing);
    assert_eq!(session.library.as_ref().unwrap().len(), 1);
    let doc = session_people(&session, session.library.as_ref().unwrap());
    assert!(matches!(field(&doc, "count"), Doc::Count(0)));
    let rows = vec![("i".to_string(), "n".to_string(), 4usize)];
    match field(&people_doc(&rows), "people") {
        Doc::List(items) => assert!(matches!(field(&items[0], "imageCount"), Doc::Count(4))),
        _ => panic!("no list"),
    }
}

#[test]
fn pending_logins_that_are_missing_are_refused() {
    let info = PendingInfo { two_factor_session_id: "s".to_string(), kek: [1; 32] };
    assert_eq!(pending_answer(Some(info)).unwrap().kek, [1; 32]);
    assert_eq!(
        fault(pending_answer(None)),
        (401, "invalid or expired 2FA token".to_string())
    );
}
