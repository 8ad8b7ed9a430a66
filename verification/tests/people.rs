use base64::engine::general_purpose::STANDARD;
use base64::Engine;
use dryoc::classic::crypto_secretbox::crypto_secretbox_easy;
use dryoc::classic::crypto_secretstream_xchacha20poly1305::{
    crypto_secretstream_xchacha20poly1305_init_push, crypto_secretstream_xchacha20poly1305_push,
    State,
};
use ente_api::client::{EnteApiError, HttpRequest, MuseumClient, Reply};
use ente_api::config::Settings;
use ente_api::doc::Doc;
use ente_api::faces::{
    attach_faces, continue_faces, fetch_faces, parse_face_index, FacesStage, FacesStep, FileFaces,
};
use ente_api::files::ImageFile;
use ente_api::json::{parse_json, Json};
use ente_api::people::{
    continue_people, fetch_people, file_id_from_face_id, ingest_cgroup, PeopleIndex, PeopleStage,
    PeopleStep,
};
use ente_api::sync::{continue_sync, start_sync, SyncStage, SyncStep};
use flate2::write::GzEncoder;
use flate2::Compression;
use std::collections::HashMap;
use std::io::Write;

const MASTER: [u8; 32] = [1; 32];
const ENTITY: [u8; 32] = [2; 32];
const FILE: [u8; 32] = [3; 32];

fn json(s: &str) -> Json {
    parse_json(s.as_bytes()).unwrap()
}

fn boxed(plain: &[u8], key: &[u8; 32]) -> (String, String) {
    let nonce = [5u8; 24];
    let mut cipher = vec![0u8; plain.len() + 16];
    crypto_secretbox_easy(&mut cipher, plain, &nonce, key).unwrap();
    (STANDARD.encode(cipher), STANDARD.encode(nonce))
}

fn streamed(plain: &[u8], key: &[u8; 32]) -> (String, String) {
    let mut state = State::new();
    let mut header = [0u8; 24];
    crypto_secretstream_xchacha20poly1305_init_push(&mut state, &mut header, key);
    let mut chunk = vec![0u8; plain.len() + 17];
    crypto_secretstream_xchacha20poly1305_push(&mut state, &mut chunk, plain, None, 3).unwrap();
    (STANDARD.encode(chunk), STANDARD.encode(header))
}

fn zipped(plain: &str) -> Vec<u8> {
    let mut encoder = GzEncoder::new(Vec::new(), Compression::default());
    encoder.write_all(plain.as_bytes()).unwrap();
    encoder.finish().unwrap()
}

fn client() -> MuseumClient {
    MuseumClient::new("https://m.example", 5, Some("tok".to_string()))
}

fn ok(body: &str) -> Result<Reply, String> {
    Ok(Reply {
        status: 200,
        location: None,
        text: String::new(),
        bytes: Ok(body.as_bytes().to_vec()),
    })
}

fn refused(status: u16) -> Result<Reply, String> {
    Ok(Reply { status, location: None, text: "no".to_string(), bytes: Ok(vec![]) })
}

fn image(id: i64) -> ImageFile {
    ImageFile {
        id,
        collection_id: 10,
        album_name: String::new(),
        key: FILE.to_vec(),
        decryption_header: String::new(),
        file_size: None,
        title: None,
        file_type: 0,
        creation_time: None,
        modification_time: None,
        latitude: None,
        longitude: None,
        file_hash: None,
        is_deleted: false,
        faces: vec![],
        face_image_width: None,
        face_image_height: None,
    }
}

fn library(ids: &[i64]) -> HashMap<i64, ImageFile> {
    ids.iter().map(|id| (*id, image(*id))).collect()
}

#[test]
fn file_ids_of_faces() {
    assert_eq!(file_id_from_face_id("12_abc_d"), Some(12));
    assert_eq!(file_id_from_face_id("12"), Some(12));
    assert_eq!(file_id_from_face_id("-3_x"), Some(-3));
    assert_eq!(file_id_from_face_id("x_12"), None);
    assert_eq!(file_id_from_face_id(""), None);
}

fn alice() -> Json {
    json(
        r#"{"name": "  Alice ", "assigned": [{"faces": ["1_a", "2_a", 5]}, {}, {"faces": ["x"]}],
            "manuallyAssigned": [7, "8", null]}"#,
    )
}

#[test]
fn people_enter_the_index() {
    let mut index = PeopleIndex::default();
    ingest_cgroup(&mut index, "p1", &alice());
    assert_eq!(index.people.get("p1").unwrap().name, "Alice");
    assert_eq!(index.people.get("p1").unwrap().clone().id, "p1");
    let mut files: Vec<i64> = index.person_file_ids.get("p1").unwrap().iter().copied().collect();
    files.sort();
    assert_eq!(files, vec![1, 2, 7, 8]);
    for face in ["1_a", "2_a", "x"] {
        assert_eq!(
            index.person_for_face(face),
            (Some("p1".to_string()), Some("Alice".to_string()))
        );
    }
    assert_eq!(index.person_for_face("9_z"), (None, None));
    // A later person takes a face over.
    ingest_cgroup(&mut index, "p2", &json(r#"{"name": "Bob", "assigned": [{"faces": ["1_a"]}]}"#));
    assert_eq!(index.person_for_face("1_a").0, Some("p2".to_string()));
    assert_eq!(index.person_for_face("2_a").0, Some("p1".to_string()));
}

#[test]
fn hidden_and_unnamed_groups_stay_out() {
    let mut index = PeopleIndex::default();
    ingest_cgroup(&mut index, "p", &json(r#"{"name": "A", "isHidden": true}"#));
    ingest_cgroup(&mut index, "p", &json(r#"{"name": " \t "}"#));
    ingest_cgroup(&mut index, "p", &json(r#"{"name": 4}"#));
    ingest_cgroup(&mut index, "p", &json("null"));
    assert_eq!(index.people.len(), 0);
}

#[test]
fn hidden_and_unnamed_people_leave() {
    for later in [
        r#"{"name": "Alice", "isHidden": true, "assigned": [{"faces": ["1_a"]}]}"#,
        r#"{"name": "  ", "assigned": [{"faces": ["1_a"]}]}"#,
        "{}",
    ] {
        let mut index = PeopleIndex::default();
        ingest_cgroup(&mut index, "p1", &alice());
        ingest_cgroup(&mut index, "p2", &json(r#"{"name": "Bob", "assigned": [{"faces": ["3_b"]}]}"#));
        ingest_cgroup(&mut index, "p1", &json(later));
        assert_eq!(index.people.len(), 1);
        assert!(index.people.get("p1").is_none());
        assert!(index.person_file_ids.get("p1").is_none());
        for face in ["1_a", "2_a", "x"] {
            assert_eq!(index.person_for_face(face), (None, None));
        }
        assert_eq!(
            index.person_for_face("3_b"),
            (Some("p2".to_string()), Some("Bob".to_string()))
        );
        assert_eq!(
            index.summaries(&library(&[1, 2, 3])),
            vec![("p2".to_string(), "Bob".to_string(), 1)]
        );
    }
}

#[test]
fn summaries_count_what_is_there() {
    let mut index = PeopleIndex::default();
    ingest_cgroup(&mut index, "a", &json(r#"{"name": "Zoe", "manuallyAssigned": [1, 2]}"#));
    ingest_cgroup(&mut index, "b", &json(r#"{"name": "Bob", "manuallyAssigned": [1, 3, 99]}"#));
    ingest_cgroup(&mut index, "c", &json(r#"{"name": "Ann", "manuallyAssigned": [1, 2, 3]}"#));
    ingest_cgroup(&mut index, "d", &json(r#"{"name": "Bobby", "manuallyAssigned": [4]}"#));
    ingest_cgroup(&mut index, "e", &json(r#"{"name": "bob", "manuallyAssigned": [2, 3]}"#));
    let mut files = library(&[1, 2, 3, 4]);
    files.get_mut(&4).unwrap().is_deleted = true;
    let rows = index.summaries(&files);
    let got: Vec<(&str, &str, usize)> =
        rows.iter().map(|(id, name, n)| (id.as_str(), name.as_str(), *n)).collect();
    assert_eq!(
        got,
        vec![
            ("c", "Ann", 3),
            ("b", "Bob", 2),
            ("a", "Zoe", 2),
            ("e", "bob", 2),
            ("d", "Bobby", 0),
        ]
    );
}

fn ask(step: PeopleStep) -> (HttpRequest, PeopleStage) {
    match step {
        PeopleStep::Ask(request, stage) => (request, stage),
        PeopleStep::Done(_) => panic!("ended"),
    }
}

fn done(step: PeopleStep) -> Result<PeopleIndex, EnteApiError> {
    match step {
        PeopleStep::Done(r) => r,
        PeopleStep::Ask(_, _) => panic!("goes on"),
    }
}

fn query(request: &HttpRequest) -> Vec<(&str, &str)> {
    request.query.iter().map(|(k, v)| (k.as_str(), v.as_str())).collect()
}

fn key_body() -> String {
    let (key, nonce) = boxed(&ENTITY, &MASTER);
    format!(r#"{{"encryptedKey": "{key}", "header": "{nonce}"}}"#)
}

fn entity(id: &str, at: i64, data: &str) -> String {
    let (cipher, header) = streamed(&zipped(data), &ENTITY);
    format!(
        r#"{{"id": "{id}", "updatedAt": {at}, "encryptedData": "{cipher}", "header": "{header}"}}"#
    )
}

#[test]
fn people_are_loaded_page_by_page() {
    let (request, stage) = ask(fetch_people(&client()));
    assert_eq!(request.url, "https://m.example/user-entity/key");
    assert_eq!(query(&request), vec![("type", "cgroup")]);
    let (request, stage) = ask(continue_people(&client(), &MASTER, stage, &ok(&key_body())));
    assert_eq!(request.url, "https://m.example/user-entity/entity/diff");
    assert_eq!(
        query(&request),
        vec![("type", "cgroup"), ("sinceTime", "0"), ("limit", "500")]
    );

    let mut entries = vec![
        entity("p1", 5, r#"{"name": "Alice", "assigned": [{"faces": ["1_a"]}]}"#),
        entity("p2", 9, r#"{"name": "Bob", "assigned": [{"faces": ["2_b"]}]}"#),
        r#"{"id": "p3", "encryptedData": "AA", "header": "AA"}"#.to_string(),
        r#"{"updatedAt": 7}"#.to_string(),
    ];
    while entries.len() < 500 {
        entries.push("{}".to_string());
    }
    let page = format!(r#"{{"diff": [{}]}}"#, entries.join(","));
    let (request, stage) = ask(continue_people(&client(), &MASTER, stage, &ok(&page)));
    assert_eq!(query(&request)[1], ("sinceTime", "9"));

    let page = r#"{"diff": [{"id": "p1", "isDeleted": true}]}"#;
    let index = done(continue_people(&client(), &MASTER, stage, &ok(page))).unwrap();
    assert_eq!(index.people.len(), 1);
    assert_eq!(index.person_for_face("1_a"), (None, None));
    assert_eq!(index.person_for_face("2_b").1, Some("Bob".to_string()));
    assert!(index.person_file_ids.get("p1").is_none());
}

#[test]
fn a_person_hidden_on_a_later_page_is_gone() {
    let (_, stage) = ask(fetch_people(&client()));
    let (_, stage) = ask(continue_people(&client(), &MASTER, stage, &ok(&key_body())));
    let mut entries = vec![
        entity("p1", 5, r#"{"name": "Alice", "assigned": [{"faces": ["1_a"]}]}"#),
        entity("p2", 9, r#"{"name": "Bob", "assigned": [{"faces": ["2_b"]}]}"#),
    ];
    while entries.len() < 500 {
        entries.push("{}".to_string());
    }
    let page = format!(r#"{{"diff": [{}]}}"#, entries.join(","));
    let (_, stage) = ask(continue_people(&client(), &MASTER, stage, &ok(&page)));
    let page = format!(
        r#"{{"diff": [{}]}}"#,
        entity("p1", 12, r#"{"name": "Alice", "isHidden": true, "assigned": [{"faces": ["1_a"]}]}"#)
    );
    let index = done(continue_people(&client(), &MASTER, stage, &ok(&page))).unwrap();
    assert_eq!(index.people.len(), 1);
    assert_eq!(index.person_for_face("1_a"), (None, None));
    assert_eq!(index.person_for_face("2_b").1, Some("Bob".to_string()));
}

#[test]
fn loading_people_ends_early() {
    let (_, stage) = ask(fetch_people(&client()));
    assert_eq!(
        done(continue_people(&client(), &MASTER, stage, &refused(404))).unwrap().people.len(),
        0
    );
    for (answer, message) in [
        (refused(500), "museum returned 500: no"),
        (ok("{}"), "unexpected response: entity key missing encryptedKey"),
        (ok(r#"{"encryptedKey": "AA"}"#), "unexpected response: entity key missing header"),
        (
            ok(r#"{"encryptedKey": "AA", "header": "AA"}"#),
            "unexpected response: invalid key/nonce length",
        ),
    ] {
        let (_, stage) = ask(fetch_people(&client()));
        let e = done(continue_people(&client(), &MASTER, stage, &answer)).err().unwrap();
        assert_eq!(e.message(), message);
    }
    let (_, stage) = ask(fetch_people(&client()));
    let (_, stage) = ask(continue_people(&client(), &MASTER, stage, &ok(&key_body())));
    assert!(done(continue_people(&client(), &MASTER, stage, &refused(404))).is_err());
}

const ML: &str = r#"{"face": {"width": 640, "height": "480", "faces": [
    {"faceID": "1_a", "score": 0.5, "blur": "2",
     "detection": {"box": {"x": 0.25, "y": 1, "width": 2, "height": 3}}},
    {}]}}"#;

#[test]
fn face_data_is_parsed_and_joined() {
    let mut index = PeopleIndex::default();
    ingest_cgroup(&mut index, "p1", &alice());
    let ff = parse_face_index(&json(ML), &index).unwrap();
    assert_eq!((ff.image_width, ff.image_height), (Some(640), Some(480)));
    assert_eq!(ff.faces.len(), 2);
    let f = &ff.faces[0];
    assert_eq!(f.face_id, "1_a");
    assert_eq!(f.x, 0.25f64.to_bits());
    assert_eq!(f.y, 1.0f64.to_bits());
    assert_eq!(f.width, 2.0f64.to_bits());
    assert_eq!(f.height, 3.0f64.to_bits());
    assert_eq!(f.score, 0.5f64.to_bits());
    assert_eq!(f.blur, 2.0f64.to_bits());
    assert_eq!(f.person_id, Some("p1".to_string()));
    assert_eq!(f.person_name, Some("Alice".to_string()));
    let g = &ff.faces[1];
    assert_eq!((g.face_id.as_str(), g.x, g.score), ("", 0, 0));
    assert_eq!(g.person_id, None);
    assert!(parse_face_index(&json("{}"), &index).is_none());
    let bare = parse_face_index(&json(r#"{"face": 1}"#), &index).unwrap();
    assert!(bare.faces.is_empty());
    assert!(FileFaces::default().faces.is_empty());
    assert_eq!(ff.clone().faces.len(), 2);
    match ff.faces[0].as_json() {
        Doc::Fields(fields) => {
            let keys: Vec<&str> = fields.iter().map(|(k, _)| k.as_str()).collect();
            assert_eq!(keys, vec!["faceId", "box", "score", "blur", "personId", "personName"]);
            assert!(matches!(&fields[1].1, Doc::Fields(b) if b.len() == 4));
            assert!(matches!(&fields[5].1, Doc::Text(t) if t == "Alice"));
        }
        _ => panic!("no fields"),
    }
}

fn asked(request: &HttpRequest) -> Vec<i64> {
    assert_eq!(request.url, "https://m.example/files/data/fetch");
    match request.body.as_ref().unwrap() {
        Doc::Fields(fields) => {
            assert!(matches!(&fields[0].1, Doc::Text(t) if t == "mldata"));
            match &fields[1].1 {
                Doc::List(items) => items
                    .iter()
                    .map(|d| match d {
                        Doc::Int(n) => *n,
                        _ => panic!("no id"),
                    })
                    .collect(),
                _ => panic!("no list"),
            }
        }
        _ => panic!("no fields"),
    }
}

fn ask_faces(step: FacesStep) -> (HttpRequest, FacesStage) {
    match step {
        FacesStep::Ask(request, stage) => (request, stage),
        FacesStep::Done(_) => panic!("ended"),
    }
}

fn mldata(id: i64) -> String {
    let (cipher, header) = streamed(&zipped(ML), &FILE);
    format!(
        r#"{{"data": [{{"fileID": {id}, "encryptedData": "{cipher}",
            "decryptionHeader": "{header}"}}, {{}}, {{"fileID": 77}}]}}"#
    )
}

#[test]
fn faces_are_loaded_in_batches() {
    let people = PeopleIndex::default();
    let mut files = library(&[1, 2, 3, 4, 5]);
    files.get_mut(&5).unwrap().is_deleted = true;
    let (request, stage) = ask_faces(fetch_faces(&client(), &files, 3));
    let first = asked(&request);
    assert_eq!(first.len(), 3);
    let step = continue_faces(&client(), &files, &people, stage, &ok(&mldata(first[0])));
    let (request, stage) = ask_faces(step);
    let second = asked(&request);
    assert_eq!(second.len(), 1);
    let mut all = first.clone();
    all.extend(&second);
    all.sort();
    assert_eq!(all, vec![1, 2, 3, 4]);
    // A batch that fails is passed over.
    let found = match continue_faces(&client(), &files, &people, stage, &refused(500)) {
        FacesStep::Done(found) => found,
        FacesStep::Ask(_, _) => panic!("goes on"),
    };
    assert_eq!(found.keys().copied().collect::<Vec<i64>>(), vec![first[0]]);

    attach_faces(&mut files, found);
    assert_eq!(files.len(), 5);
    assert_eq!(files[&first[0]].faces.len(), 2);
    assert_eq!(files[&first[0]].face_image_width, Some(640));
    assert_eq!(files[&first[0]].face_image_height, Some(480));
    assert!(files[&first[1]].faces.is_empty());
}

#[test]
fn batches_are_kept_within_bounds() {
    let files = library(&[1, 2]);
    let (request, _) = ask_faces(fetch_faces(&client(), &files, 0));
    assert_eq!(asked(&request).len(), 1);
    let many: Vec<i64> = (0..1500).collect();
    let (request, _) = ask_faces(fetch_faces(&client(), &library(&many), 5000));
    assert_eq!(asked(&request).len(), 1000);
    assert!(matches!(fetch_faces(&client(), &HashMap::new(), 5), FacesStep::Done(_)));
}

fn ask_sync(step: SyncStep) -> (HttpRequest, SyncStage) {
    match step {
        SyncStep::Ask(request, stage) => (request, stage),
        SyncStep::Done(_) => panic!("ended"),
    }
}

fn one_file_library() -> (String, String) {
    let album_key = [4u8; 32];
    let (key, nonce) = boxed(&album_key, &MASTER);
    let collections = format!(
        r#"{{"collections": [{{"id": 9, "name": "A", "encryptedKey": "{key}",
            "keyDecryptionNonce": "{nonce}"}}]}}"#
    );
    let (key, nonce) = boxed(&FILE, &album_key);
    let diff = format!(
        r#"{{"diff": [{{"id": 1, "encryptedKey": "{key}", "keyDecryptionNonce": "{nonce}",
            "file": {{"decryptionHeader": "H"}}}}]}}"#
    );
    (collections, diff)
}

#[test]
fn loading_goes_from_files_over_people_to_faces() {
    let settings = Settings::from_env(&vec![]);
    let (collections, diff) = one_file_library();
    let (request, stage) = ask_sync(start_sync(&client()));
    assert_eq!(request.url, "https://m.example/collections/v2");
    let (_, stage) =
        ask_sync(continue_sync(&client(), &settings, &MASTER, stage, &ok(&collections)));
    let (request, stage) =
        ask_sync(continue_sync(&client(), &settings, &MASTER, stage, &ok(&diff)));
    assert_eq!(request.url, "https://m.example/user-entity/key");
    let (_, stage) =
        ask_sync(continue_sync(&client(), &settings, &MASTER, stage, &ok(&key_body())));
    let page = format!(
        r#"{{"diff": [{}]}}"#,
        entity("p1", 5, r#"{"name": "Alice", "assigned": [{"faces": ["1_a"]}]}"#)
    );
    let (request, stage) =
        ask_sync(continue_sync(&client(), &settings, &MASTER, stage, &ok(&page)));
    assert_eq!(asked(&request), vec![1]);
    match continue_sync(&client(), &settings, &MASTER, stage, &ok(&mldata(1))) {
        SyncStep::Done(Ok(synced)) => {
            assert_eq!(synced.library[&1].person_names(), vec!["Alice".to_string()]);
            let rows = synced.people.unwrap().summaries(&synced.library);
            assert_eq!(rows, vec![("p1".to_string(), "Alice".to_string(), 1)]);
        }
        _ => panic!("not loaded"),
    }
}

#[test]
fn failures_after_the_files_are_survived() {
    let settings = Settings::from_env(&vec![]);
    let (collections, diff) = one_file_library();
    let (_, stage) = ask_sync(start_sync(&client()));
    let (_, stage) =
        ask_sync(continue_sync(&client(), &settings, &MASTER, stage, &ok(&collections)));
    let (_, stage) = ask_sync(continue_sync(&client(), &settings, &MASTER, stage, &ok(&diff)));
    let (_, stage) = ask_sync(continue_sync(&client(), &settings, &MASTER, stage, &refused(500)));
    match continue_sync(&client(), &settings, &MASTER, stage, &Err("down".to_string())) {
        SyncStep::Done(Ok(synced)) => {
            assert_eq!(synced.library.len(), 1);
            assert_eq!(synced.people.unwrap().people.len(), 0);
        }
        _ => panic!("not loaded"),
    }
}

#[test]
fn faces_can_be_switched_off() {
    let vars = vec![("ENTE_FETCH_FACES".to_string(), "false".to_string())];
    let settings = Settings::from_env(&vars);
    let (collections, diff) = one_file_library();
    let (_, stage) = ask_sync(start_sync(&client()));
    let (_, stage) =
        ask_sync(continue_sync(&client(), &settings, &MASTER, stage, &ok(&collections)));
    match continue_sync(&client(), &settings, &MASTER, stage, &ok(&diff)) {
        SyncStep::Done(Ok(synced)) => {
            assert_eq!(synced.library.len(), 1);
            assert!(synced.people.is_none());
        }
        _ => panic!("not loaded"),
    }
    let (_, stage) = ask_sync(start_sync(&client()));
    assert!(matches!(
        continue_sync(&client(), &settings, &MASTER, stage, &refused(500)),
        SyncStep::Done(Err(EnteApiError::Status(500, _)))
    ));
}
