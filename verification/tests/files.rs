use base64::engine::general_purpose::STANDARD;
use base64::Engine;
use dryoc::classic::crypto_secretbox::crypto_secretbox_easy;
use dryoc::classic::crypto_secretstream_xchacha20poly1305::{
    crypto_secretstream_xchacha20poly1305_init_push, crypto_secretstream_xchacha20poly1305_push,
    State,
};
use ente_api::client::{EnteApiError, HttpRequest, MuseumClient, Reply};
use ente_api::config::Settings;
use ente_api::doc::Doc;
use ente_api::faces::DetectedFace;
use ente_api::files::{
    continue_library, decrypt_album, decrypt_download, decrypt_file, delete_file, download_image,
    fetch_library, filter_images, Album, ImageFile, ImageFilter, LibraryStage, LibraryStep,
};
use ente_api::json::{parse_json, Json};
use std::collections::HashMap;

const MASTER: [u8; 32] = [1; 32];
const ALBUM: [u8; 32] = [2; 32];
const FILE: [u8; 32] = [3; 32];

fn json(s: &str) -> Json {
    parse_json(s.as_bytes()).unwrap()
}

fn boxed(plain: &[u8], key: &[u8; 32]) -> (String, String) {
    let nonce = [5u8; 24];
    let mut cipher = vec![0u8; plain.len() + 16];
    crypto_secretbox_easy(&mut cipher, plain, &nonce, key).unwrap();
    (STANDARD.encode(cipher), STANDARD.encode(nonce))
}

fn streamed(plain: &[u8], key: &[u8; 32]) -> (String, String) {
    let mut state = State::new();
    let mut header = [0u8; 24];
    crypto_secretstream_xchacha20poly1305_init_push(&mut state, &mut header, key);
    let mut chunk = vec![0u8; plain.len() + 17];
    crypto_secretstream_xchacha20poly1305_push(&mut state, &mut chunk, plain, None, 3).unwrap();
    (STANDARD.encode(chunk), STANDARD.encode(header))
}

fn raw_album(id: i64, more: &str) -> String {
    let (key, nonce) = boxed(&ALBUM, &MASTER);
    format!(r#"{{"id": {id}, "encryptedKey": "{key}", "keyDecryptionNonce": "{nonce}"{more}}}"#)
}

fn raw_file(id: i64, metadata: &str, edits: &str, more: &str) -> String {
    let (key, nonce) = boxed(&FILE, &ALBUM);
    let (data, header) = streamed(metadata.as_bytes(), &FILE);
    let (edit_data, edit_header) = streamed(edits.as_bytes(), &FILE);
    format!(
        r#"{{"id": {id}, "encryptedKey": "{key}", "keyDecryptionNonce": "{nonce}",
            "metadata": {{"encryptedData": "{data}", "decryptionHeader": "{header}"}},
            "pubMagicMetadata": {{"encryptedData": "{edit_data}",
                "decryptionHeader": "{edit_header}"}},
            "file": {{"decryptionHeader": "HEAD"}}, "info": {{"fileSize": "1234"}}{more}}}"#
    )
}

fn album() -> Album {
    Album { id: 10, name: "Trips".to_string(), key: ALBUM.to_vec(), is_deleted: false }
}

fn bits(d: f64) -> Option<u64> {
    Some(d.to_bits())
}

#[test]
fn albums_take_the_first_name_that_is_not_empty() {
    let open = |more: &str| decrypt_album(&json(&raw_album(10, more)), &MASTER).unwrap();
    let plain = open(r#", "name": "Plain""#);
    assert_eq!((plain.id, plain.name.as_str()), (10, "Plain"));
    assert_eq!(plain.key, ALBUM.to_vec());
    assert!(!plain.is_deleted);

    let (name, nonce) = boxed("Verschlüsselt".as_bytes(), &ALBUM);
    let encrypted = format!(
        r#", "name": "", "encryptedName": "{name}", "nameDecryptionNonce": "{nonce}""#
    );
    assert_eq!(open(&encrypted).name, "Verschlüsselt");

    let (name, nonce) = boxed(&[0x61, 0xff, 0x62], &ALBUM);
    let damaged = format!(r#", "encryptedName": "{name}", "nameDecryptionNonce": "{nonce}""#);
    assert_eq!(open(&damaged).name, "a\u{fffd}b");

    let (data, header) = streamed(br#"{"name": "Magic", "title": "T"}"#, &ALBUM);
    let magic = format!(r#", "magicMetadata": {{"data": "{data}", "header": "{header}"}}"#);
    assert_eq!(open(&magic).name, "Magic");
    let (data, header) = streamed(br#"{"title": "T"}"#, &ALBUM);
    let titled = format!(
        r#", "isDeleted": true, "magicMetadata": {{"data": "{data}", "header": "{header}"}}"#
    );
    let titled = open(&titled);
    assert_eq!(titled.name, "T");
    assert!(titled.is_deleted);
    assert_eq!(open("").name, "album-10");
    assert_eq!(titled.clone().name, "T");
}

#[test]
fn albums_that_cannot_be_opened() {
    for (raw, message) in [
        ("{}".to_string(), "unexpected response: album missing encryptedKey"),
        (
            r#"{"encryptedKey": "AA"}"#.to_string(),
            "unexpected response: album missing keyDecryptionNonce",
        ),
        (
            r#"{"encryptedKey": "AA", "keyDecryptionNonce": "AA"}"#.to_string(),
            "unexpected response: invalid key/nonce length",
        ),
    ] {
        assert_eq!(decrypt_album(&json(&raw), &MASTER).err().unwrap().message(), message);
    }
    let wrong = decrypt_album(&json(&raw_album(1, "")), &ALBUM).err().unwrap();
    assert_eq!(wrong.message(), "unexpected response: crypto operation failed");
}

#[test]
fn files_are_decrypted_and_edits_win() {
    let raw = raw_file(
        42,
        r#"{"title": "a.jpg", "fileType": 1, "creationTime": 100, "modificationTime": "7",
            "latitude": 1.5, "longitude": 2.5, "hash": "h"}"#,
        r#"{"editedName": "b.jpg", "editedTime": 200, "lat": "3.5"}"#,
        "",
    );
    let f = decrypt_file(&json(&raw), &album()).unwrap();
    assert_eq!((f.id, f.collection_id, f.album_name.as_str()), (42, 10, "Trips"));
    assert_eq!(f.key, FILE.to_vec());
    assert_eq!(f.decryption_header, "HEAD");
    assert_eq!(f.file_size, Some(1234));
    assert_eq!(f.title, Some("b.jpg".to_string()));
    assert_eq!(f.file_type, 1);
    assert_eq!(f.media_type(), "video");
    assert_eq!(f.creation_time, Some(200));
    assert_eq!(f.modification_time, Some(7));
    assert_eq!(f.latitude, bits(3.5));
    assert_eq!(f.longitude, bits(2.5));
    assert_eq!(f.file_hash, Some("h".to_string()));
    assert!(!f.is_deleted);
    assert!(f.faces.is_empty());
}

#[test]
fn zero_coordinates_are_no_place() {
    let place = |metadata: &str| {
        let f = decrypt_file(&json(&raw_file(1, metadata, "null", "")), &album()).unwrap();
        (f.latitude, f.longitude)
    };
    assert_eq!(place(r#"{"latitude": 0, "longitude": -0.0}"#), (None, None));
    assert_eq!(place(r#"{"latitude": 0, "longitude": 1}"#), (bits(0.0), bits(1.0)));
    assert_eq!(place(r#"{"latitude": 0}"#), (bits(0.0), None));
    assert_eq!(place("{}"), (None, None));
}

#[test]
fn entries_without_a_readable_file() {
    let gone = decrypt_file(&json(r#"{"id": "5", "isDeleted": true}"#), &album()).unwrap();
    assert!(gone.is_deleted);
    assert_eq!((gone.id, gone.collection_id), (5, 10));
    assert_eq!(gone.media_type(), "image");
    assert!(decrypt_file(&json(r#"{"isDeleted": true}"#), &album()).is_none());
    assert!(decrypt_file(&json(r#"{"id": 5}"#), &album()).is_none());
    let raw = raw_file(5, "{}", "{}", "");
    assert!(decrypt_file(&json(&raw.replace("\"file\"", "\"x\"")), &album()).is_none());
    let mut other = album();
    other.key = MASTER.to_vec();
    assert!(decrypt_file(&json(&raw), &other).is_none());
    // Metadata that cannot be read leaves the defaults.
    let f = decrypt_file(&json(&raw.replace("encryptedData", "x")), &album()).unwrap();
    assert_eq!(f.title, None);
    assert_eq!(f.file_type, 0);
    assert_eq!(f.creation_time, None);
}

fn client() -> MuseumClient {
    MuseumClient::new("https://m.example", 5, Some("tok".to_string()))
}

fn ok(body: &str) -> Result<Reply, String> {
    Ok(Reply {
        status: 200,
        location: None,
        text: String::new(),
        bytes: Ok(body.as_bytes().to_vec()),
    })
}

fn ask(step: LibraryStep) -> (HttpRequest, LibraryStage) {
    match step {
        LibraryStep::Ask(request, stage) => (request, stage),
        LibraryStep::Done(_) => panic!("ended"),
    }
}

fn done(step: LibraryStep) -> Result<HashMap<i64, ImageFile>, EnteApiError> {
    match step {
        LibraryStep::Done(r) => r,
        LibraryStep::Ask(_, _) => panic!("goes on"),
    }
}

fn query(request: &HttpRequest) -> Vec<(&str, &str)> {
    request.query.iter().map(|(k, v)| (k.as_str(), v.as_str())).collect()
}

#[test]
fn whole_library_is_synchronised() {
    let (request, stage) = ask(fetch_library(&client()));
    assert_eq!(request.url, "https://m.example/collections/v2");
    assert_eq!(query(&request), vec![("sinceTime", "0")]);

    let collections = format!(
        r#"{{"collections": [{}, {{}}, {}, {}]}}"#,
        raw_album(10, r#", "name": "A", "isDeleted": true"#),
        raw_album(11, r#", "name": "B""#),
        raw_album(12, r#", "name": "C""#)
    );
    let (request, stage) = ask(continue_library(&client(), &MASTER, stage, &ok(&collections)));
    assert_eq!(request.url, "https://m.example/collections/v2/diff");
    assert_eq!(query(&request), vec![("collectionID", "11"), ("sinceTime", "0")]);

    let page = format!(
        r#"{{"diff": [{}, {}, {{"updationTime": "30"}}], "hasMore": true}}"#,
        raw_file(1, r#"{"title": "one"}"#, "{}", r#", "updationTime": 50"#),
        raw_file(2, r#"{"title": "two"}"#, "{}", r#", "updationTime": 40"#)
    );
    let (request, stage) = ask(continue_library(&client(), &MASTER, stage, &ok(&page)));
    assert_eq!(query(&request), vec![("collectionID", "11"), ("sinceTime", "50")]);

    let page = r#"{"diff": [{"id": 1, "isDeleted": true, "updationTime": 60}]}"#;
    let (request, stage) = ask(continue_library(&client(), &MASTER, stage, &ok(page)));
    assert_eq!(query(&request), vec![("collectionID", "12"), ("sinceTime", "0")]);

    let page = format!(r#"{{"diff": [{}]}}"#, raw_file(3, "{}", "{}", ""));
    let files = done(continue_library(&client(), &MASTER, stage, &ok(&page))).unwrap();
    let mut ids: Vec<i64> = files.keys().copied().collect();
    ids.sort();
    assert_eq!(ids, vec![2, 3]);
    assert_eq!(files[&2].title, Some("two".to_string()));
    assert_eq!(files[&2].album_name, "B");
    assert_eq!(files[&3].album_name, "C");
}

#[test]
fn synchronisation_ends_on_errors_and_empty_pages() {
    let failed = Ok(Reply {
        status: 503,
        location: None,
        text: "later".to_string(),
        bytes: Ok(vec![]),
    });
    let (_, stage) = ask(fetch_library(&client()));
    assert!(matches!(
        done(continue_library(&client(), &MASTER, stage, &failed)),
        Err(EnteApiError::Status(503, _))
    ));
    let (_, stage) = ask(fetch_library(&client()));
    assert!(done(continue_library(&client(), &MASTER, stage, &ok("{}"))).unwrap().is_empty());
    let (_, stage) = ask(fetch_library(&client()));
    let one = format!(r#"{{"collections": [{}]}}"#, raw_album(1, ""));
    let (_, stage) = ask(continue_library(&client(), &MASTER, stage, &ok(&one)));
    let empty = r#"{"diff": [], "hasMore": true}"#;
    assert!(done(continue_library(&client(), &MASTER, stage, &ok(empty))).unwrap().is_empty());
}

fn face(name: Option<&str>) -> DetectedFace {
    DetectedFace {
        face_id: "1_a".to_string(),
        x: 0,
        y: 0,
        width: 0,
        height: 0,
        score: 0,
        blur: 0,
        person_id: None,
        person_name: name.map(|n| n.to_string()),
    }
}

fn image(id: i64) -> ImageFile {
    ImageFile {
        id,
        collection_id: 10,
        album_name: "Trips 2020".to_string(),
        key: FILE.to_vec(),
        decryption_header: String::new(),
        file_size: None,
        title: Some(format!("IMG_{id}.JPG")),
        file_type: 0,
        creation_time: Some(id * 10),
        modification_time: None,
        latitude: None,
        longitude: None,
        file_hash: None,
        is_deleted: false,
        faces: vec![],
        face_image_width: None,
        face_image_height: None,
    }
}

fn nothing() -> ImageFilter {
    ImageFilter {
        album: None,
        media_type: None,
        time_from: None,
        time_to: None,
        has_location: None,
        min_lat: None,
        max_lat: None,
        min_lon: None,
        max_lon: None,
        filename: None,
        has_faces: None,
        min_faces: None,
        person: None,
    }
}

fn library() -> HashMap<i64, ImageFile> {
    let mut all: Vec<ImageFile> = (1..=6).map(image).collect();
    all[0].album_name = "Home".to_string();
    all[1].file_type = 1;
    all[2].latitude = bits(10.0);
    all[2].longitude = bits(20.0);
    all[3].latitude = bits(-10.0);
    all[3].longitude = bits(-20.0);
    all[3].faces = vec![face(Some("Alice Smith")), face(None), face(Some("Bob"))];
    all[4].creation_time = None;
    all[4].title = None;
    all[4].latitude = bits(1.0);
    all[5].is_deleted = true;
    all.into_iter().map(|f| (f.id, f)).collect()
}

fn listed(f: ImageFilter) -> Vec<i64> {
    filter_images(&library(), &f).iter().map(|x| x.id).collect()
}

#[test]
fn listing_is_newest_first_without_deleted_files() {
    assert_eq!(listed(nothing()), vec![4, 3, 2, 1, 5]);
}

#[test]
fn each_filter_restricts() {
    let s = |t: &str| Some(t.to_string());
    assert_eq!(listed(ImageFilter { album: s("TRIP"), ..nothing() }), vec![4, 3, 2, 5]);
    assert_eq!(listed(ImageFilter { media_type: s("Video"), ..nothing() }), vec![2]);
    assert_eq!(listed(ImageFilter { media_type: s("live_photo"), ..nothing() }), Vec::<i64>::new());
    assert_eq!(listed(ImageFilter { time_from: Some(20), ..nothing() }), vec![4, 3, 2]);
    assert_eq!(listed(ImageFilter { time_to: Some(20), ..nothing() }), vec![2, 1]);
    assert_eq!(listed(ImageFilter { has_location: Some(true), ..nothing() }), vec![4, 3]);
    assert_eq!(listed(ImageFilter { has_location: Some(false), ..nothing() }), vec![2, 1, 5]);
    assert_eq!(listed(ImageFilter { min_lat: bits(0.0), ..nothing() }), vec![3]);
    assert_eq!(listed(ImageFilter { max_lat: bits(10.0), ..nothing() }), vec![4, 3]);
    assert_eq!(listed(ImageFilter { min_lon: bits(20.0), ..nothing() }), vec![3]);
    assert_eq!(listed(ImageFilter { max_lon: bits(-20.0), ..nothing() }), vec![4]);
    assert_eq!(listed(ImageFilter { filename: s("img_3"), ..nothing() }), vec![3]);
    assert_eq!(listed(ImageFilter { filename: s(""), ..nothing() }), vec![4, 3, 2, 1]);
    assert_eq!(listed(ImageFilter { has_faces: Some(true), ..nothing() }), vec![4]);
    assert_eq!(listed(ImageFilter { has_faces: Some(false), ..nothing() }), vec![3, 2, 1, 5]);
    assert_eq!(listed(ImageFilter { min_faces: Some(3), ..nothing() }), vec![4]);
    assert_eq!(listed(ImageFilter { min_faces: Some(4), ..nothing() }), Vec::<i64>::new());
    assert_eq!(listed(ImageFilter { person: s("alice"), ..nothing() }), vec![4]);
    assert_eq!(listed(ImageFilter { person: s("carol"), ..nothing() }), Vec::<i64>::new());
}

#[test]
fn filters_combine_to_fewer_files() {
    let f = ImageFilter {
        album: Some("trips".to_string()),
        has_location: Some(true),
        time_from: Some(35),
        ..nothing()
    };
    assert_eq!(listed(f), vec![4]);
}

#[test]
fn names_of_people_are_distinct() {
    let mut f = image(1);
    f.faces =
        vec![face(Some("B")), face(None), face(Some("A")), face(Some("B")), face(Some("A"))];
    assert_eq!(f.person_names(), vec!["B".to_string(), "A".to_string()]);
    assert_eq!(f.clone().person_names(), f.person_names());
}

fn field<'a>(doc: &'a Doc, key: &str) -> &'a Doc {
    match doc {
        Doc::Fields(fields) => &fields.iter().find(|(k, _)| k == key).unwrap().1,
        _ => panic!("no fields"),
    }
}

#[test]
fn documents_of_files() {
    let mut f = image(4);
    f.latitude = bits(1.5);
    f.faces = vec![face(Some("A"))];
    f.face_image_width = Some(640);
    let doc = f.as_json("https://blobs/4");
    assert!(matches!(field(&doc, "id"), Doc::Int(4)));
    assert!(matches!(field(&doc, "title"), Doc::Text(t) if t == "IMG_4.JPG"));
    assert!(matches!(field(&doc, "album"), Doc::Text(t) if t == "Trips 2020"));
    assert!(matches!(field(&doc, "collectionId"), Doc::Int(10)));
    assert!(matches!(field(&doc, "mediaType"), Doc::Text(t) if t == "image"));
    assert!(matches!(field(&doc, "fileSize"), Doc::Null));
    assert!(matches!(field(&doc, "creationTime"), Doc::Int(40)));
    assert!(matches!(field(&doc, "modificationTime"), Doc::Null));
    assert!(matches!(field(&doc, "latitude"), Doc::Double(b) if *b == 1.5f64.to_bits()));
    assert!(matches!(field(&doc, "longitude"), Doc::Null));
    assert!(matches!(field(&doc, "hash"), Doc::Null));
    assert!(matches!(field(&doc, "downloadUrl"), Doc::Text(t) if t == "https://blobs/4"));
    assert!(matches!(field(&doc, "faces"), Doc::List(l) if l.len() == 1));
    assert!(matches!(field(&doc, "people"), Doc::List(l)
        if matches!(&l[0], Doc::Text(t) if t == "A")));
    assert!(matches!(field(&doc, "faceImageWidth"), Doc::Int(640)));
    assert!(matches!(field(&doc, "faceImageHeight"), Doc::Null));
    match &doc {
        Doc::Fields(fields) => assert_eq!(fields.len(), 16),
        _ => panic!("no fields"),
    }
}

#[test]
fn blobs_are_decrypted() {
    let settings = Settings::from_env(&vec![]);
    let (cipher, header) = streamed(b"pixels", &FILE);
    let mut f = image(4);
    f.decryption_header = header;
    let request = download_image(&client(), &settings, &f);
    assert_eq!(request.url, "http://localhost:8080/files/download/4");
    let encrypted = STANDARD.decode(cipher).unwrap();
    assert_eq!(decrypt_download(&f, Ok(encrypted.clone())).unwrap(), b"pixels");
    assert!(matches!(
        decrypt_download(&f, Err(EnteApiError::Transport("x".to_string()))),
        Err(EnteApiError::Transport(_))
    ));
    f.key[0] ^= 1;
    assert!(matches!(
        decrypt_download(&f, Ok(encrypted.clone())),
        Err(EnteApiError::Decode(m)) if m == "crypto operation failed"
    ));
    f.decryption_header = "?".to_string();
    assert!(matches!(decrypt_download(&f, Ok(encrypted)), Err(EnteApiError::Decode(_))));
}

#[test]
fn deletion_names_the_file_and_its_collection() {
    let request = delete_file(&client(), 4, 10);
    assert_eq!(request.url, "https://m.example/files/trash");
    let body = request.body.unwrap();
    match field(&body, "items") {
        Doc::List(items) => {
            assert_eq!(items.len(), 1);
            assert!(matches!(field(&items[0], "fileID"), Doc::Int(4)));
            assert!(matches!(field(&items[0], "collectionID"), Doc::Int(10)));
        }
        _ => panic!("no list"),
    }
}
