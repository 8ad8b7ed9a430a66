//! Albums and files: decryption of their metadata, synchronisation of the
//! library, filters and downloads.

use crate::client::{
    json_answer, pairs, push_pair, sent_view, ApiFault, ClientView, EnteApiError, HttpRequest,
    MuseumClient, Reply, RequestView,
};
use crate::config::Settings;
use crate::crypto::{
    b64decode, base64_bytes, chacha_decrypted, decrypt_chacha, decrypt_file_stream,
    file_decrypted, secretbox_open, secretbox_opened,
};
use crate::doc::{
    double_or_null, field_trees, int_or_null, item_trees, list, maybe_double, maybe_int,
    maybe_text, no_fields, object, opt_text, put, text, text_or_null, Doc, DocTree,
};
use crate::faces::{copy_faces, face_views, DetectedFace, FaceView};
use crate::float::{double_is_zero, double_less, is_zero, less};
use crate::json::{parse_json, parsed_json, trees, Json, JsonTree};
use crate::laws::boxes::ChunkRun;
use crate::laws::download::{download_gives_the_whole_file, opens_in};
use crate::laws::library::{
    dated, file_is_dated, files_in_step, pages_are_applied_one_after_the_other,
};
use crate::order::{in_order, same_values, sorted, Ranked};
use crate::tables::{copy_bytes, copy_opt_text, has_text, keys_of, texts_of};
use crate::text::{contains, decimal, has_part, i64_text, joined, lowercase, same_text};
use dryoc::classic::crypto_secretstream_xchacha20poly1305::State;
use std::collections::HashMap;
use vstd::prelude::*;
use vstd::utf8::{decode_utf8, valid_utf8};

verus! {

pub const FILE_TYPE_IMAGE: i64 = 0;

pub const FILE_TYPE_VIDEO: i64 = 1;

pub const FILE_TYPE_LIVE_PHOTO: i64 = 2;

/// The name of a file type.
pub open spec fn media_name(file_type: i64) -> Seq<char> {
    if file_type == FILE_TYPE_IMAGE {
        "image"@
    } else if file_type == FILE_TYPE_VIDEO {
        "video"@
    } else if file_type == FILE_TYPE_LIVE_PHOTO {
        "live_photo"@
    } else {
        "unknown"@
    }
}

fn media_type_name(file_type: i64) -> (r: &'static str)
    ensures
        r@ == media_name(file_type),
{
    if file_type == FILE_TYPE_IMAGE {
        "image"
    } else if file_type == FILE_TYPE_VIDEO {
        "video"
    } else if file_type == FILE_TYPE_LIVE_PHOTO {
        "live_photo"
    } else {
        "unknown"
    }
}

/// A collection of files.
pub struct Album {
    pub id: i64,
    pub name: String,
    pub key: Vec<u8>,
    pub is_deleted: bool,
}

/// The mathematical counterpart of `Album`.
pub struct AlbumView {
    pub id: i64,
    pub name: Seq<char>,
    pub key: Seq<u8>,
    pub is_deleted: bool,
}

impl View for Album {
    type V = AlbumView;

    open spec fn view(&self) -> AlbumView {
        AlbumView {
            id: self.id,
            name: self.name@,
            key: self.key@,
            is_deleted: self.is_deleted,
        }
    }
}

impl Clone for Album {
    fn clone(&self) -> (r: Album)
        ensures
            r@ == self@,
    {
        Album {
            id: self.id,
            name: self.name.clone(),
            key: copy_bytes(&self.key),
            is_deleted: self.is_deleted,
        }
    }
}

/// A file of the library. Coordinates are doubles, given by their bits.
pub struct ImageFile {
    pub id: i64,
    pub collection_id: i64,
    pub album_name: String,
    pub key: Vec<u8>,
    pub decryption_header: String,
    pub file_size: Option<i64>,
    pub title: Option<String>,
    pub file_type: i64,
    pub creation_time: Option<i64>,
    pub modification_time: Option<i64>,
    pub latitude: Option<u64>,
    pub longitude: Option<u64>,
    pub file_hash: Option<String>,
    pub is_deleted: bool,
    /// Detected faces, annotated with the person each face belongs to. Empty if
    /// face data is disabled or absent.
    pub faces: Vec<DetectedFace>,
    /// Dimensions of the image the face boxes are relative to.
    pub face_image_width: Option<i64>,
    pub face_image_height: Option<i64>,
}

/// The mathematical counterpart of `ImageFile`.
pub struct ImageView {
    pub id: i64,
    pub collection_id: i64,
    pub album_name: Seq<char>,
    pub key: Seq<u8>,
    pub decryption_header: Seq<char>,
    pub file_size: Option<i64>,
    pub title: Option<Seq<char>>,
    pub file_type: i64,
    pub creation_time: Option<i64>,
    pub modification_time: Option<i64>,
    pub latitude: Option<u64>,
    pub longitude: Option<u64>,
    pub file_hash: Option<Seq<char>>,
    pub is_deleted: bool,
    pub faces: Seq<FaceView>,
    pub face_image_width: Option<i64>,
    pub face_image_height: Option<i64>,
}

impl View for ImageFile {
    type V = ImageView;

    open spec fn view(&self) -> ImageView {
        ImageView {
            id: self.id,
            collection_id: self.collection_id,
            album_name: self.album_name@,
            key: self.key@,
            decryption_header: self.decryption_header@,
            file_size: self.file_size,
            title: opt_text(self.title),
            file_type: self.file_type,
            creation_time: self.creation_time,
            modification_time: self.modification_time,
            latitude: self.latitude,
            longitude: self.longitude,
            file_hash: opt_text(self.file_hash),
            is_deleted: self.is_deleted,
            faces: face_views(self.faces@),
            face_image_width: self.face_image_width,
            face_image_height: self.face_image_height,
        }
    }
}

impl Clone for ImageFile {
    fn clone(&self) -> (r: ImageFile)
        ensures
            r@ == self@,
    {
        ImageFile {
            id: self.id,
            collection_id: self.collection_id,
            album_name: self.album_name.clone(),
            key: copy_bytes(&self.key),
            decryption_header: self.decryption_header.clone(),
            file_size: self.file_size,
            title: copy_opt_text(&self.title),
            file_type: self.file_type,
            creation_time: self.creation_time,
            modification_time: self.modification_time,
            latitude: self.latitude,
            longitude: self.longitude,
            file_hash: copy_opt_text(&self.file_hash),
            is_deleted: self.is_deleted,
            faces: copy_faces(&self.faces),
            face_image_width: self.face_image_width,
            face_image_height: self.face_image_height,
        }
    }
}

/// What a table of files holds.
pub open spec fn library_view(files: Map<i64, ImageFile>) -> Map<i64, ImageView> {
    files.map_values(|f: ImageFile| f@)
}

/// The distinct names of the people in a list of faces, in the order in which
/// they first occur.
pub open spec fn names_in(faces: Seq<FaceView>) -> Seq<Seq<char>>
    decreases faces.len(),
{
    if faces.len() == 0 {
        Seq::empty()
    } else {
        let earlier = names_in(faces.drop_last());
        match faces.last().person_name {
            Some(name) => if earlier.contains(name) {
                earlier
            } else {
                earlier.push(name)
            },
            None => earlier,
        }
    }
}

/// The documents of a list of faces.
pub open spec fn face_docs(faces: Seq<FaceView>) -> Seq<DocTree> {
    faces.map_values(|f: FaceView| f.doc())
}

/// The documents of a list of texts.
pub open spec fn text_docs(texts: Seq<Seq<char>>) -> Seq<DocTree> {
    texts.map_values(|s: Seq<char>| DocTree::Text(s))
}

impl ImageView {
    /// The fields of the file's document.
    pub open spec fn doc_fields(self, download_url: Seq<char>) -> Seq<(Seq<char>, DocTree)> {
        seq![
            ("id"@, DocTree::Int(self.id)),
            ("title"@, text_or_null(self.title)),
            ("album"@, DocTree::Text(self.album_name)),
            ("collectionId"@, DocTree::Int(self.collection_id)),
            ("mediaType"@, DocTree::Text(media_name(self.file_type))),
            ("fileSize"@, int_or_null(self.file_size)),
            ("creationTime"@, int_or_null(self.creation_time)),
            ("modificationTime"@, int_or_null(self.modification_time)),
            ("latitude"@, double_or_null(self.latitude)),
            ("longitude"@, double_or_null(self.longitude)),
            ("hash"@, text_or_null(self.file_hash)),
            ("downloadUrl"@, DocTree::Text(download_url)),
            ("faces"@, DocTree::List(face_docs(self.faces))),
            ("people"@, DocTree::List(text_docs(names_in(self.faces)))),
            ("faceImageWidth"@, int_or_null(self.face_image_width)),
            ("faceImageHeight"@, int_or_null(self.face_image_height)),
        ]
    }

    /// The file as a document.
    pub open spec fn doc(self, download_url: Seq<char>) -> DocTree {
        DocTree::Fields(self.doc_fields(download_url))
    }
}

impl ImageFile {
    pub fn media_type(&self) -> (r: &'static str)
        ensures
            r@ == media_name(self.file_type),
    {
        media_type_name(self.file_type)
    }

    /// Distinct names of people detected in this image, in stable order.
    pub fn person_names(&self) -> (r: Vec<String>)
        ensures
            texts_of(r@) == names_in(self@.faces),
    {
        let ghost views = face_views(self.faces@);
        let mut names: Vec<String> = Vec::new();
        let mut i: usize = 0;
        assert(texts_of(names@) =~= names_in(views.take(0)));
        while i < self.faces.len()
            invariant
                i <= self.faces@.len(),
                views == face_views(self.faces@),
                texts_of(names@) == names_in(views.take(i as int)),
            decreases self.faces@.len() - i,
        {
            assert(views.take(i + 1).drop_last() =~= views.take(i as int));
            assert(views.take(i + 1).last() == self.faces@[i as int]@);
            if let Some(name) = &self.faces[i].person_name {
                if !has_text(&names, name.as_str()) {
                    let ghost before = names@;
                    names.push(name.clone());
                    assert(texts_of(names@) =~= texts_of(before).push(name@));
                }
            }
            i += 1;
        }
        assert(views.take(i as int) =~= views);
        names
    }

    /// The file as a document.
    pub fn as_json(&self, download_url: &str) -> (r: Doc)
        ensures
            r@ == self@.doc(download_url@),
    {
        let mut fields = no_fields();
        put(&mut fields, "id", Doc::Int(self.id));
        put(&mut fields, "title", maybe_text(&self.title));
        put(&mut fields, "album", text(self.album_name.as_str()));
        put(&mut fields, "collectionId", Doc::Int(self.collection_id));
        put(&mut fields, "mediaType", text(self.media_type()));
        put(&mut fields, "fileSize", maybe_int(self.file_size));
        put(&mut fields, "creationTime", maybe_int(self.creation_time));
        put(&mut fields, "modificationTime", maybe_int(self.modification_time));
        put(&mut fields, "latitude", maybe_double(self.latitude));
        put(&mut fields, "longitude", maybe_double(self.longitude));
        put(&mut fields, "hash", maybe_text(&self.file_hash));
        put(&mut fields, "downloadUrl", text(download_url));
        put(&mut fields, "faces", faces_json(&self.faces));
        put(&mut fields, "people", texts_json(&self.person_names()));
        put(&mut fields, "faceImageWidth", maybe_int(self.face_image_width));
        put(&mut fields, "faceImageHeight", maybe_int(self.face_image_height));
        assert(field_trees(fields@) =~= self@.doc_fields(download_url@));
        object(fields)
    }
}

fn faces_json(faces: &Vec<DetectedFace>) -> (r: Doc)
    ensures
        r@ == DocTree::List(face_docs(face_views(faces@))),
{
    let mut items: Vec<Doc> = Vec::new();
    let mut i: usize = 0;
    while i < faces.len()
        invariant
            i <= faces@.len(),
            items@.len() == i,
            forall|j: int| 0 <= j < i ==> items@[j]@ == faces@[j]@.doc(),
        decreases faces@.len() - i,
    {
        items.push(faces[i].as_json());
        i += 1;
    }
    assert(item_trees(items@) =~= face_docs(face_views(faces@)));
    list(items)
}

fn texts_json(texts: &Vec<String>) -> (r: Doc)
    ensures
        r@ == DocTree::List(text_docs(texts_of(texts@))),
{
    let mut items: Vec<Doc> = Vec::new();
    let mut i: usize = 0;
    while i < texts.len()
        invariant
            i <= texts@.len(),
            items@.len() == i,
            forall|j: int| 0 <= j < i ==> items@[j]@ == DocTree::Text(texts@[j]@),
        decreases texts@.len() - i,
    {
        items.push(text(texts[i].as_str()));
        i += 1;
    }
    assert(item_trees(items@) =~= text_docs(texts_of(texts@)));
    list(items)
}

// -------------------------------- decryption -------------------------------

/// The text of bytes, damaged parts replaced.
pub uninterp spec fn lossy_text(bytes: Seq<u8>) -> Seq<char>;

/// `String::from_utf8_lossy` decodes UTF-8 and puts replacement characters in
/// the place of what is damaged.
#[verifier::external_body]
fn from_utf8_lossy(bytes: &[u8]) -> (r: String)
    ensures
        r@ == lossy_text(bytes@),
        valid_utf8(bytes@) ==> r@ == decode_utf8(bytes@),
{
    String::from_utf8_lossy(bytes).to_string()
}

pub open spec fn text_or_empty(s: Option<Seq<char>>) -> Seq<char> {
    match s {
        Some(t) => t,
        None => Seq::empty(),
    }
}

/// The name of an album in an encrypted name field.
pub open spec fn encrypted_name(raw: JsonTree, key: Seq<u8>) -> Seq<char> {
    match (raw.text_field("encryptedName"@), raw.text_field("nameDecryptionNonce"@)) {
        (Some(name), Some(nonce)) => match secretbox_opened(name, nonce, key) {
            Ok(plain) => lossy_text(plain),
            Err(_) => Seq::empty(),
        },
        _ => Seq::empty(),
    }
}

/// A JSON document that was encrypted as a stream of one chunk.
pub open spec fn stream_json(
    data: Option<Seq<char>>,
    header: Option<Seq<char>>,
    key: Seq<u8>,
) -> Option<JsonTree> {
    match (data, header) {
        (Some(d), Some(h)) => match chacha_decrypted(d, key, h) {
            Ok(plain) => parsed_json(plain),
            Err(_) => None,
        },
        _ => None,
    }
}

/// The name of an album in its magic metadata.
pub open spec fn magic_name(raw: JsonTree, key: Seq<u8>) -> Seq<char> {
    match raw.field("magicMetadata"@) {
        Some(magic) => match stream_json(
            magic.text_field("data"@),
            magic.text_field("header"@),
            key,
        ) {
            Some(meta) => match meta.text_field("name"@) {
                Some(name) => name,
                None => text_or_empty(meta.text_field("title"@)),
            },
            None => Seq::empty(),
        },
        None => Seq::empty(),
    }
}

/// The name of an album: the first of its names that is not empty.
pub open spec fn album_name_of(raw: JsonTree, key: Seq<u8>, id: i64) -> Seq<char> {
    let plain = text_or_empty(raw.text_field("name"@));
    if plain.len() > 0 {
        plain
    } else if encrypted_name(raw, key).len() > 0 {
        encrypted_name(raw, key)
    } else if magic_name(raw, key).len() > 0 {
        magic_name(raw, key)
    } else {
        "album-"@ + decimal(id as int)
    }
}

/// The album that a raw collection describes, decrypted with the master key.
pub open spec fn album_of(raw: JsonTree, master_key: Seq<u8>) -> Result<AlbumView, ApiFault> {
    match raw.text_field("encryptedKey"@) {
        None => Err(ApiFault::Decode("album missing encryptedKey"@)),
        Some(enc_key) => match raw.text_field("keyDecryptionNonce"@) {
            None => Err(ApiFault::Decode("album missing keyDecryptionNonce"@)),
            Some(nonce) => match secretbox_opened(enc_key, nonce, master_key) {
                Err(e) => Err(ApiFault::Decode(e.words())),
                Ok(key) => {
                    let id = match raw.integer_field("id"@) {
                        Some(n) => n,
                        None => 0,
                    };
                    Ok(
                        AlbumView {
                            id,
                            name: album_name_of(raw, key, id),
                            key,
                            is_deleted: raw.flag("isDeleted"@),
                        },
                    )
                },
            },
        },
    }
}

fn read_stream_json(data: Option<String>, header: Option<String>, key: &[u8]) -> (r: Option<Json>)
    ensures
        match r {
            Some(v) => stream_json(opt_text(data), opt_text(header), key@) == Some(v@),
            None => stream_json(opt_text(data), opt_text(header), key@) is None,
        },
{
    match (data, header) {
        (Some(d), Some(h)) => match decrypt_chacha(d.as_str(), key, h.as_str()) {
            Ok(plain) => parse_json(plain.as_slice()),
            Err(_) => None,
        },
        _ => None,
    }
}

fn read_encrypted_name(raw: &Json, key: &[u8]) -> (r: String)
    ensures
        r@ == encrypted_name(raw@, key@),
{
    match (raw.str_field("encryptedName"), raw.str_field("nameDecryptionNonce")) {
        (Some(name), Some(nonce)) => match secretbox_open(name.as_str(), nonce.as_str(), key) {
            Ok(plain) => from_utf8_lossy(plain.as_slice()),
            Err(_) => String::new(),
        },
        _ => String::new(),
    }
}

fn read_magic_name(raw: &Json, key: &[u8]) -> (r: String)
    ensures
        r@ == magic_name(raw@, key@),
{
    match raw.get("magicMetadata") {
        Some(magic) => match read_stream_json(
            magic.str_field("data"),
            magic.str_field("header"),
            key,
        ) {
            Some(meta) => match meta.str_field("name") {
                Some(name) => name,
                None => match meta.str_field("title") {
                    Some(title) => title,
                    None => String::new(),
                },
            },
            None => String::new(),
        },
        None => String::new(),
    }
}

/// What came of decrypting an album.
pub open spec fn album_outcome(r: Result<Album, EnteApiError>) -> Result<AlbumView, ApiFault> {
    match r {
        Ok(album) => Ok(album@),
        Err(e) => Err(e@),
    }
}

/// Decrypts the key and the name of an album.
pub fn decrypt_album(raw: &Json, master_key: &[u8]) -> (r: Result<Album, EnteApiError>)
    ensures
        album_outcome(r) == album_of(raw@, master_key@),
{
    let enc_key = match raw.str_field("encryptedKey") {
        Some(s) => s,
        None => return Err(EnteApiError::Decode("album missing encryptedKey".to_owned())),
    };
    let nonce = match raw.str_field("keyDecryptionNonce") {
        Some(s) => s,
        None => return Err(EnteApiError::Decode("album missing keyDecryptionNonce".to_owned())),
    };
    let key = match secretbox_open(enc_key.as_str(), nonce.as_str(), master_key) {
        Ok(b) => b,
        Err(e) => return Err(EnteApiError::Decode(e.message())),
    };
    let id: i64 = match raw.i64_field("id") {
        Some(n) => n,
        None => 0,
    };
    let mut name = match raw.str_field("name") {
        Some(s) => s,
        None => String::new(),
    };
    if name.as_str().is_empty() {
        name = read_encrypted_name(raw, key.as_slice());
    }
    if name.as_str().is_empty() {
        name = read_magic_name(raw, key.as_slice());
    }
    if name.as_str().is_empty() {
        name = joined("album-", i64_text(id).as_str());
    }
    Ok(Album { id, name, key, is_deleted: raw.is_set("isDeleted") })
}

/// The metadata in a field of a raw file; null where there is none that can be
/// read.
pub open spec fn metadata_of(raw: JsonTree, field: Seq<char>, key: Seq<u8>) -> JsonTree {
    match raw.field(field) {
        Some(attr) => match stream_json(
            attr.text_field("encryptedData"@),
            attr.text_field("decryptionHeader"@),
            key,
        ) {
            Some(v) => v,
            None => JsonTree::Null,
        },
        None => JsonTree::Null,
    }
}

/// Decrypts the metadata in a field of a raw file.
pub fn decode_metadata(raw: &Json, field: &str, key: &[u8]) -> (r: Json)
    ensures
        r@ == metadata_of(raw@, field@, key@),
{
    match raw.get(field) {
        Some(attr) => match read_stream_json(
            attr.str_field("encryptedData"),
            attr.str_field("decryptionHeader"),
            key,
        ) {
            Some(v) => v,
            None => Json::Null,
        },
        None => Json::Null,
    }
}

/// `a`, or `b` where there is no `a`.
pub open spec fn first_of<T>(a: Option<T>, b: Option<T>) -> Option<T> {
    match a {
        Some(v) => Some(v),
        None => b,
    }
}

/// Whether both coordinates are zero, which stands for an unknown place.
pub open spec fn nowhere(latitude: Option<u64>, longitude: Option<u64>) -> bool {
    match (latitude, longitude) {
        (Some(a), Some(b)) => is_zero(a) && is_zero(b),
        _ => false,
    }
}

/// What is left of a file that was deleted.
pub open spec fn deleted_file(id: i64, album: AlbumView) -> ImageView {
    ImageView {
        id,
        collection_id: album.id,
        album_name: album.name,
        key: Seq::empty(),
        decryption_header: Seq::empty(),
        file_size: None,
        title: None,
        file_type: FILE_TYPE_IMAGE,
        creation_time: None,
        modification_time: None,
        latitude: None,
        longitude: None,
        file_hash: None,
        is_deleted: true,
        faces: Seq::empty(),
        face_image_width: None,
        face_image_height: None,
    }
}

/// The field `inner` of the field `outer`.
pub open spec fn nested(v: JsonTree, outer: Seq<char>, inner: Seq<char>) -> Option<JsonTree> {
    match v.field(outer) {
        Some(o) => o.field(inner),
        None => None,
    }
}

/// A file with its metadata. What was edited takes precedence.
pub open spec fn live_file(
    raw: JsonTree,
    album: AlbumView,
    id: i64,
    file_key: Seq<u8>,
    header: Seq<char>,
) -> ImageView {
    let metadata = metadata_of(raw, "metadata"@, file_key);
    let edits = metadata_of(raw, "pubMagicMetadata"@, file_key);
    let latitude = first_of(edits.double_field("lat"@), metadata.double_field("latitude"@));
    let longitude = first_of(edits.double_field("long"@), metadata.double_field("longitude"@));
    ImageView {
        id,
        collection_id: album.id,
        album_name: album.name,
        key: file_key,
        decryption_header: header,
        file_size: match nested(raw, "info"@, "fileSize"@) {
            Some(v) => v.integer(),
            None => None,
        },
        title: first_of(edits.text_field("editedName"@), metadata.text_field("title"@)),
        file_type: match metadata.integer_field("fileType"@) {
            Some(t) => t,
            None => FILE_TYPE_IMAGE,
        },
        creation_time: first_of(
            edits.integer_field("editedTime"@),
            metadata.integer_field("creationTime"@),
        ),
        modification_time: metadata.integer_field("modificationTime"@),
        latitude: if nowhere(latitude, longitude) {
            None
        } else {
            latitude
        },
        longitude: if nowhere(latitude, longitude) {
            None
        } else {
            longitude
        },
        file_hash: metadata.text_field("hash"@),
        is_deleted: false,
        faces: Seq::empty(),
        face_image_width: None,
        face_image_height: None,
    }
}

/// The header that decrypts the blob of a raw file.
pub open spec fn header_of(raw: JsonTree) -> Option<Seq<char>> {
    match nested(raw, "file"@, "decryptionHeader"@) {
        Some(JsonTree::Text(h)) => Some(h),
        _ => None,
    }
}

/// The file that a raw entry describes, decrypted with the album's key.
pub open spec fn file_of(raw: JsonTree, album: AlbumView) -> Option<ImageView> {
    match raw.integer_field("id"@) {
        None => None,
        Some(id) => if raw.flag("isDeleted"@) {
            Some(deleted_file(id, album))
        } else {
            match (raw.text_field("encryptedKey"@), raw.text_field("keyDecryptionNonce"@)) {
                (Some(enc_key), Some(nonce)) => match secretbox_opened(enc_key, nonce, album.key) {
                    Err(_) => None,
                    Ok(file_key) => match header_of(raw) {
                        None => None,
                        Some(header) => Some(live_file(raw, album, id, file_key, header)),
                    },
                },
                _ => None,
            }
        },
    }
}

/// What an optional file shows.
pub open spec fn opt_file(r: Option<ImageFile>) -> Option<ImageView> {
    match r {
        Some(f) => Some(f@),
        None => None,
    }
}

fn or_int(a: Option<i64>, b: Option<i64>) -> (r: Option<i64>)
    ensures
        r == first_of(a, b),
{
    match a {
        Some(v) => Some(v),
        None => b,
    }
}

fn or_bits(a: Option<u64>, b: Option<u64>) -> (r: Option<u64>)
    ensures
        r == first_of(a, b),
{
    match a {
        Some(v) => Some(v),
        None => b,
    }
}

fn file_size_of(raw: &Json) -> (r: Option<i64>)
    ensures
        r == (match nested(raw@, "info"@, "fileSize"@) {
            Some(v) => v.integer(),
            None => None,
        }),
{
    match raw.get("info") {
        Some(info) => info.i64_field("fileSize"),
        None => None,
    }
}

fn decryption_header_of(raw: &Json) -> (r: Option<String>)
    ensures
        opt_text(r) == header_of(raw@),
{
    match raw.get("file") {
        Some(file) => file.str_field("decryptionHeader"),
        None => None,
    }
}

/// Decrypts a file entry. Entries that cannot be decrypted are skipped.
pub fn decrypt_file(raw: &Json, album: &Album) -> (r: Option<ImageFile>)
    ensures
        opt_file(r) == file_of(raw@, album@),
        opt_file(r) matches Some(file) ==> (!raw@.flag("isDeleted"@) ==> dated(raw@, file)),
{
    proof {
        if let Some(file) = file_of(raw@, album@) {
            if !raw@.flag("isDeleted"@) {
                file_is_dated(raw@, album@, file);
            }
        }
    }
    let id: i64 = match raw.i64_field("id") {
        Some(n) => n,
        None => return None,
    };
    let faces: Vec<DetectedFace> = Vec::new();
    assert(face_views(faces@) =~= Seq::empty());
    if raw.is_set("isDeleted") {
        return Some(
            ImageFile {
                id,
                collection_id: album.id,
                album_name: album.name.clone(),
                key: Vec::new(),
                decryption_header: String::new(),
                file_size: None,
                title: None,
                file_type: FILE_TYPE_IMAGE,
                creation_time: None,
                modification_time: None,
                latitude: None,
                longitude: None,
                file_hash: None,
                is_deleted: true,
                faces,
                face_image_width: None,
                face_image_height: None,
            },
        );
    }
    let enc_key = match raw.str_field("encryptedKey") {
        Some(s) => s,
        None => return None,
    };
    let nonce = match raw.str_field("keyDecryptionNonce") {
        Some(s) => s,
        None => return None,
    };
    let file_key = match secretbox_open(enc_key.as_str(), nonce.as_str(), album.key.as_slice()) {
        Ok(b) => b,
        Err(_) => return None,
    };
    let metadata = decode_metadata(raw, "metadata", file_key.as_slice());
    let edits = decode_metadata(raw, "pubMagicMetadata", file_key.as_slice());
    let mut latitude: Option<u64> = or_bits(
        edits.f64_field("lat"),
        metadata.f64_field("latitude"),
    );
    let mut longitude: Option<u64> = or_bits(
        edits.f64_field("long"),
        metadata.f64_field("longitude"),
    );
    if let (Some(a), Some(b)) = (latitude, longitude) {
        if double_is_zero(a) && double_is_zero(b) {
            latitude = None;
            longitude = None;
        }
    }
    let title = match edits.str_field("editedName") {
        Some(s) => Some(s),
        None => metadata.str_field("title"),
    };
    let decryption_header = match decryption_header_of(raw) {
        Some(h) => h,
        None => return None,
    };
    let file_type: i64 = match metadata.i64_field("fileType") {
        Some(t) => t,
        None => FILE_TYPE_IMAGE,
    };
    Some(
        ImageFile {
            id,
            collection_id: album.id,
            album_name: album.name.clone(),
            key: file_key,
            decryption_header,
            file_size: file_size_of(raw),
            title,
            file_type,
            creation_time: or_int(
                edits.i64_field("editedTime"),
                metadata.i64_field("creationTime"),
            ),
            modification_time: metadata.i64_field("modificationTime"),
            latitude,
            longitude,
            file_hash: metadata.str_field("hash"),
            is_deleted: false,
            faces,
            face_image_width: None,
            face_image_height: None,
        },
    )
}

// ------------------------------ synchronisation ----------------------------

/// The request for all albums.
pub open spec fn collections_request(client: ClientView) -> RequestView {
    client.get("/collections/v2"@, seq![("sinceTime"@, "0"@)])
}

/// The request for the files of an album that changed after `since`.
pub open spec fn diff_request(client: ClientView, album_id: i64, since: i64) -> RequestView {
    client.get(
        "/collections/v2/diff"@,
        seq![
            ("collectionID"@, decimal(album_id as int)),
            ("sinceTime"@, decimal(since as int)),
        ],
    )
}

/// The library after one more entry: a deleted file leaves, another enters.
pub open spec fn entry_applied(
    files: Map<i64, ImageView>,
    entry: JsonTree,
    album: AlbumView,
) -> Map<i64, ImageView> {
    match file_of(entry, album) {
        None => files,
        Some(file) => if file.is_deleted {
            files.remove(file.id)
        } else {
            files.insert(file.id, file)
        },
    }
}

/// The library after a list of entries.
pub open spec fn entries_applied(
    files: Map<i64, ImageView>,
    entries: Seq<JsonTree>,
    album: AlbumView,
) -> Map<i64, ImageView>
    decreases entries.len(),
{
    if entries.len() == 0 {
        files
    } else {
        entry_applied(entries_applied(files, entries.drop_last(), album), entries.last(), album)
    }
}

/// The latest of `since` and the times in the field `key` of the entries.
pub open spec fn latest(since: i64, entries: Seq<JsonTree>, key: Seq<char>) -> i64
    decreases entries.len(),
{
    if entries.len() == 0 {
        since
    } else {
        let earlier = latest(since, entries.drop_last(), key);
        match entries.last().integer_field(key) {
            Some(t) => if t > earlier {
                t
            } else {
                earlier
            },
            None => earlier,
        }
    }
}

/// How far a synchronisation has come: what was asked for last.
pub enum LibraryStage {
    /// The albums.
    Collections,
    /// A page of changes of an album. `albums[at..]` are still to come.
    Diff { albums: Vec<Json>, at: usize, album: Album, since: i64, files: HashMap<i64, ImageFile> },
}

/// The mathematical counterpart of `LibraryStage`.
#[verifier::ext_equal]
pub enum LibraryStageView {
    Collections,
    Diff {
        albums: Seq<JsonTree>,
        album: AlbumView,
        since: i64,
        files: Map<i64, ImageView>,
    },
}

impl View for LibraryStage {
    type V = LibraryStageView;

    open spec fn view(&self) -> LibraryStageView {
        match self {
            LibraryStage::Collections => LibraryStageView::Collections,
            LibraryStage::Diff { albums, at, album, since, files } => LibraryStageView::Diff {
                albums: trees(albums@).skip(*at as int),
                album: album@,
                since: *since,
                files: library_view(files@),
            },
        }
    }
}

impl LibraryStage {
    pub open spec fn wf(&self) -> bool {
        match self {
            LibraryStage::Collections => true,
            LibraryStage::Diff { albums, at, .. } => *at <= albums@.len(),
        }
    }
}

/// What a synchronisation does next.
pub enum LibraryStep {
    /// Send the request, and go on with the stage on its answer.
    Ask(HttpRequest, LibraryStage),
    Done(Result<HashMap<i64, ImageFile>, EnteApiError>),
}

/// The mathematical counterpart of `LibraryStep`.
#[verifier::ext_equal]
pub enum LibraryStepView {
    Ask(RequestView, LibraryStageView),
    Done(Result<Map<i64, ImageView>, ApiFault>),
}

impl View for LibraryStep {
    type V = LibraryStepView;

    open spec fn view(&self) -> LibraryStepView {
        match self {
            LibraryStep::Ask(request, stage) => LibraryStepView::Ask(request@, stage@),
            LibraryStep::Done(Ok(files)) => LibraryStepView::Done(Ok(library_view(files@))),
            LibraryStep::Done(Err(e)) => LibraryStepView::Done(Err(e@)),
        }
    }
}

impl LibraryStep {
    pub open spec fn wf(&self) -> bool {
        match self {
            LibraryStep::Ask(_, stage) => stage.wf(),
            LibraryStep::Done(_) => true,
        }
    }
}

/// The step that goes to the next album. Albums that are deleted or cannot be
/// decrypted are passed over.
pub open spec fn to_next_album(
    client: ClientView,
    master_key: Seq<u8>,
    albums: Seq<JsonTree>,
    files: Map<i64, ImageView>,
) -> LibraryStepView
    decreases albums.len(),
{
    if albums.len() == 0 {
        LibraryStepView::Done(Ok(files))
    } else {
        match album_of(albums[0], master_key) {
            Ok(album) => if album.is_deleted {
                to_next_album(client, master_key, albums.drop_first(), files)
            } else {
                LibraryStepView::Ask(
                    diff_request(client, album.id, 0),
                    LibraryStageView::Diff { albums: albums.drop_first(), album, since: 0, files },
                )
            },
            Err(_) => to_next_album(client, master_key, albums.drop_first(), files),
        }
    }
}

/// The step that follows an answer. A page of changes is the last of its album
/// where it is empty or does not say that there is more.
pub open spec fn library_step(
    client: ClientView,
    master_key: Seq<u8>,
    stage: LibraryStageView,
    answer: Result<JsonTree, ApiFault>,
) -> LibraryStepView {
    match answer {
        Err(e) => LibraryStepView::Done(Err(e)),
        Ok(page) => match stage {
            LibraryStageView::Collections => to_next_album(
                client,
                master_key,
                page.items_or_none("collections"@),
                Map::empty(),
            ),
            LibraryStageView::Diff { albums, album, since, files } => {
                let entries = page.items_or_none("diff"@);
                let now = entries_applied(files, entries, album);
                if entries.len() > 0 && page.flag("hasMore"@) {
                    let until = latest(since, entries, "updationTime"@);
                    LibraryStepView::Ask(
                        diff_request(client, album.id, until),
                        LibraryStageView::Diff { albums, album, since: until, files: now },
                    )
                } else {
                    to_next_album(client, master_key, albums, now)
                }
            },
        },
    }
}

fn diff_page(client: &MuseumClient, album_id: i64, since: i64) -> (r: HttpRequest)
    ensures
        r@ == diff_request(client@, album_id, since),
{
    let mut params: Vec<(String, String)> = Vec::new();
    assert(pairs(params@) =~= Seq::empty());
    push_pair(&mut params, "collectionID", i64_text(album_id).as_str());
    push_pair(&mut params, "sinceTime", i64_text(since).as_str());
    assert(pairs(params@) =~= diff_request(client@, album_id, since).query);
    client.get("/collections/v2/diff", params)
}

/// Goes to the next album in `albums[from..]`.
fn next_album(
    client: &MuseumClient,
    master_key: &[u8],
    albums: Vec<Json>,
    from: usize,
    files: HashMap<i64, ImageFile>,
) -> (r: LibraryStep)
    requires
        from <= albums@.len(),
    ensures
        r.wf(),
        r@ == to_next_album(
            client@,
            master_key@,
            trees(albums@).skip(from as int),
            library_view(files@),
        ),
{
    let ghost all = trees(albums@);
    let mut at: usize = from;
    while at < albums.len()
        invariant
            from <= at <= albums@.len(),
            all == trees(albums@),
            to_next_album(client@, master_key@, all.skip(from as int), library_view(files@))
                == to_next_album(client@, master_key@, all.skip(at as int), library_view(files@)),
        decreases albums@.len() - at,
    {
        let ghost rest = all.skip(at as int);
        assert(rest[0] == albums@[at as int]@);
        assert(rest.drop_first() =~= all.skip(at + 1));
        let decrypted = decrypt_album(&albums[at], master_key);
        at += 1;
        if let Ok(album) = decrypted {
            if !album.is_deleted {
                let request = diff_page(client, album.id, 0);
                return LibraryStep::Ask(
                    request,
                    LibraryStage::Diff { albums, at, album, since: 0, files },
                );
            }
        }
    }
    LibraryStep::Done(Ok(files))
}

/// Applies one entry to the library.
fn apply_entry(files: &mut HashMap<i64, ImageFile>, entry: &Json, album: &Album)
    ensures
        library_view(final(files)@) == entry_applied(library_view(old(files)@), entry@, album@),
{
    broadcast use vstd::std_specs::hash::group_hash_axioms;

    let ghost before = files@;
    match decrypt_file(entry, album) {
        Some(file) => {
            let id: i64 = file.id;
            if file.is_deleted {
                files.remove(&id);
                assert(library_view(files@) =~= library_view(before).remove(id));
            } else {
                let ghost shown = file@;
                files.insert(id, file);
                assert(library_view(files@) =~= library_view(before).insert(id, shown));
            }
        },
        None => {},
    }
}

/// Starts a synchronisation of the whole library.
pub fn fetch_library(client: &MuseumClient) -> (r: LibraryStep)
    ensures
        r.wf(),
        r@ == LibraryStepView::Ask(
            collections_request(client@),
            LibraryStageView::Collections,
        ),
{
    let mut params: Vec<(String, String)> = Vec::new();
    assert(pairs(params@) =~= Seq::empty());
    push_pair(&mut params, "sinceTime", "0");
    LibraryStep::Ask(client.get("/collections/v2", params), LibraryStage::Collections)
}

/// Goes on with a synchronisation on the answer to its last request.
pub fn continue_library(
    client: &MuseumClient,
    master_key: &[u8],
    stage: LibraryStage,
    sent: &Result<Reply, String>,
) -> (r: LibraryStep)
    requires
        stage.wf(),
    ensures
        r.wf(),
        r@ == library_step(client@, master_key@, stage@, json_answer(sent_view(*sent))),
        json_answer(sent_view(*sent)) matches Ok(page) ==> (
        stage@ matches LibraryStageView::Diff { album, files, .. } ==> files_in_step(r@) == Some(
            entries_applied(files, page.items_or_none("diff"@), album),
        )),
{
    proof {
        if let Ok(page) = json_answer(sent_view(*sent)) {
            if let LibraryStageView::Diff { albums, album, since, files } = stage@ {
                pages_are_applied_one_after_the_other(
                    client@,
                    master_key@,
                    albums,
                    album,
                    since,
                    files,
                    page,
                );
            }
        }
    }
    broadcast use vstd::std_specs::hash::group_hash_axioms;

    let page = match MuseumClient::json(sent) {
        Ok(v) => v,
        Err(e) => return LibraryStep::Done(Err(e)),
    };
    match stage {
        LibraryStage::Collections => {
            let files: HashMap<i64, ImageFile> = HashMap::new();
            assert(library_view(files@) =~= Map::empty());
            let albums = page.take_list("collections");
            assert(trees(albums@).skip(0) =~= trees(albums@));
            next_album(client, master_key, albums, 0, files)
        },
        LibraryStage::Diff { albums, at, album, since, files } => {
            let more = page.is_set("hasMore");
            let entries = page.take_list("diff");
            let ghost all = trees(entries@);
            let ghost start = library_view(files@);
            let mut now = files;
            let mut until: i64 = since;
            let mut i: usize = 0;
            assert(entries_applied(start, all.take(0), album@) == start);
            assert(latest(since, all.take(0), "updationTime"@) == since);
            while i < entries.len()
                invariant
                    i <= entries@.len(),
                    all == trees(entries@),
                    library_view(now@) == entries_applied(start, all.take(i as int), album@),
                    until == latest(since, all.take(i as int), "updationTime"@),
                decreases entries@.len() - i,
            {
                assert(all.take(i + 1).drop_last() =~= all.take(i as int));
                assert(all.take(i + 1).last() == entries@[i as int]@);
                if let Some(t) = entries[i].i64_field("updationTime") {
                    if t > until {
                        until = t;
                    }
                }
                apply_entry(&mut now, &entries[i], &album);
                i += 1;
            }
            assert(all.take(i as int) =~= all);
            if entries.len() > 0 && more {
                let request = diff_page(client, album.id, until);
                return LibraryStep::Ask(
                    request,
                    LibraryStage::Diff { albums, at, album, since: until, files: now },
                );
            }
            next_album(client, master_key, albums, at, now)
        },
    }
}

// ----------------------------- blobs and deletion --------------------------

/// The plaintext of a file's blob.
pub open spec fn blob_plain(file: ImageView, encrypted: Seq<u8>) -> Result<Seq<u8>, ApiFault> {
    match base64_bytes(file.decryption_header) {
        Err(e) => Err(ApiFault::Decode(e.words())),
        Ok(header) => match file_decrypted(encrypted, file.key, header) {
            Err(e) => Err(ApiFault::Decode(e.words())),
            Ok(plain) => Ok(plain),
        },
    }
}

/// What a caller sees of a download.
pub open spec fn bytes_outcome(r: Result<Vec<u8>, EnteApiError>) -> Result<Seq<u8>, ApiFault> {
    match r {
        Ok(b) => Ok(b@),
        Err(e) => Err(e@),
    }
}

/// Asks for the blob of a file.
pub fn download_image(client: &MuseumClient, settings: &Settings, file: &ImageFile) -> (r:
    HttpRequest)
    ensures
        r@ == client@.get_blob(settings.blob_url(file.id)),
{
    client.get_stream(settings.download_url(file.id).as_str())
}

/// Decrypts the blob of a file, where it was downloaded.
pub fn decrypt_download(file: &ImageFile, encrypted: Result<Vec<u8>, EnteApiError>) -> (r: Result<
    Vec<u8>,
    EnteApiError,
>)
    ensures
        bytes_outcome(r) == (match bytes_outcome(encrypted) {
            Err(e) => Err(e),
            Ok(bytes) => blob_plain(file@, bytes),
        }),
        encrypted matches Ok(bytes) ==> forall|header: Seq<u8>, state: State, run: ChunkRun|
            #![trigger opens_in(file@, header, state), run.starts(state)]
            opens_in(file@, header, state) && run.starts(state) && bytes@ == run.chunks.flatten()
                ==> bytes_outcome(r) == Ok::<Seq<u8>, ApiFault>(run.messages.flatten()),
{
    proof {
        assert forall|header: Seq<u8>, state: State, run: ChunkRun|
            #![trigger opens_in(file@, header, state), run.starts(state)]
            opens_in(file@, header, state) && run.starts(state) implies blob_plain(
            file@,
            run.chunks.flatten(),
        ) == Ok::<Seq<u8>, ApiFault>(run.messages.flatten()) by {
            download_gives_the_whole_file(file@, header, state, run);
        }
    }
    let bytes = match encrypted {
        Ok(b) => b,
        Err(e) => return Err(e),
    };
    let header = match b64decode(file.decryption_header.as_str()) {
        Ok(h) => h,
        Err(e) => return Err(EnteApiError::Decode(e.message())),
    };
    match decrypt_file_stream(bytes.as_slice(), file.key.as_slice(), header.as_slice()) {
        Ok(plain) => Ok(plain),
        Err(e) => Err(EnteApiError::Decode(e.message())),
    }
}

/// What names a file that is to be trashed.
pub open spec fn trash_item(file_id: i64, collection_id: i64) -> Seq<(Seq<char>, DocTree)> {
    seq![("fileID"@, DocTree::Int(file_id)), ("collectionID"@, DocTree::Int(collection_id))]
}

/// The request that moves a file to the trash.
pub open spec fn trash_request(client: ClientView, file_id: i64, collection_id: i64) -> RequestView {
    client.post(
        "/files/trash"@,
        DocTree::Fields(
            seq![
                (
                    "items"@,
                    DocTree::List(seq![DocTree::Fields(trash_item(file_id, collection_id))]),
                ),
            ],
        ),
    )
}

/// Asks the museum to move a file to the trash.
pub fn delete_file(client: &MuseumClient, file_id: i64, collection_id: i64) -> (r: HttpRequest)
    ensures
        r@ == trash_request(client@, file_id, collection_id),
{
    let mut item = no_fields();
    put(&mut item, "fileID", Doc::Int(file_id));
    put(&mut item, "collectionID", Doc::Int(collection_id));
    assert(field_trees(item@) =~= trash_item(file_id, collection_id));
    let mut items: Vec<Doc> = Vec::new();
    items.push(object(item));
    assert(item_trees(items@) =~= seq![DocTree::Fields(trash_item(file_id, collection_id))]);
    let mut fields = no_fields();
    put(&mut fields, "items", list(items));
    client.post("/files/trash", object(fields))
}

// ---------------------------------- filters --------------------------------

/// Which files to list; what is not set does not restrict. Bounds on
/// coordinates are doubles, given by their bits.
pub struct ImageFilter {
    pub album: Option<String>,
    pub media_type: Option<String>,
    pub time_from: Option<i64>,
    pub time_to: Option<i64>,
    pub has_location: Option<bool>,
    pub min_lat: Option<u64>,
    pub max_lat: Option<u64>,
    pub min_lon: Option<u64>,
    pub max_lon: Option<u64>,
    pub filename: Option<String>,
    pub has_faces: Option<bool>,
    pub min_faces: Option<usize>,
    pub person: Option<String>,
}

/// The mathematical counterpart of `ImageFilter`.
pub struct FilterView {
    pub album: Option<Seq<char>>,
    pub media_type: Option<Seq<char>>,
    pub time_from: Option<i64>,
    pub time_to: Option<i64>,
    pub has_location: Option<bool>,
    pub min_lat: Option<u64>,
    pub max_lat: Option<u64>,
    pub min_lon: Option<u64>,
    pub max_lon: Option<u64>,
    pub filename: Option<Seq<char>>,
    pub has_faces: Option<bool>,
    pub min_faces: Option<usize>,
    pub person: Option<Seq<char>>,
}

impl View for ImageFilter {
    type V = FilterView;

    open spec fn view(&self) -> FilterView {
        FilterView {
            album: opt_text(self.album),
            media_type: opt_text(self.media_type),
            time_from: self.time_from,
            time_to: self.time_to,
            has_location: self.has_location,
            min_lat: self.min_lat,
            max_lat: self.max_lat,
            min_lon: self.min_lon,
            max_lon: self.max_lon,
            filename: opt_text(self.filename),
            has_faces: self.has_faces,
            min_faces: self.min_faces,
            person: opt_text(self.person),
        }
    }
}

/// Whether `part` occurs in `whole`, in upper or lower case.
pub open spec fn found_in(whole: Seq<char>, part: Seq<char>) -> bool {
    has_part(lowercase(whole), lowercase(part))
}

pub open spec fn located(file: ImageView) -> bool {
    file.latitude is Some && file.longitude is Some
}

/// Whether a file shows a person whose name holds `part`.
pub open spec fn shows_person(faces: Seq<FaceView>, part: Seq<char>) -> bool {
    exists|i: int|
        0 <= i < faces.len() && #[trigger] faces[i].person_name is Some && found_in(
            faces[i].person_name->0,
            part,
        )
}

/// Whether a file passes every restriction of a filter.
pub open spec fn wanted(f: FilterView, file: ImageView) -> bool {
    &&& !file.is_deleted
    &&& f.album matches Some(part) ==> found_in(file.album_name, part)
    &&& f.media_type matches Some(name) ==> media_name(file.file_type) == lowercase(name)
    &&& f.time_from matches Some(from) ==> (file.creation_time matches Some(t) && t >= from)
    &&& f.time_to matches Some(to) ==> (file.creation_time matches Some(t) && t <= to)
    &&& f.has_location matches Some(yes) ==> located(file) == yes
    &&& f.min_lat matches Some(v) ==> located(file) && !less(file.latitude->0, v)
    &&& f.max_lat matches Some(v) ==> located(file) && !less(v, file.latitude->0)
    &&& f.min_lon matches Some(v) ==> located(file) && !less(file.longitude->0, v)
    &&& f.max_lon matches Some(v) ==> located(file) && !less(v, file.longitude->0)
    &&& f.filename matches Some(part) ==> (file.title matches Some(t) && found_in(t, part))
    &&& f.has_faces matches Some(yes) ==> (file.faces.len() > 0) == yes
    &&& f.min_faces matches Some(n) ==> file.faces.len() >= n
    &&& f.person matches Some(part) ==> shows_person(file.faces, part)
}

/// The time by which a file is listed.
pub open spec fn listed_time(file: ImageView) -> i64 {
    match file.creation_time {
        Some(t) => t,
        None => 0,
    }
}

/// Whether `keys` is a listing: the keys of exactly the files that the filter
/// lets through, each once, the newest first.
pub open spec fn is_listing(files: Map<i64, ImageView>, f: FilterView, keys: Seq<i64>) -> bool {
    &&& keys.no_duplicates()
    &&& forall|k: i64| #[trigger]
        keys.contains(k) <==> files.contains_key(k) && wanted(f, files[k])
    &&& forall|i: int, j: int|
        0 <= i < j < keys.len() ==> listed_time(files[#[trigger] keys[i]]) >= listed_time(
            files[#[trigger] keys[j]],
        )
}

/// Whether `listed` shows the files with the keys `keys`.
pub open spec fn shows_files(
    files: Map<i64, ImageView>,
    keys: Seq<i64>,
    listed: Seq<&ImageFile>,
) -> bool {
    &&& listed.len() == keys.len()
    &&& forall|i: int| 0 <= i < keys.len() ==> (#[trigger] listed[i])@ == files[keys[i]]
}

/// The place of a file in a listing.
#[derive(Clone, Copy)]
struct Listed {
    time: i64,
    key: i64,
}

impl Ranked for Listed {
    closed spec fn before(self, other: Listed) -> bool {
        self.time >= other.time
    }

    proof fn total(a: Listed, b: Listed) {
    }

    proof fn transitive(a: Listed, b: Listed, c: Listed) {
    }

    fn may_precede(&self, other: &Listed) -> (r: bool) {
        self.time >= other.time
    }
}

/// The texts of a filter in lower case.
struct Needles {
    album: Option<String>,
    media_type: Option<String>,
    filename: Option<String>,
    person: Option<String>,
}

spec fn lowered(s: Option<Seq<char>>) -> Option<Seq<char>> {
    match s {
        Some(t) => Some(lowercase(t)),
        None => None,
    }
}

fn lower(s: &Option<String>) -> (r: Option<String>)
    ensures
        opt_text(r) == lowered(opt_text(*s)),
{
    match s {
        Some(t) => Some(t.as_str().to_lowercase()),
        None => None,
    }
}

impl Needles {
    spec fn belong_to(self, f: FilterView) -> bool {
        &&& opt_text(self.album) == lowered(f.album)
        &&& opt_text(self.media_type) == lowered(f.media_type)
        &&& opt_text(self.filename) == lowered(f.filename)
        &&& opt_text(self.person) == lowered(f.person)
    }
}

fn shows(faces: &Vec<DetectedFace>, part: &str) -> (r: bool)
    ensures
        r == exists|i: int|
            0 <= i < faces@.len() && #[trigger] faces@[i]@.person_name is Some && has_part(
                lowercase(faces@[i]@.person_name->0),
                part@,
            ),
{
    let mut i: usize = 0;
    while i < faces.len()
        invariant
            i <= faces@.len(),
            forall|j: int|
                0 <= j < i ==> !(#[trigger] faces@[j]@.person_name is Some && has_part(
                    lowercase(faces@[j]@.person_name->0),
                    part@,
                )),
        decreases faces@.len() - i,
    {
        if let Some(name) = &faces[i].person_name {
            if contains(name.as_str().to_lowercase().as_str(), part) {
                assert(faces@[i as int]@.person_name is Some);
                return true;
            }
        }
        i += 1;
    }
    false
}

/// Whether a file passes the restrictions on its place.
fn in_place(file: &ImageFile, f: &ImageFilter) -> (r: bool)
    ensures
        r == ({
            &&& f@.has_location matches Some(yes) ==> located(file@) == yes
            &&& f@.min_lat matches Some(v) ==> located(file@) && !less(file@.latitude->0, v)
            &&& f@.max_lat matches Some(v) ==> located(file@) && !less(v, file@.latitude->0)
            &&& f@.min_lon matches Some(v) ==> located(file@) && !less(file@.longitude->0, v)
            &&& f@.max_lon matches Some(v) ==> located(file@) && !less(v, file@.longitude->0)
        }),
{
    match (file.latitude, file.longitude) {
        (Some(lat), Some(lon)) => {
            if let Some(yes) = f.has_location {
                if !yes {
                    return false;
                }
            }
            if let Some(v) = f.min_lat {
                if double_less(lat, v) {
                    return false;
                }
            }
            if let Some(v) = f.max_lat {
                if double_less(v, lat) {
                    return false;
                }
            }
            if let Some(v) = f.min_lon {
                if double_less(lon, v) {
                    return false;
                }
            }
            if let Some(v) = f.max_lon {
                if double_less(v, lon) {
                    return false;
                }
            }
            true
        },
        _ => {
            if let Some(yes) = f.has_location {
                if yes {
                    return false;
                }
            }
            f.min_lat.is_none() && f.max_lat.is_none() && f.min_lon.is_none()
                && f.max_lon.is_none()
        },
    }
}

/// Whether a file passes a filter.
fn passes(file: &ImageFile, f: &ImageFilter, needles: &Needles) -> (r: bool)
    requires
        needles.belong_to(f@),
    ensures
        r == wanted(f@, file@),
{
    if file.is_deleted {
        return false;
    }
    if let Some(part) = &needles.album {
        if !contains(file.album_name.as_str().to_lowercase().as_str(), part.as_str()) {
            return false;
        }
    }
    if let Some(name) = &needles.media_type {
        if !same_text(file.media_type(), name.as_str()) {
            return false;
        }
    }
    if let Some(from) = f.time_from {
        match file.creation_time {
            Some(t) => {
                if t < from {
                    return false;
                }
            },
            None => return false,
        }
    }
    if let Some(to) = f.time_to {
        match file.creation_time {
            Some(t) => {
                if t > to {
                    return false;
                }
            },
            None => return false,
        }
    }
    if !in_place(file, f) {
        return false;
    }
    if let Some(part) = &needles.filename {
        match &file.title {
            Some(title) => {
                if !contains(title.as_str().to_lowercase().as_str(), part.as_str()) {
                    return false;
                }
            },
            None => return false,
        }
    }
    if let Some(yes) = f.has_faces {
        if (file.faces.len() > 0) != yes {
            return false;
        }
    }
    if let Some(n) = f.min_faces {
        if file.faces.len() < n {
            return false;
        }
    }
    if let Some(part) = &needles.person {
        proof {
            let whole = f@.person->0;
            let views = face_views(file.faces@);
            assert(forall|i: int| 0 <= i < views.len() ==> #[trigger] views[i] == file.faces@[i]@);
            if shows_person(views, whole) {
                let i = choose|i: int|
                    0 <= i < views.len() && #[trigger] views[i].person_name is Some && found_in(
                        views[i].person_name->0,
                        whole,
                    );
                assert(file.faces@[i]@.person_name is Some);
            }
        }
        if !shows(&file.faces, part.as_str()) {
            return false;
        }
        proof {
            let i = choose|i: int|
                0 <= i < file.faces@.len() && #[trigger] file.faces@[i]@.person_name is Some
                    && has_part(lowercase(file.faces@[i]@.person_name->0), part@);
            assert(face_views(file.faces@)[i].person_name is Some);
        }
    }
    true
}

/// The files that pass a filter, the newest first. Files of the same age come
/// in no particular order.
pub fn filter_images<'a>(files: &'a HashMap<i64, ImageFile>, f: &ImageFilter) -> (r: Vec<
    &'a ImageFile,
>)
    ensures
        exists|keys: Seq<i64>|
            #![trigger is_listing(library_view(files@), f@, keys)]
            is_listing(library_view(files@), f@, keys) && shows_files(
                library_view(files@),
                keys,
                r@,
            ),
        forall|i: int| 0 <= i < r@.len() ==> wanted(f@, (#[trigger] r@[i])@),
        forall|k: i64|
            #![trigger files@[k]]
            files@.contains_key(k) && wanted(f@, files@[k]@) ==> exists|i: int|
                0 <= i < r@.len() && (#[trigger] r@[i])@ == files@[k]@,
        forall|i: int, j: int|
            0 <= i < j < r@.len() ==> listed_time((#[trigger] r@[i])@) >= listed_time(
                (#[trigger] r@[j])@,
            ),
{
    broadcast use vstd::std_specs::hash::group_hash_axioms;

    let needles = Needles {
        album: lower(&f.album),
        media_type: lower(&f.media_type),
        filename: lower(&f.filename),
        person: lower(&f.person),
    };
    let all = keys_of(files);
    let mut found: Vec<Listed> = Vec::new();
    let mut i: usize = 0;
    while i < all.len()
        invariant
            i <= all@.len(),
            all@.no_duplicates(),
            all@.to_set() == files@.dom(),
            needles.belong_to(f@),
            forall|n: int|
                0 <= n < found@.len() ==> {
                    let item = #[trigger] found@[n];
                    &&& files@.contains_key(item.key)
                    &&& wanted(f@, files@[item.key]@)
                    &&& item.time == listed_time(files@[item.key]@)
                    &&& all@.take(i as int).contains(item.key)
                },
            forall|n: int, m: int|
                0 <= n < m < found@.len() ==> (#[trigger] found@[n]).key != (
                #[trigger] found@[m]).key,
            forall|n: int|
                0 <= n < i && wanted(f@, files@[#[trigger] all@[n]]@) ==> exists|m: int|
                    0 <= m < found@.len() && #[trigger] found@[m].key == all@[n],
        decreases all@.len() - i,
    {
        broadcast use vstd::std_specs::hash::group_hash_axioms;

        let key: i64 = all[i];
        assert(all@.to_set().contains(key));
        let ghost before = found@;
        assert(!all@.take(i as int).contains(key)) by {
            if all@.take(i as int).contains(key) {
                let n = choose|n: int| 0 <= n < i && all@.take(i as int)[n] == key;
                assert(all@[n] == all@[i as int]);
            }
        }
        assert forall|k: i64| all@.take(i as int).contains(k) implies all@.take(i + 1).contains(
            k,
        ) by {
            let n = choose|n: int| 0 <= n < i && all@.take(i as int)[n] == k;
            assert(all@.take(i + 1)[n] == k);
        }
        assert(all@.take(i + 1)[i as int] == key);
        assert(all@.take(i + 1).contains(key));
        if let Some(file) = files.get(&key) {
            if passes(file, f, &needles) {
                let time: i64 = match file.creation_time {
                    Some(t) => t,
                    None => 0,
                };
                found.push(Listed { time, key });
                assert(found@[before.len() as int].key == key);
            }
        }
        assert forall|n: int| 0 <= n < i + 1 && wanted(f@, files@[#[trigger] all@[n]]@) implies exists|
            m: int,
        |
            0 <= m < found@.len() && #[trigger] found@[m].key == all@[n] by {
            if n < i {
                let m = choose|m: int| 0 <= m < before.len() && #[trigger] before[m].key == all@[n];
                assert(found@[m].key == all@[n]);
            } else {
                assert(found@[before.len() as int].key == all@[n]);
            }
        }
        i += 1;
    }
    let places = sorted(&found);
    proof {
        same_values(places@, found@);
        assert(found@.no_duplicates());
    }
    let ghost keys = places@.map_values(|p: Listed| p.key);
    proof {
        assert forall|n: int| 0 <= n < places@.len() implies found@.contains(
            #[trigger] places@[n],
        ) by {
            assert(places@.contains(places@[n]));
        }
        assert forall|n: int, m: int| 0 <= n < keys.len() && 0 <= m < keys.len() && n != m implies
            keys[n] != keys[m] by {
            if places@[n].key == places@[m].key {
                let a = choose|a: int| 0 <= a < found@.len() && found@[a] == places@[n];
                let b = choose|b: int| 0 <= b < found@.len() && found@[b] == places@[m];
                if a < b {
                    assert(found@[a].key != found@[b].key);
                } else if b < a {
                    assert(found@[b].key != found@[a].key);
                }
                assert(places@[n] == places@[m]);
            }
        }
        assert forall|k: i64| #[trigger] keys.contains(k) <==> files@.contains_key(k) && wanted(
            f@,
            files@[k]@,
        ) by {
            if keys.contains(k) {
                let n = choose|n: int| 0 <= n < keys.len() && keys[n] == k;
                assert(found@.contains(places@[n]));
                let m = choose|m: int| 0 <= m < found@.len() && found@[m] == places@[n];
                assert(found@[m].key == k);
            }
            if files@.contains_key(k) && wanted(f@, files@[k]@) {
                assert(all@.to_set().contains(k));
                let n = choose|n: int| 0 <= n < all@.len() && all@[n] == k;
                let m = choose|m: int| 0 <= m < found@.len() && #[trigger] found@[m].key == all@[n];
                assert(found@.contains(found@[m]));
                assert(places@.contains(found@[m]));
                let l = choose|l: int| 0 <= l < places@.len() && places@[l] == found@[m];
                assert(keys[l] == k);
            }
        }
    }
    let mut out: Vec<&'a ImageFile> = Vec::new();
    let mut n: usize = 0;
    while n < places.len()
        invariant
            n <= places@.len(),
            out@.len() == n,
            keys == places@.map_values(|p: Listed| p.key),
            in_order(places@),
            forall|k: i64| #[trigger]
                keys.contains(k) <==> files@.contains_key(k) && wanted(f@, files@[k]@),
            forall|m: int| 0 <= m < n ==> *(#[trigger] out@[m]) == files@[keys[m]],
        decreases places@.len() - n,
    {
        broadcast use vstd::std_specs::hash::group_hash_axioms;

        let key: i64 = places[n].key;
        assert(keys[n as int] == key);
        assert(keys.contains(key));
        if let Some(file) = files.get(&key) {
            out.push(file);
        }
        n += 1;
    }
    proof {
        let shown = library_view(files@);
        assert forall|k: i64| #[trigger] keys.contains(k) <==> shown.contains_key(k) && wanted(
            f@,
            shown[k],
        ) by {
            if files@.contains_key(k) {
                assert(shown[k] == files@[k]@);
            }
        }
        assert forall|a: int, b: int| 0 <= a < b < keys.len() implies listed_time(
            shown[#[trigger] keys[a]],
        ) >= listed_time(shown[#[trigger] keys[b]]) by {
            assert(found@.contains(places@[a]));
            assert(found@.contains(places@[b]));
            let c = choose|c: int| 0 <= c < found@.len() && found@[c] == places@[a];
            let d = choose|d: int| 0 <= d < found@.len() && found@[d] == places@[b];
            assert(found@[c].time == listed_time(files@[found@[c].key]@));
            assert(found@[d].time == listed_time(files@[found@[d].key]@));
            assert(places@[a].before(places@[b]));
        }
        assert forall|a: int| 0 <= a < keys.len() implies (#[trigger] out@[a])@
            == shown[keys[a]] by {
            assert(keys.contains(keys[a]));
        }
        assert(is_listing(shown, f@, keys));
        assert forall|a: int| 0 <= a < out@.len() implies wanted(f@, (#[trigger] out@[a])@) by {
            assert(keys.contains(keys[a]));
        }
        assert forall|k: i64|
            #![trigger files@[k]]
            files@.contains_key(k) && wanted(f@, files@[k]@) implies exists|a: int|
            0 <= a < out@.len() && (#[trigger] out@[a])@ == files@[k]@ by {
            assert(keys.contains(k));
            let a = choose|a: int| 0 <= a < keys.len() && keys[a] == k;
            assert(out@[a]@ == files@[k]@);
        }
    }
    out
}

// ----------------------------------- laws ----------------------------------

/// A library keeps files under their ids, and none that is deleted.
pub open spec fn live_library(files: Map<i64, ImageView>) -> bool {
    forall|id: i64| #[trigger]
        files.contains_key(id) ==> files[id].id == id && !files[id].is_deleted
}

/// Changes leave a library without deleted files.
pub proof fn changes_keep_a_library_live(
    files: Map<i64, ImageView>,
    entries: Seq<JsonTree>,
    album: AlbumView,
)
    requires
        live_library(files),
    ensures
        live_library(entries_applied(files, entries, album)),
    decreases entries.len(),
{
    if entries.len() > 0 {
        changes_keep_a_library_live(files, entries.drop_last(), album);
    }
}

/// The library of a stage.
pub open spec fn stage_is_live(stage: LibraryStageView) -> bool {
    match stage {
        LibraryStageView::Collections => true,
        LibraryStageView::Diff { files, .. } => live_library(files),
    }
}

/// What a step leads to keeps the library live.
pub open spec fn step_is_live(step: LibraryStepView) -> bool {
    match step {
        LibraryStepView::Ask(_, stage) => stage_is_live(stage),
        LibraryStepView::Done(Ok(files)) => live_library(files),
        LibraryStepView::Done(Err(_)) => true,
    }
}

proof fn next_album_is_live(
    client: ClientView,
    master_key: Seq<u8>,
    albums: Seq<JsonTree>,
    files: Map<i64, ImageView>,
)
    requires
        live_library(files),
    ensures
        step_is_live(to_next_album(client, master_key, albums, files)),
    decreases albums.len(),
{
    if albums.len() > 0 {
        next_album_is_live(client, master_key, albums.drop_first(), files);
    }
}

/// Whatever the museum answers, a synchronisation ends with a library that
/// keeps files under their ids and has none that is deleted.
pub proof fn synchronised_library_is_live(
    client: ClientView,
    master_key: Seq<u8>,
    stage: LibraryStageView,
    answer: Result<JsonTree, ApiFault>,
)
    requires
        stage_is_live(stage),
    ensures
        step_is_live(library_step(client, master_key, stage, answer)),
{
    if let Ok(page) = answer {
        match stage {
            LibraryStageView::Collections => {
                next_album_is_live(
                    client,
                    master_key,
                    page.items_or_none("collections"@),
                    Map::empty(),
                );
            },
            LibraryStageView::Diff { albums, album, since, files } => {
                let entries = page.items_or_none("diff"@);
                changes_keep_a_library_live(files, entries, album);
                next_album_is_live(
                    client,
                    master_key,
                    albums,
                    entries_applied(files, entries, album),
                );
            },
        }
    }
}

/// A file whose last change is its deletion is not in the library.
pub proof fn deleted_file_leaves(
    files: Map<i64, ImageView>,
    entries: Seq<JsonTree>,
    album: AlbumView,
    id: i64,
)
    requires
        entries.len() > 0,
        entries.last().integer_field("id"@) == Some(id),
        entries.last().flag("isDeleted"@),
    ensures
        !entries_applied(files, entries, album).contains_key(id),
{
}

/// The time from which changes are asked for never goes back, and reaches every
/// change that was seen.
pub proof fn since_never_goes_back(since: i64, entries: Seq<JsonTree>, key: Seq<char>)
    ensures
        latest(since, entries, key) >= since,
        forall|i: int|
            0 <= i < entries.len() ==> ((#[trigger] entries[i]).integer_field(key) matches Some(t)
                ==> latest(since, entries, key) >= t),
    decreases entries.len(),
{
    if entries.len() > 0 {
        let earlier = entries.drop_last();
        since_never_goes_back(since, earlier, key);
        assert forall|i: int| 0 <= i < entries.len() implies (
        (#[trigger] entries[i]).integer_field(key) matches Some(t) ==> latest(since, entries, key)
            >= t) by {
            if i < earlier.len() {
                assert(earlier[i] == entries[i]);
            }
        }
    }
}

/// The names of the people in an image are distinct, and every named face has
/// its name among them.
pub proof fn names_are_distinct_and_complete(faces: Seq<FaceView>)
    ensures
        names_in(faces).no_duplicates(),
        forall|n: Seq<char>| #[trigger]
            names_in(faces).contains(n) <==> exists|i: int|
                0 <= i < faces.len() && (#[trigger] faces[i]).person_name == Some(n),
    decreases faces.len(),
{
    if faces.len() > 0 {
        let earlier = faces.drop_last();
        names_are_distinct_and_complete(earlier);
        let before = names_in(earlier);
        let now = names_in(faces);
        assert forall|n: Seq<char>| #[trigger] now.contains(n) <==> exists|i: int|
            0 <= i < faces.len() && (#[trigger] faces[i]).person_name == Some(n) by {
            let last = faces.last().person_name;
            if now.contains(n) {
                if before.contains(n) {
                    let i = choose|i: int|
                        0 <= i < earlier.len() && (#[trigger] earlier[i]).person_name == Some(n);
                    assert(faces[i].person_name == Some(n));
                } else {
                    assert(last == Some(n)) by {
                        let k = choose|k: int| 0 <= k < now.len() && now[k] == n;
                        if k < before.len() {
                            assert(before[k] == n);
                        }
                    }
                    assert(faces[faces.len() - 1].person_name == Some(n));
                }
            }
            if exists|i: int| 0 <= i < faces.len() && (#[trigger] faces[i]).person_name == Some(n) {
                let i = choose|i: int|
                    0 <= i < faces.len() && (#[trigger] faces[i]).person_name == Some(n);
                if i < earlier.len() {
                    assert(earlier[i].person_name == Some(n));
                    assert(before.contains(n));
                    let k = choose|k: int| 0 <= k < before.len() && before[k] == n;
                    assert(now[k] == n);
                } else if !before.contains(n) {
                    assert(now == before.push(n));
                    assert(now[before.len() as int] == n);
                }
            }
        }
    }
}

/// A filter that restricts nothing.
pub open spec fn no_filter() -> FilterView {
    FilterView {
        album: None,
        media_type: None,
        time_from: None,
        time_to: None,
        has_location: None,
        min_lat: None,
        max_lat: None,
        min_lon: None,
        max_lon: None,
        filename: None,
        has_faces: None,
        min_faces: None,
        person: None,
    }
}

/// Without a filter, all files are listed that are not deleted.
pub proof fn no_filter_lists_everything(file: ImageView)
    ensures
        wanted(no_filter(), file) == !file.is_deleted,
{
}

/// Whether `f` sets whatever `g` sets, to the same value.
pub open spec fn restricts(f: FilterView, g: FilterView) -> bool {
    &&& g.album is Some ==> f.album == g.album
    &&& g.media_type is Some ==> f.media_type == g.media_type
    &&& g.time_from is Some ==> f.time_from == g.time_from
    &&& g.time_to is Some ==> f.time_to == g.time_to
    &&& g.has_location is Some ==> f.has_location == g.has_location
    &&& g.min_lat is Some ==> f.min_lat == g.min_lat
    &&& g.max_lat is Some ==> f.max_lat == g.max_lat
    &&& g.min_lon is Some ==> f.min_lon == g.min_lon
    &&& g.max_lon is Some ==> f.max_lon == g.max_lon
    &&& g.filename is Some ==> f.filename == g.filename
    &&& g.has_faces is Some ==> f.has_faces == g.has_faces
    &&& g.min_faces is Some ==> f.min_faces == g.min_faces
    &&& g.person is Some ==> f.person == g.person
}

/// Filters combine: each further restriction only takes files away.
pub proof fn filters_combine(f: FilterView, g: FilterView, file: ImageView)
    requires
        restricts(f, g),
        wanted(f, file),
    ensures
        wanted(g, file),
{
}

/// A bounding box lists located files only, whatever its bounds.
pub proof fn bounds_need_a_place(f: FilterView, file: ImageView)
    requires
        wanted(f, file),
        f.min_lat is Some || f.max_lat is Some || f.min_lon is Some || f.max_lon is Some,
    ensures
        located(file),
{
}

/// The end of a synchronisation that gets these answers, where they suffice.
pub open spec fn library_run(
    client: ClientView,
    master_key: Seq<u8>,
    stage: LibraryStageView,
    answers: Seq<Result<JsonTree, ApiFault>>,
) -> Option<Result<Map<i64, ImageView>, ApiFault>>
    decreases answers.len(),
{
    if answers.len() == 0 {
        None
    } else {
        match library_step(client, master_key, stage, answers[0]) {
            LibraryStepView::Done(r) => Some(r),
            LibraryStepView::Ask(_, next) => library_run(
                client,
                master_key,
                next,
                answers.drop_first(),
            ),
        }
    }
}

/// Whatever the museum answers to a whole synchronisation, it ends with a live
/// library or with the first error.
pub proof fn whole_synchronisation_is_live(
    client: ClientView,
    master_key: Seq<u8>,
    stage: LibraryStageView,
    answers: Seq<Result<JsonTree, ApiFault>>,
)
    requires
        stage_is_live(stage),
    ensures
        match library_run(client, master_key, stage, answers) {
            Some(Ok(files)) => live_library(files),
            Some(Err(e)) => exists|i: int|
                0 <= i < answers.len() && answers[i] == Err::<JsonTree, ApiFault>(e) && (
                forall|j: int| 0 <= j < i ==> (#[trigger] answers[j]) is Ok),
            None => true,
        },
    decreases answers.len(),
{
    if answers.len() > 0 {
        synchronised_library_is_live(client, master_key, stage, answers[0]);
        match library_step(client, master_key, stage, answers[0]) {
            LibraryStepView::Done(r) => {
                if let Ok(page) = answers[0] {
                    album_steps_do_not_fail(client, master_key, stage, page);
                }
            },
            LibraryStepView::Ask(_, next) => {
                let rest = answers.drop_first();
                whole_synchronisation_is_live(client, master_key, next, rest);
                if let Some(Err(e)) = library_run(client, master_key, next, rest) {
                    let i = choose|i: int|
                        0 <= i < rest.len() && rest[i] == Err::<JsonTree, ApiFault>(e) && (
                        forall|j: int| 0 <= j < i ==> (#[trigger] rest[j]) is Ok);
                    assert(answers[i + 1] == Err::<JsonTree, ApiFault>(e));
                    assert forall|j: int| 0 <= j < i + 1 implies (#[trigger] answers[j]) is Ok by {
                        if j > 0 {
                            assert(rest[j - 1] is Ok);
                        }
                    }
                }
            },
        }
    }
}

proof fn next_album_does_not_fail(
    client: ClientView,
    master_key: Seq<u8>,
    albums: Seq<JsonTree>,
    files: Map<i64, ImageView>,
)
    ensures
        !(to_next_album(client, master_key, albums, files) matches LibraryStepView::Done(Err(_))),
    decreases albums.len(),
{
    if albums.len() > 0 {
        next_album_does_not_fail(client, master_key, albums.drop_first(), files);
    }
}

proof fn album_steps_do_not_fail(
    client: ClientView,
    master_key: Seq<u8>,
    stage: LibraryStageView,
    page: JsonTree,
)
    ensures
        !(library_step(client, master_key, stage, Ok(page)) matches LibraryStepView::Done(Err(_))),
{
    match stage {
        LibraryStageView::Collections => {
            next_album_does_not_fail(
                client,
                master_key,
                page.items_or_none("collections"@),
                Map::empty(),
            );
        },
        LibraryStageView::Diff { albums, album, since, files } => {
            next_album_does_not_fail(
                client,
                master_key,
                albums,
                entries_applied(files, page.items_or_none("diff"@), album),
            );
        },
    }
}

} // verus!
