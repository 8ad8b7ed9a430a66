//! Laws of the views: contracts speak of values through them, so each shows all that
//! the value holds and nothing else.

use crate::account::{login_outcome, AccountSecrets, LoginError, LoginFault, SecretsView};
use crate::api::{doc_outcome, opt_str, shown_session, synced_outcome, AppError, AppFault};
use crate::client::{
    api_outcome, pairs, read_outcome, sent_view, ApiFault, EnteApiError, HttpRequest, Reply,
};
use crate::crypto::{outcome, CryptoError, CryptoFault};
use crate::doc::{field_trees, item_trees, opt_text, Doc, DocTree};
use crate::faces::{face_views, faces_view, DetectedFace, FileFaces};
use crate::files::{
    album_outcome, bytes_outcome, library_view, opt_file, Album, AlbumView, ImageFile, ImageFilter,
};
use crate::json::{shown, trees, Json, JsonTree};
use crate::people::{opt_pair, PeopleIndex, Person};
use crate::sessions::{opt_pending, PendingInfo, Session};
use crate::sync::{Synced, SyncedView};
use crate::tables::texts_of;
use vstd::prelude::*;

verus! {

/// An optional text is shown as it is; an empty one is not a missing one.
pub proof fn optional_texts_are_shown(s: String, t: &str)
    ensures
        opt_text(Some(s)) == Some(s@),
        opt_text(None) is None,
        opt_str(Some(t)) == Some(t@),
        opt_str(None) is None,
        opt_pair((Some(s), None)) == (Some(s@), None::<Seq<char>>),
        opt_pair((None, Some(s))) == (None::<Seq<char>>, Some(s@)),
{
}

/// Lists are shown item by item, in their order.
pub proof fn lists_are_shown(
    texts: Seq<String>,
    items: Seq<Json>,
    docs: Seq<Doc>,
    fields: Seq<(String, Doc)>,
    params: Seq<(String, String)>,
    faces: Seq<DetectedFace>,
    i: int,
)
    ensures
        texts_of(texts).len() == texts.len(),
        0 <= i < texts.len() ==> texts_of(texts)[i] == texts[i]@,
        trees(items).len() == items.len(),
        0 <= i < items.len() ==> trees(items)[i] == items[i]@,
        item_trees(docs).len() == docs.len(),
        0 <= i < docs.len() ==> item_trees(docs)[i] == docs[i]@,
        field_trees(fields).len() == fields.len(),
        0 <= i < fields.len() ==> field_trees(fields)[i] == (fields[i].0@, fields[i].1@),
        pairs(params).len() == params.len(),
        0 <= i < params.len() ==> pairs(params)[i] == (params[i].0@, params[i].1@),
        face_views(faces).len() == faces.len(),
        0 <= i < faces.len() ==> face_views(faces)[i] == faces[i]@,
{
}

/// Tables are shown entry by entry.
pub proof fn tables_are_shown(
    files: Map<i64, ImageFile>,
    faces: Map<i64, FileFaces>,
    id: i64,
)
    ensures
        library_view(files).contains_key(id) == files.contains_key(id),
        files.contains_key(id) ==> library_view(files)[id] == files[id]@,
        faces_view(faces).contains_key(id) == faces.contains_key(id),
        faces.contains_key(id) ==> faces_view(faces)[id] == faces[id]@,
{
}

/// JSON documents are shown as what they are.
pub proof fn documents_are_shown(
    b: bool,
    s: String,
    items: Vec<Json>,
    fields: Vec<(String, Json)>,
    n: crate::json::JsonNumber,
    i: int,
)
    ensures
        Json::Null@ == JsonTree::Null,
        Json::Bool(b)@ == JsonTree::Bool(b),
        Json::Text(s)@ == JsonTree::Text(s@),
        Json::Number(n)@ == JsonTree::Number(n@),
        n@.int == n.int && n@.uint == n.uint && n@.double == n.double && n@.text == n.text@,
        Json::List(items)@ matches JsonTree::List(list) && list.len() == items@.len() && (0 <= i
            < items@.len() ==> list[i] == items@[i]@),
        Json::Object(fields)@ matches JsonTree::Object(object) && object.len() == fields@.len() && (0
            <= i < fields@.len() ==> object[i] == (fields@[i].0@, fields@[i].1@)),
{
}

/// Documents that are sent are shown as what they are.
pub proof fn sent_documents_are_shown(
    b: bool,
    n: i64,
    count: usize,
    bits: u64,
    s: String,
    items: Vec<Doc>,
    fields: Vec<(String, Doc)>,
    i: int,
)
    ensures
        Doc::Null@ == DocTree::Null,
        Doc::Bool(b)@ == DocTree::Bool(b),
        Doc::Int(n)@ == DocTree::Int(n),
        Doc::Count(count)@ == DocTree::Count(count),
        Doc::Double(bits)@ == DocTree::Double(bits),
        Doc::Text(s)@ == DocTree::Text(s@),
        Doc::List(items)@ matches DocTree::List(list) && list.len() == items@.len() && (0 <= i
            < items@.len() ==> list[i] == items@[i]@),
        Doc::Fields(fields)@ matches DocTree::Fields(object) && object.len() == fields@.len() && (0
            <= i < fields@.len() ==> object[i] == (fields@[i].0@, fields@[i].1@)),
{
}

/// Outcomes are shown as what they are, success or error.
pub proof fn outcomes_are_shown(
    bytes: Vec<u8>,
    s: String,
    crypto: CryptoError,
    api: EnteApiError,
    login: LoginError,
    app: AppError,
    reply: Reply,
    v: Json,
    d: Doc,
    secrets: AccountSecrets,
    album: Album,
    file: ImageFile,
    synced: Synced,
    info: PendingInfo,
)
    ensures
        outcome(Ok(bytes)) == Ok::<Seq<u8>, CryptoFault>(bytes@),
        outcome(Err(crypto)) == Err::<Seq<u8>, CryptoFault>(crypto@),
        bytes_outcome(Ok(bytes)) == Ok::<Seq<u8>, ApiFault>(bytes@),
        bytes_outcome(Err(api)) == Err::<Seq<u8>, ApiFault>(api@),
        read_outcome(Ok(bytes)) == Ok::<Seq<u8>, Seq<char>>(bytes@),
        read_outcome(Err(s)) == Err::<Seq<u8>, Seq<char>>(s@),
        sent_view(Ok(reply)) matches Ok(r) && r == reply@,
        sent_view(Err(s)) matches Err(e) && e == s@,
        api_outcome(Ok(v)) == Ok::<JsonTree, ApiFault>(v@),
        api_outcome(Err(api)) == Err::<JsonTree, ApiFault>(api@),
        login_outcome(Ok(secrets)) == Ok::<SecretsView, LoginFault>(secrets@),
        login_outcome(Err(login)) == Err::<SecretsView, LoginFault>(login@),
        doc_outcome(Ok(d)) == Ok::<DocTree, AppFault>(d@),
        doc_outcome(Err(app)) == Err::<DocTree, AppFault>(app@),
        album_outcome(Ok(album)) == Ok::<AlbumView, ApiFault>(album@),
        album_outcome(Err(api)) == Err::<AlbumView, ApiFault>(api@),
        opt_file(Some(file)) == Some(file@),
        opt_file(None) is None,
        synced_outcome(Ok(synced)) == Ok::<SyncedView, ApiFault>(synced@),
        synced_outcome(Err(api)) == Err::<SyncedView, ApiFault>(api@),
        opt_pending(Some(info)) == Some(info@),
        opt_pending(None) is None,
        shown(Some(&v)) == Some(v@),
        shown(None) is None,
{
}

/// Errors are shown with all that they carry.
pub proof fn errors_are_shown(code: u16, s: String, e: EnteApiError, kek: [u8; 32], app: AppError)
    ensures
        EnteApiError::Status(code, s)@ == ApiFault::Status(code, s@),
        EnteApiError::Transport(s)@ == ApiFault::Transport(s@),
        EnteApiError::Decode(s)@ == ApiFault::Decode(s@),
        LoginError::Recoverable(s)@ == LoginFault::Recoverable(s@),
        LoginError::Unsupported(s)@ == LoginFault::Unsupported(s@),
        (LoginError::TwoFactorRequired { session_id: s, kek })@ == (LoginFault::TwoFactorRequired {
            session_id: s@,
            kek: kek@,
        }),
        LoginError::Api(e)@ == LoginFault::Api(e@),
        CryptoError::Base64(s)@ == CryptoFault::Base64(s@),
        CryptoError::Crypto@ == CryptoFault::Crypto,
        CryptoError::Length@ == CryptoFault::Length,
        app@.status == app.status && app@.detail == app.detail@,
{
}

/// A file and an album are shown with all their fields.
pub proof fn files_are_shown(file: ImageFile, album: Album)
    ensures
        file@.id == file.id,
        file@.collection_id == file.collection_id,
        file@.album_name == file.album_name@,
        file@.key == file.key@,
        file@.decryption_header == file.decryption_header@,
        file@.file_size == file.file_size,
        file@.title == opt_text(file.title),
        file@.file_type == file.file_type,
        file@.creation_time == file.creation_time,
        file@.modification_time == file.modification_time,
        file@.latitude == file.latitude,
        file@.longitude == file.longitude,
        file@.file_hash == opt_text(file.file_hash),
        file@.is_deleted == file.is_deleted,
        file@.faces == face_views(file.faces@),
        file@.face_image_width == file.face_image_width,
        file@.face_image_height == file.face_image_height,
        album@.id == album.id,
        album@.name == album.name@,
        album@.key == album.key@,
        album@.is_deleted == album.is_deleted,
{
}

/// A filter is shown with all its restrictions.
pub proof fn filters_are_shown(f: ImageFilter)
    ensures
        f@.album == opt_text(f.album),
        f@.media_type == opt_text(f.media_type),
        f@.time_from == f.time_from,
        f@.time_to == f.time_to,
        f@.has_location == f.has_location,
        f@.min_lat == f.min_lat,
        f@.max_lat == f.max_lat,
        f@.min_lon == f.min_lon,
        f@.max_lon == f.max_lon,
        f@.filename == opt_text(f.filename),
        f@.has_faces == f.has_faces,
        f@.min_faces == f.min_faces,
        f@.person == opt_text(f.person),
{
}

/// A face, and the faces of a file, are shown with all their fields.
pub proof fn faces_are_shown(face: DetectedFace, ff: FileFaces)
    ensures
        face@.face_id == face.face_id@,
        face@.x == face.x,
        face@.y == face.y,
        face@.width == face.width,
        face@.height == face.height,
        face@.score == face.score,
        face@.blur == face.blur,
        face@.person_id == opt_text(face.person_id),
        face@.person_name == opt_text(face.person_name),
        ff@.image_width == ff.image_width,
        ff@.image_height == ff.image_height,
        ff@.faces == face_views(ff.faces@),
{
}

/// An index of people is shown with its three tables.
pub proof fn people_are_shown(index: PeopleIndex, person: Person, key: Seq<char>)
    ensures
        person@.id == person.id@,
        person@.name == person.name@,
        index@.people.contains_key(key) == index.people@.contains_key(key),
        index.people@.contains_key(key) ==> index@.people[key] == index.people@[key]@,
        index@.faces.contains_key(key) == index.face_to_person@.contains_key(key),
        index.face_to_person@.contains_key(key) ==> index@.faces[key] == index.face_to_person@[key]@,
        index@.files.contains_key(key) == index.person_file_ids@.contains_key(key),
        index.person_file_ids@.contains_key(key) ==> index@.files[key]
            == index.person_file_ids@[key]@,
{
}

/// A session, and what was loaded for it, are shown with all that they hold.
pub proof fn sessions_are_shown(session: Session, synced: Synced, secrets: AccountSecrets)
    ensures
        session@.secrets == session.secrets@,
        session@.created_at == session.created_at,
        session@.last_used == session.last_used,
        session.library matches Some(files) ==> session@.library == Some(library_view(files@)),
        session.library is None ==> session@.library is None,
        session.people matches Some(index) ==> session@.people == Some(index@),
        session.people is None ==> session@.people is None,
        shown_session(Some(&session)) == Some(session@),
        shown_session(None) is None,
        synced@.library == library_view(synced.library@),
        synced.people matches Some(index) ==> synced@.people == Some(index@),
        synced.people is None ==> synced@.people is None,
        secrets@.user_id == secrets.user_id,
        secrets@.token == secrets.token@,
        secrets@.master_key == secrets.master_key@,
        secrets@.secret_key == secrets.secret_key@,
        secrets@.public_key == secrets.public_key@,
{
}

/// A request and an answer are shown with all that they hold.
pub proof fn exchanges_are_shown(request: HttpRequest, reply: Reply, info: PendingInfo)
    ensures
        request@.peer == request.peer,
        request@.method == request.method,
        request@.url == request.url@,
        request@.query == pairs(request.query@),
        request@.headers == pairs(request.headers@),
        request.body matches Some(d) ==> request@.body == Some(d@),
        request.body is None ==> request@.body is None,
        reply@.status == reply.status,
        reply@.location == opt_text(reply.location),
        reply@.text == reply.text@,
        reply@.bytes == read_outcome(reply.bytes),
        info@.two_factor_session_id == info.two_factor_session_id@,
        info@.kek == info.kek@,
{
}

} // verus!
