//! Laws of the synchronisation: what a file and an album are made of, and that no
//! answer loses a file.

use crate::client::{ApiFault, ClientView};
use crate::crypto::{chacha_decrypted, secretbox_opened, CryptoFault};
use crate::files::{
    album_of, diff_request, entries_applied, file_of, latest, library_run, library_step,
    lossy_text, to_next_album, AlbumView, ImageView, LibraryStageView, LibraryStepView,
};
use crate::float::is_zero;
use crate::json::{parsed_json, JsonTree};
use crate::text::decimal;
use vstd::prelude::*;

verus! {

// ----------------------------------- files ---------------------------------

/// The document that a part of a raw file decrypts to with the key of the file.
pub open spec fn decrypted_part(raw: JsonTree, part: Seq<char>, key: Seq<u8>) -> Option<JsonTree> {
    match raw.field(part) {
        None => None,
        Some(attr) => match (
            attr.text_field("encryptedData"@),
            attr.text_field("decryptionHeader"@),
        ) {
            (Some(data), Some(header)) => match chacha_decrypted(data, key, header) {
                Ok(plain) => parsed_json(plain),
                Err(_) => None,
            },
            _ => None,
        },
    }
}

/// A live file that a raw entry decrypts to, and the two documents that came with
/// it: its metadata, and what was edited.
pub open spec fn is_live_file(
    raw: JsonTree,
    album: AlbumView,
    file: ImageView,
    metadata: Option<JsonTree>,
    edits: Option<JsonTree>,
) -> bool {
    &&& file_of(raw, album) == Some(file)
    &&& !raw.flag("isDeleted"@)
    &&& metadata == decrypted_part(raw, "metadata"@, file.key)
    &&& edits == decrypted_part(raw, "pubMagicMetadata"@, file.key)
}

/// The integer `key` of a document that may be missing.
pub open spec fn integer_in(v: Option<JsonTree>, key: Seq<char>) -> Option<i64> {
    match v {
        Some(tree) => tree.integer_field(key),
        None => None,
    }
}

/// The text `key` of a document that may be missing.
pub open spec fn text_in(v: Option<JsonTree>, key: Seq<char>) -> Option<Seq<char>> {
    match v {
        Some(tree) => tree.text_field(key),
        None => None,
    }
}

/// The double `key` of a document that may be missing.
pub open spec fn double_in(v: Option<JsonTree>, key: Seq<char>) -> Option<u64> {
    match v {
        Some(tree) => tree.double_field(key),
        None => None,
    }
}

/// A file was created at the time it was edited to, and where none was, at the time
/// in its metadata; it was modified at the time in its metadata.
pub proof fn file_has_its_times(
    raw: JsonTree,
    album: AlbumView,
    file: ImageView,
    metadata: Option<JsonTree>,
    edits: Option<JsonTree>,
)
    requires
        is_live_file(raw, album, file, metadata, edits),
    ensures
        integer_in(edits, "editedTime"@) is None ==> file.creation_time == integer_in(
            metadata,
            "creationTime"@,
        ),
        integer_in(edits, "editedTime"@) is Some ==> file.creation_time == integer_in(
            edits,
            "editedTime"@,
        ),
        file.modification_time == integer_in(metadata, "modificationTime"@),
{
}

/// Whether a file has the times that its entry tells.
pub open spec fn dated(raw: JsonTree, file: ImageView) -> bool {
    let metadata = decrypted_part(raw, "metadata"@, file.key);
    let edits = decrypted_part(raw, "pubMagicMetadata"@, file.key);
    &&& integer_in(edits, "editedTime"@) is None ==> file.creation_time == integer_in(
        metadata,
        "creationTime"@,
    )
    &&& integer_in(edits, "editedTime"@) is Some ==> file.creation_time == integer_in(
        edits,
        "editedTime"@,
    )
    &&& file.modification_time == integer_in(metadata, "modificationTime"@)
}

/// Every live file has the times that its entry tells.
pub proof fn file_is_dated(raw: JsonTree, album: AlbumView, file: ImageView)
    requires
        file_of(raw, album) == Some(file),
        !raw.flag("isDeleted"@),
    ensures
        dated(raw, file),
{
    file_has_its_times(
        raw,
        album,
        file,
        decrypted_part(raw, "metadata"@, file.key),
        decrypted_part(raw, "pubMagicMetadata"@, file.key),
    );
}

/// A file has the title that it was given last, the type and the hash of its
/// metadata, and the size that its entry tells; without a type it is an image.
pub proof fn file_has_its_title_and_type(
    raw: JsonTree,
    album: AlbumView,
    file: ImageView,
    metadata: Option<JsonTree>,
    edits: Option<JsonTree>,
)
    requires
        is_live_file(raw, album, file, metadata, edits),
    ensures
        text_in(edits, "editedName"@) is Some ==> file.title == text_in(edits, "editedName"@),
        text_in(edits, "editedName"@) is None ==> file.title == text_in(metadata, "title"@),
        integer_in(metadata, "fileType"@) matches Some(t) ==> file.file_type == t,
        integer_in(metadata, "fileType"@) is None ==> file.file_type == 0,
        file.file_hash == text_in(metadata, "hash"@),
        file.file_size == integer_in(raw.field("info"@), "fileSize"@),
{
}

/// A coordinate: the one it was edited to, and where there is none, the one in the
/// metadata.
pub open spec fn coordinate(edited: Option<u64>, recorded: Option<u64>) -> Option<u64> {
    if edited is Some {
        edited
    } else {
        recorded
    }
}

/// A file has the place it was edited to, or the one in its metadata, each
/// coordinate on its own. The place where both are zero stands for none.
pub proof fn file_has_its_place(
    raw: JsonTree,
    album: AlbumView,
    file: ImageView,
    metadata: Option<JsonTree>,
    edits: Option<JsonTree>,
)
    requires
        is_live_file(raw, album, file, metadata, edits),
    ensures
        ({
            let lat = coordinate(double_in(edits, "lat"@), double_in(metadata, "latitude"@));
            let long = coordinate(double_in(edits, "long"@), double_in(metadata, "longitude"@));
            if lat is Some && long is Some && is_zero(lat->0) && is_zero(long->0) {
                file.latitude is None && file.longitude is None
            } else {
                file.latitude == lat && file.longitude == long
            }
        }),
{
}

/// Both zeros are zero, and no other double is.
pub proof fn zero_has_two_forms(bits: u64)
    ensures
        is_zero(bits) <==> bits == 0 || bits == 0x8000_0000_0000_0000,
{
}

/// A file has the id of its entry, belongs to the album it came with, and has the
/// key that the album's key opens and the header that its blob needs. It has no
/// faces yet.
pub proof fn file_belongs_to_its_album(
    raw: JsonTree,
    album: AlbumView,
    file: ImageView,
    metadata: Option<JsonTree>,
    edits: Option<JsonTree>,
)
    requires
        is_live_file(raw, album, file, metadata, edits),
    ensures
        raw.integer_field("id"@) == Some(file.id),
        file.collection_id == album.id,
        file.album_name == album.name,
        !file.is_deleted,
        raw.text_field("encryptedKey"@) matches Some(boxed) && (raw.text_field(
            "keyDecryptionNonce"@,
        ) matches Some(nonce) && secretbox_opened(boxed, nonce, album.key) == Ok::<
            Seq<u8>,
            CryptoFault,
        >(file.key)),
        text_in(raw.field("file"@), "decryptionHeader"@) == Some(file.decryption_header),
        file.faces.len() == 0,
        file.face_image_width is None,
        file.face_image_height is None,
{
}

/// An entry decrypts to a file where it has an id and is deleted, or has a key that
/// opens and a header; all other entries are passed over.
pub proof fn entries_that_are_files(raw: JsonTree, album: AlbumView)
    ensures
        file_of(raw, album) is Some <==> {
            &&& raw.integer_field("id"@) is Some
            &&& raw.flag("isDeleted"@) || {
                &&& raw.text_field("encryptedKey"@) matches Some(boxed)
                &&& raw.text_field("keyDecryptionNonce"@) matches Some(nonce)
                &&& secretbox_opened(boxed, nonce, album.key) is Ok
                &&& text_in(raw.field("file"@), "decryptionHeader"@) is Some
            }
        },
        file_of(raw, album) matches Some(file) ==> raw.integer_field("id"@) == Some(file.id)
            && file.is_deleted == raw.flag("isDeleted"@),
{
}

// ----------------------------------- albums --------------------------------

/// An album has the id of its entry, the key that the master key opens, and is
/// deleted where its entry says so.
pub proof fn album_is_read_from_its_entry(raw: JsonTree, master_key: Seq<u8>, album: AlbumView)
    requires
        album_of(raw, master_key) == Ok::<AlbumView, ApiFault>(album),
    ensures
        raw.integer_field("id"@) matches Some(id) ==> album.id == id,
        raw.integer_field("id"@) is None ==> album.id == 0,
        raw.text_field("encryptedKey"@) matches Some(boxed) && (raw.text_field(
            "keyDecryptionNonce"@,
        ) matches Some(nonce) && secretbox_opened(boxed, nonce, master_key) == Ok::<
            Seq<u8>,
            CryptoFault,
        >(album.key)),
        album.is_deleted == raw.flag("isDeleted"@),
{
}

/// An album whose key can be opened is read; one whose key is missing or does not
/// open is an error.
pub proof fn albums_that_are_read(raw: JsonTree, master_key: Seq<u8>)
    ensures
        album_of(raw, master_key) is Ok <==> {
            &&& raw.text_field("encryptedKey"@) matches Some(boxed)
            &&& raw.text_field("keyDecryptionNonce"@) matches Some(nonce)
            &&& secretbox_opened(boxed, nonce, master_key) is Ok
        },
{
}

/// The name in the encrypted name of an album.
pub open spec fn boxed_name(raw: JsonTree, key: Seq<u8>) -> Option<Seq<char>> {
    match (raw.text_field("encryptedName"@), raw.text_field("nameDecryptionNonce"@)) {
        (Some(boxed), Some(nonce)) => match secretbox_opened(boxed, nonce, key) {
            Ok(plain) => Some(lossy_text(plain)),
            Err(_) => None,
        },
        _ => None,
    }
}

/// The magic metadata of an album.
pub open spec fn magic_part(raw: JsonTree, key: Seq<u8>) -> Option<JsonTree> {
    match raw.field("magicMetadata"@) {
        None => None,
        Some(magic) => match (magic.text_field("data"@), magic.text_field("header"@)) {
            (Some(data), Some(header)) => match chacha_decrypted(data, key, header) {
                Ok(plain) => parsed_json(plain),
                Err(_) => None,
            },
            _ => None,
        },
    }
}

/// Whether a text is there and not empty.
pub open spec fn is_given(s: Option<Seq<char>>) -> bool {
    s matches Some(t) && t.len() > 0
}

/// An album has its plain name; without one, its encrypted name; without that, the
/// name or the title in its magic metadata; and without any, a name made of its id.
pub proof fn album_has_its_first_name(raw: JsonTree, master_key: Seq<u8>, album: AlbumView)
    requires
        album_of(raw, master_key) == Ok::<AlbumView, ApiFault>(album),
    ensures
        ({
            let plain = raw.text_field("name"@);
            let boxed = boxed_name(raw, album.key);
            let magic = magic_part(raw, album.key);
            let inner = if text_in(magic, "name"@) is Some {
                text_in(magic, "name"@)
            } else {
                text_in(magic, "title"@)
            };
            if is_given(plain) {
                album.name == plain->0
            } else if is_given(boxed) {
                album.name == boxed->0
            } else if is_given(inner) {
                album.name == inner->0
            } else {
                album.name == "album-"@ + decimal(album.id as int)
            }
        }),
{
}

// ---------------------------------- changes --------------------------------

/// Whether an entry changes the file with an id.
pub open spec fn changes(entry: JsonTree, album: AlbumView, id: i64) -> bool {
    file_of(entry, album) matches Some(file) && file.id == id
}

/// A file that no entry changes stays as it is.
pub proof fn unchanged_files_stay(
    files: Map<i64, ImageView>,
    entries: Seq<JsonTree>,
    album: AlbumView,
    id: i64,
)
    requires
        forall|i: int| 0 <= i < entries.len() ==> !changes(#[trigger] entries[i], album, id),
    ensures
        entries_applied(files, entries, album).contains_key(id) == files.contains_key(id),
        files.contains_key(id) ==> entries_applied(files, entries, album)[id] == files[id],
    decreases entries.len(),
{
    if entries.len() > 0 {
        let earlier = entries.drop_last();
        assert forall|i: int| 0 <= i < earlier.len() implies !changes(
            #[trigger] earlier[i],
            album,
            id,
        ) by {
            assert(earlier[i] == entries[i]);
        }
        unchanged_files_stay(files, earlier, album, id);
        assert(!changes(entries[entries.len() - 1], album, id));
    }
}

/// The last change of a file counts: where it deletes the file, the file is gone,
/// and otherwise the library has the file that the change describes.
pub proof fn last_change_counts(
    files: Map<i64, ImageView>,
    entries: Seq<JsonTree>,
    album: AlbumView,
    i: int,
    file: ImageView,
)
    requires
        0 <= i < entries.len(),
        file_of(entries[i], album) == Some(file),
        forall|j: int| i < j < entries.len() ==> !changes(#[trigger] entries[j], album, file.id),
    ensures
        entries[i].flag("isDeleted"@) ==> !entries_applied(files, entries, album).contains_key(
            file.id,
        ),
        !entries[i].flag("isDeleted"@) ==> entries_applied(files, entries, album).contains_key(
            file.id,
        ) && entries_applied(files, entries, album)[file.id] == file,
    decreases entries.len(),
{
    let earlier = entries.drop_last();
    if i < earlier.len() {
        assert(earlier[i] == entries[i]);
        assert forall|j: int| i < j < earlier.len() implies !changes(
            #[trigger] earlier[j],
            album,
            file.id,
        ) by {
            assert(earlier[j] == entries[j]);
        }
        last_change_counts(files, earlier, album, i, file);
        assert(!changes(entries[entries.len() - 1], album, file.id));
    }
}

/// The time to ask from next is the time asked from last or that of a change that
/// was seen, and never before any of them: no change is asked for twice, and none is
/// left out.
pub proof fn next_time_is_the_latest_seen(since: i64, entries: Seq<JsonTree>, key: Seq<char>)
    ensures
        latest(since, entries, key) == since || exists|i: int|
            0 <= i < entries.len() && (#[trigger] entries[i]).integer_field(key) == Some(
                latest(since, entries, key),
            ),
        latest(since, entries, key) >= since,
        forall|i: int|
            0 <= i < entries.len() ==> ((#[trigger] entries[i]).integer_field(key) matches Some(t)
                ==> t <= latest(since, entries, key)),
    decreases entries.len(),
{
    crate::files::since_never_goes_back(since, entries, key);
    if entries.len() > 0 {
        let earlier = entries.drop_last();
        next_time_is_the_latest_seen(since, earlier, key);
        if latest(since, entries, key) == latest(since, earlier, key) {
            if latest(since, earlier, key) != since {
                let i = choose|i: int|
                    0 <= i < earlier.len() && (#[trigger] earlier[i]).integer_field(key) == Some(
                        latest(since, earlier, key),
                    );
                assert(entries[i].integer_field(key) == Some(latest(since, entries, key)));
            }
        } else {
            assert(entries[entries.len() - 1].integer_field(key) == Some(
                latest(since, entries, key),
            ));
        }
    }
}

// ----------------------------------- steps ---------------------------------

/// The files that a step has, where it does not fail.
pub open spec fn files_in_step(step: LibraryStepView) -> Option<Map<i64, ImageView>> {
    match step {
        LibraryStepView::Ask(_, LibraryStageView::Diff { files, .. }) => Some(files),
        LibraryStepView::Done(Ok(files)) => Some(files),
        _ => None,
    }
}

/// Whether an album is passed over: it cannot be decrypted, or it is deleted.
pub open spec fn passed_over(raw: JsonTree, master_key: Seq<u8>) -> bool {
    album_of(raw, master_key) matches Ok(album) ==> album.is_deleted
}

/// Albums are asked for in turn: the next is the first that is not passed over, from
/// its first change on; the albums behind it are left for later, and the files stay.
/// The end comes where no album is left, with all the files.
pub proof fn albums_are_asked_for_in_turn(
    client: ClientView,
    master_key: Seq<u8>,
    albums: Seq<JsonTree>,
    files: Map<i64, ImageView>,
    i: int,
)
    requires
        0 <= i <= albums.len(),
        forall|j: int| 0 <= j < i ==> passed_over(#[trigger] albums[j], master_key),
        i < albums.len() ==> !passed_over(albums[i], master_key),
    ensures
        i == albums.len() ==> to_next_album(client, master_key, albums, files)
            == LibraryStepView::Done(Ok(files)),
        i < albums.len() ==> (album_of(albums[i], master_key) matches Ok(album) && to_next_album(
            client,
            master_key,
            albums,
            files,
        ) == LibraryStepView::Ask(
            diff_request(client, album.id, 0),
            LibraryStageView::Diff { albums: albums.skip(i + 1), album, since: 0, files },
        )),
    decreases i,
{
    if i > 0 {
        let rest = albums.drop_first();
        assert(passed_over(albums[0], master_key));
        assert forall|j: int| 0 <= j < i - 1 implies passed_over(#[trigger] rest[j], master_key) by {
            assert(rest[j] == albums[j + 1]);
        }
        albums_are_asked_for_in_turn(client, master_key, rest, files, i - 1);
        if i < albums.len() {
            assert(rest.skip(i) =~= albums.skip(i + 1));
        }
    } else if albums.len() > 0 {
        assert(albums.drop_first() =~= albums.skip(1));
    }
}

proof fn next_album_keeps_the_files(
    client: ClientView,
    master_key: Seq<u8>,
    albums: Seq<JsonTree>,
    files: Map<i64, ImageView>,
)
    ensures
        files_in_step(to_next_album(client, master_key, albums, files)) == Some(files),
    decreases albums.len(),
{
    if albums.len() > 0 {
        next_album_keeps_the_files(client, master_key, albums.drop_first(), files);
    }
}

/// A page of changes is applied to the files that are there: the next step has the
/// files after all the changes of the page. Where the page has changes and says that
/// there are more, the same album is asked for again, from the latest change on;
/// otherwise the next album comes.
pub proof fn pages_are_applied_one_after_the_other(
    client: ClientView,
    master_key: Seq<u8>,
    albums: Seq<JsonTree>,
    album: AlbumView,
    since: i64,
    files: Map<i64, ImageView>,
    page: JsonTree,
)
    ensures
        ({
            let stage = LibraryStageView::Diff { albums, album, since, files };
            let step = library_step(client, master_key, stage, Ok(page));
            let entries = page.items_or_none("diff"@);
            let now = entries_applied(files, entries, album);
            &&& files_in_step(step) == Some(now)
            &&& if page.flag("hasMore"@) && entries.len() > 0 {
                &&& step matches LibraryStepView::Ask(
                    request,
                    LibraryStageView::Diff { albums: left, album: same, since: until, .. },
                )
                &&& left == albums
                &&& same == album
                &&& until == latest(since, entries, "updationTime"@)
                &&& request == diff_request(client, album.id, until)
            } else {
                step == to_next_album(client, master_key, albums, now)
            }
        }),
{
    next_album_keeps_the_files(
        client,
        master_key,
        albums,
        entries_applied(files, page.items_or_none("diff"@), album),
    );
}

/// The albums that the museum lists are all gone through, from the first, with an
/// empty library to begin with.
pub proof fn synchronisation_starts_with_the_first_album(
    client: ClientView,
    master_key: Seq<u8>,
    page: JsonTree,
)
    ensures
        library_step(client, master_key, LibraryStageView::Collections, Ok(page)) == to_next_album(
            client,
            master_key,
            page.items_or_none("collections"@),
            Map::empty(),
        ),
{
}

/// A failed answer ends the synchronisation with its error.
pub proof fn failed_answer_ends_the_synchronisation(
    client: ClientView,
    master_key: Seq<u8>,
    stage: LibraryStageView,
    e: ApiFault,
)
    ensures
        library_step(client, master_key, stage, Err(e)) == LibraryStepView::Done(
            Err::<Map<i64, ImageView>, ApiFault>(e),
        ),
{
}

/// Whether an answer has an entry with an id.
pub open spec fn answer_changes(answer: Result<JsonTree, ApiFault>, id: i64) -> bool {
    answer matches Ok(page) && exists|i: int|
        0 <= i < page.items_or_none("diff"@).len() && (
        #[trigger] page.items_or_none("diff"@)[i]).integer_field("id"@) == Some(id)
}

/// A whole synchronisation loses no file: a file that is there, and that no later
/// answer mentions, is there at the end, as it was.
pub proof fn synchronisation_loses_no_file(
    client: ClientView,
    master_key: Seq<u8>,
    stage: LibraryStageView,
    files: Map<i64, ImageView>,
    answers: Seq<Result<JsonTree, ApiFault>>,
    id: i64,
)
    requires
        stage matches LibraryStageView::Diff { files: held, .. } && held == files,
        files.contains_key(id),
        forall|n: int| 0 <= n < answers.len() ==> !answer_changes(#[trigger] answers[n], id),
    ensures
        library_run(client, master_key, stage, answers) matches Some(Ok(all)) ==> all.contains_key(
            id,
        ) && all[id] == files[id],
    decreases answers.len(),
{
    if answers.len() > 0 {
        if let Ok(page) = answers[0] {
            let (albums, album, since) = match stage {
                LibraryStageView::Diff { albums, album, since, .. } => (albums, album, since),
                _ => arbitrary(),
            };
            let entries = page.items_or_none("diff"@);
            assert(!answer_changes(answers[0], id));
            assert forall|i: int| 0 <= i < entries.len() implies !changes(
                #[trigger] entries[i],
                album,
                id,
            ) by {
                entries_that_are_files(entries[i], album);
            }
            unchanged_files_stay(files, entries, album, id);
            pages_are_applied_one_after_the_other(
                client,
                master_key,
                albums,
                album,
                since,
                files,
                page,
            );
            if let LibraryStepView::Ask(_, next) = library_step(
                client,
                master_key,
                stage,
                answers[0],
            ) {
                let rest = answers.drop_first();
                assert forall|n: int| 0 <= n < rest.len() implies !answer_changes(
                    #[trigger] rest[n],
                    id,
                ) by {
                    assert(rest[n] == answers[n + 1]);
                }
                if let LibraryStageView::Diff { files: now, .. } = next {
                    synchronisation_loses_no_file(client, master_key, next, now, rest, id);
                }
            }
        }
    }
}

} // verus!
