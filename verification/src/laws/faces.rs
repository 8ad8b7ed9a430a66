//! Laws of face data: no answer loses what earlier answers gave, and each face is
//! read from its entry and joined to its person.

use crate::client::{ApiFault, ClientView};
use crate::faces::{
    all_mldata_applied, attached, clamped_batch, face_of, faces_in, faces_step, is_live_list,
    mldata_request, to_next_batch, FacesStageView, FacesStepView, FileFacesView,
};
use crate::files::{live_library, ImageView};
use crate::json::JsonTree;
use crate::people::{payload, PeopleView};
use vstd::prelude::*;

verus! {

// ---------------------------------- answers --------------------------------

/// The face data that a step has.
pub open spec fn found_in_step(step: FacesStepView) -> Map<i64, FileFacesView> {
    match step {
        FacesStepView::Ask(_, stage) => stage.found,
        FacesStepView::Done(found) => found,
    }
}

/// Whether an entry of an answer names a file.
pub open spec fn names_file(entry: JsonTree, id: i64) -> bool {
    entry.integer_field("fileID"@) == Some(id)
}

/// Whether an entry holds ML data of a file of the library that can be read: `ml`
/// is what its payload decrypts to with the key of the file.
pub open spec fn holds_ml(
    entry: JsonTree,
    files: Map<i64, ImageView>,
    id: i64,
    ml: JsonTree,
) -> bool {
    &&& names_file(entry, id)
    &&& files.contains_key(id)
    &&& payload(
        entry.text_field("encryptedData"@),
        entry.text_field("decryptionHeader"@),
        files[id].key,
    ) == Some(ml)
    &&& ml.field("face"@) is Some
}

/// Whether an answer names a file.
pub open spec fn answer_names(answer: Result<JsonTree, ApiFault>, id: i64) -> bool {
    answer matches Ok(v) && exists|i: int|
        0 <= i < v.items_or_none("data"@).len() && names_file(
            #[trigger] v.items_or_none("data"@)[i],
            id,
        )
}

/// Entries keep the data of each file, as it is where they do not name the file.
pub proof fn entries_never_lose_face_data(
    found: Map<i64, FileFacesView>,
    entries: Seq<JsonTree>,
    files: Map<i64, ImageView>,
    people: PeopleView,
    id: i64,
)
    requires
        found.contains_key(id),
    ensures
        all_mldata_applied(found, entries, files, people).contains_key(id),
        (forall|i: int| 0 <= i < entries.len() ==> !names_file(#[trigger] entries[i], id))
            ==> all_mldata_applied(found, entries, files, people)[id] == found[id],
    decreases entries.len(),
{
    if entries.len() > 0 {
        let earlier = entries.drop_last();
        entries_never_lose_face_data(found, earlier, files, people, id);
        if forall|i: int| 0 <= i < entries.len() ==> !names_file(#[trigger] entries[i], id) {
            assert forall|i: int| 0 <= i < earlier.len() implies !names_file(
                #[trigger] earlier[i],
                id,
            ) by {
                assert(earlier[i] == entries[i]);
            }
            assert(!names_file(entries[entries.len() - 1], id));
        }
    }
}

/// An entry that can be read gives its file the faces that it holds, unless a later
/// entry names the file again.
pub proof fn readable_entry_gives_faces(
    found: Map<i64, FileFacesView>,
    entries: Seq<JsonTree>,
    files: Map<i64, ImageView>,
    people: PeopleView,
    i: int,
    id: i64,
    ml: JsonTree,
)
    requires
        0 <= i < entries.len(),
        holds_ml(entries[i], files, id, ml),
    ensures
        all_mldata_applied(found, entries, files, people).contains_key(id),
        (forall|j: int| i < j < entries.len() ==> !names_file(#[trigger] entries[j], id))
            ==> faces_in(ml, people) == Some(
            all_mldata_applied(found, entries, files, people)[id],
        ),
    decreases entries.len(),
{
    let earlier = entries.drop_last();
    if i < earlier.len() {
        assert(earlier[i] == entries[i]);
        readable_entry_gives_faces(found, earlier, files, people, i, id, ml);
        if forall|j: int| i < j < entries.len() ==> !names_file(#[trigger] entries[j], id) {
            assert forall|j: int| i < j < earlier.len() implies !names_file(
                #[trigger] earlier[j],
                id,
            ) by {
                assert(earlier[j] == entries[j]);
            }
            assert(!names_file(entries[entries.len() - 1], id));
        }
    }
}

/// An answer never loses face data: whatever it is, the next step has the data of
/// every file that had some, and keeps it as it is for each file that the answer
/// does not name.
pub proof fn answers_never_lose_face_data(
    client: ClientView,
    files: Map<i64, ImageView>,
    people: PeopleView,
    stage: FacesStageView,
    answer: Result<JsonTree, ApiFault>,
    id: i64,
)
    requires
        stage.found.contains_key(id),
    ensures
        found_in_step(faces_step(client, files, people, stage, answer)).contains_key(id),
        !answer_names(answer, id) ==> found_in_step(
            faces_step(client, files, people, stage, answer),
        )[id] == stage.found[id],
{
    if let Ok(v) = answer {
        entries_never_lose_face_data(stage.found, v.items_or_none("data"@), files, people, id);
    }
}

/// An answer with readable ML data of a file gives the file its faces.
pub proof fn answers_give_faces(
    client: ClientView,
    files: Map<i64, ImageView>,
    people: PeopleView,
    stage: FacesStageView,
    v: JsonTree,
    i: int,
    id: i64,
    ml: JsonTree,
)
    requires
        0 <= i < v.items_or_none("data"@).len(),
        holds_ml(v.items_or_none("data"@)[i], files, id, ml),
    ensures
        ({
            let entries = v.items_or_none("data"@);
            let found = found_in_step(faces_step(client, files, people, stage, Ok(v)));
            &&& found.contains_key(id)
            &&& (forall|j: int| i < j < entries.len() ==> !names_file(#[trigger] entries[j], id))
                ==> faces_in(ml, people) == Some(found[id])
        }),
{
    readable_entry_gives_faces(stage.found, v.items_or_none("data"@), files, people, i, id, ml);
}

/// Face data comes from answers only: a file that had none, and that the answer does
/// not name, still has none. A batch that failed changes nothing.
pub proof fn faces_come_from_answers(
    client: ClientView,
    files: Map<i64, ImageView>,
    people: PeopleView,
    stage: FacesStageView,
    answer: Result<JsonTree, ApiFault>,
    id: i64,
)
    ensures
        !stage.found.contains_key(id) && !answer_names(answer, id) ==> !found_in_step(
            faces_step(client, files, people, stage, answer),
        ).contains_key(id),
        answer is Err ==> found_in_step(faces_step(client, files, people, stage, answer))
            == stage.found,
{
    if let Ok(v) = answer {
        if !answer_names(answer, id) && !stage.found.contains_key(id) {
            unnamed_files_get_nothing(stage.found, v.items_or_none("data"@), files, people, id);
        }
    }
}

proof fn unnamed_files_get_nothing(
    found: Map<i64, FileFacesView>,
    entries: Seq<JsonTree>,
    files: Map<i64, ImageView>,
    people: PeopleView,
    id: i64,
)
    requires
        !found.contains_key(id),
        forall|i: int| 0 <= i < entries.len() ==> !names_file(#[trigger] entries[i], id),
    ensures
        !all_mldata_applied(found, entries, files, people).contains_key(id),
    decreases entries.len(),
{
    if entries.len() > 0 {
        let earlier = entries.drop_last();
        assert forall|i: int| 0 <= i < earlier.len() implies !names_file(
            #[trigger] earlier[i],
            id,
        ) by {
            assert(earlier[i] == entries[i]);
        }
        unnamed_files_get_nothing(found, earlier, files, people, id);
        assert(!names_file(entries[entries.len() - 1], id));
    }
}

// ----------------------------------- runs ----------------------------------

/// What a whole loading ends with, where it takes exactly these answers.
pub open spec fn faces_run(
    client: ClientView,
    files: Map<i64, ImageView>,
    people: PeopleView,
    step: FacesStepView,
    answers: Seq<Result<JsonTree, ApiFault>>,
) -> Option<Map<i64, FileFacesView>>
    decreases answers.len(),
{
    match step {
        FacesStepView::Done(found) => if answers.len() == 0 {
            Some(found)
        } else {
            None
        },
        FacesStepView::Ask(_, stage) => if answers.len() == 0 {
            None
        } else {
            faces_run(
                client,
                files,
                people,
                faces_step(client, files, people, stage, answers[0]),
                answers.drop_first(),
            )
        },
    }
}

/// A whole loading ends with all the data that it had on the way.
pub proof fn loading_keeps_all_face_data(
    client: ClientView,
    files: Map<i64, ImageView>,
    people: PeopleView,
    step: FacesStepView,
    answers: Seq<Result<JsonTree, ApiFault>>,
    id: i64,
)
    requires
        found_in_step(step).contains_key(id),
    ensures
        faces_run(client, files, people, step, answers) matches Some(all) ==> all.contains_key(id),
    decreases answers.len(),
{
    if let FacesStepView::Ask(_, stage) = step {
        if answers.len() > 0 {
            answers_never_lose_face_data(client, files, people, stage, answers[0], id);
            loading_keeps_all_face_data(
                client,
                files,
                people,
                faces_step(client, files, people, stage, answers[0]),
                answers.drop_first(),
                id,
            );
        }
    }
}

/// After a whole loading, every file with readable ML data in some answer has its
/// faces.
pub proof fn loading_gives_every_file_its_faces(
    client: ClientView,
    files: Map<i64, ImageView>,
    people: PeopleView,
    step: FacesStepView,
    answers: Seq<Result<JsonTree, ApiFault>>,
    n: int,
    v: JsonTree,
    i: int,
    id: i64,
    ml: JsonTree,
)
    requires
        0 <= n < answers.len(),
        answers[n] == Ok::<JsonTree, ApiFault>(v),
        0 <= i < v.items_or_none("data"@).len(),
        holds_ml(v.items_or_none("data"@)[i], files, id, ml),
    ensures
        faces_run(client, files, people, step, answers) matches Some(all) ==> all.contains_key(id),
    decreases n,
{
    if let FacesStepView::Ask(_, stage) = step {
        let next = faces_step(client, files, people, stage, answers[0]);
        let rest = answers.drop_first();
        if n == 0 {
            answers_give_faces(client, files, people, stage, v, i, id, ml);
            loading_keeps_all_face_data(client, files, people, next, rest, id);
        } else {
            assert(rest[n - 1] == answers[n]);
            loading_gives_every_file_its_faces(
                client,
                files,
                people,
                next,
                rest,
                n - 1,
                v,
                i,
                id,
                ml,
            );
        }
    }
}

/// A loading goes on until every batch was asked for, whatever the museum answers:
/// an answer leads to the next ids that are left, as many as a batch takes, and to
/// the end where none is left.
pub proof fn every_batch_is_asked_for(
    client: ClientView,
    files: Map<i64, ImageView>,
    people: PeopleView,
    stage: FacesStageView,
    answer: Result<JsonTree, ApiFault>,
)
    requires
        stage.batch > 0,
    ensures
        stage.rest.len() == 0 <==> faces_step(client, files, people, stage, answer) is Done,
        faces_step(client, files, people, stage, answer) matches FacesStepView::Ask(request, next)
            ==> {
            &&& next.batch == stage.batch
            &&& next.rest.len() < stage.rest.len()
            &&& stage.rest.len() - next.rest.len() == stage.batch || (next.rest.len() == 0
                && stage.rest.len() <= stage.batch)
            &&& stage.rest.skip(stage.rest.len() - next.rest.len()) == next.rest
            &&& request == mldata_request(
                client,
                stage.rest.take(stage.rest.len() - next.rest.len()),
            )
        },
{
}

/// The first step asks for the first batch of ids, with no face data yet.
pub proof fn loading_starts_with_the_first_batch(client: ClientView, ids: Seq<i64>, batch: nat)
    requires
        batch > 0,
    ensures
        ids.len() == 0 <==> to_next_batch(client, ids, batch, Map::empty()) is Done,
        found_in_step(to_next_batch(client, ids, batch, Map::empty())) == Map::<
            i64,
            FileFacesView,
        >::empty(),
        to_next_batch(client, ids, batch, Map::empty()) matches FacesStepView::Ask(request, next)
            ==> {
            &&& next.batch == batch
            &&& next.rest.len() < ids.len()
            &&& ids.skip(ids.len() - next.rest.len()) == next.rest
            &&& request == mldata_request(client, ids.take(ids.len() - next.rest.len()))
        },
{
}

/// Every file of a library is asked for, once, and no other.
pub proof fn every_live_file_is_asked_for(
    files: Map<i64, ImageView>,
    keys: Seq<i64>,
    ids: Seq<i64>,
    id: i64,
)
    requires
        live_library(files),
        is_live_list(files, keys, ids),
    ensures
        ids.contains(id) <==> files.contains_key(id),
        ids.no_duplicates(),
{
    assert forall|i: int| 0 <= i < ids.len() implies #[trigger] ids[i] == keys[i] by {
        assert(keys.contains(keys[i]));
        assert(files.contains_key(keys[i]));
    }
    assert(ids =~= keys);
    assert(keys.contains(id) <==> files.contains_key(id));
}

/// A batch has the size that was configured, at least one and at most a thousand.
pub proof fn batch_is_kept_within_bounds(size: usize)
    ensures
        1 <= size <= 1000 ==> clamped_batch(size) == size,
        size == 0 ==> clamped_batch(size) == 1,
        size > 1000 ==> clamped_batch(size) == 1000,
{
}

// ---------------------------------- parsing --------------------------------

/// The number `key` in the box of a detected face.
pub open spec fn box_side(f: JsonTree, key: Seq<char>) -> Option<u64> {
    match f.field("detection"@) {
        Some(detection) => match detection.field("box"@) {
            Some(sides) => sides.double_field(key),
            None => None,
        },
        None => None,
    }
}

/// A number that was read, or zero.
pub open spec fn read_or_zero(read: Option<u64>, number: u64) -> bool {
    match read {
        Some(bits) => number == bits,
        None => number == 0,
    }
}

/// A face has the id, the box, the score and the blur of its entry; a number that is
/// missing is zero.
pub proof fn face_is_read_from_its_entry(f: JsonTree, people: PeopleView)
    ensures
        match f.text_field("faceID"@) {
            Some(id) => face_of(f, people).face_id == id,
            None => face_of(f, people).face_id.len() == 0,
        },
        read_or_zero(box_side(f, "x"@), face_of(f, people).x),
        read_or_zero(box_side(f, "y"@), face_of(f, people).y),
        read_or_zero(box_side(f, "width"@), face_of(f, people).width),
        read_or_zero(box_side(f, "height"@), face_of(f, people).height),
        read_or_zero(f.double_field("score"@), face_of(f, people).score),
        read_or_zero(f.double_field("blur"@), face_of(f, people).blur),
{
}

/// A face is joined to the person whose face the index says it is, by id and name.
pub proof fn face_is_joined_to_its_person(f: JsonTree, people: PeopleView)
    ensures
        ({
            let face = face_of(f, people);
            if people.faces.contains_key(face.face_id) {
                let id = people.faces[face.face_id];
                &&& face.person_id == Some(id)
                &&& people.people.contains_key(id) ==> face.person_name == Some(
                    people.people[id].name,
                )
                &&& !people.people.contains_key(id) ==> face.person_name is None
            } else {
                face.person_id is None && face.person_name is None
            }
        }),
{
}

/// ML data gives a file all the faces it lists, in their order, and the size of the
/// image that their boxes are relative to.
pub proof fn all_listed_faces_are_read(ml: JsonTree, people: PeopleView, face: JsonTree)
    requires
        ml.field("face"@) == Some(face),
    ensures
        faces_in(ml, people) matches Some(ff) && {
            &&& ff.image_width == face.integer_field("width"@)
            &&& ff.image_height == face.integer_field("height"@)
            &&& ff.faces.len() == face.items_or_none("faces"@).len()
            &&& forall|i: int|
                0 <= i < ff.faces.len() ==> #[trigger] ff.faces[i] == face_of(
                    face.items_or_none("faces"@)[i],
                    people,
                )
        },
{
}

// --------------------------------- attaching -------------------------------

/// A file gets the faces that were found for it, and the size of their image.
pub proof fn found_faces_are_attached(
    files: Map<i64, ImageView>,
    faces: Map<i64, FileFacesView>,
    id: i64,
)
    requires
        files.contains_key(id),
        faces.contains_key(id),
    ensures
        attached(files, faces).contains_key(id),
        attached(files, faces)[id].faces == faces[id].faces,
        attached(files, faces)[id].face_image_width == faces[id].image_width,
        attached(files, faces)[id].face_image_height == faces[id].image_height,
        attached(files, faces)[id].id == files[id].id,
        attached(files, faces)[id].title == files[id].title,
        attached(files, faces)[id].key == files[id].key,
        attached(files, faces)[id].decryption_header == files[id].decryption_header,
        attached(files, faces)[id].creation_time == files[id].creation_time,
        attached(files, faces)[id].is_deleted == files[id].is_deleted,
{
}

} // verus!
