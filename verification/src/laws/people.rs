//! Laws of named people.

use crate::client::{ApiFault, ClientView};
use crate::crypto::{chacha_decrypted, gunzipped, secretbox_opened, CryptoFault};
use crate::files::{latest, ImageView};
use crate::json::{parsed_json, JsonTree};
use crate::laws::readings::piece_ends_at_the_first_occurrence;
use crate::people::{
    entity_diff_request, faces_of, file_of_face, files_of, ingested, name_of, no_people, payload,
    people_applied, people_step, person_applied, summarises, text_before, PeopleStageView,
    PeopleStepView, PeopleView, PersonView,
};
use crate::text::{decimal, digits, digits_are_digits, is_digit, parse_undoes_print, trimmed};
use vstd::prelude::*;

verus! {

// ---------------------------------- entities -------------------------------

/// The payload of an entity is the JSON in the gzip in the stream that the key and
/// the header open; where any of these fails there is none.
pub proof fn payload_is_unpacked(
    data: Seq<char>,
    header: Seq<char>,
    key: Seq<u8>,
    zipped: Seq<u8>,
    plain: Seq<u8>,
)
    ensures
        chacha_decrypted(data, key, header) == Ok::<Seq<u8>, CryptoFault>(zipped) && gunzipped(
            zipped,
        ) == Some(plain) ==> payload(Some(data), Some(header), key) == parsed_json(plain),
        chacha_decrypted(data, key, header) == Ok::<Seq<u8>, CryptoFault>(zipped) && gunzipped(
            zipped,
        ) is None ==> payload(Some(data), Some(header), key) is None,
        chacha_decrypted(data, key, header) is Err ==> payload(Some(data), Some(header), key)
            is None,
        payload(None, Some(header), key) is None,
        payload(Some(data), None, key) is None,
{
}

/// The name of a person is the text in their entity, without white space around it.
pub proof fn person_has_the_name_of_the_entity(data: JsonTree)
    ensures
        data.text_field("name"@) matches Some(name) ==> name_of(data) == trimmed(name),
        data.text_field("name"@) is None ==> name_of(data).len() == 0,
{
}

/// Whether a cluster of an entity has a face.
pub open spec fn assigns(data: JsonTree, face: Seq<char>) -> bool {
    exists|c: int, i: int|
        {
            &&& 0 <= c < data.items_or_none("assigned"@).len()
            &&& 0 <= i < data.items_or_none("assigned"@)[c].items_or_none("faces"@).len()
            &&& #[trigger] data.items_or_none("assigned"@)[c].items_or_none("faces"@)[i]
                == JsonTree::Text(face)
        }
}

proof fn texts_are_those_in_the_list(items: Seq<JsonTree>, s: Seq<char>)
    ensures
        crate::people::texts_in(items).contains(s) <==> exists|i: int|
            0 <= i < items.len() && #[trigger] items[i] == JsonTree::Text(s),
    decreases items.len(),
{
    if items.len() > 0 {
        let earlier = items.drop_last();
        texts_are_those_in_the_list(earlier, s);
        let before = crate::people::texts_in(earlier);
        if let JsonTree::Text(t) = items.last() {
            crate::tables::push_contains(before, t, s);
        }
        if exists|i: int| 0 <= i < items.len() && #[trigger] items[i] == JsonTree::Text(s) {
            let i = choose|i: int| 0 <= i < items.len() && #[trigger] items[i] == JsonTree::Text(s);
            if i < earlier.len() {
                assert(earlier[i] == JsonTree::Text(s));
            }
        }
        if exists|i: int| 0 <= i < earlier.len() && #[trigger] earlier[i] == JsonTree::Text(s) {
            let i = choose|i: int|
                0 <= i < earlier.len() && #[trigger] earlier[i] == JsonTree::Text(s);
            assert(items[i] == JsonTree::Text(s));
        }
        if items.last() == JsonTree::Text(s) {
            assert(items[items.len() - 1] == JsonTree::Text(s));
        }
    }
}

spec fn cluster_has(clusters: Seq<JsonTree>, c: int, i: int, face: Seq<char>) -> bool {
    &&& 0 <= c < clusters.len()
    &&& 0 <= i < clusters[c].items_or_none("faces"@).len()
    &&& clusters[c].items_or_none("faces"@)[i] == JsonTree::Text(face)
}

proof fn faces_are_those_in_the_clusters(clusters: Seq<JsonTree>, face: Seq<char>)
    ensures
        crate::people::cluster_faces(clusters).contains(face) <==> exists|c: int, i: int|
            cluster_has(clusters, c, i, face),
    decreases clusters.len(),
{
    if clusters.len() > 0 {
        let earlier = clusters.drop_last();
        let last = clusters.last().items_or_none("faces"@);
        faces_are_those_in_the_clusters(earlier, face);
        texts_are_those_in_the_list(last, face);
        let before = crate::people::cluster_faces(earlier);
        let added = crate::people::texts_in(last);
        let all = before + added;
        if all.contains(face) {
            let n = choose|n: int| 0 <= n < all.len() && all[n] == face;
            if n < before.len() {
                assert(before[n] == face);
                assert(before.contains(face));
                let (c, i) = choose|c: int, i: int| cluster_has(earlier, c, i, face);
                assert(cluster_has(clusters, c, i, face));
            } else {
                assert(added[n - before.len()] == face);
                assert(added.contains(face));
                let i = choose|i: int|
                    0 <= i < last.len() && #[trigger] last[i] == JsonTree::Text(face);
                assert(cluster_has(clusters, clusters.len() - 1, i, face));
            }
        }
        if exists|c: int, i: int| cluster_has(clusters, c, i, face) {
            let (c, i) = choose|c: int, i: int| cluster_has(clusters, c, i, face);
            if c < earlier.len() {
                assert(cluster_has(earlier, c, i, face));
                let n = choose|n: int| 0 <= n < before.len() && before[n] == face;
                assert(all[n] == face);
            } else {
                assert(last[i] == JsonTree::Text(face));
                let n = choose|n: int| 0 <= n < added.len() && added[n] == face;
                assert(all[before.len() + n] == face);
            }
        }
    }
}

/// The faces of a person are those that some cluster of the entity assigns.
pub proof fn person_has_the_faces_of_all_clusters(data: JsonTree, face: Seq<char>)
    ensures
        faces_of(data).contains(face) <==> assigns(data, face),
{
    let clusters = data.items_or_none("assigned"@);
    faces_are_those_in_the_clusters(clusters, face);
    if assigns(data, face) {
        let (c, i) = choose|c: int, i: int|
            {
                &&& 0 <= c < data.items_or_none("assigned"@).len()
                &&& 0 <= i < data.items_or_none("assigned"@)[c].items_or_none("faces"@).len()
                &&& #[trigger] data.items_or_none("assigned"@)[c].items_or_none("faces"@)[i]
                    == JsonTree::Text(face)
            };
        assert(cluster_has(clusters, c, i, face));
    }
    if exists|c: int, i: int| cluster_has(clusters, c, i, face) {
        let (c, i) = choose|c: int, i: int| cluster_has(clusters, c, i, face);
        assert(data.items_or_none("assigned"@)[c].items_or_none("faces"@)[i] == JsonTree::Text(
            face,
        ));
    }
}

/// A face was found in the file whose id stands before the underscore.
pub proof fn face_id_starts_with_its_file(file: i64, hash: Seq<char>)
    ensures
        file_of_face(decimal(file as int) + seq!['_'] + hash) == Some(file),
{
    let printed = decimal(file as int);
    digits_are_digits((if file < 0 {
        -file
    } else {
        file as int
    }) as nat);
    assert(!printed.contains('_')) by {
        if printed.contains('_') {
            let i = choose|i: int| 0 <= i < printed.len() && printed[i] == '_';
            let number = digits((if file < 0 {
                -file
            } else {
                file as int
            }) as nat);
            if file < 0 {
                assert(printed =~= seq!['-'] + number);
                if i > 0 {
                    assert(is_digit(number[i - 1]));
                }
            } else {
                assert(is_digit(number[i]));
            }
        }
    }
    piece_ends_at_the_first_occurrence(decimal(file as int), '_', hash);
    parse_undoes_print(file as int, true);
}

/// The files of a person are those that a face of theirs was found in and those that
/// were assigned by hand.
pub proof fn person_has_the_files_of_their_faces(data: JsonTree, file: i64)
    ensures
        files_of(data).contains(file) <==> {
            ||| exists|i: int|
                0 <= i < faces_of(data).len() && file_of_face(#[trigger] faces_of(data)[i])
                    == Some(file)
            ||| exists|i: int|
                0 <= i < data.items_or_none("manuallyAssigned"@).len() && (
                #[trigger] data.items_or_none("manuallyAssigned"@)[i]).integer() == Some(file)
        },
{
    let faces = faces_of(data);
    let manual = data.items_or_none("manuallyAssigned"@);
    if exists|i: int| 0 <= i < faces.len() && file_of_face(#[trigger] faces[i]) == Some(file) {
        let i = choose|i: int| 0 <= i < faces.len() && file_of_face(#[trigger] faces[i]) == Some(
            file,
        );
        assert(file_of_face(faces[i]) == Some(file));
        assert(crate::people::face_in_file(faces, file));
    }
    if exists|i: int| 0 <= i < manual.len() && (#[trigger] manual[i]).integer() == Some(file) {
        let i = choose|i: int| 0 <= i < manual.len() && (#[trigger] manual[i]).integer() == Some(
            file,
        );
        assert(manual[i].integer() == Some(file));
        assert(crate::people::named_in(manual, file));
    }
    if crate::people::face_in_file(faces, file) {
        let i = choose|i: int|
            0 <= i < faces.len() && #[trigger] file_of_face(faces[i]) == Some(file);
        assert(file_of_face(faces_of(data)[i]) == Some(file));
    }
    if crate::people::named_in(manual, file) {
        let i = choose|i: int|
            0 <= i < manual.len() && #[trigger] manual[i].integer() == Some(file);
        assert(data.items_or_none("manuallyAssigned"@)[i].integer() == Some(file));
    }
}

/// A person who enters has the name, the faces and the files of the entity, and
/// everyone else stays as they were, but for the faces that the person takes over.
pub proof fn person_enters_with_name_faces_and_files(
    index: PeopleView,
    id: Seq<char>,
    data: JsonTree,
    other: Seq<char>,
    face: Seq<char>,
)
    requires
        !data.flag("isHidden"@),
        name_of(data).len() > 0,
    ensures
        ({
            let after = ingested(index, id, data);
            &&& after.people.contains_key(id)
            &&& after.people[id] == PersonView { id, name: name_of(data) }
            &&& after.files.contains_key(id)
            &&& after.files[id] == files_of(data)
            &&& faces_of(data).contains(face) ==> after.person_of(face) == (
                Some(id),
                Some(name_of(data)),
            )
            &&& !faces_of(data).contains(face) ==> after.faces.contains_key(face)
                == index.faces.contains_key(face)
            &&& !faces_of(data).contains(face) && index.faces.contains_key(face)
                ==> after.faces[face] == index.faces[face]
            &&& other != id ==> after.people.contains_key(other) == index.people.contains_key(other)
            &&& other != id && index.people.contains_key(other) ==> after.people[other]
                == index.people[other]
            &&& other != id ==> after.files.contains_key(other) == index.files.contains_key(other)
            &&& other != id && index.files.contains_key(other) ==> after.files[other]
                == index.files[other]
        }),
{
}

// ---------------------------------- changes --------------------------------

/// A change with an id forgets the person where it is a deletion, and enters the
/// entity where its payload can be read; all else changes nothing.
pub proof fn change_forgets_or_enters(
    index: PeopleView,
    entry: JsonTree,
    key: Seq<u8>,
    id: Seq<char>,
    data: JsonTree,
)
    ensures
        entry.text_field("id"@) == Some(id) && id.len() > 0 && entry.flag("isDeleted"@)
            ==> person_applied(index, entry, key) == index.without(id),
        entry.text_field("id"@) == Some(id) && id.len() > 0 && !entry.flag("isDeleted"@) && payload(
            entry.text_field("encryptedData"@),
            entry.text_field("header"@),
            key,
        ) == Some(data) ==> person_applied(index, entry, key) == ingested(index, id, data),
        entry.text_field("id"@) == Some(id) && !entry.flag("isDeleted"@) && payload(
            entry.text_field("encryptedData"@),
            entry.text_field("header"@),
            key,
        ) is None ==> person_applied(index, entry, key) == index,
        (entry.text_field("id"@) matches Some(given) ==> given.len() == 0) ==> person_applied(
            index,
            entry,
            key,
        ) == index,
{
}

/// Whether a change is about someone.
pub open spec fn is_about(entry: JsonTree, id: Seq<char>) -> bool {
    entry.text_field("id"@) == Some(id)
}

/// People whom no change is about stay, with their names and files.
pub proof fn unchanged_people_stay(
    index: PeopleView,
    entries: Seq<JsonTree>,
    key: Seq<u8>,
    id: Seq<char>,
)
    requires
        forall|i: int| 0 <= i < entries.len() ==> !is_about(#[trigger] entries[i], id),
    ensures
        ({
            let after = people_applied(index, entries, key);
            &&& after.people.contains_key(id) == index.people.contains_key(id)
            &&& index.people.contains_key(id) ==> after.people[id] == index.people[id]
            &&& after.files.contains_key(id) == index.files.contains_key(id)
            &&& index.files.contains_key(id) ==> after.files[id] == index.files[id]
        }),
    decreases entries.len(),
{
    if entries.len() > 0 {
        let earlier = entries.drop_last();
        assert forall|i: int| 0 <= i < earlier.len() implies !is_about(
            #[trigger] earlier[i],
            id,
        ) by {
            assert(earlier[i] == entries[i]);
        }
        unchanged_people_stay(index, earlier, key, id);
        assert(!is_about(entries[entries.len() - 1], id));
    }
}

/// The last change of a person counts.
pub proof fn last_change_of_a_person_counts(
    index: PeopleView,
    entries: Seq<JsonTree>,
    key: Seq<u8>,
    i: int,
    id: Seq<char>,
    data: JsonTree,
)
    requires
        0 <= i < entries.len(),
        is_about(entries[i], id),
        id.len() > 0,
        !entries[i].flag("isDeleted"@) ==> payload(
            entries[i].text_field("encryptedData"@),
            entries[i].text_field("header"@),
            key,
        ) == Some(data),
        forall|j: int| i < j < entries.len() ==> !is_about(#[trigger] entries[j], id),
    ensures
        ({
            let after = people_applied(index, entries, key);
            if entries[i].flag("isDeleted"@) || data.flag("isHidden"@) || name_of(data).len() == 0 {
                !after.people.contains_key(id)
            } else {
                &&& after.people.contains_key(id)
                &&& after.people[id].name == name_of(data)
                &&& after.files.contains_key(id)
                &&& after.files[id] == files_of(data)
            }
        }),
    decreases entries.len(),
{
    let earlier = entries.drop_last();
    if i < earlier.len() {
        assert(earlier[i] == entries[i]);
        assert forall|j: int| i < j < earlier.len() implies !is_about(#[trigger] earlier[j], id) by {
            assert(earlier[j] == entries[j]);
        }
        last_change_of_a_person_counts(index, earlier, key, i, id, data);
        assert(!is_about(entries[entries.len() - 1], id));
    }
}

// ----------------------------------- steps ---------------------------------

/// People are loaded with the entity key that the master key opens. Without people
/// the museum has no such key: that is no error.
pub proof fn people_need_the_entity_key(
    client: ClientView,
    master_key: Seq<u8>,
    v: JsonTree,
    boxed: Seq<char>,
    nonce: Seq<char>,
    key: Seq<u8>,
    status: u16,
    m: Seq<char>,
)
    ensures
        v.text_field("encryptedKey"@) == Some(boxed) && v.text_field("header"@) == Some(nonce)
            && secretbox_opened(boxed, nonce, master_key) == Ok::<Seq<u8>, CryptoFault>(key)
            ==> people_step(client, master_key, PeopleStageView::Key, Ok(v)) == PeopleStepView::Ask(
            entity_diff_request(client, 0),
            PeopleStageView::Diff { entity_key: key, since: 0, index: no_people() },
        ),
        v.text_field("encryptedKey"@) is None || v.text_field("header"@) is None ==> people_step(
            client,
            master_key,
            PeopleStageView::Key,
            Ok(v),
        ) matches PeopleStepView::Done(Err(_)),
        v.text_field("encryptedKey"@) == Some(boxed) && v.text_field("header"@) == Some(nonce)
            && secretbox_opened(boxed, nonce, master_key) is Err ==> people_step(
            client,
            master_key,
            PeopleStageView::Key,
            Ok(v),
        ) matches PeopleStepView::Done(Err(_)),
        people_step(client, master_key, PeopleStageView::Key, Err(ApiFault::Status(404, m)))
            == PeopleStepView::Done(Ok::<PeopleView, ApiFault>(no_people())),
        status != 404 ==> people_step(
            client,
            master_key,
            PeopleStageView::Key,
            Err(ApiFault::Status(status, m)),
        ) == PeopleStepView::Done(Err::<PeopleView, ApiFault>(ApiFault::Status(status, m))),
        no_people().people.dom().is_empty(),
        no_people().faces.dom().is_empty(),
        no_people().files.dom().is_empty(),
{
    assert(no_people().people.dom() =~= Set::empty());
    assert(no_people().faces.dom() =~= Set::empty());
    assert(no_people().files.dom() =~= Set::empty());
}

/// A page that cannot be had ends the loading of people with its error.
pub proof fn failed_page_ends_the_people(
    client: ClientView,
    master_key: Seq<u8>,
    key: Seq<u8>,
    since: i64,
    index: PeopleView,
    e: ApiFault,
)
    ensures
        people_step(
            client,
            master_key,
            PeopleStageView::Diff { entity_key: key, since, index },
            Err(e),
        ) == PeopleStepView::Done(Err::<PeopleView, ApiFault>(e)),
{
}

/// Pages of people are applied one after the other, to the people of the pages
/// before: a full page is followed by the next, from the latest change on, and a page
/// that is not full is the last.
pub proof fn pages_of_people_are_applied_in_turn(
    client: ClientView,
    master_key: Seq<u8>,
    key: Seq<u8>,
    since: i64,
    index: PeopleView,
    page: JsonTree,
)
    ensures
        ({
            let stage = PeopleStageView::Diff { entity_key: key, since, index };
            let step = people_step(client, master_key, stage, Ok(page));
            let entries = page.items_or_none("diff"@);
            let now = people_applied(index, entries, key);
            if entries.len() < 500 {
                step == PeopleStepView::Done(Ok::<PeopleView, ApiFault>(now))
            } else {
                &&& step matches PeopleStepView::Ask(
                    request,
                    PeopleStageView::Diff { entity_key: same, since: until, index: kept },
                )
                &&& same == key
                &&& kept == now
                &&& until == latest(since, entries, "updatedAt"@)
                &&& request == entity_diff_request(client, until)
            }
        }),
{
}

// --------------------------------- summaries -------------------------------

/// A file counts for a person where it is theirs and the library has it, not
/// deleted.
pub proof fn present_files_are_counted(
    index: PeopleView,
    id: Seq<char>,
    library: Map<i64, ImageView>,
    file: i64,
)
    ensures
        index.present_files(id, library).contains(file) <==> {
            &&& index.files.contains_key(id)
            &&& index.files[id].contains(file)
            &&& library.contains_key(file)
            &&& !library[file].is_deleted
        },
{
}

/// The summaries show every person once, with their name and the number of their
/// files that are there; whoever has more files comes first, and of two with as many,
/// the one whose name comes first.
pub proof fn summaries_show_everyone_once(
    index: PeopleView,
    library: Map<i64, ImageView>,
    rows: Seq<(String, String, usize)>,
    i: int,
    j: int,
    id: Seq<char>,
)
    requires
        index.consistent(),
        summarises(index, library, rows),
        0 <= i < rows.len(),
        0 <= j < rows.len(),
    ensures
        index.people.contains_key(rows[i].0@),
        rows[i].1@ == index.people[rows[i].0@].name,
        rows[i].2 == index.present_files(rows[i].0@, library).len(),
        i != j ==> rows[i].0@ != rows[j].0@,
        index.people.contains_key(id) ==> exists|n: int|
            0 <= n < rows.len() && (#[trigger] rows[n]).0@ == id,
        rows[i].2 > rows[j].2 ==> i < j,
        i < j && rows[i].2 == rows[j].2 ==> text_before(rows[i].1@, rows[j].1@),
{
    let keys = choose|keys: Seq<Seq<char>>| crate::people::is_summary(index, library, keys, rows);
    assert(keys.contains(keys[i]));
    assert(keys.contains(keys[j]));
    assert(index.people.contains_key(keys[i]) && index.people.contains_key(keys[j]));
    assert(rows[i].0@ == keys[i]);
    assert(rows[j].0@ == keys[j]);
    if index.people.contains_key(id) {
        assert(keys.contains(id));
        let n = choose|n: int| 0 <= n < keys.len() && keys[n] == id;
        assert((rows[n].0@, rows[n].1@, rows[n].2 as nat) == crate::people::summary_of(
            index,
            library,
            keys[n],
        ));
        assert(rows[n].0@ == id);
    }
    if j < i {
        assert(rows[j].2 >= rows[i].2);
    }
}

} // verus!
