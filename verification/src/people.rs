//! Named people, which the museum keeps as encrypted "cgroup" entities.
//!
//! An entity is gzipped, then encrypted with the entity key, which itself is
//! encrypted with the master key.

use crate::client::{
    json_answer, pairs, push_pair, sent_view, ApiFault, ClientView, EnteApiError, HttpRequest,
    MuseumClient, Reply, RequestView,
};
use crate::crypto::{
    chacha_decrypted, decrypt_chacha, gunzip, gunzipped, secretbox_open, secretbox_opened,
};
use crate::doc::opt_text;
use crate::files::{latest, library_view, text_or_empty, ImageFile, ImageView};
use crate::json::{items_of, parse_json, parsed_json, trees, Json, JsonTree};
use crate::order::{same_values, sorted, Ranked};
use crate::tables::{members_of, push_contains, texts_of};
use crate::text::{
    before_char, chars_of, decimal, first_piece, i64_text, parse_i64, parsed_within, same_text,
    trim, trimmed,
};
use crate::text_map::TextMap;
use std::collections::{HashMap, HashSet};
use vstd::prelude::*;

verus! {

/// How many entities a page of changes holds at most.
pub const ENTITY_DIFF_LIMIT: usize = 500;

/// The file that a face was found in: the part of the face id before the
/// underscore.
pub open spec fn file_of_face(face_id: Seq<char>) -> Option<i64> {
    match parsed_within(before_char(face_id, '_'), true, i64::MIN as int, i64::MAX as int) {
        Some(v) => Some(v as i64),
        None => None,
    }
}

/// The fileID is the prefix of a faceID (`"{fileID}_{hash}"`).
pub fn file_id_from_face_id(face_id: &str) -> (r: Option<i64>)
    ensures
        r == file_of_face(face_id@),
{
    parse_i64(first_piece(face_id, '_').as_str())
}

/// A named person ("cgroup").
pub struct Person {
    pub id: String,
    pub name: String,
}

/// The mathematical counterpart of `Person`.
pub struct PersonView {
    pub id: Seq<char>,
    pub name: Seq<char>,
}

impl View for Person {
    type V = PersonView;

    open spec fn view(&self) -> PersonView {
        PersonView { id: self.id@, name: self.name@ }
    }
}

impl Clone for Person {
    fn clone(&self) -> (r: Person)
        ensures
            r@ == self@,
    {
        Person { id: self.id.clone(), name: self.name.clone() }
    }
}

/// Lookup tables joining faces/files back to named people.
pub struct PeopleIndex {
    /// All named, non-hidden people, keyed by entity id.
    pub people: TextMap<Person>,
    /// faceID -> person id.
    pub face_to_person: TextMap<String>,
    /// person id -> set of fileIDs assigned to them (via faces or manually).
    pub person_file_ids: TextMap<HashSet<i64>>,
}

/// The mathematical counterpart of `PeopleIndex`.
#[verifier::ext_equal]
pub struct PeopleView {
    pub people: Map<Seq<char>, PersonView>,
    pub faces: Map<Seq<char>, Seq<char>>,
    pub files: Map<Seq<char>, Set<i64>>,
}

impl View for PeopleIndex {
    type V = PeopleView;

    open spec fn view(&self) -> PeopleView {
        PeopleView {
            people: self.people@.map_values(|p: Person| p@),
            faces: self.face_to_person@.map_values(|s: String| s@),
            files: self.person_file_ids@.map_values(|s: HashSet<i64>| s@),
        }
    }
}

/// An index without people.
pub open spec fn no_people() -> PeopleView {
    PeopleView { people: Map::empty(), faces: Map::empty(), files: Map::empty() }
}

impl PeopleView {
    /// The id and the name of the person a face belongs to.
    pub open spec fn person_of(self, face_id: Seq<char>) -> (Option<Seq<char>>, Option<Seq<char>>) {
        if self.faces.contains_key(face_id) {
            let id = self.faces[face_id];
            (
                Some(id),
                if self.people.contains_key(id) {
                    Some(self.people[id].name)
                } else {
                    None
                },
            )
        } else {
            (None, None)
        }
    }

    /// The files of a person that the library still has.
    pub open spec fn present_files(self, id: Seq<char>, library: Map<i64, ImageView>) -> Set<i64> {
        if self.files.contains_key(id) {
            self.files[id].filter(
                |f: i64| library.contains_key(f) && !library[f].is_deleted,
            )
        } else {
            Set::empty()
        }
    }

    /// The index without a person.
    pub open spec fn without(self, id: Seq<char>) -> PeopleView {
        PeopleView {
            people: self.people.remove(id),
            faces: Map::new(
                |face: Seq<char>| self.faces.contains_key(face) && self.faces[face] != id,
                |face: Seq<char>| self.faces[face],
            ),
            files: self.files.remove(id),
        }
    }

    /// The tables fit together: people are kept under their ids, each has a
    /// name and a set of files, and each face belongs to someone known.
    pub open spec fn consistent(self) -> bool {
        &&& forall|id: Seq<char>| #[trigger]
            self.people.contains_key(id) ==> self.people[id].id == id && self.people[id].name.len()
                > 0
        &&& forall|id: Seq<char>|
            #[trigger] self.people.contains_key(id) <==> self.files.contains_key(id)
        &&& forall|face: Seq<char>| #[trigger]
            self.faces.contains_key(face) ==> self.people.contains_key(self.faces[face])
    }
}

// --------------------------------- entities --------------------------------

/// The texts in a list.
pub open spec fn texts_in(items: Seq<JsonTree>) -> Seq<Seq<char>>
    decreases items.len(),
{
    if items.len() == 0 {
        Seq::empty()
    } else {
        let earlier = texts_in(items.drop_last());
        match items.last() {
            JsonTree::Text(s) => earlier.push(s),
            _ => earlier,
        }
    }
}

/// The face ids of a list of clusters.
pub open spec fn cluster_faces(clusters: Seq<JsonTree>) -> Seq<Seq<char>>
    decreases clusters.len(),
{
    if clusters.len() == 0 {
        Seq::empty()
    } else {
        cluster_faces(clusters.drop_last()) + texts_in(
            clusters.last().items_or_none("faces"@),
        )
    }
}

/// The face ids of a person.
pub open spec fn faces_of(data: JsonTree) -> Seq<Seq<char>> {
    cluster_faces(data.items_or_none("assigned"@))
}

/// Whether a face of the list was found in a file.
pub open spec fn face_in_file(faces: Seq<Seq<char>>, file: i64) -> bool {
    exists|i: int| 0 <= i < faces.len() && #[trigger] file_of_face(faces[i]) == Some(file)
}

/// Whether a list names a file.
pub open spec fn named_in(items: Seq<JsonTree>, file: i64) -> bool {
    exists|i: int| 0 <= i < items.len() && #[trigger] items[i].integer() == Some(file)
}

/// The files of a person: those of their faces and those assigned by hand.
pub open spec fn files_of(data: JsonTree) -> Set<i64> {
    Set::new(
        |file: i64|
            face_in_file(faces_of(data), file) || named_in(
                data.items_or_none("manuallyAssigned"@),
                file,
            ),
    )
}

/// The name of a person, without white space around it.
pub open spec fn name_of(data: JsonTree) -> Seq<char> {
    trimmed(text_or_empty(data.text_field("name"@)))
}

/// The face table after the faces of a person entered it.
pub open spec fn faces_assigned(
    table: Map<Seq<char>, Seq<char>>,
    faces: Seq<Seq<char>>,
    id: Seq<char>,
) -> Map<Seq<char>, Seq<char>> {
    Map::new(
        |face: Seq<char>| table.contains_key(face) || faces.contains(face),
        |face: Seq<char>|
            if faces.contains(face) {
                id
            } else {
                table[face]
            },
    )
}

/// The index after an entity was read. One that is hidden or has no name is no
/// person: whoever was kept under its id is forgotten, as if deleted.
pub open spec fn ingested(index: PeopleView, id: Seq<char>, data: JsonTree) -> PeopleView {
    if data.flag("isHidden"@) || name_of(data).len() == 0 {
        index.without(id)
    } else {
        PeopleView {
            people: index.people.insert(id, PersonView { id, name: name_of(data) }),
            faces: faces_assigned(index.faces, faces_of(data), id),
            files: index.files.insert(id, files_of(data)),
        }
    }
}

/// The payload of an entity: gzipped JSON, encrypted as a stream of one chunk.
pub open spec fn payload(
    data: Option<Seq<char>>,
    header: Option<Seq<char>>,
    key: Seq<u8>,
) -> Option<JsonTree> {
    match (data, header) {
        (Some(d), Some(h)) => match chacha_decrypted(d, key, h) {
            Ok(zipped) => match gunzipped(zipped) {
                Some(plain) => parsed_json(plain),
                None => None,
            },
            Err(_) => None,
        },
        _ => None,
    }
}

/// The index after one entry of a page of changes.
pub open spec fn person_applied(index: PeopleView, entry: JsonTree, key: Seq<u8>) -> PeopleView {
    let id = text_or_empty(entry.text_field("id"@));
    if id.len() == 0 {
        index
    } else if entry.flag("isDeleted"@) {
        index.without(id)
    } else {
        match payload(entry.text_field("encryptedData"@), entry.text_field("header"@), key) {
            Some(data) => ingested(index, id, data),
            None => index,
        }
    }
}

/// The index after a list of entries.
pub open spec fn people_applied(index: PeopleView, entries: Seq<JsonTree>, key: Seq<u8>) -> PeopleView
    decreases entries.len(),
{
    if entries.len() == 0 {
        index
    } else {
        person_applied(people_applied(index, entries.drop_last(), key), entries.last(), key)
    }
}

/// Decrypts a payload.
pub fn open_payload(data: Option<String>, header: Option<String>, key: &[u8]) -> (r: Option<Json>)
    ensures
        match r {
            Some(v) => payload(opt_text(data), opt_text(header), key@) == Some(v@),
            None => payload(opt_text(data), opt_text(header), key@) is None,
        },
{
    match (data, header) {
        (Some(d), Some(h)) => match decrypt_chacha(d.as_str(), key, h.as_str()) {
            Ok(zipped) => match gunzip(zipped.as_slice()) {
                Ok(plain) => parse_json(plain.as_slice()),
                Err(_) => None,
            },
            Err(_) => None,
        },
        _ => None,
    }
}

/// What an optional string in a pair holds.
pub open spec fn opt_pair(r: (Option<String>, Option<String>)) -> (
    Option<Seq<char>>,
    Option<Seq<char>>,
) {
    (opt_text(r.0), opt_text(r.1))
}

impl Default for PeopleIndex {
    fn default() -> (r: PeopleIndex)
        ensures
            r.wf(),
            r@ == no_people(),
    {
        let r = PeopleIndex {
            people: TextMap::new(),
            face_to_person: TextMap::new(),
            person_file_ids: TextMap::new(),
        };
        assert(r@ =~= no_people());
        r
    }
}

impl PeopleIndex {
    pub open spec fn wf(&self) -> bool {
        self.people.wf() && self.face_to_person.wf() && self.person_file_ids.wf()
    }

    /// Resolve the (id, name) of the person a face belongs to, if any.
    pub fn person_for_face(&self, face_id: &str) -> (r: (Option<String>, Option<String>))
        requires
            self.wf(),
        ensures
            opt_pair(r) == self@.person_of(face_id@),
    {
        match self.face_to_person.get(face_id) {
            Some(pid) => {
                let name = match self.people.get(pid.as_str()) {
                    Some(p) => Some(p.name.clone()),
                    None => None,
                };
                (Some(pid.clone()), name)
            },
            None => (None, None),
        }
    }

    /// Forgets a person, and whose their faces were.
    fn forget(&mut self, id: &str)
        requires
            old(self).wf(),
        ensures
            final(self).wf(),
            final(self)@ == old(self)@.without(id@),
    {
        let ghost before = self@;
        let _ = self.people.remove(id);
        let _ = self.person_file_ids.remove(id);
        let faces = faces_belonging(&self.face_to_person, id);
        let ghost table = self.face_to_person@;
        let mut i: usize = 0;
        while i < faces.len()
            invariant
                i <= faces@.len(),
                self.wf(),
                self.people@.map_values(|p: Person| p@) == before.people.remove(id@),
                self.person_file_ids@.map_values(|s: HashSet<i64>| s@) == before.files.remove(id@),
                forall|k: Seq<char>| #[trigger]
                    texts_of(faces@).contains(k) <==> table.contains_key(k) && table[k]@ == id@,
                forall|k: Seq<char>| #[trigger]
                    self.face_to_person@.contains_key(k) <==> table.contains_key(k) && !texts_of(
                        faces@.take(i as int),
                    ).contains(k),
                forall|k: Seq<char>| #[trigger]
                    self.face_to_person@.contains_key(k) ==> self.face_to_person@[k] == table[k],
            decreases faces@.len() - i,
        {
            let ghost done = texts_of(faces@.take(i as int));
            let ghost more = texts_of(faces@.take(i + 1));
            let _ = self.face_to_person.remove(faces[i].as_str());
            assert(more =~= done.push(faces@[i as int]@));
            assert forall|k: Seq<char>| more.contains(k) <==> done.contains(k) || k
                == faces@[i as int]@ by {
                push_contains(done, faces@[i as int]@, k);
            }
            i += 1;
        }
        assert(faces@.take(i as int) =~= faces@);
        assert(self@ =~= before.without(id@));
    }
}

/// The faces that a table assigns to `id`.
fn faces_belonging(table: &TextMap<String>, id: &str) -> (r: Vec<String>)
    requires
        table.wf(),
    ensures
        forall|k: Seq<char>| #[trigger]
            texts_of(r@).contains(k) <==> table@.contains_key(k) && table@[k]@ == id@,
{
    let mut out: Vec<String> = Vec::new();
    let mut i: usize = 0;
    let ghost order = table.order();
    proof {
        table.order_is_complete();
    }
    while i < table.len()
        invariant
            table.wf(),
            i <= order.len(),
            order == table.order(),
            forall|k: Seq<char>| #[trigger]
                texts_of(out@).contains(k) <==> order.take(i as int).contains(k) && table@[k]@
                    == id@,
        decreases order.len() - i,
    {
        let ghost before = texts_of(out@);
        let ghost key = order[i as int];
        if same_text(table.value_at(i).as_str(), id) {
            let k = table.key_at(i).clone();
            out.push(k);
            assert(texts_of(out@) =~= before.push(key));
        }
        assert(order.take(i + 1) =~= order.take(i as int).push(key));
        assert forall|k: Seq<char>| #[trigger]
            texts_of(out@).contains(k) <==> order.take(i + 1).contains(k) && table@[k]@ == id@ by {
            push_contains(order.take(i as int), key, k);
            push_contains(before, key, k);
        }
        i += 1;
    }
    assert(order.take(i as int) =~= order);
    out
}

/// Collects the face ids of a person and the files they were found in.
fn collect_faces(data: &Json, file_ids: &mut HashSet<i64>) -> (r: Vec<String>)
    ensures
        texts_of(r@) == faces_of(data@),
        forall|f: i64| #[trigger]
            final(file_ids)@.contains(f) <==> old(file_ids)@.contains(f) || face_in_file(
                faces_of(data@),
                f,
            ),
{
    broadcast use vstd::std_specs::hash::group_hash_axioms;

    let clusters = items_of(data, "assigned");
    let ghost all = trees(clusters@);
    let ghost start = file_ids@;
    let mut out: Vec<String> = Vec::new();
    let mut i: usize = 0;
    assert(texts_of(out@) =~= cluster_faces(all.take(0)));
    while i < clusters.len()
        invariant
            i <= clusters@.len(),
            all == trees(clusters@),
            texts_of(out@) == cluster_faces(all.take(i as int)),
            forall|f: i64| #[trigger]
                file_ids@.contains(f) <==> start.contains(f) || face_in_file(texts_of(out@), f),
        decreases clusters@.len() - i,
    {
        let faces = items_of(&clusters[i], "faces");
        let ghost inner = trees(faces@);
        let ghost before = texts_of(out@);
        assert(all.take(i + 1).drop_last() =~= all.take(i as int));
        assert(all.take(i + 1).last() == clusters@[i as int]@);
        let mut j: usize = 0;
        assert(before + texts_in(inner.take(0)) =~= before);
        while j < faces.len()
            invariant
                j <= faces@.len(),
                inner == trees(faces@),
                texts_of(out@) == before + texts_in(inner.take(j as int)),
                forall|f: i64| #[trigger]
                    file_ids@.contains(f) <==> start.contains(f) || face_in_file(texts_of(out@), f),
            decreases faces@.len() - j,
        {
            broadcast use vstd::std_specs::hash::group_hash_axioms;

            assert(inner.take(j + 1).drop_last() =~= inner.take(j as int));
            assert(inner.take(j + 1).last() == faces@[j as int]@);
            if let Some(face_id) = faces[j].as_str() {
                let ghost seen = texts_of(out@);
                let ghost ids = file_ids@;
                if let Some(fid) = file_id_from_face_id(face_id.as_str()) {
                    file_ids.insert(fid);
                }
                out.push(face_id.clone());
                assert(texts_of(out@) =~= seen.push(face_id@));
                assert(before + texts_in(inner.take(j as int)).push(face_id@) =~= seen.push(
                    face_id@,
                ));
                assert forall|f: i64| #[trigger]
                    file_ids@.contains(f) <==> start.contains(f) || face_in_file(
                    texts_of(out@),
                    f,
                ) by {
                    face_in_file_push(seen, face_id@, f);
                }
            }
            j += 1;
        }
        assert(inner.take(j as int) =~= inner);
        i += 1;
    }
    assert(all.take(i as int) =~= all);
    out
}

proof fn face_in_file_push(faces: Seq<Seq<char>>, face: Seq<char>, file: i64)
    ensures
        face_in_file(faces.push(face), file) <==> face_in_file(faces, file) || file_of_face(face)
            == Some(file),
{
    let more = faces.push(face);
    if face_in_file(more, file) {
        let i = choose|i: int| 0 <= i < more.len() && #[trigger] file_of_face(more[i]) == Some(file);
        if i < faces.len() {
            assert(file_of_face(faces[i]) == Some(file));
        }
    }
    if face_in_file(faces, file) {
        let i = choose|i: int|
            0 <= i < faces.len() && #[trigger] file_of_face(faces[i]) == Some(file);
        assert(file_of_face(more[i]) == Some(file));
    }
    if file_of_face(face) == Some(file) {
        assert(file_of_face(more[faces.len() as int]) == Some(file));
    }
}

/// Collects the files that were assigned to a person by hand.
fn collect_manual(data: &Json, file_ids: &mut HashSet<i64>)
    ensures
        forall|f: i64| #[trigger]
            final(file_ids)@.contains(f) <==> old(file_ids)@.contains(f) || named_in(
                data@.items_or_none("manuallyAssigned"@),
                f,
            ),
{
    broadcast use vstd::std_specs::hash::group_hash_axioms;

    let items = items_of(data, "manuallyAssigned");
    let ghost all = trees(items@);
    let ghost start = file_ids@;
    let mut i: usize = 0;
    while i < items.len()
        invariant
            i <= items@.len(),
            all == trees(items@),
            forall|f: i64| #[trigger]
                file_ids@.contains(f) <==> start.contains(f) || named_in(all.take(i as int), f),
        decreases items@.len() - i,
    {
        broadcast use vstd::std_specs::hash::group_hash_axioms;

        let ghost before = all.take(i as int);
        let ghost more = all.take(i + 1);
        let number: Option<i64> = items[i].as_i64();
        if let Some(fid) = number {
            file_ids.insert(fid);
        }
        assert forall|f: i64| named_in(more, f) <==> named_in(before, f) || number == Some(f) by {
            if named_in(more, f) {
                let n = choose|n: int| 0 <= n < more.len() && #[trigger] more[n].integer() == Some(f);
                if n < before.len() {
                    assert(before[n].integer() == Some(f));
                }
            }
            if named_in(before, f) {
                let n = choose|n: int|
                    0 <= n < before.len() && #[trigger] before[n].integer() == Some(f);
                assert(more[n].integer() == Some(f));
            }
            assert(more[i as int].integer() == number);
        }
        i += 1;
    }
    assert(all.take(i as int) =~= all);
}

proof fn faces_assigned_push(
    table: Map<Seq<char>, Seq<char>>,
    faces: Seq<Seq<char>>,
    face: Seq<char>,
    id: Seq<char>,
)
    ensures
        faces_assigned(table, faces.push(face), id) == faces_assigned(table, faces, id).insert(
            face,
            id,
        ),
{
    let left = faces_assigned(table, faces.push(face), id);
    let right = faces_assigned(table, faces, id).insert(face, id);
    assert forall|k: Seq<char>| left.contains_key(k) == right.contains_key(k) by {
        push_contains(faces, face, k);
    }
    assert forall|k: Seq<char>| left.contains_key(k) implies #[trigger] left[k] == right[k] by {
        push_contains(faces, face, k);
    }
    assert(left =~= right);
}

/// Enters a single decrypted entity into the index. Only named, non-hidden
/// groups (i.e. actual "people") are kept: one that was hidden or lost its name
/// since it entered is taken out again.
pub fn ingest_cgroup(index: &mut PeopleIndex, id: &str, data: &Json)
    requires
        old(index).wf(),
    ensures
        final(index).wf(),
        final(index)@ == ingested(old(index)@, id@, data@),
{
    broadcast use vstd::std_specs::hash::group_hash_axioms;

    let ghost before = index@;
    let name = match data.str_field("name") {
        Some(s) => trim(s.as_str()),
        None => {
            assert(trimmed(Seq::<char>::empty()) =~= Seq::<char>::empty());
            String::new()
        },
    };
    if data.is_set("isHidden") || name.as_str().is_empty() {
        index.forget(id);
        return;
    }
    let mut file_ids: HashSet<i64> = HashSet::new();
    let face_ids = collect_faces(data, &mut file_ids);
    collect_manual(data, &mut file_ids);
    assert(file_ids@ =~= files_of(data@));

    index.people.insert(id, Person { id: id.to_owned(), name });
    let ghost people = index.people@;
    let ghost table = before.faces;
    let mut i: usize = 0;
    while i < face_ids.len()
        invariant
            i <= face_ids@.len(),
            index.wf(),
            index.people@ == people,
            index.person_file_ids == old(index).person_file_ids,
            index@.faces == faces_assigned(table, texts_of(face_ids@).take(i as int), id@),
        decreases face_ids@.len() - i,
    {
        let ghost done = texts_of(face_ids@).take(i as int);
        let ghost face = face_ids@[i as int]@;
        let ghost held = index@.faces;
        index.face_to_person.insert(face_ids[i].as_str(), id.to_owned());
        proof {
            assert(texts_of(face_ids@).take(i + 1) =~= done.push(face));
            assert(index@.faces =~= held.insert(face, id@));
            faces_assigned_push(table, done, face, id@);
        }
        i += 1;
    }
    assert(texts_of(face_ids@).take(i as int) =~= faces_of(data@));
    let ghost entry = file_ids@;
    index.person_file_ids.insert(id, file_ids);
    assert(index@.files =~= before.files.insert(id@, entry));
    assert(index@.people =~= before.people.insert(id@, PersonView { id: id@, name: name_of(data@) }));
    assert(index@ =~= ingested(before, id@, data@));
}

/// Applies one entry of a page of changes.
fn apply_person(index: &mut PeopleIndex, entry: &Json, key: &[u8])
    requires
        old(index).wf(),
    ensures
        final(index).wf(),
        final(index)@ == person_applied(old(index)@, entry@, key@),
{
    let id = match entry.str_field("id") {
        Some(s) => s,
        None => return,
    };
    if id.as_str().is_empty() {
        return;
    }
    if entry.is_set("isDeleted") {
        index.forget(id.as_str());
        return;
    }
    match open_payload(entry.str_field("encryptedData"), entry.str_field("header"), key) {
        Some(data) => ingest_cgroup(index, id.as_str(), &data),
        None => {},
    }
}

// ------------------------------ synchronisation ----------------------------

/// The request for the entity key.
pub open spec fn entity_key_request(client: ClientView) -> RequestView {
    client.get("/user-entity/key"@, seq![("type"@, "cgroup"@)])
}

/// The request for the entities that changed after `since`.
pub open spec fn entity_diff_request(client: ClientView, since: i64) -> RequestView {
    client.get(
        "/user-entity/entity/diff"@,
        seq![
            ("type"@, "cgroup"@),
            ("sinceTime"@, decimal(since as int)),
            ("limit"@, decimal(ENTITY_DIFF_LIMIT as int)),
        ],
    )
}

/// How far the loading of people has come: what was asked for last.
pub enum PeopleStage {
    /// The entity key.
    Key,
    /// A page of changes.
    Diff { entity_key: Vec<u8>, since: i64, index: PeopleIndex },
}

/// The mathematical counterpart of `PeopleStage`.
#[verifier::ext_equal]
pub enum PeopleStageView {
    Key,
    Diff { entity_key: Seq<u8>, since: i64, index: PeopleView },
}

impl View for PeopleStage {
    type V = PeopleStageView;

    open spec fn view(&self) -> PeopleStageView {
        match self {
            PeopleStage::Key => PeopleStageView::Key,
            PeopleStage::Diff { entity_key, since, index } => PeopleStageView::Diff {
                entity_key: entity_key@,
                since: *since,
                index: index@,
            },
        }
    }
}

impl PeopleStage {
    pub open spec fn wf(&self) -> bool {
        match self {
            PeopleStage::Key => true,
            PeopleStage::Diff { index, .. } => index.wf(),
        }
    }
}

/// What the loading of people does next.
pub enum PeopleStep {
    /// Send the request, and go on with the stage on its answer.
    Ask(HttpRequest, PeopleStage),
    Done(Result<PeopleIndex, EnteApiError>),
}

/// The mathematical counterpart of `PeopleStep`.
#[verifier::ext_equal]
pub enum PeopleStepView {
    Ask(RequestView, PeopleStageView),
    Done(Result<PeopleView, ApiFault>),
}

impl View for PeopleStep {
    type V = PeopleStepView;

    open spec fn view(&self) -> PeopleStepView {
        match self {
            PeopleStep::Ask(request, stage) => PeopleStepView::Ask(request@, stage@),
            PeopleStep::Done(Ok(index)) => PeopleStepView::Done(Ok(index@)),
            PeopleStep::Done(Err(e)) => PeopleStepView::Done(Err(e@)),
        }
    }
}

impl PeopleStep {
    pub open spec fn wf(&self) -> bool {
        match self {
            PeopleStep::Ask(_, stage) => stage.wf(),
            PeopleStep::Done(Ok(index)) => index.wf(),
            PeopleStep::Done(Err(_)) => true,
        }
    }
}

/// The entity key in an answer, decrypted with the master key.
pub open spec fn entity_key_of(v: JsonTree, master_key: Seq<u8>) -> Result<Seq<u8>, ApiFault> {
    match v.text_field("encryptedKey"@) {
        None => Err(ApiFault::Decode("entity key missing encryptedKey"@)),
        Some(enc_key) => match v.text_field("header"@) {
            None => Err(ApiFault::Decode("entity key missing header"@)),
            Some(header) => match secretbox_opened(enc_key, header, master_key) {
                Err(e) => Err(ApiFault::Decode(e.words())),
                Ok(key) => Ok(key),
            },
        },
    }
}

/// The step that follows an answer. An account without people has no entity
/// key, which the museum answers with 404. A page that is not full is the last.
pub open spec fn people_step(
    client: ClientView,
    master_key: Seq<u8>,
    stage: PeopleStageView,
    answer: Result<JsonTree, ApiFault>,
) -> PeopleStepView {
    match stage {
        PeopleStageView::Key => match answer {
            Err(e) => if e.code() == 404 {
                PeopleStepView::Done(Ok(no_people()))
            } else {
                PeopleStepView::Done(Err(e))
            },
            Ok(v) => match entity_key_of(v, master_key) {
                Err(e) => PeopleStepView::Done(Err(e)),
                Ok(entity_key) => PeopleStepView::Ask(
                    entity_diff_request(client, 0),
                    PeopleStageView::Diff { entity_key, since: 0, index: no_people() },
                ),
            },
        },
        PeopleStageView::Diff { entity_key, since, index } => match answer {
            Err(e) => PeopleStepView::Done(Err(e)),
            Ok(page) => {
                let entries = page.items_or_none("diff"@);
                let now = people_applied(index, entries, entity_key);
                if entries.len() < ENTITY_DIFF_LIMIT {
                    PeopleStepView::Done(Ok(now))
                } else {
                    let until = latest(since, entries, "updatedAt"@);
                    PeopleStepView::Ask(
                        entity_diff_request(client, until),
                        PeopleStageView::Diff { entity_key, since: until, index: now },
                    )
                }
            },
        },
    }
}

fn entity_diff(client: &MuseumClient, since: i64) -> (r: HttpRequest)
    ensures
        r@ == entity_diff_request(client@, since),
{
    let mut params: Vec<(String, String)> = Vec::new();
    assert(pairs(params@) =~= Seq::empty());
    push_pair(&mut params, "type", "cgroup");
    push_pair(&mut params, "sinceTime", i64_text(since).as_str());
    push_pair(&mut params, "limit", i64_text(ENTITY_DIFF_LIMIT as i64).as_str());
    assert(pairs(params@) =~= entity_diff_request(client@, since).query);
    client.get("/user-entity/entity/diff", params)
}

fn open_entity_key(v: &Json, master_key: &[u8]) -> (r: Result<Vec<u8>, EnteApiError>)
    ensures
        match r {
            Ok(key) => entity_key_of(v@, master_key@) == Ok::<Seq<u8>, ApiFault>(key@),
            Err(e) => entity_key_of(v@, master_key@) == Err::<Seq<u8>, ApiFault>(e@),
        },
{
    let enc_key = match v.str_field("encryptedKey") {
        Some(s) => s,
        None => return Err(EnteApiError::Decode("entity key missing encryptedKey".to_owned())),
    };
    let header = match v.str_field("header") {
        Some(s) => s,
        None => return Err(EnteApiError::Decode("entity key missing header".to_owned())),
    };
    match secretbox_open(enc_key.as_str(), header.as_str(), master_key) {
        Ok(key) => Ok(key),
        Err(e) => Err(EnteApiError::Decode(e.message())),
    }
}

/// Starts loading all named people.
pub fn fetch_people(client: &MuseumClient) -> (r: PeopleStep)
    ensures
        r.wf(),
        r@ == PeopleStepView::Ask(entity_key_request(client@), PeopleStageView::Key),
{
    let mut params: Vec<(String, String)> = Vec::new();
    assert(pairs(params@) =~= Seq::empty());
    push_pair(&mut params, "type", "cgroup");
    PeopleStep::Ask(client.get("/user-entity/key", params), PeopleStage::Key)
}

/// Goes on with the loading of people on the answer to its last request.
pub fn continue_people(
    client: &MuseumClient,
    master_key: &[u8],
    stage: PeopleStage,
    sent: &Result<Reply, String>,
) -> (r: PeopleStep)
    requires
        stage.wf(),
    ensures
        r.wf(),
        r@ == people_step(client@, master_key@, stage@, json_answer(sent_view(*sent))),
        json_answer(sent_view(*sent)) matches Ok(page) ==> (
        stage@ matches PeopleStageView::Diff { entity_key, index, .. } ==> match r@ {
            PeopleStepView::Ask(_, PeopleStageView::Diff { index: kept, .. }) => kept
                == people_applied(index, page.items_or_none("diff"@), entity_key),
            PeopleStepView::Done(Ok(kept)) => kept == people_applied(
                index,
                page.items_or_none("diff"@),
                entity_key,
            ),
            _ => false,
        }),
{
    let answer = MuseumClient::json(sent);
    match stage {
        PeopleStage::Key => match answer {
            Err(e) => if e.status_code() == 404 {
                PeopleStep::Done(Ok(PeopleIndex::default()))
            } else {
                PeopleStep::Done(Err(e))
            },
            Ok(v) => match open_entity_key(&v, master_key) {
                Err(e) => PeopleStep::Done(Err(e)),
                Ok(entity_key) => PeopleStep::Ask(
                    entity_diff(client, 0),
                    PeopleStage::Diff { entity_key, since: 0, index: PeopleIndex::default() },
                ),
            },
        },
        PeopleStage::Diff { entity_key, since, index } => {
            let page = match answer {
                Ok(v) => v,
                Err(e) => return PeopleStep::Done(Err(e)),
            };
            let entries = items_of(&page, "diff");
            let ghost all = trees(entries@);
            let ghost start = index@;
            let mut now = index;
            let mut until: i64 = since;
            let mut i: usize = 0;
            assert(people_applied(start, all.take(0), entity_key@) == start);
            assert(latest(since, all.take(0), "updatedAt"@) == since);
            while i < entries.len()
                invariant
                    i <= entries@.len(),
                    now.wf(),
                    all == trees(entries@),
                    now@ == people_applied(start, all.take(i as int), entity_key@),
                    until == latest(since, all.take(i as int), "updatedAt"@),
                decreases entries@.len() - i,
            {
                assert(all.take(i + 1).drop_last() =~= all.take(i as int));
                assert(all.take(i + 1).last() == entries@[i as int]@);
                if let Some(t) = entries[i].i64_field("updatedAt") {
                    if t > until {
                        until = t;
                    }
                }
                apply_person(&mut now, &entries[i], entity_key.as_slice());
                i += 1;
            }
            assert(all.take(i as int) =~= all);
            if entries.len() < ENTITY_DIFF_LIMIT {
                return PeopleStep::Done(Ok(now));
            }
            PeopleStep::Ask(
                entity_diff(client, until),
                PeopleStage::Diff { entity_key, since: until, index: now },
            )
        },
    }
}

// --------------------------------- summaries -------------------------------

/// Whether `a` stands before `b` or is `b`, in the order of the characters.
pub open spec fn text_before(a: Seq<char>, b: Seq<char>) -> bool
    decreases a.len(),
{
    if a.len() == 0 {
        true
    } else if b.len() == 0 {
        false
    } else if a[0] != b[0] {
        a[0] < b[0]
    } else {
        text_before(a.drop_first(), b.drop_first())
    }
}

proof fn text_before_total(a: Seq<char>, b: Seq<char>)
    ensures
        text_before(a, b) || text_before(b, a),
    decreases a.len(),
{
    if a.len() > 0 && b.len() > 0 {
        text_before_total(a.drop_first(), b.drop_first());
    }
}

proof fn text_before_transitive(a: Seq<char>, b: Seq<char>, c: Seq<char>)
    requires
        text_before(a, b),
        text_before(b, c),
    ensures
        text_before(a, c),
    decreases a.len(),
{
    if a.len() > 0 && b.len() > 0 && c.len() > 0 && a[0] == b[0] && b[0] == c[0] {
        text_before_transitive(a.drop_first(), b.drop_first(), c.drop_first());
    }
}

/// Whether `a` stands before `b` or is `b`.
fn text_precedes(a: &str, b: &str) -> (r: bool)
    ensures
        r == text_before(a@, b@),
{
    let left = chars_of(a);
    let right = chars_of(b);
    let mut i: usize = 0;
    assert(a@.skip(0) =~= a@);
    assert(b@.skip(0) =~= b@);
    while i < left.len() && i < right.len()
        invariant
            left@ == a@,
            right@ == b@,
            i <= a@.len(),
            i <= b@.len(),
            text_before(a@, b@) == text_before(a@.skip(i as int), b@.skip(i as int)),
        decreases a@.len() - i,
    {
        assert(a@.skip(i as int).drop_first() =~= a@.skip(i + 1));
        assert(b@.skip(i as int).drop_first() =~= b@.skip(i + 1));
        if left[i] != right[i] {
            return left[i] < right[i];
        }
        i += 1;
    }
    i == left.len()
}

/// The rank of a person in the summaries.
#[derive(Clone, Copy)]
struct Place<'a> {
    count: usize,
    name: &'a String,
    at: usize,
}

impl<'a> Ranked for Place<'a> {
    closed spec fn before(self, other: Place<'a>) -> bool {
        self.count > other.count || (self.count == other.count && text_before(
            self.name@,
            other.name@,
        ))
    }

    proof fn total(a: Place<'a>, b: Place<'a>) {
        text_before_total(a.name@, b.name@);
    }

    proof fn transitive(a: Place<'a>, b: Place<'a>, c: Place<'a>) {
        if a.count == b.count && b.count == c.count {
            text_before_transitive(a.name@, b.name@, c.name@);
        }
    }

    fn may_precede(&self, other: &Place<'a>) -> (r: bool) {
        self.count > other.count || (self.count == other.count && text_precedes(
            self.name.as_str(),
            other.name.as_str(),
        ))
    }
}

/// The summary of a person: id, name and how many of their images are there.
pub open spec fn summary_of(index: PeopleView, library: Map<i64, ImageView>, key: Seq<char>) -> (
    Seq<char>,
    Seq<char>,
    nat,
) {
    let person = index.people[key];
    (person.id, person.name, index.present_files(person.id, library).len())
}

/// Whether `rows` are the summaries of the people with the keys `keys`: all
/// people, each once, by count from the highest, then by name.
pub open spec fn is_summary(
    index: PeopleView,
    library: Map<i64, ImageView>,
    keys: Seq<Seq<char>>,
    rows: Seq<(String, String, usize)>,
) -> bool {
    &&& keys.no_duplicates()
    &&& forall|k: Seq<char>| #[trigger] keys.contains(k) <==> index.people.contains_key(k)
    &&& rows.len() == keys.len()
    &&& forall|i: int|
        0 <= i < rows.len() ==> ((#[trigger] rows[i]).0@, rows[i].1@, rows[i].2 as nat)
            == summary_of(index, library, keys[i])
    &&& forall|i: int, j: int|
        0 <= i < j < rows.len() ==> (#[trigger] rows[i]).2 > (#[trigger] rows[j]).2 || (rows[i].2
            == rows[j].2 && text_before(rows[i].1@, rows[j].1@))
}

/// Whether `rows` are the summaries of all people.
pub open spec fn summarises(
    index: PeopleView,
    library: Map<i64, ImageView>,
    rows: Seq<(String, String, usize)>,
) -> bool {
    exists|keys: Seq<Seq<char>>| is_summary(index, library, keys, rows)
}

/// How many files of a set the library has.
fn count_present(set: &HashSet<i64>, library: &HashMap<i64, ImageFile>) -> (r: usize)
    ensures
        r == set@.filter(
            |f: i64|
                library_view(library@).contains_key(f) && !library_view(library@)[f].is_deleted,
        ).len(),
{
    broadcast use vstd::std_specs::hash::group_hash_axioms;

    let members = members_of(set);
    let ghost shown = library_view(library@);
    let ghost present = |f: i64| shown.contains_key(f) && !shown[f].is_deleted;
    let ghost mut counted: Set<i64> = Set::empty();
    let mut count: usize = 0;
    let mut i: usize = 0;
    while i < members.len()
        invariant
            i <= members@.len(),
            members@.no_duplicates(),
            shown == library_view(library@),
            present == (|f: i64| shown.contains_key(f) && !shown[f].is_deleted),
            counted.finite(),
            count == counted.len(),
            count <= i,
            forall|f: i64| #[trigger]
                counted.contains(f) <==> members@.take(i as int).contains(f) && present(f),
        decreases members@.len() - i,
    {
        broadcast use vstd::std_specs::hash::group_hash_axioms;

        let id: i64 = members[i];
        let ghost before = members@.take(i as int);
        assert(members@.take(i + 1) =~= before.push(id));
        assert forall|f: i64| members@.take(i + 1).contains(f) <==> before.contains(f) || f
            == id by {
            push_contains(before, id, f);
        }
        assert(!before.contains(id)) by {
            if before.contains(id) {
                let n = choose|n: int| 0 <= n < before.len() && before[n] == id;
                assert(members@[n] == members@[i as int]);
            }
        }
        if let Some(file) = library.get(&id) {
            if !file.is_deleted {
                count += 1;
                proof {
                    counted = counted.insert(id);
                }
            }
        }
        i += 1;
    }
    proof {
        assert(members@.take(i as int) =~= members@);
        assert forall|f: i64| set@.contains(f) == members@.contains(f) by {
            assert(members@.to_set().contains(f) == members@.contains(f));
        }
        assert(counted =~= set@.filter(present));
    }
    count
}

impl PeopleIndex {
    /// Per-person summaries `(id, name, image_count)`, counting only images that
    /// are still present (and not deleted) in `library`. Sorted by count, from
    /// the highest, then by name.
    pub fn summaries(&self, library: &HashMap<i64, ImageFile>) -> (r: Vec<(String, String, usize)>)
        requires
            self.wf(),
        ensures
            summarises(self@, library_view(library@), r@),
    {
        let ghost shown = library_view(library@);
        let ghost order = self.people.order();
        proof {
            self.people.order_is_complete();
        }
        let mut rows: Vec<(String, String, usize)> = Vec::new();
        let mut i: usize = 0;
        while i < self.people.len()
            invariant
                self.wf(),
                shown == library_view(library@),
                order == self.people.order(),
                i <= order.len(),
                rows@.len() == i,
                forall|n: int|
                    0 <= n < rows@.len() ==> ((#[trigger] rows@[n]).0@, rows@[n].1@, rows@[n].2 as nat)
                        == summary_of(self@, shown, order[n]),
            decreases order.len() - i,
        {
            let person = self.people.value_at(i);
            let count: usize = match self.person_file_ids.get(person.id.as_str()) {
                Some(set) => count_present(set, library),
                None => 0,
            };
            assert(self@.people[order[i as int]] == person@);
            rows.push((person.id.clone(), person.name.clone(), count));
            i += 1;
        }
        let mut places: Vec<Place> = Vec::new();
        let mut j: usize = 0;
        while j < rows.len()
            invariant
                j <= rows@.len(),
                places@.len() == j,
                forall|n: int|
                    0 <= n < j ==> {
                        &&& (#[trigger] places@[n]).at == n
                        &&& places@[n].count == rows@[n].2
                        &&& places@[n].name@ == rows@[n].1@
                    },
            decreases rows@.len() - j,
        {
            places.push(Place { count: rows[j].2, name: &rows[j].1, at: j });
            j += 1;
        }
        let ranked = sorted(&places);
        let ghost keys = ranked@.map_values(|p: Place| order[p.at as int]);
        proof {
            same_values(ranked@, places@);
            assert(places@.no_duplicates());
            assert forall|n: int| 0 <= n < ranked@.len() implies {
                &&& 0 <= (#[trigger] ranked@[n]).at < rows@.len()
                &&& ranked@[n] == places@[ranked@[n].at as int]
            } by {
                assert(ranked@.contains(ranked@[n]));
                let m = choose|m: int| 0 <= m < places@.len() && places@[m] == ranked@[n];
                assert(places@[m].at == m);
            }
            assert forall|n: int, m: int| 0 <= n < keys.len() && 0 <= m < keys.len() && n != m implies
                keys[n] != keys[m] by {
                assert(ranked@[n] != ranked@[m]);
                assert(ranked@[n].at != ranked@[m].at);
            }
            assert forall|k: Seq<char>| #[trigger] keys.contains(k) <==> self@.people.contains_key(
                k,
            ) by {
                if keys.contains(k) {
                    let n = choose|n: int| 0 <= n < keys.len() && keys[n] == k;
                    assert(order[ranked@[n].at as int] == k);
                    assert(order.contains(k));
                }
                if self@.people.contains_key(k) {
                    assert(order.contains(k));
                    let m = choose|m: int| 0 <= m < order.len() && order[m] == k;
                    assert(places@.contains(places@[m]));
                    assert(ranked@.contains(places@[m]));
                    let n = choose|n: int| 0 <= n < ranked@.len() && ranked@[n] == places@[m];
                    assert(keys[n] == k);
                }
            }
        }
        let mut out: Vec<(String, String, usize)> = Vec::new();
        let mut n: usize = 0;
        while n < ranked.len()
            invariant
                n <= ranked@.len(),
                out@.len() == n,
                forall|m: int|
                    0 <= m < ranked@.len() ==> 0 <= (#[trigger] ranked@[m]).at < rows@.len(),
                forall|m: int|
                    0 <= m < n ==> {
                        let row = rows@[ranked@[m].at as int];
                        &&& (#[trigger] out@[m]).0@ == row.0@
                        &&& out@[m].1@ == row.1@
                        &&& out@[m].2 == row.2
                    },
            decreases ranked@.len() - n,
        {
            let at: usize = ranked[n].at;
            out.push((rows[at].0.clone(), rows[at].1.clone(), rows[at].2));
            n += 1;
        }
        proof {
            assert forall|a: int| 0 <= a < out@.len() implies (
                (#[trigger] out@[a]).0@,
                out@[a].1@,
                out@[a].2 as nat,
            ) == summary_of(self@, shown, keys[a]) by {
                assert(keys[a] == order[ranked@[a].at as int]);
            }
            assert forall|a: int, b: int| 0 <= a < b < out@.len() implies (#[trigger] out@[a]).2 > (
            #[trigger] out@[b]).2 || (out@[a].2 == out@[b].2 && text_before(
                out@[a].1@,
                out@[b].1@,
            )) by {
                assert(ranked@[a].before(ranked@[b]));
                assert(ranked@[a] == places@[ranked@[a].at as int]);
                assert(ranked@[b] == places@[ranked@[b].at as int]);
            }
            assert(is_summary(self@, shown, keys, out@));
        }
        out
    }
}

// ----------------------------------- laws ----------------------------------

/// Changes keep the tables of the index consistent.
pub proof fn changes_keep_people_consistent(
    index: PeopleView,
    entries: Seq<JsonTree>,
    key: Seq<u8>,
)
    requires
        index.consistent(),
    ensures
        people_applied(index, entries, key).consistent(),
    decreases entries.len(),
{
    if entries.len() > 0 {
        changes_keep_people_consistent(index, entries.drop_last(), key);
        let before = people_applied(index, entries.drop_last(), key);
        let after = person_applied(before, entries.last(), key);
        assert forall|face: Seq<char>| #[trigger] after.faces.contains_key(face) implies
            after.people.contains_key(after.faces[face]) by {
            if before.faces.contains_key(face) {
                assert(before.people.contains_key(before.faces[face]));
            }
        }
        assert forall|id: Seq<char>|
            #[trigger] after.people.contains_key(id) <==> after.files.contains_key(id) by {
            assert(before.people.contains_key(id) <==> before.files.contains_key(id));
        }
        assert forall|id: Seq<char>| #[trigger] after.people.contains_key(id) implies
            after.people[id].id == id && after.people[id].name.len() > 0 by {
            if before.people.contains_key(id) {
                assert(before.people[id].id == id);
            }
        }
    }
}

/// The index of a stage or of a result is consistent.
pub open spec fn step_is_consistent(step: PeopleStepView) -> bool {
    match step {
        PeopleStepView::Ask(_, stage) => stage_is_consistent(stage),
        PeopleStepView::Done(Ok(index)) => index.consistent(),
        PeopleStepView::Done(Err(_)) => true,
    }
}

pub open spec fn stage_is_consistent(stage: PeopleStageView) -> bool {
    match stage {
        PeopleStageView::Key => true,
        PeopleStageView::Diff { index, .. } => index.consistent(),
    }
}

/// Whatever the museum answers, the loading of people ends with a consistent
/// index.
pub proof fn loaded_people_are_consistent(
    client: ClientView,
    master_key: Seq<u8>,
    stage: PeopleStageView,
    answer: Result<JsonTree, ApiFault>,
)
    requires
        stage_is_consistent(stage),
    ensures
        step_is_consistent(people_step(client, master_key, stage, answer)),
{
    if let PeopleStageView::Diff { entity_key, since, index } = stage {
        if let Ok(page) = answer {
            changes_keep_people_consistent(index, page.items_or_none("diff"@), entity_key);
        }
    }
}

/// In a consistent index, whoever a face belongs to has a name.
pub proof fn assigned_faces_have_names(index: PeopleView, face_id: Seq<char>)
    requires
        index.consistent(),
    ensures
        index.person_of(face_id).0 is Some <==> index.person_of(face_id).1 is Some,
{
    if index.faces.contains_key(face_id) {
        assert(index.people.contains_key(index.faces[face_id]));
    }
}

/// Nothing is left of a person who was deleted.
pub proof fn deleted_person_is_forgotten(index: PeopleView, id: Seq<char>, face_id: Seq<char>)
    ensures
        !index.without(id).people.contains_key(id),
        !index.without(id).files.contains_key(id),
        index.without(id).person_of(face_id).0 != Some(id),
{
}

/// Every face of a person who was entered belongs to that person, under the
/// name they were given.
pub proof fn entered_faces_belong(
    index: PeopleView,
    id: Seq<char>,
    data: JsonTree,
    face_id: Seq<char>,
)
    requires
        !data.flag("isHidden"@),
        name_of(data).len() > 0,
        faces_of(data).contains(face_id),
    ensures
        ingested(index, id, data).person_of(face_id) == (Some(id), Some(name_of(data))),
        file_of_face(face_id) matches Some(f) ==> ingested(
            index,
            id,
            data,
        ).files[id].contains(f),
{
    let faces = faces_of(data);
    if let Some(f) = file_of_face(face_id) {
        let i = choose|i: int| 0 <= i < faces.len() && faces[i] == face_id;
        assert(file_of_face(faces[i]) == Some(f));
        assert(face_in_file(faces, f));
    }
}

/// An entity that was hidden, or lost its name, takes its person out of the
/// index with their files and faces. Everyone else stays as they were.
pub proof fn hidden_people_leave(
    index: PeopleView,
    id: Seq<char>,
    data: JsonTree,
    face_id: Seq<char>,
    other: Seq<char>,
)
    requires
        data.flag("isHidden"@) || name_of(data).len() == 0,
    ensures
        !ingested(index, id, data).people.contains_key(id),
        !ingested(index, id, data).files.contains_key(id),
        ingested(index, id, data).person_of(face_id).0 != Some(id),
        index.person_of(face_id).0 != Some(id) ==> ingested(index, id, data).person_of(face_id)
            == index.person_of(face_id),
        ingested(index, id, data).people == index.people.remove(id),
        ingested(index, id, data).files == index.files.remove(id),
        other != id ==> (ingested(index, id, data).people.contains_key(other)
            == index.people.contains_key(other) && ingested(index, id, data).people[other]
            == index.people[other]),
        other != id ==> (ingested(index, id, data).files.contains_key(other)
            == index.files.contains_key(other) && ingested(index, id, data).files[other]
            == index.files[other]),
{
}

/// An entity that is hidden or has no name never enters the index: where nobody
/// was kept under its id, a consistent index stays as it is.
pub proof fn unnamed_entities_stay_out(index: PeopleView, id: Seq<char>, data: JsonTree)
    requires
        data.flag("isHidden"@) || name_of(data).len() == 0,
        index.consistent(),
        !index.people.contains_key(id),
    ensures
        ingested(index, id, data) == index,
{
    let after = ingested(index, id, data);
    assert forall|face: Seq<char>| index.faces.contains_key(face) implies index.faces[face] != id by {
        assert(index.people.contains_key(index.faces[face]));
    }
    assert(after.people =~= index.people);
    assert(after.faces =~= index.faces);
    assert(after.files =~= index.files);
}

} // verus!
