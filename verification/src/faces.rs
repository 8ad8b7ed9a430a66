//! Detected faces: the museum keeps them apart from the files, as "mldata".

use crate::client::{
    json_answer, sent_view, ApiFault, ClientView, HttpRequest, MuseumClient, Reply, RequestView,
};
use crate::doc::{
    field_trees, item_trees, list, maybe_text, no_fields, object, opt_text, put, text,
    text_or_null, Doc, DocTree,
};
use crate::files::{library_view, nested, text_or_empty, ImageFile, ImageView};
use crate::json::{items_of, trees, Json, JsonTree};
use crate::laws::faces::{answers_never_lose_face_data, found_in_step};
use crate::people::{open_payload, payload, PeopleIndex, PeopleView};
use crate::tables::{copy_opt_text, keys_of, push_contains};
use std::collections::HashMap;
use vstd::prelude::*;

verus! {

/// A single detected face within an image. The numbers are doubles, given by
/// their bits.
pub struct DetectedFace {
    pub face_id: String,
    pub x: u64,
    pub y: u64,
    pub width: u64,
    pub height: u64,
    pub score: u64,
    pub blur: u64,
    pub person_id: Option<String>,
    pub person_name: Option<String>,
}

/// The mathematical counterpart of `DetectedFace`.
pub struct FaceView {
    pub face_id: Seq<char>,
    pub x: u64,
    pub y: u64,
    pub width: u64,
    pub height: u64,
    pub score: u64,
    pub blur: u64,
    pub person_id: Option<Seq<char>>,
    pub person_name: Option<Seq<char>>,
}

impl View for DetectedFace {
    type V = FaceView;

    open spec fn view(&self) -> FaceView {
        FaceView {
            face_id: self.face_id@,
            x: self.x,
            y: self.y,
            width: self.width,
            height: self.height,
            score: self.score,
            blur: self.blur,
            person_id: opt_text(self.person_id),
            person_name: opt_text(self.person_name),
        }
    }
}

impl Clone for DetectedFace {
    fn clone(&self) -> (r: DetectedFace)
        ensures
            r@ == self@,
    {
        DetectedFace {
            face_id: self.face_id.clone(),
            x: self.x,
            y: self.y,
            width: self.width,
            height: self.height,
            score: self.score,
            blur: self.blur,
            person_id: copy_opt_text(&self.person_id),
            person_name: copy_opt_text(&self.person_name),
        }
    }
}

impl FaceView {
    /// The bounding box as a document.
    pub open spec fn box_fields(self) -> Seq<(Seq<char>, DocTree)> {
        seq![
            ("x"@, DocTree::Double(self.x)),
            ("y"@, DocTree::Double(self.y)),
            ("width"@, DocTree::Double(self.width)),
            ("height"@, DocTree::Double(self.height)),
        ]
    }

    /// The face as a document.
    pub open spec fn doc(self) -> DocTree {
        DocTree::Fields(
            seq![
                ("faceId"@, DocTree::Text(self.face_id)),
                ("box"@, DocTree::Fields(self.box_fields())),
                ("score"@, DocTree::Double(self.score)),
                ("blur"@, DocTree::Double(self.blur)),
                ("personId"@, text_or_null(self.person_id)),
                ("personName"@, text_or_null(self.person_name)),
            ],
        )
    }
}

impl DetectedFace {
    pub fn as_json(&self) -> (r: Doc)
        ensures
            r@ == self@.doc(),
    {
        let mut corners = no_fields();
        put(&mut corners, "x", Doc::Double(self.x));
        put(&mut corners, "y", Doc::Double(self.y));
        put(&mut corners, "width", Doc::Double(self.width));
        put(&mut corners, "height", Doc::Double(self.height));
        assert(field_trees(corners@) =~= self@.box_fields());
        let mut fields = no_fields();
        put(&mut fields, "faceId", text(self.face_id.as_str()));
        put(&mut fields, "box", object(corners));
        put(&mut fields, "score", Doc::Double(self.score));
        put(&mut fields, "blur", Doc::Double(self.blur));
        put(&mut fields, "personId", maybe_text(&self.person_id));
        put(&mut fields, "personName", maybe_text(&self.person_name));
        assert(field_trees(fields@) =~= self@.doc()->Fields_0);
        object(fields)
    }
}

/// The views of a list of faces.
pub open spec fn face_views(faces: Seq<DetectedFace>) -> Seq<FaceView> {
    faces.map_values(|f: DetectedFace| f@)
}

/// A copy of a list of faces.
pub fn copy_faces(faces: &Vec<DetectedFace>) -> (r: Vec<DetectedFace>)
    ensures
        face_views(r@) == face_views(faces@),
{
    let mut out: Vec<DetectedFace> = Vec::new();
    let mut i: usize = 0;
    while i < faces.len()
        invariant
            i <= faces@.len(),
            out@.len() == i,
            forall|j: int| 0 <= j < i ==> out@[j]@ == faces@[j]@,
        decreases faces@.len() - i,
    {
        out.push(faces[i].clone());
        i += 1;
    }
    assert(face_views(out@) =~= face_views(faces@));
    out
}

/// Face data attached to one file: the detected faces plus the dimensions of
/// the image the face boxes are relative to.
pub struct FileFaces {
    pub image_width: Option<i64>,
    pub image_height: Option<i64>,
    pub faces: Vec<DetectedFace>,
}

/// The mathematical counterpart of `FileFaces`.
pub struct FileFacesView {
    pub image_width: Option<i64>,
    pub image_height: Option<i64>,
    pub faces: Seq<FaceView>,
}

impl View for FileFaces {
    type V = FileFacesView;

    open spec fn view(&self) -> FileFacesView {
        FileFacesView {
            image_width: self.image_width,
            image_height: self.image_height,
            faces: face_views(self.faces@),
        }
    }
}

impl Clone for FileFaces {
    fn clone(&self) -> (r: FileFaces)
        ensures
            r@ == self@,
    {
        FileFaces {
            image_width: self.image_width,
            image_height: self.image_height,
            faces: copy_faces(&self.faces),
        }
    }
}

impl Default for FileFaces {
    fn default() -> (r: FileFaces)
        ensures
            r@ == (FileFacesView { image_width: None, image_height: None, faces: Seq::empty() }),
    {
        let faces: Vec<DetectedFace> = Vec::new();
        assert(face_views(faces@) =~= Seq::empty());
        FileFaces { image_width: None, image_height: None, faces }
    }
}

/// What a table of face data holds.
pub open spec fn faces_view(table: Map<i64, FileFaces>) -> Map<i64, FileFacesView> {
    table.map_values(|f: FileFaces| f@)
}

// ---------------------------------- parsing --------------------------------

/// The bits of a double, or those of zero.
pub open spec fn or_zero(bits: Option<u64>) -> u64 {
    match bits {
        Some(b) => b,
        None => 0,
    }
}

/// A number of the bounding box of a face; zero where there is none.
pub open spec fn box_number(f: JsonTree, key: Seq<char>) -> u64 {
    match nested(f, "detection"@, "box"@) {
        Some(b) => or_zero(b.double_field(key)),
        None => 0,
    }
}

/// A face of the ML data, joined to its person.
pub open spec fn face_of(f: JsonTree, people: PeopleView) -> FaceView {
    let face_id = text_or_empty(f.text_field("faceID"@));
    FaceView {
        face_id,
        x: box_number(f, "x"@),
        y: box_number(f, "y"@),
        width: box_number(f, "width"@),
        height: box_number(f, "height"@),
        score: or_zero(f.double_field("score"@)),
        blur: or_zero(f.double_field("blur"@)),
        person_id: people.person_of(face_id).0,
        person_name: people.person_of(face_id).1,
    }
}

/// The face data in the ML data of a file.
pub open spec fn faces_in(ml: JsonTree, people: PeopleView) -> Option<FileFacesView> {
    match ml.field("face"@) {
        None => None,
        Some(face) => Some(
            FileFacesView {
                image_width: face.integer_field("width"@),
                image_height: face.integer_field("height"@),
                faces: face.items_or_none("faces"@).map_values(|f: JsonTree| face_of(f, people)),
            },
        ),
    }
}

fn read_box_number(f: &Json, key: &str) -> (r: u64)
    ensures
        r == box_number(f@, key@),
{
    match f.get("detection") {
        Some(detection) => match detection.get("box") {
            Some(b) => read_number(b, key),
            None => 0,
        },
        None => 0,
    }
}

fn read_number(v: &Json, key: &str) -> (r: u64)
    ensures
        r == or_zero(v@.double_field(key@)),
{
    match v.f64_field(key) {
        Some(bits) => bits,
        None => 0,
    }
}

fn read_face(f: &Json, people: &PeopleIndex) -> (r: DetectedFace)
    requires
        people.wf(),
    ensures
        r@ == face_of(f@, people@),
{
    let face_id = match f.str_field("faceID") {
        Some(s) => s,
        None => String::new(),
    };
    let (person_id, person_name) = people.person_for_face(face_id.as_str());
    DetectedFace {
        face_id,
        x: read_box_number(f, "x"),
        y: read_box_number(f, "y"),
        width: read_box_number(f, "width"),
        height: read_box_number(f, "height"),
        score: read_number(f, "score"),
        blur: read_number(f, "blur"),
        person_id,
        person_name,
    }
}

/// Extracts the `face` part of decrypted ML data.
pub fn parse_face_index(ml: &Json, people: &PeopleIndex) -> (r: Option<FileFaces>)
    requires
        people.wf(),
    ensures
        match r {
            Some(ff) => faces_in(ml@, people@) == Some(ff@),
            None => faces_in(ml@, people@) is None,
        },
{
    let face = match ml.get("face") {
        Some(v) => v,
        None => return None,
    };
    let items = items_of(face, "faces");
    let ghost all = trees(items@);
    let mut faces: Vec<DetectedFace> = Vec::new();
    let mut i: usize = 0;
    while i < items.len()
        invariant
            people.wf(),
            i <= items@.len(),
            all == trees(items@),
            faces@.len() == i,
            forall|j: int| 0 <= j < i ==> (#[trigger] faces@[j])@ == face_of(all[j], people@),
        decreases items@.len() - i,
    {
        assert(all[i as int] == items@[i as int]@);
        faces.push(read_face(&items[i], people));
        i += 1;
    }
    assert(face_views(faces@) =~= all.map_values(|f: JsonTree| face_of(f, people@)));
    Some(
        FileFaces {
            image_width: face.i64_field("width"),
            image_height: face.i64_field("height"),
            faces,
        },
    )
}

// ------------------------------ synchronisation ----------------------------

/// The face data after one entry of an answer.
pub open spec fn mldata_applied(
    found: Map<i64, FileFacesView>,
    entry: JsonTree,
    files: Map<i64, ImageView>,
    people: PeopleView,
) -> Map<i64, FileFacesView> {
    match entry.integer_field("fileID"@) {
        None => found,
        Some(fid) => if !files.contains_key(fid) {
            found
        } else {
            match payload(
                entry.text_field("encryptedData"@),
                entry.text_field("decryptionHeader"@),
                files[fid].key,
            ) {
                None => found,
                Some(ml) => match faces_in(ml, people) {
                    None => found,
                    Some(ff) => found.insert(fid, ff),
                },
            }
        },
    }
}

/// The face data after a list of entries.
pub open spec fn all_mldata_applied(
    found: Map<i64, FileFacesView>,
    entries: Seq<JsonTree>,
    files: Map<i64, ImageView>,
    people: PeopleView,
) -> Map<i64, FileFacesView>
    decreases entries.len(),
{
    if entries.len() == 0 {
        found
    } else {
        mldata_applied(
            all_mldata_applied(found, entries.drop_last(), files, people),
            entries.last(),
            files,
            people,
        )
    }
}

/// The documents of a list of ids.
pub open spec fn id_docs(ids: Seq<i64>) -> Seq<DocTree> {
    ids.map_values(|id: i64| DocTree::Int(id))
}

/// What is sent to ask for the face data of files.
pub open spec fn mldata_fields(ids: Seq<i64>) -> Seq<(Seq<char>, DocTree)> {
    seq![("type"@, DocTree::Text("mldata"@)), ("fileIDs"@, DocTree::List(id_docs(ids)))]
}

/// The request for the face data of files.
pub open spec fn mldata_request(client: ClientView, ids: Seq<i64>) -> RequestView {
    client.post("/files/data/fetch"@, DocTree::Fields(mldata_fields(ids)))
}

/// How far the loading of faces has come: the last batch was asked for, and
/// `ids[at..]` are still to come.
pub struct FacesStage {
    pub ids: Vec<i64>,
    pub at: usize,
    pub batch: usize,
    pub found: HashMap<i64, FileFaces>,
}

/// The mathematical counterpart of `FacesStage`.
#[verifier::ext_equal]
pub struct FacesStageView {
    pub rest: Seq<i64>,
    pub batch: nat,
    pub found: Map<i64, FileFacesView>,
}

impl View for FacesStage {
    type V = FacesStageView;

    open spec fn view(&self) -> FacesStageView {
        FacesStageView {
            rest: self.ids@.skip(self.at as int),
            batch: self.batch as nat,
            found: faces_view(self.found@),
        }
    }
}

impl FacesStage {
    pub open spec fn wf(&self) -> bool {
        self.at <= self.ids@.len() && self.batch > 0
    }
}

/// What the loading of faces does next.
pub enum FacesStep {
    /// Send the request, and go on with the stage on its answer.
    Ask(HttpRequest, FacesStage),
    Done(HashMap<i64, FileFaces>),
}

/// The mathematical counterpart of `FacesStep`.
#[verifier::ext_equal]
pub enum FacesStepView {
    Ask(RequestView, FacesStageView),
    Done(Map<i64, FileFacesView>),
}

impl View for FacesStep {
    type V = FacesStepView;

    open spec fn view(&self) -> FacesStepView {
        match self {
            FacesStep::Ask(request, stage) => FacesStepView::Ask(request@, stage@),
            FacesStep::Done(found) => FacesStepView::Done(faces_view(found@)),
        }
    }
}

impl FacesStep {
    pub open spec fn wf(&self) -> bool {
        match self {
            FacesStep::Ask(_, stage) => stage.wf(),
            FacesStep::Done(_) => true,
        }
    }
}

/// How many ids the next batch takes.
pub open spec fn batch_len(rest: Seq<i64>, batch: nat) -> int {
    if rest.len() < batch {
        rest.len() as int
    } else {
        batch as int
    }
}

/// The step that asks for the next batch.
pub open spec fn to_next_batch(
    client: ClientView,
    rest: Seq<i64>,
    batch: nat,
    found: Map<i64, FileFacesView>,
) -> FacesStepView {
    if rest.len() == 0 {
        FacesStepView::Done(found)
    } else {
        let n = batch_len(rest, batch);
        FacesStepView::Ask(
            mldata_request(client, rest.take(n)),
            FacesStageView { rest: rest.skip(n), batch, found },
        )
    }
}

/// The step that follows an answer. A batch that fails is passed over: a
/// museum without face data shouldn't break image listing.
pub open spec fn faces_step(
    client: ClientView,
    files: Map<i64, ImageView>,
    people: PeopleView,
    stage: FacesStageView,
    answer: Result<JsonTree, ApiFault>,
) -> FacesStepView {
    let found = match answer {
        Ok(v) => all_mldata_applied(stage.found, v.items_or_none("data"@), files, people),
        Err(_) => stage.found,
    };
    to_next_batch(client, stage.rest, stage.batch, found)
}

/// The size of a batch, within its bounds.
pub open spec fn clamped_batch(batch_size: usize) -> nat {
    if batch_size < 1 {
        1
    } else if batch_size > 1000 {
        1000
    } else {
        batch_size as nat
    }
}

/// Whether `ids` are the ids of the files with the keys `keys`: all that are
/// not deleted, each once.
pub open spec fn is_live_list(files: Map<i64, ImageView>, keys: Seq<i64>, ids: Seq<i64>) -> bool {
    &&& keys.no_duplicates()
    &&& forall|k: i64| #[trigger]
        keys.contains(k) <==> files.contains_key(k) && !files[k].is_deleted
    &&& ids.len() == keys.len()
    &&& forall|i: int| 0 <= i < ids.len() ==> #[trigger] ids[i] == files[keys[i]].id
}

fn ask_batch(client: &MuseumClient, ids: &Vec<i64>, from: usize, to: usize) -> (r: HttpRequest)
    requires
        from <= to <= ids@.len(),
    ensures
        r@ == mldata_request(client@, ids@.subrange(from as int, to as int)),
{
    let ghost part = ids@.subrange(from as int, to as int);
    let mut items: Vec<Doc> = Vec::new();
    let mut i: usize = from;
    while i < to
        invariant
            from <= i <= to <= ids@.len(),
            items@.len() == i - from,
            forall|j: int| 0 <= j < items@.len() ==> items@[j]@ == DocTree::Int(ids@[from + j]),
        decreases to - i,
    {
        items.push(Doc::Int(ids[i]));
        i += 1;
    }
    assert(item_trees(items@) =~= id_docs(part));
    let mut fields = no_fields();
    put(&mut fields, "type", text("mldata"));
    put(&mut fields, "fileIDs", list(items));
    assert(field_trees(fields@) =~= mldata_fields(part));
    client.post("/files/data/fetch", object(fields))
}

fn next_batch(
    client: &MuseumClient,
    ids: Vec<i64>,
    at: usize,
    batch: usize,
    found: HashMap<i64, FileFaces>,
) -> (r: FacesStep)
    requires
        at <= ids@.len(),
        batch > 0,
    ensures
        r.wf(),
        r@ == to_next_batch(client@, ids@.skip(at as int), batch as nat, faces_view(found@)),
{
    let total: usize = ids.len();
    if at == total {
        return FacesStep::Done(found);
    }
    let end: usize = if total - at < batch {
        total
    } else {
        at + batch
    };
    let ghost rest = ids@.skip(at as int);
    assert(rest.take(end - at) =~= ids@.subrange(at as int, end as int));
    assert(rest.skip(end - at) =~= ids@.skip(end as int));
    let request = ask_batch(client, &ids, at, end);
    FacesStep::Ask(request, FacesStage { ids, at: end, batch, found })
}

/// Starts loading the detected faces of all (non-deleted) files.
pub fn fetch_faces(client: &MuseumClient, files: &HashMap<i64, ImageFile>, batch_size: usize) -> (r:
    FacesStep)
    ensures
        r.wf(),
        exists|keys: Seq<i64>, ids: Seq<i64>|
            #![trigger is_live_list(library_view(files@), keys, ids)]
            is_live_list(library_view(files@), keys, ids) && r@ == to_next_batch(
                client@,
                ids,
                clamped_batch(batch_size),
                Map::empty(),
            ),
{
    broadcast use vstd::std_specs::hash::group_hash_axioms;

    let all = keys_of(files);
    let ghost shown = library_view(files@);
    let ghost mut keys: Seq<i64> = Seq::empty();
    let mut ids: Vec<i64> = Vec::new();
    let mut i: usize = 0;
    while i < all.len()
        invariant
            i <= all@.len(),
            all@.no_duplicates(),
            all@.to_set() == files@.dom(),
            shown == library_view(files@),
            keys.no_duplicates(),
            forall|k: i64| #[trigger]
                keys.contains(k) <==> all@.take(i as int).contains(k) && !shown[k].is_deleted,
            ids@.len() == keys.len(),
            forall|n: int| 0 <= n < ids@.len() ==> #[trigger] ids@[n] == shown[keys[n]].id,
        decreases all@.len() - i,
    {
        broadcast use vstd::std_specs::hash::group_hash_axioms;

        let key: i64 = all[i];
        assert(all@.to_set().contains(key));
        let ghost before = all@.take(i as int);
        assert(all@.take(i + 1) =~= before.push(key));
        assert(!before.contains(key)) by {
            if before.contains(key) {
                let n = choose|n: int| 0 <= n < before.len() && before[n] == key;
                assert(all@[n] == all@[i as int]);
            }
        }
        let ghost old_keys = keys;
        assert(!old_keys.contains(key));
        if let Some(file) = files.get(&key) {
            if !file.is_deleted {
                ids.push(file.id);
                proof {
                    keys = keys.push(key);
                }
            }
        }
        assert forall|k: i64| #[trigger]
            keys.contains(k) <==> all@.take(i + 1).contains(k) && !shown[k].is_deleted by {
            push_contains(before, key, k);
            push_contains(old_keys, key, k);
        }
        assert(keys.no_duplicates()) by {
            assert forall|a: int, b: int| 0 <= a < keys.len() && 0 <= b < keys.len() && a != b implies
                keys[a] != keys[b] by {
                if a < old_keys.len() {
                    assert(old_keys.contains(old_keys[a]));
                }
                if b < old_keys.len() {
                    assert(old_keys.contains(old_keys[b]));
                }
            }
        }
        i += 1;
    }
    let batch: usize = if batch_size < 1 {
        1
    } else if batch_size > 1000 {
        1000
    } else {
        batch_size
    };
    let found: HashMap<i64, FileFaces> = HashMap::new();
    proof {
        assert(all@.take(i as int) =~= all@);
        assert forall|k: i64| #[trigger]
            keys.contains(k) <==> shown.contains_key(k) && !shown[k].is_deleted by {
            assert(all@.to_set().contains(k) == all@.contains(k));
        }
        assert(is_live_list(shown, keys, ids@));
        assert(faces_view(found@) =~= Map::empty());
        assert(ids@.skip(0) =~= ids@);
    }
    next_batch(client, ids, 0, batch, found)
}

/// Applies one entry of an answer.
fn apply_mldata(
    found: &mut HashMap<i64, FileFaces>,
    entry: &Json,
    files: &HashMap<i64, ImageFile>,
    people: &PeopleIndex,
)
    requires
        people.wf(),
    ensures
        faces_view(final(found)@) == mldata_applied(
            faces_view(old(found)@),
            entry@,
            library_view(files@),
            people@,
        ),
{
    broadcast use vstd::std_specs::hash::group_hash_axioms;

    let ghost before = found@;
    let fid: i64 = match entry.i64_field("fileID") {
        Some(n) => n,
        None => return,
    };
    let file = match files.get(&fid) {
        Some(f) => f,
        None => return,
    };
    let ml = match open_payload(
        entry.str_field("encryptedData"),
        entry.str_field("decryptionHeader"),
        file.key.as_slice(),
    ) {
        Some(v) => v,
        None => return,
    };
    if let Some(ff) = parse_face_index(&ml, people) {
        let ghost shown = ff@;
        found.insert(fid, ff);
        assert(faces_view(found@) =~= faces_view(before).insert(fid, shown));
    }
}

/// Goes on with the loading of faces on the answer to its last request.
pub fn continue_faces(
    client: &MuseumClient,
    files: &HashMap<i64, ImageFile>,
    people: &PeopleIndex,
    stage: FacesStage,
    sent: &Result<Reply, String>,
) -> (r: FacesStep)
    requires
        stage.wf(),
        people.wf(),
    ensures
        r.wf(),
        r@ == faces_step(
            client@,
            library_view(files@),
            people@,
            stage@,
            json_answer(sent_view(*sent)),
        ),
        forall|id: i64| #[trigger]
            stage@.found.contains_key(id) ==> found_in_step(r@).contains_key(id),
{
    proof {
        let answer = json_answer(sent_view(*sent));
        assert forall|id: i64| #[trigger] stage@.found.contains_key(id) implies found_in_step(
            faces_step(client@, library_view(files@), people@, stage@, answer),
        ).contains_key(id) by {
            answers_never_lose_face_data(
                client@,
                library_view(files@),
                people@,
                stage@,
                answer,
                id,
            );
        }
    }
    let answer = MuseumClient::json(sent);
    let FacesStage { ids, at, batch, found } = stage;
    let mut now = found;
    if let Ok(v) = &answer {
        let entries = items_of(v, "data");
        let ghost all = trees(entries@);
        let ghost start = faces_view(now@);
        let mut i: usize = 0;
        assert(all_mldata_applied(start, all.take(0), library_view(files@), people@) == start);
        while i < entries.len()
            invariant
                people.wf(),
                i <= entries@.len(),
                all == trees(entries@),
                faces_view(now@) == all_mldata_applied(
                    start,
                    all.take(i as int),
                    library_view(files@),
                    people@,
                ),
            decreases entries@.len() - i,
        {
            assert(all.take(i + 1).drop_last() =~= all.take(i as int));
            assert(all.take(i + 1).last() == entries@[i as int]@);
            apply_mldata(&mut now, &entries[i], files, people);
            i += 1;
        }
        assert(all.take(i as int) =~= all);
    }
    next_batch(client, ids, at, batch, now)
}

// --------------------------------- attaching -------------------------------

/// A file with face data.
pub open spec fn with_faces(file: ImageView, ff: FileFacesView) -> ImageView {
    ImageView {
        faces: ff.faces,
        face_image_width: ff.image_width,
        face_image_height: ff.image_height,
        ..file
    }
}

/// The library with the face data of its files.
pub open spec fn attached(files: Map<i64, ImageView>, faces: Map<i64, FileFacesView>) -> Map<
    i64,
    ImageView,
> {
    Map::new(
        |id: i64| files.contains_key(id),
        |id: i64|
            if faces.contains_key(id) {
                with_faces(files[id], faces[id])
            } else {
                files[id]
            },
    )
}

/// Attaches fetched face data onto the matching files in the library.
pub fn attach_faces(files: &mut HashMap<i64, ImageFile>, faces: HashMap<i64, FileFaces>)
    ensures
        library_view(final(files)@) == attached(library_view(old(files)@), faces_view(faces@)),
{
    broadcast use vstd::std_specs::hash::group_hash_axioms;

    let ghost before = library_view(files@);
    let ghost table = faces_view(faces@);
    let keys = keys_of(&faces);
    let mut rest = faces;
    let mut i: usize = 0;
    while i < keys.len()
        invariant
            i <= keys@.len(),
            keys@.no_duplicates(),
            keys@.to_set() == table.dom(),
            forall|k: i64| #[trigger]
                faces_view(rest@).contains_key(k) <==> table.contains_key(k) && !keys@.take(
                    i as int,
                ).contains(k),
            forall|k: i64| #[trigger]
                faces_view(rest@).contains_key(k) ==> faces_view(rest@)[k] == table[k],
            forall|k: i64| #[trigger]
                library_view(files@).contains_key(k) <==> before.contains_key(k),
            forall|k: i64| #[trigger]
                before.contains_key(k) ==> library_view(files@)[k] == (if keys@.take(
                    i as int,
                ).contains(k) {
                    with_faces(before[k], table[k])
                } else {
                    before[k]
                }),
        decreases keys@.len() - i,
    {
        broadcast use vstd::std_specs::hash::group_hash_axioms;

        let key: i64 = keys[i];
        let ghost done = keys@.take(i as int);
        let ghost held = library_view(files@);
        let ghost left = faces_view(rest@);
        assert(keys@.to_set().contains(key));
        assert(keys@.take(i + 1) =~= done.push(key));
        assert(!done.contains(key)) by {
            if done.contains(key) {
                let n = choose|n: int| 0 <= n < done.len() && done[n] == key;
                assert(keys@[n] == keys@[i as int]);
            }
        }
        assert(left.contains_key(key));
        if let Some(ff) = rest.remove(&key) {
            assert(faces_view(rest@) =~= left.remove(key));
            assert(ff@ == table[key]);
            if let Some(file) = files.remove(&key) {
                let mut changed = file;
                changed.face_image_width = ff.image_width;
                changed.face_image_height = ff.image_height;
                changed.faces = ff.faces;
                let ghost shown = changed@;
                assert(shown == with_faces(held[key], table[key]));
                files.insert(key, changed);
                assert(library_view(files@) =~= held.insert(key, shown));
            } else {
                assert(library_view(files@) =~= held);
            }
        }
        assert forall|k: i64| #[trigger] keys@.take(i + 1).contains(k) <==> done.contains(k) || k
            == key by {
            push_contains(done, key, k);
        }
        assert forall|k: i64| #[trigger] before.contains_key(k) implies library_view(files@)[k] == (
        if keys@.take(i + 1).contains(k) {
            with_faces(before[k], table[k])
        } else {
            before[k]
        }) by {
            assert(held.contains_key(k));
            if k == key {
                assert(!done.contains(k));
            }
        }
        i += 1;
    }
    proof {
        assert(keys@.take(i as int) =~= keys@);
        assert forall|k: i64| keys@.contains(k) == table.contains_key(k) by {
            assert(keys@.to_set().contains(k) == keys@.contains(k));
        }
        assert(library_view(files@) =~= attached(before, table));
    }
}

// ----------------------------------- laws ----------------------------------

/// Every live file is asked for once: a batch and what is left after it are
/// what was left before, and no batch is empty or larger than the limit.
pub proof fn batches_cover_all_files(
    client: ClientView,
    rest: Seq<i64>,
    batch: nat,
    found: Map<i64, FileFacesView>,
)
    requires
        batch > 0,
    ensures
        match to_next_batch(client, rest, batch, found) {
            FacesStepView::Done(all) => rest.len() == 0 && all == found,
            FacesStepView::Ask(request, stage) => exists|part: Seq<i64>|
                {
                    &&& request == #[trigger] mldata_request(client, part)
                    &&& 0 < part.len() <= batch
                    &&& part + stage.rest == rest
                },
        },
{
    if rest.len() > 0 {
        let n = batch_len(rest, batch);
        let part = rest.take(n);
        assert(mldata_request(client, part) == mldata_request(client, part));
        assert(part + rest.skip(n) =~= rest);
    }
}

/// Face data is kept for files of the library only.
pub proof fn face_data_belongs_to_files(
    found: Map<i64, FileFacesView>,
    entries: Seq<JsonTree>,
    files: Map<i64, ImageView>,
    people: PeopleView,
)
    requires
        forall|id: i64| #[trigger] found.contains_key(id) ==> files.contains_key(id),
    ensures
        forall|id: i64| #[trigger]
            all_mldata_applied(found, entries, files, people).contains_key(id)
                ==> files.contains_key(id),
    decreases entries.len(),
{
    if entries.len() > 0 {
        face_data_belongs_to_files(found, entries.drop_last(), files, people);
        let before = all_mldata_applied(found, entries.drop_last(), files, people);
        let after = all_mldata_applied(found, entries, files, people);
        assert forall|id: i64| #[trigger] after.contains_key(id) implies files.contains_key(id) by {
            if before.contains_key(id) {
                assert(files.contains_key(id));
            }
        }
    }
}

/// Attaching face data changes nothing else: the library keeps its files, and
/// each file all that is not face data.
pub proof fn attaching_keeps_the_files(
    files: Map<i64, ImageView>,
    faces: Map<i64, FileFacesView>,
    id: i64,
)
    ensures
        attached(files, faces).contains_key(id) == files.contains_key(id),
        files.contains_key(id) ==> with_faces(
            attached(files, faces)[id],
            FileFacesView {
                image_width: files[id].face_image_width,
                image_height: files[id].face_image_height,
                faces: files[id].faces,
            },
        ) == files[id],
        files.contains_key(id) && !faces.contains_key(id) ==> attached(files, faces)[id]
            == files[id],
{
}

} // verus!
