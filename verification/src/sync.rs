//! Loading of a session's library: the files, then the named people, then the
//! detected faces. People and faces are best effort: what fails there leaves
//! the files without them.

use crate::client::{
    json_answer, sent_view, ApiFault, ClientView, EnteApiError, HttpRequest, MuseumClient, Reply,
    RequestView,
};
use crate::config::Settings;
use crate::faces::{
    attach_faces, attached, clamped_batch, continue_faces, faces_step, fetch_faces, is_live_list,
    to_next_batch, FacesStage, FacesStageView, FacesStep, FacesStepView,
};
use crate::files::{
    collections_request, continue_library, fetch_library, library_step, library_view,
    live_library, stage_is_live, synchronised_library_is_live, ImageFile, ImageView, LibraryStage,
    LibraryStageView, LibraryStep, LibraryStepView,
};
use crate::json::JsonTree;
use crate::people::{
    continue_people, entity_key_request, fetch_people, loaded_people_are_consistent, no_people,
    people_step, stage_is_consistent, PeopleIndex, PeopleStage, PeopleStageView, PeopleStep,
    PeopleStepView, PeopleView,
};
use std::collections::HashMap;
use vstd::prelude::*;

verus! {

/// What was loaded. There are no people where faces are switched off.
pub struct Synced {
    pub library: HashMap<i64, ImageFile>,
    pub people: Option<PeopleIndex>,
}

/// The mathematical counterpart of `Synced`.
#[verifier::ext_equal]
pub struct SyncedView {
    pub library: Map<i64, ImageView>,
    pub people: Option<PeopleView>,
}

impl View for Synced {
    type V = SyncedView;

    open spec fn view(&self) -> SyncedView {
        SyncedView {
            library: library_view(self.library@),
            people: match self.people {
                Some(index) => Some(index@),
                None => None,
            },
        }
    }
}

impl Synced {
    pub open spec fn wf(&self) -> bool {
        self.people matches Some(index) ==> index.wf()
    }
}

/// How far the loading has come.
pub enum SyncStage {
    Files(LibraryStage),
    People(PeopleStage, HashMap<i64, ImageFile>),
    Faces(FacesStage, HashMap<i64, ImageFile>, PeopleIndex),
}

/// The mathematical counterpart of `SyncStage`.
#[verifier::ext_equal]
pub enum SyncStageView {
    Files(LibraryStageView),
    People(PeopleStageView, Map<i64, ImageView>),
    Faces(FacesStageView, Map<i64, ImageView>, PeopleView),
}

impl View for SyncStage {
    type V = SyncStageView;

    open spec fn view(&self) -> SyncStageView {
        match self {
            SyncStage::Files(stage) => SyncStageView::Files(stage@),
            SyncStage::People(stage, files) => SyncStageView::People(
                stage@,
                library_view(files@),
            ),
            SyncStage::Faces(stage, files, people) => SyncStageView::Faces(
                stage@,
                library_view(files@),
                people@,
            ),
        }
    }
}

impl SyncStage {
    pub open spec fn wf(&self) -> bool {
        match self {
            SyncStage::Files(stage) => stage.wf(),
            SyncStage::People(stage, _) => stage.wf(),
            SyncStage::Faces(stage, _, people) => stage.wf() && people.wf(),
        }
    }
}

/// What the loading does next.
pub enum SyncStep {
    /// Send the request, and go on with the stage on its answer.
    Ask(HttpRequest, SyncStage),
    Done(Result<Synced, EnteApiError>),
}

/// The mathematical counterpart of `SyncStep`.
#[verifier::ext_equal]
pub enum SyncStepView {
    Ask(RequestView, SyncStageView),
    Done(Result<SyncedView, ApiFault>),
}

impl View for SyncStep {
    type V = SyncStepView;

    open spec fn view(&self) -> SyncStepView {
        match self {
            SyncStep::Ask(request, stage) => SyncStepView::Ask(request@, stage@),
            SyncStep::Done(Ok(synced)) => SyncStepView::Done(Ok(synced@)),
            SyncStep::Done(Err(e)) => SyncStepView::Done(Err(e@)),
        }
    }
}

impl SyncStep {
    pub open spec fn wf(&self) -> bool {
        match self {
            SyncStep::Ask(_, stage) => stage.wf(),
            SyncStep::Done(Ok(synced)) => synced.wf(),
            SyncStep::Done(Err(_)) => true,
        }
    }
}

/// The step after a step in the loading of faces.
pub open spec fn lift_faces(
    step: FacesStepView,
    files: Map<i64, ImageView>,
    people: PeopleView,
) -> SyncStepView {
    match step {
        FacesStepView::Ask(request, stage) => SyncStepView::Ask(
            request,
            SyncStageView::Faces(stage, files, people),
        ),
        FacesStepView::Done(found) => SyncStepView::Done(
            Ok(SyncedView { library: attached(files, found), people: Some(people) }),
        ),
    }
}

/// The people that were loaded; none where that failed.
pub open spec fn people_or_none(r: Result<PeopleView, ApiFault>) -> PeopleView {
    match r {
        Ok(index) => index,
        Err(_) => no_people(),
    }
}

/// Whether `next` may follow a step in the loading of people. When it ends, the
/// faces of all live files are asked for, in some order.
pub open spec fn follows_people(
    client: ClientView,
    batch_size: usize,
    step: PeopleStepView,
    files: Map<i64, ImageView>,
    next: SyncStepView,
) -> bool {
    match step {
        PeopleStepView::Ask(request, stage) => next == SyncStepView::Ask(
            request,
            SyncStageView::People(stage, files),
        ),
        PeopleStepView::Done(r) => exists|keys: Seq<i64>, ids: Seq<i64>|
            #![trigger is_live_list(files, keys, ids)]
            is_live_list(files, keys, ids) && next == lift_faces(
                to_next_batch(client, ids, clamped_batch(batch_size), Map::empty()),
                files,
                people_or_none(r),
            ),
    }
}

/// The step after a step in the loading of files.
pub open spec fn lift_files(client: ClientView, with_faces: bool, step: LibraryStepView) -> SyncStepView {
    match step {
        LibraryStepView::Ask(request, stage) => SyncStepView::Ask(
            request,
            SyncStageView::Files(stage),
        ),
        LibraryStepView::Done(Err(e)) => SyncStepView::Done(Err(e)),
        LibraryStepView::Done(Ok(files)) => if with_faces {
            SyncStepView::Ask(
                entity_key_request(client),
                SyncStageView::People(PeopleStageView::Key, files),
            )
        } else {
            SyncStepView::Done(Ok(SyncedView { library: files, people: None }))
        },
    }
}

/// Whether `next` may follow an answer.
pub open spec fn sync_follows(
    client: ClientView,
    settings: Settings,
    master_key: Seq<u8>,
    stage: SyncStageView,
    answer: Result<JsonTree, ApiFault>,
    next: SyncStepView,
) -> bool {
    match stage {
        SyncStageView::Files(inner) => next == lift_files(
            client,
            settings.fetch_faces,
            library_step(client, master_key, inner, answer),
        ),
        SyncStageView::People(inner, files) => follows_people(
            client,
            settings.faces_batch_size,
            people_step(client, master_key, inner, answer),
            files,
            next,
        ),
        SyncStageView::Faces(inner, files, people) => next == lift_faces(
            faces_step(client, files, people, inner, answer),
            files,
            people,
        ),
    }
}

fn after_faces(step: FacesStep, files: HashMap<i64, ImageFile>, people: PeopleIndex) -> (r:
    SyncStep)
    requires
        step.wf(),
        people.wf(),
    ensures
        r.wf(),
        r@ == lift_faces(step@, library_view(files@), people@),
{
    match step {
        FacesStep::Ask(request, stage) => SyncStep::Ask(
            request,
            SyncStage::Faces(stage, files, people),
        ),
        FacesStep::Done(found) => {
            let mut library = files;
            attach_faces(&mut library, found);
            SyncStep::Done(Ok(Synced { library, people: Some(people) }))
        },
    }
}

/// Goes on after a step in the loading of people: where that ended, with an
/// index or with an error, faces come next.
pub fn after_people(
    client: &MuseumClient,
    settings: &Settings,
    step: PeopleStep,
    files: HashMap<i64, ImageFile>,
) -> (r: SyncStep)
    requires
        step.wf(),
    ensures
        r.wf(),
        follows_people(
            client@,
            settings.faces_batch_size,
            step@,
            library_view(files@),
            r@,
        ),
{
    match step {
        PeopleStep::Ask(request, stage) => SyncStep::Ask(request, SyncStage::People(stage, files)),
        PeopleStep::Done(outcome) => {
            let people = match outcome {
                Ok(index) => index,
                Err(_) => PeopleIndex::default(),
            };
            let start = fetch_faces(client, &files, settings.faces_batch_size);
            after_faces(start, files, people)
        },
    }
}

fn after_files(client: &MuseumClient, settings: &Settings, step: LibraryStep) -> (r: SyncStep)
    requires
        step.wf(),
    ensures
        r.wf(),
        r@ == lift_files(client@, settings.fetch_faces, step@),
{
    match step {
        LibraryStep::Ask(request, stage) => SyncStep::Ask(request, SyncStage::Files(stage)),
        LibraryStep::Done(Err(e)) => SyncStep::Done(Err(e)),
        LibraryStep::Done(Ok(files)) => {
            if !settings.fetch_faces {
                return SyncStep::Done(Ok(Synced { library: files, people: None }));
            }
            match fetch_people(client) {
                PeopleStep::Ask(request, stage) => SyncStep::Ask(
                    request,
                    SyncStage::People(stage, files),
                ),
                PeopleStep::Done(_) => SyncStep::Done(Ok(Synced { library: files, people: None })),
            }
        },
    }
}

/// Starts the loading.
pub fn start_sync(client: &MuseumClient) -> (r: SyncStep)
    ensures
        r.wf(),
        r@ == SyncStepView::Ask(
            collections_request(client@),
            SyncStageView::Files(LibraryStageView::Collections),
        ),
{
    match fetch_library(client) {
        LibraryStep::Ask(request, stage) => SyncStep::Ask(request, SyncStage::Files(stage)),
        LibraryStep::Done(r) => match r {
            Ok(files) => SyncStep::Done(Ok(Synced { library: files, people: None })),
            Err(e) => SyncStep::Done(Err(e)),
        },
    }
}

/// Goes on with the loading on the answer to its last request. The files that
/// face data is asked for come in no particular order.
pub fn continue_sync(
    client: &MuseumClient,
    settings: &Settings,
    master_key: &[u8],
    stage: SyncStage,
    sent: &Result<Reply, String>,
) -> (r: SyncStep)
    requires
        stage.wf(),
    ensures
        r.wf(),
        sync_follows(
            client@,
            *settings,
            master_key@,
            stage@,
            json_answer(sent_view(*sent)),
            r@,
        ),
{
    match stage {
        SyncStage::Files(inner) => {
            let step = continue_library(client, master_key, inner, sent);
            after_files(client, settings, step)
        },
        SyncStage::People(inner, files) => {
            let step = continue_people(client, master_key, inner, sent);
            after_people(client, settings, step, files)
        },
        SyncStage::Faces(inner, files, people) => {
            let step = continue_faces(client, &files, &people, inner, sent);
            after_faces(step, files, people)
        },
    }
}

// ----------------------------------- laws ----------------------------------

/// Where faces are switched off, only files are asked for, and there are no
/// people.
pub proof fn faces_off_asks_for_files_only(
    client: ClientView,
    settings: Settings,
    master_key: Seq<u8>,
    stage: SyncStageView,
    answer: Result<JsonTree, ApiFault>,
    next: SyncStepView,
)
    requires
        !settings.fetch_faces,
        stage is Files,
        sync_follows(client, settings, master_key, stage, answer, next),
    ensures
        next matches SyncStepView::Ask(_, after) ==> after is Files,
        next matches SyncStepView::Done(Ok(synced)) ==> synced.people is None,
{
}

/// People and faces are best effort: once the files are loaded, no answer of
/// the museum makes the loading fail.
pub proof fn people_and_faces_never_fail(
    client: ClientView,
    settings: Settings,
    master_key: Seq<u8>,
    stage: SyncStageView,
    answer: Result<JsonTree, ApiFault>,
    next: SyncStepView,
)
    requires
        !(stage is Files),
        sync_follows(client, settings, master_key, stage, answer, next),
    ensures
        !(next matches SyncStepView::Done(Err(_))),
        next matches SyncStepView::Done(Ok(synced)) ==> synced.people is Some,
{
}

/// The library of a stage is live, and its index of people is consistent.
pub open spec fn sync_stage_ok(stage: SyncStageView) -> bool {
    match stage {
        SyncStageView::Files(inner) => stage_is_live(inner),
        SyncStageView::People(inner, files) => live_library(files) && stage_is_consistent(inner),
        SyncStageView::Faces(_, files, people) => live_library(files) && people.consistent(),
    }
}

/// What a step leads to is live and consistent.
pub open spec fn sync_step_ok(step: SyncStepView) -> bool {
    match step {
        SyncStepView::Ask(_, stage) => sync_stage_ok(stage),
        SyncStepView::Done(Ok(synced)) => {
            &&& live_library(synced.library)
            &&& synced.people matches Some(index) ==> index.consistent()
        },
        SyncStepView::Done(Err(_)) => true,
    }
}

/// Whatever the museum answers, a loading ends with a library without deleted
/// files and with a consistent index of people.
pub proof fn synced_library_is_sound(
    client: ClientView,
    settings: Settings,
    master_key: Seq<u8>,
    stage: SyncStageView,
    answer: Result<JsonTree, ApiFault>,
    next: SyncStepView,
)
    requires
        sync_stage_ok(stage),
        sync_follows(client, settings, master_key, stage, answer, next),
    ensures
        sync_step_ok(next),
{
    match stage {
        SyncStageView::Files(inner) => {
            synchronised_library_is_live(client, master_key, inner, answer);
        },
        SyncStageView::People(inner, _) => {
            loaded_people_are_consistent(client, master_key, inner, answer);
        },
        SyncStageView::Faces(_, _, _) => {},
    }
}

} // verus!
