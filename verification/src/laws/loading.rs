//! Laws of the loading of a session's library: files, then people, then faces.

use crate::client::{ApiFault, ClientView};
use crate::config::Settings;
use crate::faces::{clamped_batch, faces_step, is_live_list, FacesStageView, FacesStepView};
use crate::files::{library_step, ImageView, LibraryStageView, LibraryStepView};
use crate::json::JsonTree;
use crate::people::{
    entity_key_request, no_people, people_step, PeopleStageView, PeopleStepView, PeopleView,
};
use crate::sync::{sync_follows, SyncStageView, SyncStepView};
use vstd::prelude::*;

verus! {

/// The files are loaded first, as a synchronisation loads them; then come the people,
/// with all the files kept, unless faces are switched off.
pub proof fn people_come_after_the_files(
    client: ClientView,
    settings: Settings,
    master_key: Seq<u8>,
    stage: LibraryStageView,
    answer: Result<JsonTree, ApiFault>,
    next: SyncStepView,
)
    requires
        sync_follows(client, settings, master_key, SyncStageView::Files(stage), answer, next),
    ensures
        match library_step(client, master_key, stage, answer) {
            LibraryStepView::Ask(request, inner) => next == SyncStepView::Ask(
                request,
                SyncStageView::Files(inner),
            ),
            LibraryStepView::Done(Err(e)) => next matches SyncStepView::Done(Err(f)) && f == e,
            LibraryStepView::Done(Ok(files)) => if settings.fetch_faces {
                next == SyncStepView::Ask(
                    entity_key_request(client),
                    SyncStageView::People(PeopleStageView::Key, files),
                )
            } else {
                next matches SyncStepView::Done(Ok(synced)) && synced.library == files
                    && synced.people is None
            },
        },
{
}

/// The people are loaded with all the files kept. Once they are, or could not be, the
/// faces of every live file are asked for, batch by batch; where there is no file to
/// ask for, the loading ends with the files and the people.
pub proof fn faces_come_after_the_people(
    client: ClientView,
    settings: Settings,
    master_key: Seq<u8>,
    stage: PeopleStageView,
    files: Map<i64, ImageView>,
    answer: Result<JsonTree, ApiFault>,
    next: SyncStepView,
)
    requires
        sync_follows(
            client,
            settings,
            master_key,
            SyncStageView::People(stage, files),
            answer,
            next,
        ),
    ensures
        match people_step(client, master_key, stage, answer) {
            PeopleStepView::Ask(request, inner) => next == SyncStepView::Ask(
                request,
                SyncStageView::People(inner, files),
            ),
            PeopleStepView::Done(r) => {
                let people = match r {
                    Ok(index) => index,
                    Err(_) => no_people(),
                };
                match next {
                    SyncStepView::Ask(_, SyncStageView::Faces(inner, kept, joined)) => {
                        &&& kept == files
                        &&& joined == people
                        &&& inner.batch == clamped_batch(settings.faces_batch_size)
                        &&& exists|keys: Seq<i64>, ids: Seq<i64>| #[trigger]
                            is_live_list(files, keys, ids) && ids.len() > 0 && ids.skip(
                                ids.len() - inner.rest.len(),
                            ) == inner.rest
                    },
                    SyncStepView::Done(Ok(synced)) => {
                        &&& synced.people == Some(people)
                        &&& forall|id: i64| #[trigger]
                            synced.library.contains_key(id) == files.contains_key(id)
                        &&& forall|id: i64| #[trigger]
                            files.contains_key(id) ==> synced.library[id] == files[id]
                    },
                    _ => false,
                }
            },
        },
{
    if let PeopleStepView::Done(r) = people_step(client, master_key, stage, answer) {
        let (keys, ids) = choose|keys: Seq<i64>, ids: Seq<i64>|
            #![trigger is_live_list(files, keys, ids)]
            is_live_list(files, keys, ids) && next == crate::sync::lift_faces(
                crate::faces::to_next_batch(
                    client,
                    ids,
                    clamped_batch(settings.faces_batch_size),
                    Map::empty(),
                ),
                files,
                crate::sync::people_or_none(r),
            );
        assert(is_live_list(files, keys, ids));
        if let SyncStepView::Ask(_, SyncStageView::Faces(inner, _, _)) = next {
            assert(ids.skip(ids.len() - inner.rest.len()) =~= inner.rest);
        }
    }
}

/// The faces are loaded with all the files and the people kept; at the end every file
/// is there, with the faces that were found for it.
pub proof fn loading_ends_with_files_people_and_faces(
    client: ClientView,
    settings: Settings,
    master_key: Seq<u8>,
    stage: FacesStageView,
    files: Map<i64, ImageView>,
    people: PeopleView,
    answer: Result<JsonTree, ApiFault>,
    next: SyncStepView,
    id: i64,
)
    requires
        sync_follows(
            client,
            settings,
            master_key,
            SyncStageView::Faces(stage, files, people),
            answer,
            next,
        ),
    ensures
        match faces_step(client, files, people, stage, answer) {
            FacesStepView::Ask(request, inner) => next == SyncStepView::Ask(
                request,
                SyncStageView::Faces(inner, files, people),
            ),
            FacesStepView::Done(found) => next matches SyncStepView::Done(Ok(synced)) && {
                &&& synced.people == Some(people)
                &&& synced.library.contains_key(id) == files.contains_key(id)
                &&& files.contains_key(id) && found.contains_key(id) ==> synced.library[id].faces
                    == found[id].faces
                &&& files.contains_key(id) && !found.contains_key(id) ==> synced.library[id]
                    == files[id]
                &&& files.contains_key(id) ==> synced.library[id].key == files[id].key
                    && synced.library[id].id == files[id].id
            },
        },
{
}

} // verus!
