//! Laws of sessions and of what the API answers.

use crate::account::{LoginFault, SecretsView};
use crate::api::{
    auth_answers, client_or_fault, image_headers, image_or_fault, key_or_fault, library_without,
    loaded, media_type_of, needs_library, pending_or_fault, people_fields, session_summary,
    token_in, two_factor_answers, with_library, AppFault,
};
use crate::config::Settings;
use crate::doc::DocTree;
use crate::encoding::{base64_bare, Alphabet};
use crate::files::ImageView;
use crate::laws::readings::prefix_is_followed_by_the_rest;
use crate::people::{summarises, PeopleView};
use crate::sessions::{fresh_session, PendingView, SessionView, StoreView};
use crate::sync::SyncedView;
use crate::text::{decimal, trimmed, white_space};
use vstd::prelude::*;

verus! {

// ----------------------------------- times ---------------------------------

/// A session is live as long as it was used within the time to live, counted in
/// seconds, and not a nanosecond longer.
pub proof fn session_lives_for_its_time(store: StoreView, token: Seq<char>, at: u128)
    ensures
        store.live(token, at) <==> {
            &&& store.sessions.contains_key(token)
            &&& at <= store.sessions[token].last_used + store.ttl * 1_000_000_000
        },
{
}

/// A visit finds a live session with all that it holds, used now, and nothing else;
/// where it finds none, the token names none any more.
pub proof fn visit_finds_a_live_session(
    store: StoreView,
    token: Seq<char>,
    other: Seq<char>,
    checked: u128,
    used: u128,
)
    ensures
        store.live(token, checked) <==> store.visit(token, checked, used) is Some,
        store.visit(token, checked, used) matches Some(session) ==> {
            &&& session.secrets == store.sessions[token].secrets
            &&& session.created_at == store.sessions[token].created_at
            &&& session.library == store.sessions[token].library
            &&& session.people == store.sessions[token].people
            &&& session.last_used == used
        },
        ({
            let found = store.visit(token, checked, used);
            let after = store.visited(token, found);
            &&& found matches Some(session) ==> after.sessions.contains_key(token)
                && after.sessions[token] == session
            &&& found is None ==> !after.sessions.contains_key(token)
            &&& other != token ==> after.sessions.contains_key(other)
                == store.sessions.contains_key(other)
            &&& other != token && store.sessions.contains_key(other) ==> after.sessions[other]
                == store.sessions[other]
            &&& after.pending == store.pending
            &&& after.ttl == store.ttl
        }),
{
}

/// A login that waits for its second factor can be taken for ten minutes, once, under
/// its own token.
pub proof fn pending_login_waits_ten_minutes(
    store: StoreView,
    token: Seq<char>,
    info: PendingView,
    made: u128,
    at: u128,
    other: Seq<char>,
)
    ensures
        ({
            let after = store.put_pending(token, info, made);
            &&& at <= made + 600 * 1_000_000_000 ==> after.pending_info(token, at) == Some(info)
            &&& at > made + 600 * 1_000_000_000 ==> after.pending_info(token, at) is None
            &&& other != token ==> after.pending_info(other, at) == store.pending_info(other, at)
            &&& after.drop_pending(token).pending_info(token, at) is None
            &&& other != token ==> store.drop_pending(token).pending_info(other, at)
                == store.pending_info(other, at)
            &&& after.sessions == store.sessions
            &&& store.drop_pending(token).sessions == store.sessions
        }),
{
}

/// A new session has the secrets of the account and nothing loaded yet.
pub proof fn new_session_has_the_secrets_only(secrets: SecretsView, at: u128)
    ensures
        fresh_session(secrets, at).secrets == secrets,
        fresh_session(secrets, at).created_at == at,
        fresh_session(secrets, at).last_used == at,
        fresh_session(secrets, at).library is None,
        fresh_session(secrets, at).people is None,
{
}

// ----------------------------------- logins --------------------------------

/// A login that went well answers with a new token and the account, and the token
/// then names a live session with the account's secrets.
pub proof fn login_opens_a_session(
    before: StoreView,
    secrets: SecretsView,
    drawn: Seq<u8>,
    at: u128,
    reply: Result<DocTree, AppFault>,
    after: StoreView,
)
    requires
        auth_answers(before, Ok(secrets), drawn, at, reply, after) || two_factor_answers(
            before,
            Ok(secrets),
            drawn,
            at,
            reply,
            after,
        ),
    ensures
        reply matches Ok(DocTree::Fields(fields)) && {
            &&& fields.len() == 2
            &&& fields[0].0 == "token"@
            &&& fields[0].1 matches DocTree::Text(token)
            &&& fields[1] == ("user_id"@, DocTree::Int(secrets.user_id))
            &&& token == base64_bare(Alphabet::UrlSafe, drawn)
            &&& drawn.len() == 32
            &&& after.live(token, at)
            &&& after.sessions[token].secrets == secrets
            &&& after.sessions[token].library is None
        },
        after.pending == before.pending,
{
}

/// A login that needs a second factor answers with a challenge, and its token then
/// names the session and the KEK that wait for the code. No session is opened.
pub proof fn login_waits_for_a_second_factor(
    before: StoreView,
    session_id: Seq<char>,
    kek: Seq<u8>,
    drawn: Seq<u8>,
    at: u128,
    reply: Result<DocTree, AppFault>,
    after: StoreView,
)
    requires
        auth_answers(
            before,
            Err(LoginFault::TwoFactorRequired { session_id, kek }),
            drawn,
            at,
            reply,
            after,
        ),
    ensures
        reply matches Ok(DocTree::Fields(fields)) && {
            &&& fields.len() == 2
            &&& fields[0] == ("two_factor_required"@, DocTree::Bool(true))
            &&& fields[1].0 == "mfa_token"@
            &&& fields[1].1 matches DocTree::Text(token)
            &&& token == base64_bare(Alphabet::UrlSafe, drawn)
            &&& drawn.len() == 24
            &&& after.pending_info(token, at) == Some(
                PendingView { two_factor_session_id: session_id, kek },
            )
        },
        after.sessions == before.sessions,
{
}

/// A failed login is answered with its status and opens nothing: 401 where the
/// password or the account is wrong, 400 where the account needs another flow, 502
/// where the museum failed.
pub proof fn failed_login_opens_nothing(
    before: StoreView,
    fault: LoginFault,
    drawn: Seq<u8>,
    at: u128,
    reply: Result<DocTree, AppFault>,
    after: StoreView,
)
    requires
        !(fault is TwoFactorRequired),
        auth_answers(before, Err(fault), drawn, at, reply, after),
    ensures
        after == before,
        fault matches LoginFault::Recoverable(m) ==> reply == Err::<DocTree, AppFault>(
            AppFault { status: 401, detail: m },
        ),
        fault matches LoginFault::Unsupported(m) ==> reply == Err::<DocTree, AppFault>(
            AppFault { status: 400, detail: m },
        ),
        fault matches LoginFault::Api(e) ==> reply == Err::<DocTree, AppFault>(
            AppFault { status: 502, detail: e.words() },
        ),
{
}

/// A failed second factor opens nothing: 502 where the museum failed, 401 otherwise.
pub proof fn failed_second_factor_opens_nothing(
    before: StoreView,
    fault: LoginFault,
    drawn: Seq<u8>,
    at: u128,
    reply: Result<DocTree, AppFault>,
    after: StoreView,
)
    requires
        two_factor_answers(before, Err(fault), drawn, at, reply, after),
    ensures
        after == before,
        reply matches Err(e) && (if fault is Api {
            e.status == 502
        } else {
            e.status == 401
        }) && e.detail == fault.words(),
{
}

/// A pending login that is not there is answered with 401.
pub proof fn missing_pending_login_is_refused(found: Option<PendingView>)
    ensures
        found matches Some(info) ==> pending_or_fault(found) == Ok::<PendingView, AppFault>(info),
        found is None ==> (pending_or_fault(found) matches Err(e) && e.status == 401),
{
}

// ----------------------------------- tokens --------------------------------

proof fn text_without_edges_stays(s: Seq<char>)
    requires
        s.len() > 0,
        !white_space(s[0]),
        !white_space(s.last()),
    ensures
        trimmed(s) == s,
{
}

/// The token in a header is what follows the scheme, and a header without the scheme
/// or without a token has none.
pub proof fn token_follows_the_scheme(token: Seq<char>, value: Seq<char>)
    ensures
        trimmed(token).len() > 0 ==> {
            &&& token_in(Some("Bearer "@ + token)) == Some(trimmed(token))
            &&& token_in(Some("bearer "@ + token)) == Some(trimmed(token))
        },
        trimmed(token).len() == 0 ==> {
            &&& token_in(Some("Bearer "@ + token)) is None
            &&& token_in(Some("bearer "@ + token)) is None
        },
        token.len() > 0 && !white_space(token[0]) && !white_space(token.last()) ==> trimmed(token)
            == token,
        token_in(None) is None,
        token_in(Some(value)) matches Some(found) ==> exists|rest: Seq<char>|
            #![trigger trimmed(rest)]
            (value == "Bearer "@ + rest || value == "bearer "@ + rest) && found == trimmed(rest),
{
    if token.len() > 0 && !white_space(token[0]) && !white_space(token.last()) {
        text_without_edges_stays(token);
    }
    prefix_is_followed_by_the_rest(value, "Bearer "@, token);
    prefix_is_followed_by_the_rest(value, "bearer "@, token);
    reveal_strlit("Bearer ");
    reveal_strlit("bearer ");
    assert(("bearer "@ + token).take(7)[0] == 'b');
    assert("Bearer "@[0] == 'B');
    assert(crate::text::after_prefix("bearer "@ + token, "Bearer "@) is None);
    if let Some(found) = token_in(Some(value)) {
        let rest = crate::api::after_scheme(value)->0;
        prefix_is_followed_by_the_rest(value, "Bearer "@, rest);
        prefix_is_followed_by_the_rest(value, "bearer "@, rest);
        assert(found == trimmed(rest));
    }
}

// ---------------------------------- requests -------------------------------

/// Requests go to the configured museum with the museum's token of the session; the
/// session's master key opens its library. Without a session both are refused with
/// 401.
pub proof fn session_speaks_for_its_account(settings: Settings, found: Option<SessionView>)
    ensures
        found matches Some(session) ==> {
            &&& client_or_fault(settings, found) matches Ok(client)
            &&& client.token == Some(session.secrets.token)
            &&& client.base_url == settings.base()
            &&& client.timeout == settings.ente_timeout
            &&& key_or_fault(found) == Ok::<Seq<u8>, AppFault>(session.secrets.master_key)
        },
        found is None ==> {
            &&& client_or_fault(settings, found) matches Err(e)
            &&& e.status == 401
            &&& key_or_fault(found) matches Err(f)
            &&& f.status == 401
        },
{
    crate::config::base_has_no_slash_at_its_end(settings);
}

/// A library is loaded once: where the session has none, or where a refresh is asked
/// for.
pub proof fn library_is_loaded_once(found: Option<SessionView>, force: bool)
    ensures
        found matches Some(session) ==> (needs_library(found, force) == Ok::<bool, AppFault>(true)
            <==> force || session.library is None),
        found is Some ==> needs_library(found, force) is Ok,
        found is None ==> (needs_library(found, force) matches Err(e) && e.status == 401),
{
}

/// What was loaded is kept in the session, and nothing else of it changes.
pub proof fn loaded_library_is_kept(session: SessionView, synced: SyncedView)
    ensures
        with_library(session, synced).library == Some(synced.library),
        with_library(session, synced).people == synced.people,
        with_library(session, synced).secrets == session.secrets,
        with_library(session, synced).last_used == session.last_used,
        with_library(session, synced).created_at == session.created_at,
        loaded(Some(session), synced) == Some(with_library(session, synced)),
        loaded(None, synced) is None,
{
}

/// An image is found by its id where the library has it, not deleted; otherwise it is
/// missing, with 404.
pub proof fn image_is_found_by_its_id(
    session: SessionView,
    files: Map<i64, ImageView>,
    id: i64,
)
    requires
        session.library == Some(files),
    ensures
        files.contains_key(id) && !files[id].is_deleted ==> image_or_fault(Some(session), id) == Ok::<
            ImageView,
            AppFault,
        >(files[id]),
        !files.contains_key(id) || files[id].is_deleted ==> (image_or_fault(
            Some(session),
            id,
        ) matches Err(e) && e.status == 404),
        image_or_fault(None, id) matches Err(e) && e.status == 401,
{
}

/// A deleted image leaves the library of its session, alone.
pub proof fn deleted_image_leaves_alone(
    session: SessionView,
    files: Map<i64, ImageView>,
    id: i64,
    other: i64,
)
    requires
        session.library == Some(files),
    ensures
        library_without(session, id).library matches Some(left) && {
            &&& !left.contains_key(id)
            &&& other != id ==> left.contains_key(other) == files.contains_key(other)
            &&& other != id && files.contains_key(other) ==> left[other] == files[other]
        },
        library_without(session, id).secrets == session.secrets,
        library_without(session, id).people == session.people,
        library_without(session, id).last_used == session.last_used,
{
}

/// A session without people has no summaries; one with people has those of its index
/// over its library.
pub proof fn session_summarises_its_people(
    people: Option<PeopleView>,
    library: Map<i64, ImageView>,
    rows: Seq<(String, String, usize)>,
)
    requires
        session_summary(people, library, rows),
    ensures
        people is None ==> rows.len() == 0,
        people matches Some(index) ==> summarises(index, library, rows),
{
}

/// The people of an answer are counted and shown, each with id, name and number of
/// images, in the order of the summaries.
pub proof fn people_answer_shows_the_summaries(rows: Seq<(String, String, usize)>)
    ensures
        ({
            let fields = people_fields(rows);
            &&& fields.len() == 2
            &&& fields[0] == ("count"@, DocTree::Count(rows.len() as usize))
            &&& fields[1].0 == "people"@
            &&& fields[1].1 matches DocTree::List(people)
            &&& people.len() == rows.len()
            &&& forall|i: int|
                0 <= i < rows.len() ==> (#[trigger] people[i] matches DocTree::Fields(row) && {
                    &&& row.len() == 3
                    &&& row[0] == ("id"@, DocTree::Text(rows[i].0@))
                    &&& row[1] == ("name"@, DocTree::Text(rows[i].1@))
                    &&& row[2] == ("imageCount"@, DocTree::Count(rows[i].2))
                })
        }),
{
}

// ----------------------------------- images --------------------------------

/// An image is offered under its title, or under its id where it has none, with the
/// type that its bytes show and the place of its encrypted blob.
pub proof fn image_is_offered_under_its_title(
    settings: Settings,
    file: ImageView,
    id: i64,
    data: Seq<u8>,
)
    ensures
        ({
            let headers = image_headers(settings, file, id, data);
            &&& headers.len() == 3
            &&& headers[0] == ("content-type"@, media_type_of(data))
            &&& headers[1].0 == "content-disposition"@
            &&& file.title matches Some(title) ==> headers[1].1 == "inline; filename=\""@ + title
                + "\""@
            &&& file.title is None ==> headers[1].1 == "inline; filename=\""@ + decimal(id as int)
                + "\""@
            &&& headers[2] == ("X-Encrypted-Download-Url"@, settings.blob_url(file.id))
        }),
{
}

/// The media type depends on the first bytes alone: whatever follows a signature
/// makes no difference.
pub proof fn media_type_is_told_by_the_first_bytes(rest: Seq<u8>)
    ensures
        media_type_of(seq![0xffu8, 0xd8, 0xff] + rest) == "image/jpeg"@,
        media_type_of(seq![0x89u8, 0x50, 0x4e, 0x47, 0x0d, 0x0a, 0x1a, 0x0a] + rest)
            == "image/png"@,
        media_type_of(seq![0x47u8, 0x49, 0x46, 0x38, 0x37, 0x61] + rest) == "image/gif"@,
        media_type_of(seq![0x47u8, 0x49, 0x46, 0x38, 0x39, 0x61] + rest) == "image/gif"@,
        media_type_of(seq![0x42u8, 0x4d] + rest) == "image/bmp"@,
{
    signature_stands_in_front(seq![0xffu8, 0xd8, 0xff], rest);
    signature_stands_in_front(seq![0x89u8, 0x50, 0x4e, 0x47, 0x0d, 0x0a, 0x1a, 0x0a], rest);
    signature_stands_in_front(seq![0x47u8, 0x49, 0x46, 0x38, 0x37, 0x61], rest);
    signature_stands_in_front(seq![0x47u8, 0x49, 0x46, 0x38, 0x39, 0x61], rest);
    signature_stands_in_front(seq![0x42u8, 0x4d], rest);
    other_start(seq![0x89u8, 0x50, 0x4e, 0x47, 0x0d, 0x0a, 0x1a, 0x0a] + rest);
    other_start(seq![0x47u8, 0x49, 0x46, 0x38, 0x37, 0x61] + rest);
    other_start(seq![0x47u8, 0x49, 0x46, 0x38, 0x39, 0x61] + rest);
    other_start(seq![0x42u8, 0x4d] + rest);
}

/// Files in boxes are told by their brand, whatever the size of the first box and
/// whatever follows: heic, heix, mif1 and heim are HEIC, avif is AVIF.
pub proof fn boxed_image_is_told_by_its_brand(size: Seq<u8>, brand: Seq<u8>, rest: Seq<u8>)
    requires
        size.len() == 4,
        size[0] != 0xff && size[0] != 0x89 && size[0] != 0x47 && size[0] != 0x42,
        brand.len() == 4,
    ensures
        ({
            let told = media_type_of(size + (seq![0x66u8, 0x74, 0x79, 0x70] + brand) + rest);
            let heic = {
                ||| brand == seq![0x68u8, 0x65, 0x69, 0x63]
                ||| brand == seq![0x68u8, 0x65, 0x69, 0x78]
                ||| brand == seq![0x6du8, 0x69, 0x66, 0x31]
                ||| brand == seq![0x68u8, 0x65, 0x69, 0x6d]
            };
            let avif = brand == seq![0x61u8, 0x76, 0x69, 0x66];
            &&& heic ==> told == "image/heic"@
            &&& avif ==> told == "image/avif"@
            &&& !heic && !avif ==> told == "application/octet-stream"@
        }),
{
    brand_stands_behind_the_size(size, brand, rest);
    assert(seq![0x61u8, 0x76, 0x69, 0x66][0] == 0x61);
    assert(seq![0x68u8, 0x65, 0x69, 0x63][0] == 0x68);
    assert(seq![0x68u8, 0x65, 0x69, 0x78][0] == 0x68);
    assert(seq![0x6du8, 0x69, 0x66, 0x31][0] == 0x6d);
    assert(seq![0x68u8, 0x65, 0x69, 0x6d][0] == 0x68);
}

/// Bytes that start like no known image, and hold no `ftyp` box, are of no known
/// type.
pub proof fn other_bytes_are_of_no_known_type(data: Seq<u8>)
    requires
        data.len() > 0 ==> data[0] != 0xff && data[0] != 0x89 && data[0] != 0x47 && data[0] != 0x42,
        data.len() >= 12 ==> data.subrange(4, 8) != seq![0x66u8, 0x74, 0x79, 0x70],
    ensures
        media_type_of(data) == "application/octet-stream"@,
{
    if data.len() > 0 {
        other_start(data);
    }
}

proof fn signature_stands_in_front(signature: Seq<u8>, rest: Seq<u8>)
    ensures
        crate::api::bytes_at(signature + rest, 0, signature),
{
    assert((signature + rest).subrange(0, signature.len() as int) =~= signature);
}

/// Bytes that start with another byte do not start with a signature.
proof fn other_start(data: Seq<u8>)
    requires
        data.len() > 0,
    ensures
        data[0] != 0xff ==> !crate::api::bytes_at(data, 0, seq![0xffu8, 0xd8, 0xff]),
        data[0] != 0x89 ==> !crate::api::bytes_at(
            data,
            0,
            seq![0x89u8, 0x50, 0x4e, 0x47, 0x0d, 0x0a, 0x1a, 0x0a],
        ),
        data[0] != 0x47 ==> !crate::api::bytes_at(
            data,
            0,
            seq![0x47u8, 0x49, 0x46, 0x38, 0x37, 0x61],
        ),
        data[0] != 0x47 ==> !crate::api::bytes_at(
            data,
            0,
            seq![0x47u8, 0x49, 0x46, 0x38, 0x39, 0x61],
        ),
        data[0] != 0x42 ==> !crate::api::bytes_at(data, 0, seq![0x42u8, 0x4d]),
{
    assert(seq![0xffu8, 0xd8, 0xff][0] == 0xff);
    assert(seq![0x89u8, 0x50, 0x4e, 0x47, 0x0d, 0x0a, 0x1a, 0x0a][0] == 0x89);
    assert(seq![0x47u8, 0x49, 0x46, 0x38, 0x37, 0x61][0] == 0x47);
    assert(seq![0x47u8, 0x49, 0x46, 0x38, 0x39, 0x61][0] == 0x47);
    assert(seq![0x42u8, 0x4d][0] == 0x42);
    if data.len() >= 3 {
        assert(data.subrange(0, 3)[0] == data[0]);
    }
    if data.len() >= 8 {
        assert(data.subrange(0, 8)[0] == data[0]);
    }
    if data.len() >= 6 {
        assert(data.subrange(0, 6)[0] == data[0]);
    }
    if data.len() >= 2 {
        assert(data.subrange(0, 2)[0] == data[0]);
    }
}

proof fn brand_stands_behind_the_size(size: Seq<u8>, brand: Seq<u8>, rest: Seq<u8>)
    requires
        size.len() == 4,
        size[0] != 0xff && size[0] != 0x89 && size[0] != 0x47 && size[0] != 0x42,
        brand.len() == 4,
    ensures
        ({
            let data = size + (seq![0x66u8, 0x74, 0x79, 0x70] + brand) + rest;
            &&& data.len() >= 12
            &&& crate::api::bytes_at(data, 4, seq![0x66u8, 0x74, 0x79, 0x70])
            &&& data.subrange(8, 12) == brand
            &&& !crate::api::bytes_at(data, 0, seq![0xffu8, 0xd8, 0xff])
            &&& !crate::api::bytes_at(
                data,
                0,
                seq![0x89u8, 0x50, 0x4e, 0x47, 0x0d, 0x0a, 0x1a, 0x0a],
            )
            &&& !crate::api::bytes_at(data, 0, seq![0x47u8, 0x49, 0x46, 0x38, 0x37, 0x61])
            &&& !crate::api::bytes_at(data, 0, seq![0x47u8, 0x49, 0x46, 0x38, 0x39, 0x61])
            &&& !crate::api::bytes_at(data, 0, seq![0x42u8, 0x4d])
        }),
{
    let data = size + (seq![0x66u8, 0x74, 0x79, 0x70] + brand) + rest;
    assert(data.subrange(4, 8) =~= seq![0x66u8, 0x74, 0x79, 0x70]);
    assert(data.subrange(8, 12) =~= brand);
    other_start(data);
}

} // verus!
