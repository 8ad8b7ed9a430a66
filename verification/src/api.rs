//! What the HTTP API of the adapter answers.

use crate::account::{
    after_totp, login_outcome, refuses_code, AccountSecrets, LoginError, LoginFault, SecretsView,
};
use crate::client::{pairs, push_pair, ApiFault, ClientView, EnteApiError, MuseumClient};
use crate::config::Settings;
use crate::doc::{
    field_trees, item_trees, list, no_fields, object, opt_text, put, text, Doc, DocTree,
};
use crate::encoding::{base64_bare, Alphabet};
use crate::files::{
    filter_images, is_listing, library_view, shows_files, FilterView, ImageFile, ImageFilter,
    ImageView,
};
use crate::people::{summarises, PeopleIndex, PeopleView};
use crate::sessions::{
    fresh_session, library_ready, opt_pending, PendingInfo, PendingView, Session, SessionStore,
    SessionView, StoreView,
};
use crate::sync::{Synced, SyncedView};
use crate::tables::copy_bytes;
use crate::text::{
    after_prefix, decimal, i64_text, joined, strip_prefix, trim, trim_end_of, trimmed,
    trimmed_has_no_edges, white_space,
};
use std::collections::HashMap;
use vstd::prelude::*;

verus! {

// ---------------------------------- errors ---------------------------------

/// An error, answered with a status and the body `{"detail": "..."}`.
#[derive(Debug)]
pub struct AppError {
    pub status: u16,
    pub detail: String,
}

/// The mathematical counterpart of `AppError`.
pub struct AppFault {
    pub status: u16,
    pub detail: Seq<char>,
}

impl View for AppError {
    type V = AppFault;

    open spec fn view(&self) -> AppFault {
        AppFault { status: self.status, detail: self.detail@ }
    }
}

impl AppError {
    /// The body of the answer.
    pub fn body(&self) -> (r: Doc)
        ensures
            r@ == DocTree::Fields(seq![("detail"@, DocTree::Text(self@.detail))]),
    {
        let mut fields = no_fields();
        put(&mut fields, "detail", text(self.detail.as_str()));
        object(fields)
    }
}

/// The museum failed: 502.
pub open spec fn upstream_fault(e: ApiFault) -> AppFault {
    AppFault { status: 502, detail: e.words() }
}

/// The bearer token names no live session: 401.
pub open spec fn expired_fault() -> AppFault {
    AppFault { status: 401, detail: "invalid or expired token"@ }
}

/// The library has no such image: 404.
pub open spec fn missing_fault() -> AppFault {
    AppFault { status: 404, detail: "image not found"@ }
}

pub fn upstream_error(e: &EnteApiError) -> (r: AppError)
    ensures
        r@ == upstream_fault(e@),
{
    AppError { status: 502, detail: e.message() }
}

fn expired_error() -> (r: AppError)
    ensures
        r@ == expired_fault(),
{
    AppError { status: 401, detail: "invalid or expired token".to_owned() }
}

fn missing_error() -> (r: AppError)
    ensures
        r@ == missing_fault(),
{
    AppError { status: 404, detail: "image not found".to_owned() }
}

/// What a caller sees of an answer that is a document.
pub open spec fn doc_outcome(r: Result<Doc, AppError>) -> Result<DocTree, AppFault> {
    match r {
        Ok(d) => Ok(d@),
        Err(e) => Err(e@),
    }
}

/// The answer to a liveness check.
pub fn health() -> (r: Doc)
    ensures
        r@ == DocTree::Fields(seq![("status"@, DocTree::Text("ok"@))]),
{
    let mut fields = no_fields();
    put(&mut fields, "status", text("ok"));
    object(fields)
}

// ---------------------------------- tokens ---------------------------------

/// What follows the scheme in an `Authorization` header.
pub open spec fn after_scheme(value: Seq<char>) -> Option<Seq<char>> {
    match after_prefix(value, "Bearer "@) {
        Some(rest) => Some(rest),
        None => after_prefix(value, "bearer "@),
    }
}

/// The bearer token in an `Authorization` header.
pub open spec fn token_in(header: Option<Seq<char>>) -> Option<Seq<char>> {
    match header {
        None => None,
        Some(value) => match after_scheme(value) {
            None => None,
            Some(rest) => if trimmed(rest).len() == 0 {
                None
            } else {
                Some(trimmed(rest))
            },
        },
    }
}

/// What an optional text shows.
pub open spec fn opt_str(s: Option<&str>) -> Option<Seq<char>> {
    match s {
        Some(t) => Some(t@),
        None => None,
    }
}

/// The bearer token of a request, from its `Authorization` header.
pub fn bearer_token(header: Option<&str>) -> (r: Option<String>)
    ensures
        opt_text(r) == token_in(opt_str(header)),
{
    let value = match header {
        Some(v) => v,
        None => return None,
    };
    let rest = match strip_prefix(value, "Bearer ") {
        Some(rest) => rest,
        None => match strip_prefix(value, "bearer ") {
            Some(rest) => rest,
            None => return None,
        },
    };
    let token = trim(rest.as_str());
    if token.as_str().is_empty() {
        None
    } else {
        Some(token)
    }
}

/// The bearer token of a request, which must have one.
pub fn require_token(header: Option<&str>) -> (r: Result<String, AppError>)
    ensures
        match r {
            Ok(token) => token_in(opt_str(header)) == Some(token@),
            Err(e) => token_in(opt_str(header)) is None && e@ == (AppFault {
                status: 401,
                detail: "missing bearer token"@,
            }),
        },
{
    match bearer_token(header) {
        Some(token) => Ok(token),
        None => Err(AppError { status: 401, detail: "missing bearer token".to_owned() }),
    }
}

// ---------------------------------- logins ---------------------------------

/// The client of the configured museum.
pub open spec fn museum_client(settings: Settings, token: Option<Seq<char>>) -> ClientView {
    ClientView {
        base_url: trim_end_of(settings.base(), '/'),
        timeout: settings.ente_timeout,
        token,
    }
}

/// A client without a token, for logins.
pub fn login_client(settings: &Settings) -> (r: MuseumClient)
    ensures
        r@ == museum_client(*settings, None),
{
    MuseumClient::new(settings.api_base().as_str(), settings.ente_timeout, None)
}

/// The answer to a login: the adapter's token and the account.
pub open spec fn logged_in_fields(token: Seq<char>, user_id: i64) -> Seq<(Seq<char>, DocTree)> {
    seq![("token"@, DocTree::Text(token)), ("user_id"@, DocTree::Int(user_id))]
}

/// The answer to a login that needs a second factor.
pub open spec fn challenge_fields(mfa_token: Seq<char>) -> Seq<(Seq<char>, DocTree)> {
    seq![("two_factor_required"@, DocTree::Bool(true)), ("mfa_token"@, DocTree::Text(mfa_token))]
}

fn logged_in(token: &str, user_id: i64) -> (r: Doc)
    ensures
        r@ == DocTree::Fields(logged_in_fields(token@, user_id)),
{
    let mut fields = no_fields();
    put(&mut fields, "token", text(token));
    put(&mut fields, "user_id", Doc::Int(user_id));
    assert(field_trees(fields@) =~= logged_in_fields(token@, user_id));
    object(fields)
}

/// Whether `reply` answers a login that ended with `outcome`, and `after` is
/// the store then. `drawn` are the random bytes of the token, `at` is the time.
pub open spec fn auth_answers(
    before: StoreView,
    outcome: Result<SecretsView, LoginFault>,
    drawn: Seq<u8>,
    at: u128,
    reply: Result<DocTree, AppFault>,
    after: StoreView,
) -> bool {
    let token = base64_bare(Alphabet::UrlSafe, drawn);
    match outcome {
        Ok(secrets) => {
            &&& drawn.len() == 32
            &&& reply == Ok::<DocTree, AppFault>(
                DocTree::Fields(logged_in_fields(token, secrets.user_id)),
            )
            &&& after == before.put(token, fresh_session(secrets, at))
        },
        Err(LoginFault::TwoFactorRequired { session_id, kek }) => {
            &&& drawn.len() == 24
            &&& reply == Ok::<DocTree, AppFault>(DocTree::Fields(challenge_fields(token)))
            &&& after == before.put_pending(
                token,
                PendingView { two_factor_session_id: session_id, kek },
                at,
            )
        },
        Err(LoginFault::Unsupported(m)) => {
            &&& reply == Err::<DocTree, AppFault>(AppFault { status: 400, detail: m })
            &&& after == before
        },
        Err(LoginFault::Recoverable(m)) => {
            &&& reply == Err::<DocTree, AppFault>(AppFault { status: 401, detail: m })
            &&& after == before
        },
        Err(LoginFault::Api(e)) => {
            &&& reply == Err::<DocTree, AppFault>(upstream_fault(e))
            &&& after == before
        },
    }
}

/// Answers a login: a session for an account that is logged in, a pending entry
/// for one that needs a second factor, an error otherwise.
pub fn auth(store: &mut SessionStore, outcome: Result<AccountSecrets, LoginError>) -> (r: Result<
    Doc,
    AppError,
>)
    requires
        old(store).wf(),
    ensures
        final(store).wf(),
        exists|drawn: Seq<u8>, at: u128| #[trigger]
            auth_answers(
                old(store)@,
                login_outcome(outcome),
                drawn,
                at,
                doc_outcome(r),
                final(store)@,
            ),
{
    let ghost before = store@;
    let ghost ended = login_outcome(outcome);
    match outcome {
        Ok(secrets) => {
            let user_id: i64 = secrets.user_id;
            let token = store.create(secrets);
            let r = Ok(logged_in(token.as_str(), user_id));
            proof {
                let at = choose|at: u128|
                    store@ == before.put(token@, #[trigger] fresh_session(secrets@, at));
                let drawn = choose|b: Seq<u8>|
                    b.len() == 32 && token@ == #[trigger] base64_bare(Alphabet::UrlSafe, b);
                assert(auth_answers(before, ended, drawn, at, doc_outcome(r), store@));
            }
            r
        },
        Err(LoginError::TwoFactorRequired { session_id, kek }) => {
            let ghost info = PendingView { two_factor_session_id: session_id@, kek: kek@ };
            let token = store.create_pending(session_id, kek);
            let mut fields = no_fields();
            put(&mut fields, "two_factor_required", Doc::Bool(true));
            put(&mut fields, "mfa_token", text(token.as_str()));
            assert(field_trees(fields@) =~= challenge_fields(token@));
            let r = Ok(object(fields));
            proof {
                let at = choose|at: u128|
                    store@ == #[trigger] before.put_pending(token@, info, at);
                let drawn = choose|b: Seq<u8>|
                    b.len() == 24 && token@ == #[trigger] base64_bare(Alphabet::UrlSafe, b);
                assert(auth_answers(before, ended, drawn, at, doc_outcome(r), store@));
            }
            r
        },
        Err(LoginError::Unsupported(m)) => {
            let r = Err(AppError { status: 400, detail: m });
            assert(auth_answers(before, ended, Seq::empty(), 0, doc_outcome(r), store@));
            r
        },
        Err(LoginError::Recoverable(m)) => {
            let r = Err(AppError { status: 401, detail: m });
            assert(auth_answers(before, ended, Seq::empty(), 0, doc_outcome(r), store@));
            r
        },
        Err(LoginError::Api(e)) => {
            let r = Err(upstream_error(&e));
            assert(auth_answers(before, ended, Seq::empty(), 0, doc_outcome(r), store@));
            r
        },
    }
}

/// What came of looking up a pending login.
pub open spec fn pending_outcome(r: Result<PendingInfo, AppError>) -> Result<
    PendingView,
    AppFault,
> {
    match r {
        Ok(info) => Ok(info@),
        Err(e) => Err(e@),
    }
}

/// The pending login that a second factor is for.
pub open spec fn pending_or_fault(found: Option<PendingView>) -> Result<PendingView, AppFault> {
    match found {
        Some(info) => Ok(info),
        None => Err(AppFault { status: 401, detail: "invalid or expired 2FA token"@ }),
    }
}

/// The pending login that was found, or the error.
pub fn pending_answer(found: Option<PendingInfo>) -> (r: Result<PendingInfo, AppError>)
    ensures
        pending_outcome(r) == pending_or_fault(opt_pending(found)),
{
    match found {
        Some(info) => Ok(info),
        None => Err(AppError { status: 401, detail: "invalid or expired 2FA token".to_owned() }),
    }
}

/// Takes the pending login that a second factor is for.
pub fn take_pending(store: &mut SessionStore, mfa_token: &str) -> (r: Result<PendingInfo, AppError>)
    requires
        old(store).wf(),
    ensures
        final(store).wf(),
        final(store)@ == old(store)@.drop_pending(mfa_token@),
        exists|at: u128|
            pending_outcome(r) == pending_or_fault(
                #[trigger] old(store)@.pending_info(mfa_token@, at),
            ),
{
    pending_answer(store.pop_pending(mfa_token))
}

/// Whether `reply` answers a second factor whose check ended with `outcome`.
pub open spec fn two_factor_answers(
    before: StoreView,
    outcome: Result<SecretsView, LoginFault>,
    drawn: Seq<u8>,
    at: u128,
    reply: Result<DocTree, AppFault>,
    after: StoreView,
) -> bool {
    let token = base64_bare(Alphabet::UrlSafe, drawn);
    match outcome {
        Ok(secrets) => {
            &&& drawn.len() == 32
            &&& reply == Ok::<DocTree, AppFault>(
                DocTree::Fields(logged_in_fields(token, secrets.user_id)),
            )
            &&& after == before.put(token, fresh_session(secrets, at))
        },
        Err(LoginFault::Api(e)) => {
            &&& reply == Err::<DocTree, AppFault>(upstream_fault(e))
            &&& after == before
        },
        Err(other) => {
            &&& reply == Err::<DocTree, AppFault>(AppFault { status: 401, detail: other.words() })
            &&& after == before
        },
    }
}

/// Answers a second factor.
pub fn auth_two_factor(store: &mut SessionStore, outcome: Result<AccountSecrets, LoginError>) -> (r:
    Result<Doc, AppError>)
    requires
        old(store).wf(),
    ensures
        final(store).wf(),
        exists|drawn: Seq<u8>, at: u128| #[trigger]
            two_factor_answers(
                old(store)@,
                login_outcome(outcome),
                drawn,
                at,
                doc_outcome(r),
                final(store)@,
            ),
{
    let ghost before = store@;
    let ghost ended = login_outcome(outcome);
    match outcome {
        Ok(secrets) => {
            let user_id: i64 = secrets.user_id;
            let token = store.create(secrets);
            let r = Ok(logged_in(token.as_str(), user_id));
            proof {
                let at = choose|at: u128|
                    store@ == before.put(token@, #[trigger] fresh_session(secrets@, at));
                let drawn = choose|b: Seq<u8>|
                    b.len() == 32 && token@ == #[trigger] base64_bare(Alphabet::UrlSafe, b);
                assert(two_factor_answers(before, ended, drawn, at, doc_outcome(r), store@));
            }
            r
        },
        Err(LoginError::Api(e)) => {
            let r = Err(upstream_error(&e));
            assert(two_factor_answers(before, ended, Seq::empty(), 0, doc_outcome(r), store@));
            r
        },
        Err(other) => {
            let r = Err(AppError { status: 401, detail: other.message() });
            assert(two_factor_answers(before, ended, Seq::empty(), 0, doc_outcome(r), store@));
            r
        },
    }
}

/// Logs out: the session of the token in the header is dropped. Answers 204,
/// whether there was one or not.
pub fn logout(store: &mut SessionStore, header: Option<&str>) -> (r: u16)
    requires
        old(store).wf(),
    ensures
        final(store).wf(),
        r == 204,
        final(store)@ == (match token_in(opt_str(header)) {
            Some(token) => old(store)@.drop(token),
            None => old(store)@,
        }),
        token_in(opt_str(header)) matches Some(token) ==> !final(store)@.sessions.contains_key(
            token,
        ),
        forall|other: Seq<char>|
            token_in(opt_str(header)) != Some(other) ==> (
            #[trigger] final(store)@.sessions.contains_key(other)
                == old(store)@.sessions.contains_key(other)),
{
    if let Some(token) = bearer_token(header) {
        let _ = store.delete(token.as_str());
    }
    204
}

// --------------------------------- sessions --------------------------------

/// The museum client of a session, or 401 where there is none.
pub open spec fn client_or_fault(settings: Settings, found: Option<SessionView>) -> Result<
    ClientView,
    AppFault,
> {
    match found {
        Some(session) => Ok(museum_client(settings, Some(session.secrets.token))),
        None => Err(expired_fault()),
    }
}

/// What an optional session shows.
pub open spec fn shown_session(session: Option<&Session>) -> Option<SessionView> {
    match session {
        Some(s) => Some(s@),
        None => None,
    }
}

/// The museum client of a session.
pub fn session_client(settings: &Settings, session: Option<&Session>) -> (r: Result<
    MuseumClient,
    AppError,
>)
    ensures
        client_or_fault(*settings, shown_session(session)) == (match r {
            Ok(client) => Ok::<ClientView, AppFault>(client@),
            Err(e) => Err::<ClientView, AppFault>(e@),
        }),
{
    match session {
        Some(s) => Ok(
            MuseumClient::new(
                settings.api_base().as_str(),
                settings.ente_timeout,
                Some(s.secrets.token.clone()),
            ),
        ),
        None => Err(expired_error()),
    }
}

/// Builds a museum client with the museum's token of a session.
pub fn authed_client(settings: &Settings, store: &mut SessionStore, token: &str) -> (r: Result<
    MuseumClient,
    AppError,
>)
    requires
        old(store).wf(),
    ensures
        final(store).wf(),
        exists|checked: u128, used: u128| ({
            let found = #[trigger] old(store)@.visit(token@, checked, used);
            &&& client_or_fault(*settings, found) == (match r {
                Ok(client) => Ok::<ClientView, AppFault>(client@),
                Err(e) => Err::<ClientView, AppFault>(e@),
            })
            &&& final(store)@ == old(store)@.visited(token@, found)
        }),
        r matches Ok(client) ==> old(store)@.sessions.contains_key(token@) && client@.token == Some(
            old(store)@.sessions[token@].secrets.token,
        ),
        r matches Err(e) ==> e.status == 401 && !final(store)@.sessions.contains_key(token@),
{
    match store.with_session(token) {
        Some(session) => session_client(settings, Some(&*session)),
        None => session_client(settings, None),
    }
}

/// Whether the library of a session has to be loaded; 401 where there is no
/// session.
pub open spec fn needs_library(found: Option<SessionView>, force: bool) -> Result<bool, AppFault> {
    match found {
        Some(session) => Ok(force || session.library is None),
        None => Err(expired_fault()),
    }
}

/// Whether the library of a session has to be loaded.
pub fn session_needs_library(session: Option<&Session>, force: bool) -> (r: Result<bool, AppError>)
    ensures
        needs_library(shown_session(session), force) == (match r {
            Ok(needed) => Ok::<bool, AppFault>(needed),
            Err(e) => Err::<bool, AppFault>(e@),
        }),
{
    match session {
        Some(s) => Ok(force || s.library.is_none()),
        None => Err(expired_error()),
    }
}

/// Whether the library of a token's session has to be loaded.
pub fn library_needed(store: &mut SessionStore, token: &str, force: bool) -> (r: Result<
    bool,
    AppError,
>)
    requires
        old(store).wf(),
    ensures
        final(store).wf(),
        exists|checked: u128, used: u128| ({
            let found = #[trigger] old(store)@.visit(token@, checked, used);
            &&& needs_library(found, force) == (match r {
                Ok(needed) => Ok::<bool, AppFault>(needed),
                Err(e) => Err::<bool, AppFault>(e@),
            })
            &&& final(store)@ == old(store)@.visited(token@, found)
        }),
{
    match store.with_session(token) {
        Some(session) => session_needs_library(Some(&*session), force),
        None => session_needs_library(None, force),
    }
}

/// The master key of a session, or 401 where there is none.
pub open spec fn key_or_fault(found: Option<SessionView>) -> Result<Seq<u8>, AppFault> {
    match found {
        Some(session) => Ok(session.secrets.master_key),
        None => Err(expired_fault()),
    }
}

/// The master key of a session.
pub fn session_key(session: Option<&Session>) -> (r: Result<Vec<u8>, AppError>)
    ensures
        key_or_fault(shown_session(session)) == (match r {
            Ok(key) => Ok::<Seq<u8>, AppFault>(key@),
            Err(e) => Err::<Seq<u8>, AppFault>(e@),
        }),
{
    match session {
        Some(s) => Ok(copy_bytes(&s.secrets.master_key)),
        None => Err(expired_error()),
    }
}

/// The master key of a token's session.
pub fn master_key(store: &mut SessionStore, token: &str) -> (r: Result<Vec<u8>, AppError>)
    requires
        old(store).wf(),
    ensures
        final(store).wf(),
        exists|checked: u128, used: u128| ({
            let found = #[trigger] old(store)@.visit(token@, checked, used);
            &&& key_or_fault(found) == (match r {
                Ok(key) => Ok::<Seq<u8>, AppFault>(key@),
                Err(e) => Err::<Seq<u8>, AppFault>(e@),
            })
            &&& final(store)@ == old(store)@.visited(token@, found)
        }),
        r matches Ok(key) ==> old(store)@.sessions.contains_key(token@) && key@
            == old(store)@.sessions[token@].secrets.master_key,
        r matches Err(e) ==> e.status == 401 && !final(store)@.sessions.contains_key(token@),
{
    match store.with_session(token) {
        Some(session) => session_key(Some(&*session)),
        None => session_key(None),
    }
}

/// A session with what was loaded for it.
pub open spec fn with_library(session: SessionView, synced: SyncedView) -> SessionView {
    SessionView { library: Some(synced.library), people: synced.people, ..session }
}

/// A session, where there is one, with what was loaded for it.
pub open spec fn loaded(found: Option<SessionView>, synced: SyncedView) -> Option<SessionView> {
    match found {
        Some(session) => Some(with_library(session, synced)),
        None => None,
    }
}

/// Keeps what was loaded in a session.
pub fn keep_library(session: &mut Session, synced: Synced)
    requires
        old(session).wf(),
        synced.wf(),
    ensures
        final(session).wf(),
        final(session)@ == with_library(old(session)@, synced@),
{
    session.library = Some(synced.library);
    session.people = synced.people;
}

/// What came of a loading.
pub open spec fn synced_outcome(r: Result<Synced, EnteApiError>) -> Result<SyncedView, ApiFault> {
    match r {
        Ok(synced) => Ok(synced@),
        Err(e) => Err(e@),
    }
}

/// Keeps what was loaded for a session. A failed loading changes nothing, and
/// a session that ended meanwhile gets nothing.
pub fn ensure_library(
    store: &mut SessionStore,
    token: &str,
    synced: Result<Synced, EnteApiError>,
) -> (r: Result<(), AppError>)
    requires
        old(store).wf(),
        synced matches Ok(s) ==> s.wf(),
    ensures
        final(store).wf(),
        match synced_outcome(synced) {
            Err(fault) => {
                &&& r matches Err(e) && e@ == upstream_fault(fault)
                &&& final(store)@ == old(store)@
            },
            Ok(shown) => exists|checked: u128, used: u128| ({
                let found = #[trigger] old(store)@.visit(token@, checked, used);
                &&& final(store)@ == old(store)@.visited(token@, loaded(found, shown))
                &&& found is Some ==> r is Ok
                &&& found is None ==> (r matches Err(e) && e@ == expired_fault())
            }),
        },
        r is Ok ==> {
            &&& synced_outcome(synced) matches Ok(shown)
            &&& final(store)@.sessions.contains_key(token@)
            &&& final(store)@.sessions[token@].library == Some(shown.library)
            &&& final(store)@.sessions[token@].people == shown.people
        },
{
    let fresh = match synced {
        Ok(s) => s,
        Err(e) => return Err(upstream_error(&e)),
    };
    match store.with_session(token) {
        Some(session) => {
            keep_library(session, fresh);
            Ok(())
        },
        None => Err(expired_error()),
    }
}

// ---------------------------------- images ---------------------------------

/// How many images a listing gives where the request does not say.
pub fn default_limit() -> (r: usize)
    ensures
        r == 500,
{
    500
}

/// The limit of a page, within its bounds.
pub open spec fn clamped_limit(limit: usize) -> int {
    if limit < 1 {
        1
    } else if limit > 10000 {
        10000
    } else {
        limit as int
    }
}

/// The part of a listing from `offset`, at most `limit` long.
pub open spec fn page_of<T>(items: Seq<T>, offset: int, limit: int) -> Seq<T> {
    if offset >= items.len() {
        Seq::empty()
    } else if items.len() - offset <= limit {
        items.skip(offset)
    } else {
        items.subrange(offset, offset + limit)
    }
}

/// The documents of files.
pub open spec fn image_docs(settings: Settings, files: Seq<ImageView>) -> Seq<DocTree> {
    files.map_values(|f: ImageView| f.doc(settings.blob_url(f.id)))
}

/// The files with the given keys.
pub open spec fn files_with(files: Map<i64, ImageView>, keys: Seq<i64>) -> Seq<ImageView> {
    keys.map_values(|k: i64| files[k])
}

/// The answer to a request for images: how many there are, and one page.
pub open spec fn images_fields(
    settings: Settings,
    files: Map<i64, ImageView>,
    keys: Seq<i64>,
    limit: usize,
    offset: usize,
) -> Seq<(Seq<char>, DocTree)> {
    seq![
        ("count"@, DocTree::Count(keys.len() as usize)),
        (
            "images"@,
            DocTree::List(
                image_docs(
                    settings,
                    files_with(files, page_of(keys, offset as int, clamped_limit(limit))),
                ),
            ),
        ),
    ]
}

/// Whether `doc` answers a request for images of the library `files`.
pub open spec fn lists_images(
    settings: Settings,
    files: Map<i64, ImageView>,
    f: FilterView,
    limit: usize,
    offset: usize,
    doc: DocTree,
) -> bool {
    exists|keys: Seq<i64>|
        #![trigger is_listing(files, f, keys)]
        is_listing(files, f, keys) && keys.len() <= usize::MAX && doc == DocTree::Fields(
            images_fields(settings, files, keys, limit, offset),
        )
}

/// One page of the images of a library that pass a filter.
pub fn image_page(
    settings: &Settings,
    library: &HashMap<i64, ImageFile>,
    filter: &ImageFilter,
    limit: usize,
    offset: usize,
) -> (r: Doc)
    ensures
        lists_images(*settings, library_view(library@), filter@, limit, offset, r@),
{
    let matched = filter_images(library, filter);
    let ghost shown = library_view(library@);
    let ghost keys = choose|keys: Seq<i64>|
        #![trigger is_listing(shown, filter@, keys)]
        is_listing(shown, filter@, keys) && shows_files(shown, keys, matched@);
    let total: usize = matched.len();
    let most: usize = if limit < 1 {
        1
    } else if limit > 10000 {
        10000
    } else {
        limit
    };
    let start: usize = if offset >= total {
        total
    } else {
        offset
    };
    let end: usize = if total - start <= most {
        total
    } else {
        start + most
    };
    let ghost page = page_of(keys, offset as int, clamped_limit(limit));
    assert(page =~= keys.subrange(start as int, end as int));
    let mut items: Vec<Doc> = Vec::new();
    let mut i: usize = start;
    while i < end
        invariant
            start <= i <= end <= matched@.len(),
            shows_files(shown, keys, matched@),
            items@.len() == i - start,
            forall|j: int|
                0 <= j < items@.len() ==> (#[trigger] items@[j])@ == shown[keys[start + j]].doc(
                    settings.blob_url(shown[keys[start + j]].id),
                ),
        decreases end - i,
    {
        let file = matched[i];
        assert(file@ == shown[keys[i as int]]);
        items.push(file.as_json(settings.download_url(file.id).as_str()));
        i += 1;
    }
    assert(item_trees(items@) =~= image_docs(*settings, files_with(shown, page)));
    let mut fields = no_fields();
    put(&mut fields, "count", Doc::Count(total));
    put(&mut fields, "images", list(items));
    assert(field_trees(fields@) =~= images_fields(*settings, shown, keys, limit, offset));
    object(fields)
}

/// Answers a request for images.
pub fn list_images(
    settings: &Settings,
    store: &mut SessionStore,
    token: &str,
    filter: &ImageFilter,
    limit: usize,
    offset: usize,
) -> (r: Result<Doc, AppError>)
    requires
        old(store).wf(),
        library_ready(old(store)@, token@),
    ensures
        final(store).wf(),
        exists|checked: u128, used: u128| ({
            let found = #[trigger] old(store)@.visit(token@, checked, used);
            &&& final(store)@ == old(store)@.visited(token@, found)
            &&& match (found, doc_outcome(r)) {
                (Some(session), Ok(doc)) => lists_images(
                    *settings,
                    session.library->0,
                    filter@,
                    limit,
                    offset,
                    doc,
                ),
                (None, Err(e)) => e == expired_fault(),
                _ => false,
            }
        }),
{
    match store.with_session(token) {
        Some(session) => match &session.library {
            Some(library) => Ok(image_page(settings, library, filter, limit, offset)),
            None => Err(expired_error()),
        },
        None => Err(expired_error()),
    }
}

// ---------------------------------- people ---------------------------------

/// The fields of a person's summary.
pub open spec fn person_fields(row: (String, String, usize)) -> Seq<(Seq<char>, DocTree)> {
    seq![
        ("id"@, DocTree::Text(row.0@)),
        ("name"@, DocTree::Text(row.1@)),
        ("imageCount"@, DocTree::Count(row.2)),
    ]
}

/// The documents of the summaries.
pub open spec fn person_docs(rows: Seq<(String, String, usize)>) -> Seq<DocTree> {
    rows.map_values(|row: (String, String, usize)| DocTree::Fields(person_fields(row)))
}

/// The answer to a request for people.
pub open spec fn people_fields(rows: Seq<(String, String, usize)>) -> Seq<(Seq<char>, DocTree)> {
    seq![
        ("count"@, DocTree::Count(rows.len() as usize)),
        ("people"@, DocTree::List(person_docs(rows))),
    ]
}

/// Whether `rows` are the summaries of a session's people.
pub open spec fn session_summary(
    people: Option<PeopleView>,
    library: Map<i64, ImageView>,
    rows: Seq<(String, String, usize)>,
) -> bool {
    match people {
        Some(index) => summarises(index, library, rows),
        None => rows.len() == 0,
    }
}

/// The document of the summaries.
pub fn people_doc(rows: &Vec<(String, String, usize)>) -> (r: Doc)
    ensures
        r@ == DocTree::Fields(people_fields(rows@)),
{
    let mut items: Vec<Doc> = Vec::new();
    let mut i: usize = 0;
    while i < rows.len()
        invariant
            i <= rows@.len(),
            items@.len() == i,
            forall|j: int|
                0 <= j < i ==> (#[trigger] items@[j])@ == DocTree::Fields(person_fields(rows@[j])),
        decreases rows@.len() - i,
    {
        let mut fields = no_fields();
        put(&mut fields, "id", text(rows[i].0.as_str()));
        put(&mut fields, "name", text(rows[i].1.as_str()));
        put(&mut fields, "imageCount", Doc::Count(rows[i].2));
        assert(field_trees(fields@) =~= person_fields(rows@[i as int]));
        items.push(object(fields));
        i += 1;
    }
    assert(item_trees(items@) =~= person_docs(rows@));
    let mut fields = no_fields();
    put(&mut fields, "count", Doc::Count(items.len()));
    put(&mut fields, "people", list(items));
    assert(field_trees(fields@) =~= people_fields(rows@));
    object(fields)
}

/// What an optional index shows.
pub open spec fn opt_people(people: Option<PeopleIndex>) -> Option<PeopleView> {
    match people {
        Some(index) => Some(index@),
        None => None,
    }
}

/// The summaries of a session's people.
fn summary_rows(people: &Option<PeopleIndex>, library: &HashMap<i64, ImageFile>) -> (r: Vec<
    (String, String, usize),
>)
    requires
        *people matches Some(index) ==> index.wf(),
    ensures
        session_summary(opt_people(*people), library_view(library@), r@),
{
    match people {
        Some(index) => index.summaries(library),
        None => Vec::new(),
    }
}

/// The document of a session's people.
pub fn session_people(session: &Session, library: &HashMap<i64, ImageFile>) -> (r: Doc)
    requires
        session.wf(),
    ensures
        exists|rows: Seq<(String, String, usize)>|
            #![trigger people_fields(rows)]
            session_summary(session@.people, library_view(library@), rows) && r@
                == DocTree::Fields(people_fields(rows)),
{
    let rows = summary_rows(&session.people, library);
    let doc = people_doc(&rows);
    assert(doc@ == DocTree::Fields(people_fields(rows@)));
    doc
}

/// Answers a request for people.
pub fn list_people(store: &mut SessionStore, token: &str) -> (r: Result<Doc, AppError>)
    requires
        old(store).wf(),
        library_ready(old(store)@, token@),
    ensures
        final(store).wf(),
        exists|checked: u128, used: u128| ({
            let found = #[trigger] old(store)@.visit(token@, checked, used);
            &&& final(store)@ == old(store)@.visited(token@, found)
            &&& match (found, doc_outcome(r)) {
                (Some(session), Ok(doc)) => exists|rows: Seq<(String, String, usize)>|
                    #![trigger people_fields(rows)]
                    session_summary(session.people, session.library->0, rows) && doc
                        == DocTree::Fields(people_fields(rows)),
                (None, Err(e)) => e == expired_fault(),
                _ => false,
            }
        }),
{
    match store.with_session(token) {
        Some(session) => match &session.library {
            Some(library) => Ok(session_people(&*session, library)),
            None => Err(expired_error()),
        },
        None => Err(expired_error()),
    }
}

// ------------------------------- single images -----------------------------

/// The image with an id in a session's library: 401 without a session, 404
/// without such an image.
pub open spec fn image_or_fault(found: Option<SessionView>, id: i64) -> Result<
    ImageView,
    AppFault,
> {
    match found {
        None => Err(expired_fault()),
        Some(session) => match session.library {
            Some(files) => if files.contains_key(id) && !files[id].is_deleted {
                Ok(files[id])
            } else {
                Err(missing_fault())
            },
            None => Err(missing_fault()),
        },
    }
}

/// Looks an image up in a session.
pub fn session_image(session: Option<&Session>, image_id: i64) -> (r: Result<ImageFile, AppError>)
    ensures
        image_or_fault(shown_session(session), image_id) == (match r {
            Ok(file) => Ok::<ImageView, AppFault>(file@),
            Err(e) => Err::<ImageView, AppFault>(e@),
        }),
{
    broadcast use vstd::std_specs::hash::group_hash_axioms;

    match session {
        None => Err(expired_error()),
        Some(s) => match &s.library {
            None => Err(missing_error()),
            Some(files) => match files.get(&image_id) {
                Some(file) => if file.is_deleted {
                    Err(missing_error())
                } else {
                    Ok(file.clone())
                },
                None => Err(missing_error()),
            },
        },
    }
}

/// Looks an image up.
pub fn find_image(store: &mut SessionStore, token: &str, image_id: i64) -> (r: Result<
    ImageFile,
    AppError,
>)
    requires
        old(store).wf(),
    ensures
        final(store).wf(),
        exists|checked: u128, used: u128| ({
            let found = #[trigger] old(store)@.visit(token@, checked, used);
            &&& image_or_fault(found, image_id) == (match r {
                Ok(file) => Ok::<ImageView, AppFault>(file@),
                Err(e) => Err::<ImageView, AppFault>(e@),
            })
            &&& final(store)@ == old(store)@.visited(token@, found)
        }),
        r matches Ok(file) ==> old(store)@.sessions.contains_key(token@) && (
        old(store)@.sessions[token@].library matches Some(files) && files.contains_key(image_id)
            && files[image_id] == file@ && !file@.is_deleted),
{
    match store.with_session(token) {
        Some(session) => session_image(Some(&*session), image_id),
        None => session_image(None, image_id),
    }
}

/// A session whose library has lost an image.
pub open spec fn library_without(session: SessionView, id: i64) -> SessionView {
    SessionView {
        library: match session.library {
            Some(files) => Some(files.remove(id)),
            None => None,
        },
        ..session
    }
}

/// A session, where there is one, whose library has lost an image.
pub open spec fn without_image(found: Option<SessionView>, id: i64) -> Option<SessionView> {
    match found {
        Some(session) => Some(library_without(session, id)),
        None => None,
    }
}

/// Takes an image out of a session's library.
pub fn forget_image(session: &mut Session, image_id: i64)
    requires
        old(session).wf(),
    ensures
        final(session).wf(),
        final(session)@ == library_without(old(session)@, image_id),
{
    broadcast use vstd::std_specs::hash::group_hash_axioms;

    let mut library: Option<HashMap<i64, ImageFile>> = None;
    std::mem::swap(&mut library, &mut session.library);
    if let Some(files) = library {
        let ghost before = library_view(files@);
        let mut rest = files;
        rest.remove(&image_id);
        assert(library_view(rest@) =~= before.remove(image_id));
        session.library = Some(rest);
    }
}

/// Answers the deletion of an image that the museum has trashed: it leaves the
/// session's library too.
pub fn delete_image(store: &mut SessionStore, token: &str, image_id: i64) -> (r: u16)
    requires
        old(store).wf(),
    ensures
        final(store).wf(),
        r == 204,
        exists|checked: u128, used: u128|
            final(store)@ == old(store)@.visited(
                token@,
                without_image(#[trigger] old(store)@.visit(token@, checked, used), image_id),
            ),
        final(store)@.sessions.contains_key(token@) ==> (
        final(store)@.sessions[token@].library matches Some(left) ==> !left.contains_key(image_id)),
{
    if let Some(session) = store.with_session(token) {
        forget_image(session, image_id);
    }
    204
}

/// The name under which an image is offered: its title, or its id.
pub open spec fn offered_name(file: ImageView, image_id: i64) -> Seq<char> {
    match file.title {
        Some(title) => title,
        None => decimal(image_id as int),
    }
}

/// The headers of an answer with an image.
pub open spec fn image_headers(
    settings: Settings,
    file: ImageView,
    image_id: i64,
    data: Seq<u8>,
) -> Seq<(Seq<char>, Seq<char>)> {
    seq![
        ("content-type"@, media_type_of(data)),
        (
            "content-disposition"@,
            "inline; filename=\""@ + offered_name(file, image_id) + "\""@,
        ),
        ("X-Encrypted-Download-Url"@, settings.blob_url(file.id)),
    ]
}

/// The headers of an answer with an image.
pub fn get_image(settings: &Settings, file: &ImageFile, image_id: i64, data: &[u8]) -> (r: Vec<
    (String, String),
>)
    ensures
        pairs(r@) == image_headers(*settings, file@, image_id, data@),
{
    let filename = match &file.title {
        Some(title) => title.clone(),
        None => i64_text(image_id),
    };
    let start = joined("inline; filename=\"", filename.as_str());
    let disposition = joined(start.as_str(), "\"");
    let mut headers: Vec<(String, String)> = Vec::new();
    assert(pairs(headers@) =~= Seq::empty());
    push_pair(&mut headers, "content-type", sniff_media_type(data));
    push_pair(&mut headers, "content-disposition", disposition.as_str());
    push_pair(
        &mut headers,
        "X-Encrypted-Download-Url",
        settings.download_url(file.id).as_str(),
    );
    assert(pairs(headers@) =~= image_headers(*settings, file@, image_id, data@));
    headers
}

/// Whether bytes have a part at a position.
pub open spec fn bytes_at(data: Seq<u8>, at: int, part: Seq<u8>) -> bool {
    at + part.len() <= data.len() && data.subrange(at, at + part.len()) == part
}

/// The media type that the first bytes of a file show.
pub open spec fn media_type_of(data: Seq<u8>) -> Seq<char> {
    if bytes_at(data, 0, seq![0xffu8, 0xd8, 0xff]) {
        "image/jpeg"@
    } else if bytes_at(data, 0, seq![0x89u8, 0x50, 0x4e, 0x47, 0x0d, 0x0a, 0x1a, 0x0a]) {
        "image/png"@
    } else if bytes_at(data, 0, seq![0x47u8, 0x49, 0x46, 0x38, 0x37, 0x61]) {
        "image/gif"@
    } else if bytes_at(data, 0, seq![0x47u8, 0x49, 0x46, 0x38, 0x39, 0x61]) {
        "image/gif"@
    } else if bytes_at(data, 0, seq![0x42u8, 0x4d]) {
        "image/bmp"@
    } else if data.len() >= 12 && bytes_at(data, 4, seq![0x66u8, 0x74, 0x79, 0x70]) {
        if heif_brand(data.subrange(8, 12)) {
            "image/heic"@
        } else if data.subrange(8, 12) == seq![0x61u8, 0x76, 0x69, 0x66] {
            "image/avif"@
        } else {
            "application/octet-stream"@
        }
    } else {
        "application/octet-stream"@
    }
}

/// The brands heic, heix, mif1 and heim.
pub open spec fn heif_brand(brand: Seq<u8>) -> bool {
    ||| brand == seq![0x68u8, 0x65, 0x69, 0x63]
    ||| brand == seq![0x68u8, 0x65, 0x69, 0x78]
    ||| brand == seq![0x6du8, 0x69, 0x66, 0x31]
    ||| brand == seq![0x68u8, 0x65, 0x69, 0x6d]
}

fn has_bytes(data: &[u8], at: usize, part: &[u8]) -> (r: bool)
    requires
        at <= 8,
        part@.len() <= 8,
    ensures
        r == bytes_at(data@, at as int, part@),
{
    if data.len() < at + part.len() {
        return false;
    }
    let mut i: usize = 0;
    while i < part.len()
        invariant
            at <= 8,
            i <= part@.len() <= 8,
            at + part@.len() <= data@.len(),
            forall|j: int| 0 <= j < i ==> data@[at + j] == part@[j],
        decreases part@.len() - i,
    {
        if data[at + i] != part[i] {
            assert(data@.subrange(at as int, at + part@.len())[i as int] != part@[i as int]);
            return false;
        }
        i += 1;
    }
    assert(data@.subrange(at as int, at + part@.len()) =~= part@);
    true
}

/// Tells the media type of an image from its first bytes.
pub fn sniff_media_type(data: &[u8]) -> (r: &'static str)
    ensures
        r@ == media_type_of(data@),
{
    let jpeg: [u8; 3] = [0xff, 0xd8, 0xff];
    let png: [u8; 8] = [0x89, 0x50, 0x4e, 0x47, 0x0d, 0x0a, 0x1a, 0x0a];
    let gif87: [u8; 6] = [0x47, 0x49, 0x46, 0x38, 0x37, 0x61];
    let gif89: [u8; 6] = [0x47, 0x49, 0x46, 0x38, 0x39, 0x61];
    let bmp: [u8; 2] = [0x42, 0x4d];
    let ftyp: [u8; 4] = [0x66, 0x74, 0x79, 0x70];
    let heic: [u8; 4] = [0x68, 0x65, 0x69, 0x63];
    let heix: [u8; 4] = [0x68, 0x65, 0x69, 0x78];
    let mif1: [u8; 4] = [0x6d, 0x69, 0x66, 0x31];
    let heim: [u8; 4] = [0x68, 0x65, 0x69, 0x6d];
    let avif: [u8; 4] = [0x61, 0x76, 0x69, 0x66];
    assert(jpeg@ =~= seq![0xffu8, 0xd8, 0xff]);
    assert(png@ =~= seq![0x89u8, 0x50, 0x4e, 0x47, 0x0d, 0x0a, 0x1a, 0x0a]);
    assert(gif87@ =~= seq![0x47u8, 0x49, 0x46, 0x38, 0x37, 0x61]);
    assert(gif89@ =~= seq![0x47u8, 0x49, 0x46, 0x38, 0x39, 0x61]);
    assert(bmp@ =~= seq![0x42u8, 0x4d]);
    assert(ftyp@ =~= seq![0x66u8, 0x74, 0x79, 0x70]);
    assert(heic@ =~= seq![0x68u8, 0x65, 0x69, 0x63]);
    assert(heix@ =~= seq![0x68u8, 0x65, 0x69, 0x78]);
    assert(mif1@ =~= seq![0x6du8, 0x69, 0x66, 0x31]);
    assert(heim@ =~= seq![0x68u8, 0x65, 0x69, 0x6d]);
    assert(avif@ =~= seq![0x61u8, 0x76, 0x69, 0x66]);
    if has_bytes(data, 0, &jpeg) {
        return "image/jpeg";
    }
    if has_bytes(data, 0, &png) {
        return "image/png";
    }
    if has_bytes(data, 0, &gif87) || has_bytes(data, 0, &gif89) {
        return "image/gif";
    }
    if has_bytes(data, 0, &bmp) {
        return "image/bmp";
    }
    if data.len() >= 12 && has_bytes(data, 4, &ftyp) {
        if has_bytes(data, 8, &heic) || has_bytes(data, 8, &heix) || has_bytes(data, 8, &mif1)
            || has_bytes(data, 8, &heim) {
            return "image/heic";
        }
        if has_bytes(data, 8, &avif) {
            return "image/avif";
        }
    }
    "application/octet-stream"
}

// ----------------------------------- laws ----------------------------------

/// Pages tile a listing: two pages that follow each other are one page of both
/// lengths.
pub proof fn pages_tile_a_listing<T>(items: Seq<T>, offset: int, first: int, second: int)
    requires
        0 <= offset,
        0 < first,
        0 < second,
    ensures
        page_of(items, offset, first) + page_of(items, offset + first, second) == page_of(
            items,
            offset,
            first + second,
        ),
        page_of(items, offset, first).len() <= first,
{
    assert(page_of(items, offset, first) + page_of(items, offset + first, second) =~= page_of(
        items,
        offset,
        first + second,
    ));
}

/// A code that the museum refuses is answered with 401. Where the museum failed
/// to check the code, the answer is 502. Neither opens a session.
pub proof fn failed_second_factor_is_told_apart(
    before: StoreView,
    kek: Seq<u8>,
    e: ApiFault,
    drawn: Seq<u8>,
    at: u128,
    reply: Result<DocTree, AppFault>,
    after: StoreView,
)
    requires
        two_factor_answers(before, after_totp(kek, Err(e)), drawn, at, reply, after),
    ensures
        refuses_code(e) ==> reply == Err::<DocTree, AppFault>(
            AppFault { status: 401, detail: "invalid two-factor code"@ },
        ),
        !refuses_code(e) ==> reply == Err::<DocTree, AppFault>(upstream_fault(e)),
        after == before,
{
}

/// A session that is logged out is refused, at any time.
pub proof fn logged_out_token_is_refused(
    settings: Settings,
    store: StoreView,
    token: Seq<char>,
    checked: u128,
    used: u128,
    image_id: i64,
)
    ensures
        ({
            let found = store.drop(token).visit(token, checked, used);
            &&& client_or_fault(settings, found) == Err::<ClientView, AppFault>(expired_fault())
            &&& needs_library(found, true) == Err::<bool, AppFault>(expired_fault())
            &&& image_or_fault(found, image_id) == Err::<ImageView, AppFault>(expired_fault())
        }),
{
}

/// An image that was deleted is not found any more; other images are.
pub proof fn deleted_image_is_missing(session: SessionView, id: i64, other: i64)
    ensures
        image_or_fault(without_image(Some(session), id), id) == Err::<ImageView, AppFault>(
            missing_fault(),
        ),
        other != id ==> image_or_fault(without_image(Some(session), id), other)
            == image_or_fault(Some(session), other),
{
}

/// After a loading was kept, the library is there, and stays there on visits.
pub proof fn loaded_library_is_ready(
    store: StoreView,
    token: Seq<char>,
    found: Option<SessionView>,
    synced: SyncedView,
    checked: u128,
    used: u128,
)
    ensures
        ({
            let after = store.visited(token, loaded(found, synced));
            &&& library_ready(after, token)
            &&& library_ready(after.visited(token, after.visit(token, checked, used)), token)
            &&& needs_library(after.visit(token, checked, used), false) != Ok::<bool, AppFault>(true)
        }),
{
}

/// A token from a header is not empty and has no white space around it.
pub proof fn tokens_are_trimmed(header: Option<Seq<char>>)
    ensures
        token_in(header) matches Some(token) ==> token.len() > 0 && !white_space(token[0])
            && !white_space(token.last()),
{
    if let Some(value) = header {
        if let Some(rest) = after_scheme(value) {
            trimmed_has_no_edges(rest);
        }
    }
}

} // verus!
