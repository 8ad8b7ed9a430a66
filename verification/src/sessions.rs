//! In-memory session store.
//!
//! Holds decrypted account secrets keyed by an opaque token, plus short-lived
//! pending-2FA entries. Nothing is persisted: secrets live only in process
//! memory and are lost on restart, by design.
//!
//! Times are nanoseconds since the Unix epoch.

use crate::account::{AccountSecrets, SecretsView};
use crate::encoding::{base64_bare, encode_url_safe_bare, Alphabet};
use crate::files::{library_view, ImageFile, ImageView};
use crate::people::{PeopleIndex, PeopleView};
use crate::random::random_bytes;
use crate::text_map::TextMap;
use std::collections::HashMap;
use std::time::{SystemTime, UNIX_EPOCH};
use vstd::prelude::*;

verus! {

pub const NANOS_PER_SECOND: u128 = 1_000_000_000;

/// How long a login may wait for its second factor, in seconds.
pub const PENDING_SECONDS: u64 = 600;

/// `SystemTime::now`, as nanoseconds since `UNIX_EPOCH`: any time may come.
#[verifier::external_body]
fn now() -> u128 {
    SystemTime::now().duration_since(UNIX_EPOCH).unwrap_or_default().as_nanos()
}

/// A random token of `bytes` bytes.
fn random_token(bytes: usize) -> (r: String)
    ensures
        exists|b: Seq<u8>|
            b.len() == bytes && r@ == #[trigger] base64_bare(Alphabet::UrlSafe, b),
{
    let drawn = random_bytes(bytes);
    encode_url_safe_bare(drawn.as_slice())
}

/// Whether more than `seconds` passed from `start` to `end`.
pub open spec fn elapsed(start: u128, end: u128, seconds: u64) -> bool {
    end - start > seconds * NANOS_PER_SECOND
}

fn has_elapsed(start: u128, end: u128, seconds: u64) -> (r: bool)
    ensures
        r == elapsed(start, end, seconds),
{
    let limit: u128 = seconds as u128 * NANOS_PER_SECOND;
    end > start && end - start > limit
}

pub struct Session {
    pub secrets: AccountSecrets,
    pub created_at: u128,
    pub last_used: u128,
    pub library: Option<HashMap<i64, ImageFile>>,
    pub people: Option<PeopleIndex>,
}

/// The mathematical counterpart of `Session`.
#[verifier::ext_equal]
pub struct SessionView {
    pub secrets: SecretsView,
    pub created_at: u128,
    pub last_used: u128,
    pub library: Option<Map<i64, ImageView>>,
    pub people: Option<PeopleView>,
}

impl View for Session {
    type V = SessionView;

    open spec fn view(&self) -> SessionView {
        SessionView {
            secrets: self.secrets@,
            created_at: self.created_at,
            last_used: self.last_used,
            library: match self.library {
                Some(files) => Some(library_view(files@)),
                None => None,
            },
            people: match self.people {
                Some(index) => Some(index@),
                None => None,
            },
        }
    }
}

impl Session {
    pub open spec fn wf(&self) -> bool {
        self.people matches Some(index) ==> index.wf()
    }
}

/// A session that was just created.
pub open spec fn fresh_session(secrets: SecretsView, at: u128) -> SessionView {
    SessionView { secrets, created_at: at, last_used: at, library: None, people: None }
}

struct PendingTwoFactor {
    two_factor_session_id: String,
    kek: [u8; 32],
    created_at: u128,
}

/// A login that waits for its second factor.
pub struct PendingInfo {
    pub two_factor_session_id: String,
    pub kek: [u8; 32],
}

/// The mathematical counterpart of `PendingInfo`.
pub struct PendingView {
    pub two_factor_session_id: Seq<char>,
    pub kek: Seq<u8>,
}

impl View for PendingInfo {
    type V = PendingView;

    open spec fn view(&self) -> PendingView {
        PendingView { two_factor_session_id: self.two_factor_session_id@, kek: self.kek@ }
    }
}

/// The sessions and the pending logins.
pub struct SessionStore {
    ttl: u64,
    sessions: TextMap<Session>,
    pending: TextMap<PendingTwoFactor>,
}

/// The mathematical counterpart of `SessionStore`. A pending login stands with
/// the time at which it was made.
#[verifier::ext_equal]
pub struct StoreView {
    pub ttl: u64,
    pub sessions: Map<Seq<char>, SessionView>,
    pub pending: Map<Seq<char>, (PendingView, u128)>,
}

impl View for SessionStore {
    type V = StoreView;

    closed spec fn view(&self) -> StoreView {
        StoreView {
            ttl: self.ttl,
            sessions: self.sessions@.map_values(|s: Session| s@),
            pending: self.pending@.map_values(
                |p: PendingTwoFactor|
                    (
                        PendingView {
                            two_factor_session_id: p.two_factor_session_id@,
                            kek: p.kek@,
                        },
                        p.created_at,
                    ),
            ),
        }
    }
}

impl StoreView {
    /// Whether a token names a session that has not expired.
    pub open spec fn live(self, token: Seq<char>, at: u128) -> bool {
        self.sessions.contains_key(token) && !elapsed(
            self.sessions[token].last_used,
            at,
            self.ttl,
        )
    }

    /// The store with another session under a token.
    pub open spec fn put(self, token: Seq<char>, session: SessionView) -> StoreView {
        StoreView { sessions: self.sessions.insert(token, session), ..self }
    }

    /// The store without the session of a token.
    pub open spec fn drop(self, token: Seq<char>) -> StoreView {
        StoreView { sessions: self.sessions.remove(token), ..self }
    }

    /// The session of a token, used at `at`.
    pub open spec fn used(self, token: Seq<char>, at: u128) -> SessionView {
        SessionView { last_used: at, ..self.sessions[token] }
    }

    /// The session that a visit finds: a live one, used now.
    pub open spec fn visit(self, token: Seq<char>, checked: u128, used: u128) -> Option<
        SessionView,
    > {
        if self.live(token, checked) {
            Some(self.used(token, used))
        } else {
            None
        }
    }

    /// The store after a visit that left the session as `found`; where none was
    /// found, the token names none any more.
    pub open spec fn visited(self, token: Seq<char>, found: Option<SessionView>) -> StoreView {
        match found {
            Some(session) => self.put(token, session),
            None => self.drop(token),
        }
    }

    /// The store with a pending login under a token.
    pub open spec fn put_pending(self, token: Seq<char>, info: PendingView, at: u128) -> StoreView {
        StoreView { pending: self.pending.insert(token, (info, at)), ..self }
    }

    /// The store without the pending login of a token.
    pub open spec fn drop_pending(self, token: Seq<char>) -> StoreView {
        StoreView { pending: self.pending.remove(token), ..self }
    }

    /// The pending login of a token, where it has not expired.
    pub open spec fn pending_info(self, token: Seq<char>, at: u128) -> Option<PendingView> {
        if self.pending.contains_key(token) && !elapsed(
            self.pending[token].1,
            at,
            PENDING_SECONDS,
        ) {
            Some(self.pending[token].0)
        } else {
            None
        }
    }
}

/// Whether a store can answer requests on the library of a token: where there
/// is a session, its library has been loaded.
pub open spec fn library_ready(store: StoreView, token: Seq<char>) -> bool {
    store.sessions.contains_key(token) ==> store.sessions[token].library is Some
}

/// What an optional pending login shows.
pub open spec fn opt_pending(r: Option<PendingInfo>) -> Option<PendingView> {
    match r {
        Some(info) => Some(info@),
        None => None,
    }
}

/// What an optional session shows.
pub open spec fn opt_session(r: Option<&mut Session>) -> Option<SessionView> {
    match r {
        Some(s) => Some((*s)@),
        None => None,
    }
}

impl SessionStore {
    pub closed spec fn wf(&self) -> bool {
        &&& self.sessions.wf()
        &&& self.pending.wf()
        &&& forall|t: Seq<char>| #[trigger]
            self.sessions@.contains_key(t) ==> self.sessions@[t].wf()
    }

    pub fn new(ttl_seconds: u64) -> (r: SessionStore)
        ensures
            r.wf(),
            r@ == (StoreView { ttl: ttl_seconds, sessions: Map::empty(), pending: Map::empty() }),
    {
        let r = SessionStore {
            ttl: ttl_seconds,
            sessions: TextMap::new(),
            pending: TextMap::new(),
        };
        assert(r@.sessions =~= Map::empty());
        assert(r@.pending =~= Map::empty());
        r
    }

    /// Enters a session under a token.
    pub fn create_at(&mut self, account: AccountSecrets, token: &str, at: u128)
        requires
            old(self).wf(),
        ensures
            final(self).wf(),
            final(self)@ == old(self)@.put(token@, fresh_session(account@, at)),
    {
        let ghost before = self@;
        let session = Session {
            secrets: account,
            created_at: at,
            last_used: at,
            library: None,
            people: None,
        };
        self.sessions.insert(token, session);
        assert(self@.sessions =~= before.sessions.insert(token@, fresh_session(account@, at)));
    }

    /// Enters a session under a new random token of 32 bytes.
    pub fn create(&mut self, account: AccountSecrets) -> (token: String)
        requires
            old(self).wf(),
        ensures
            final(self).wf(),
            exists|b: Seq<u8>|
                b.len() == 32 && token@ == #[trigger] base64_bare(Alphabet::UrlSafe, b),
            exists|at: u128|
                final(self)@ == old(self)@.put(token@, #[trigger] fresh_session(account@, at)),
    {
        let token = random_token(32);
        let at: u128 = now();
        let ghost shown = fresh_session(account@, at);
        self.create_at(account, token.as_str(), at);
        token
    }

    /// A live (non-expired) session, whose last-used time is refreshed. `None`
    /// if the session is missing or expired; an expired one is dropped.
    pub fn with_session_at(&mut self, token: &str, checked: u128, used: u128) -> (r: Option<
        &mut Session,
    >)
        requires
            old(self).wf(),
        ensures
            opt_session(r) == old(self)@.visit(token@, checked, used),
            match r {
                Some(s) => {
                    &&& s.wf()
                    &&& (*final(s)).wf() ==> final(self).wf()
                    &&& final(self)@ == old(self)@.put(token@, (*final(s))@)
                },
                None => final(self).wf() && final(self)@ == old(self)@.drop(token@),
            },
    {
        let ghost before = self@;
        let expired: bool = match self.sessions.get(token) {
            Some(s) => has_elapsed(s.last_used, checked, self.ttl),
            None => {
                assert(before.drop(token@).sessions =~= before.sessions);
                return None;
            },
        };
        if expired {
            let _ = self.sessions.remove(token);
            assert(self@.sessions =~= before.sessions.remove(token@));
            return None;
        }
        match self.sessions.get_mut(token) {
            Some(session) => {
                session.last_used = used;
                Some(session)
            },
            None => None,
        }
    }

    /// `with_session_at` by the clock, which is read once to check and once to
    /// refresh.
    pub fn with_session(&mut self, token: &str) -> (r: Option<&mut Session>)
        requires
            old(self).wf(),
        ensures
            exists|checked: u128, used: u128|
                opt_session(r) == #[trigger] old(self)@.visit(token@, checked, used),
            match r {
                Some(s) => {
                    &&& s.wf()
                    &&& (*final(s)).wf() ==> final(self).wf()
                    &&& final(self)@ == old(self)@.put(token@, (*final(s))@)
                },
                None => final(self).wf() && final(self)@ == old(self)@.drop(token@),
            },
    {
        let checked: u128 = now();
        let used: u128 = now();
        self.with_session_at(token, checked, used)
    }

    /// Whether requests on the library of a token can be answered.
    pub fn library_is_ready(&self, token: &str) -> (r: bool)
        requires
            self.wf(),
        ensures
            r == library_ready(self@, token@),
    {
        match self.sessions.get(token) {
            Some(session) => session.library.is_some(),
            None => true,
        }
    }

    /// Drops the session of a token; tells whether there was one.
    pub fn delete(&mut self, token: &str) -> (r: bool)
        requires
            old(self).wf(),
        ensures
            final(self).wf(),
            r == old(self)@.sessions.contains_key(token@),
            final(self)@ == old(self)@.drop(token@),
    {
        let ghost before = self@;
        let r = self.sessions.remove(token).is_some();
        assert(self@.sessions =~= before.sessions.remove(token@));
        r
    }

    /// Enters a pending login under a token.
    pub fn create_pending_at(
        &mut self,
        two_factor_session_id: String,
        kek: [u8; 32],
        token: &str,
        at: u128,
    )
        requires
            old(self).wf(),
        ensures
            final(self).wf(),
            final(self)@ == old(self)@.put_pending(
                token@,
                PendingView { two_factor_session_id: two_factor_session_id@, kek: kek@ },
                at,
            ),
    {
        let ghost before = self@;
        let ghost info = PendingView {
            two_factor_session_id: two_factor_session_id@,
            kek: kek@,
        };
        self.pending.insert(
            token,
            PendingTwoFactor { two_factor_session_id, kek, created_at: at },
        );
        assert(self@.pending =~= before.pending.insert(token@, (info, at)));
    }

    /// Enters a pending login under a new random token of 24 bytes.
    pub fn create_pending(&mut self, two_factor_session_id: String, kek: [u8; 32]) -> (token:
        String)
        requires
            old(self).wf(),
        ensures
            final(self).wf(),
            exists|b: Seq<u8>|
                b.len() == 24 && token@ == #[trigger] base64_bare(Alphabet::UrlSafe, b),
            exists|at: u128|
                final(self)@ == #[trigger] old(self)@.put_pending(
                    token@,
                    PendingView { two_factor_session_id: two_factor_session_id@, kek: kek@ },
                    at,
                ),
    {
        let token = random_token(24);
        let at: u128 = now();
        self.create_pending_at(two_factor_session_id, kek, token.as_str(), at);
        token
    }

    /// Takes the pending login of a token out of the store. One that has waited
    /// too long is dropped.
    pub fn pop_pending_at(&mut self, token: &str, at: u128) -> (r: Option<PendingInfo>)
        requires
            old(self).wf(),
        ensures
            final(self).wf(),
            opt_pending(r) == old(self)@.pending_info(token@, at),
            final(self)@ == old(self)@.drop_pending(token@),
    {
        let ghost before = self@;
        let removed = self.pending.remove(token);
        assert(self@.pending =~= before.pending.remove(token@));
        match removed {
            Some(p) => {
                if has_elapsed(p.created_at, at, PENDING_SECONDS) {
                    return None;
                }
                Some(PendingInfo { two_factor_session_id: p.two_factor_session_id, kek: p.kek })
            },
            None => None,
        }
    }

    /// `pop_pending_at` by the clock.
    pub fn pop_pending(&mut self, token: &str) -> (r: Option<PendingInfo>)
        requires
            old(self).wf(),
        ensures
            final(self).wf(),
            exists|at: u128| opt_pending(r) == #[trigger] old(self)@.pending_info(token@, at),
            final(self)@ == old(self)@.drop_pending(token@),
    {
        let at: u128 = now();
        self.pop_pending_at(token, at)
    }
}

// ----------------------------------- laws ----------------------------------

/// A session that was created answers under its token with the secrets it was
/// created for, until it has been idle for longer than the time to live.
pub proof fn created_session_is_live(
    store: StoreView,
    token: Seq<char>,
    secrets: SecretsView,
    created: u128,
    at: u128,
)
    ensures
        ({
            let after = store.put(token, fresh_session(secrets, created));
            &&& after.live(token, at) <==> !elapsed(created, at, store.ttl)
            &&& after.sessions[token].secrets == secrets
        }),
{
}

/// Each use starts the time to live anew.
pub proof fn use_refreshes(store: StoreView, token: Seq<char>, used: u128, at: u128)
    ensures
        store.put(token, store.used(token, used)).live(token, at) <==> !elapsed(
            used,
            at,
            store.ttl,
        ),
{
}

/// A session that was dropped, by a logout or because it expired, never
/// answers again, and no other session notices.
pub proof fn dropped_session_is_gone(store: StoreView, token: Seq<char>, other: Seq<char>, at: u128)
    ensures
        !store.drop(token).live(token, at),
        other != token ==> store.drop(token).live(other, at) == store.live(other, at),
        other != token && store.sessions.contains_key(other) ==> store.drop(token).sessions[other]
            == store.sessions[other],
{
}

/// Using one session changes no other.
pub proof fn sessions_are_apart(
    store: StoreView,
    token: Seq<char>,
    session: SessionView,
    other: Seq<char>,
)
    requires
        other != token,
    ensures
        store.put(token, session).sessions.contains_key(other) == store.sessions.contains_key(
            other,
        ),
        store.sessions.contains_key(other) ==> store.put(token, session).sessions[other]
            == store.sessions[other],
        store.put(token, session).pending == store.pending,
{
}

/// A pending login can be taken once, within its time.
pub proof fn pending_login_is_taken_once(
    store: StoreView,
    token: Seq<char>,
    info: PendingView,
    made: u128,
    at: u128,
    later: u128,
)
    ensures
        ({
            let after = store.put_pending(token, info, made);
            &&& after.pending_info(token, at) == (if elapsed(made, at, PENDING_SECONDS) {
                None
            } else {
                Some(info)
            })
            &&& after.drop_pending(token).pending_info(token, later) is None
        }),
{
}

} // verus!
