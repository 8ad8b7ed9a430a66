//! Login to the museum (SRP) and decryption of the account's secrets.
//!
//! A login takes up to three requests. Each answer leads to the next request or
//! to the end; sending is left to the caller.

use crate::bigint::be_value;
use crate::client::{
    api_outcome, json_answer, pairs, push_pair, sent_view, ApiFault, ClientView, EnteApiError,
    HttpRequest, MuseumClient, Reply, RequestView,
};
use crate::crypto::{
    b64decode, b64encode, b64encode_url, base64_bytes, derive_key_encryption_key,
    derive_login_key, key_encryption_key, login_key_of, sealed_box_open, sealed_box_opened,
    secretbox_open, secretbox_opened, CryptoError, CryptoFault,
};
use crate::doc::{field_trees, no_fields, object, opt_text, put, text, DocTree};
use crate::encoding::{base64_padded, Alphabet};
use crate::json::{Json, JsonTree};
use crate::srp::{minimal_bytes, modulus, private_x, proof_m1, public_value, SrpClient};
use crate::tables::copy_bytes;
use crate::text::joined;
use vstd::prelude::*;
use vstd::utf8::encode_utf8;

verus! {

#[derive(Debug)]
pub enum LoginError {
    Recoverable(String),
    /// Login requires a flow this adapter does not implement (passkey/email).
    Unsupported(String),
    /// 2FA required: carries session id and the KEK needed to decrypt later.
    TwoFactorRequired { session_id: String, kek: [u8; 32] },
    Api(EnteApiError),
}

/// The mathematical counterpart of `LoginError`.
pub enum LoginFault {
    Recoverable(Seq<char>),
    Unsupported(Seq<char>),
    TwoFactorRequired { session_id: Seq<char>, kek: Seq<u8> },
    Api(ApiFault),
}

impl View for LoginError {
    type V = LoginFault;

    open spec fn view(&self) -> LoginFault {
        match self {
            LoginError::Recoverable(m) => LoginFault::Recoverable(m@),
            LoginError::Unsupported(m) => LoginFault::Unsupported(m@),
            LoginError::TwoFactorRequired { session_id, kek } => LoginFault::TwoFactorRequired {
                session_id: session_id@,
                kek: kek@,
            },
            LoginError::Api(e) => LoginFault::Api(e@),
        }
    }
}

impl LoginFault {
    /// The fault in words.
    pub open spec fn words(self) -> Seq<char> {
        match self {
            LoginFault::Recoverable(m) => m,
            LoginFault::Unsupported(m) => m,
            LoginFault::TwoFactorRequired { .. } => "two-factor authentication required"@,
            LoginFault::Api(e) => e.words(),
        }
    }
}

impl LoginError {
    /// The error in words.
    pub fn message(&self) -> (r: String)
        ensures
            r@ == self@.words(),
    {
        match self {
            LoginError::Recoverable(m) => m.clone(),
            LoginError::Unsupported(m) => m.clone(),
            LoginError::TwoFactorRequired {
                ..
            } => "two-factor authentication required".to_owned(),
            LoginError::Api(e) => e.message(),
        }
    }
}

/// The secrets of an account that is logged in.
pub struct AccountSecrets {
    pub user_id: i64,
    pub token: String,
    pub master_key: Vec<u8>,
    pub secret_key: Vec<u8>,
    pub public_key: Vec<u8>,
}

/// The mathematical counterpart of `AccountSecrets`.
pub struct SecretsView {
    pub user_id: i64,
    pub token: Seq<char>,
    pub master_key: Seq<u8>,
    pub secret_key: Seq<u8>,
    pub public_key: Seq<u8>,
}

impl View for AccountSecrets {
    type V = SecretsView;

    open spec fn view(&self) -> SecretsView {
        SecretsView {
            user_id: self.user_id,
            token: self.token@,
            master_key: self.master_key@,
            secret_key: self.secret_key@,
            public_key: self.public_key@,
        }
    }
}

impl Clone for AccountSecrets {
    fn clone(&self) -> (r: AccountSecrets)
        ensures
            r@ == self@,
    {
        AccountSecrets {
            user_id: self.user_id,
            token: self.token.clone(),
            master_key: copy_bytes(&self.master_key),
            secret_key: copy_bytes(&self.secret_key),
            public_key: copy_bytes(&self.public_key),
        }
    }
}

/// What a caller sees of the end of a login.
pub open spec fn login_outcome(r: Result<AccountSecrets, LoginError>) -> Result<
    SecretsView,
    LoginFault,
> {
    match r {
        Ok(secrets) => Ok(secrets@),
        Err(e) => Err(e@),
    }
}

// --------------------------------- secrets ---------------------------------

/// The field `key` as text, which must be there.
pub open spec fn needed(v: JsonTree, key: Seq<char>) -> Result<Seq<char>, LoginFault> {
    match v.printed_field(key) {
        Some(s) => Ok(s),
        None => Err(LoginFault::Recoverable("missing "@ + key)),
    }
}

/// A failed operation ends the login with its words.
pub open spec fn lifted(r: Result<Seq<u8>, CryptoFault>) -> Result<Seq<u8>, LoginFault> {
    match r {
        Ok(bytes) => Ok(bytes),
        Err(e) => Err(LoginFault::Recoverable(e.words())),
    }
}

/// The secret box in the fields `cipher` and `nonce` of `v`, opened with `key`.
pub open spec fn opened_field(
    v: JsonTree,
    cipher: Seq<char>,
    nonce: Seq<char>,
    key: Seq<u8>,
) -> Result<Seq<u8>, LoginFault> {
    match needed(v, cipher) {
        Err(e) => Err(e),
        Ok(c) => match needed(v, nonce) {
            Err(e) => Err(e),
            Ok(n) => lifted(secretbox_opened(c, n, key)),
        },
    }
}

/// The secrets in the answer to a login, decrypted with the KEK.
pub open spec fn secrets_of(auth: JsonTree, kek: Seq<u8>) -> Result<SecretsView, LoginFault> {
    match (auth.field("keyAttributes"@), auth.printed_field("encryptedToken"@)) {
        (Some(attrs), Some(token)) => if attrs is Null {
            Err(LoginFault::Recoverable("login response missing key attributes or token"@))
        } else {
            match opened_field(attrs, "encryptedKey"@, "keyDecryptionNonce"@, kek) {
                Err(e) => Err(e),
                Ok(master_key) => match opened_field(
                    attrs,
                    "encryptedSecretKey"@,
                    "secretKeyDecryptionNonce"@,
                    master_key,
                ) {
                    Err(e) => Err(e),
                    Ok(secret_key) => match needed(attrs, "publicKey"@) {
                        Err(e) => Err(e),
                        Ok(encoded) => match lifted(base64_bytes(encoded)) {
                            Err(e) => Err(e),
                            Ok(public_key) => match lifted(
                                sealed_box_opened(token, public_key, secret_key),
                            ) {
                                Err(e) => Err(e),
                                Ok(token_bytes) => match auth.plain_integer_field("id"@) {
                                    None => Err(LoginFault::Recoverable("missing user id"@)),
                                    Some(user_id) => Ok(
                                        SecretsView {
                                            user_id,
                                            token: base64_padded(Alphabet::UrlSafe, token_bytes),
                                            master_key,
                                            secret_key,
                                            public_key,
                                        },
                                    ),
                                },
                            },
                        },
                    },
                },
            }
        },
        _ => Err(LoginFault::Recoverable("login response missing key attributes or token"@)),
    }
}

fn crypto_fault(e: CryptoError) -> (r: LoginError)
    ensures
        r@ == LoginFault::Recoverable(e@.words()),
{
    LoginError::Recoverable(e.message())
}

fn recoverable(m: &str) -> (r: LoginError)
    ensures
        r@ == LoginFault::Recoverable(m@),
{
    LoginError::Recoverable(m.to_owned())
}

fn need(v: &Json, key: &str) -> (r: Result<String, LoginError>)
    ensures
        match r {
            Ok(s) => needed(v@, key@) == Ok::<Seq<char>, LoginFault>(s@),
            Err(e) => needed(v@, key@) == Err::<Seq<char>, LoginFault>(e@),
        },
{
    match v.printed(key) {
        Some(s) => Ok(s),
        None => Err(LoginError::Recoverable(joined("missing ", key))),
    }
}

fn open_field(v: &Json, cipher: &str, nonce: &str, key: &[u8]) -> (r: Result<Vec<u8>, LoginError>)
    ensures
        match r {
            Ok(b) => opened_field(v@, cipher@, nonce@, key@) == Ok::<Seq<u8>, LoginFault>(b@),
            Err(e) => opened_field(v@, cipher@, nonce@, key@) == Err::<Seq<u8>, LoginFault>(e@),
        },
{
    let c = match need(v, cipher) {
        Ok(s) => s,
        Err(e) => return Err(e),
    };
    let n = match need(v, nonce) {
        Ok(s) => s,
        Err(e) => return Err(e),
    };
    match secretbox_open(c.as_str(), n.as_str(), key) {
        Ok(b) => Ok(b),
        Err(e) => Err(crypto_fault(e)),
    }
}

/// Decrypts the account's keys and its token: the KEK opens the master key,
/// the master key opens the secret key, and the key pair opens the token.
pub fn decrypt_secrets(auth: &Json, kek: &[u8; 32]) -> (r: Result<AccountSecrets, LoginError>)
    ensures
        login_outcome(r) == secrets_of(auth@, kek@),
{
    let encrypted_token = match auth.printed("encryptedToken") {
        Some(s) => s,
        None => return Err(recoverable("login response missing key attributes or token")),
    };
    let attrs = match auth.get("keyAttributes") {
        Some(v) => v,
        None => return Err(recoverable("login response missing key attributes or token")),
    };
    if let Json::Null = attrs {
        return Err(recoverable("login response missing key attributes or token"));
    }
    let master_key = match open_field(attrs, "encryptedKey", "keyDecryptionNonce", kek) {
        Ok(b) => b,
        Err(e) => return Err(e),
    };
    let secret_key = match open_field(
        attrs,
        "encryptedSecretKey",
        "secretKeyDecryptionNonce",
        master_key.as_slice(),
    ) {
        Ok(b) => b,
        Err(e) => return Err(e),
    };
    let encoded = match need(attrs, "publicKey") {
        Ok(s) => s,
        Err(e) => return Err(e),
    };
    let public_key = match b64decode(encoded.as_str()) {
        Ok(b) => b,
        Err(e) => return Err(crypto_fault(e)),
    };
    let token_bytes = match sealed_box_open(
        encrypted_token.as_str(),
        public_key.as_slice(),
        secret_key.as_slice(),
    ) {
        Ok(b) => b,
        Err(e) => return Err(crypto_fault(e)),
    };
    match auth.plain_i64_field("id") {
        None => Err(recoverable("missing user id")),
        Some(user_id) => Ok(
            AccountSecrets {
                user_id,
                token: b64encode_url(token_bytes.as_slice()),
                master_key,
                secret_key,
                public_key,
            },
        ),
    }
}

// ---------------------------------- login ----------------------------------

/// What the first answer of a login yields.
pub struct Prepared {
    pub kek: [u8; 32],
    pub login_key: [u8; 16],
    pub srp_user_id: String,
    pub salt: Vec<u8>,
}

/// The mathematical counterpart of `Prepared`.
pub struct PreparedView {
    pub kek: Seq<u8>,
    pub login_key: Seq<u8>,
    pub srp_user_id: Seq<char>,
    pub salt: Seq<u8>,
}

impl View for Prepared {
    type V = PreparedView;

    open spec fn view(&self) -> PreparedView {
        PreparedView {
            kek: self.kek@,
            login_key: self.login_key@,
            srp_user_id: self.srp_user_id@,
            salt: self.salt@,
        }
    }
}

/// The request for the SRP attributes of an account.
pub open spec fn attributes_request(client: ClientView, email: Seq<char>) -> RequestView {
    client.get("/users/srp/attributes"@, seq![("email"@, email)])
}

/// The SRP attributes in the first answer.
pub open spec fn srp_attributes(answer: Result<JsonTree, ApiFault>) -> Result<
    JsonTree,
    LoginFault,
> {
    match answer {
        Err(e) => Err(LoginFault::Api(e)),
        Ok(v) => match v.field("attributes"@) {
            Some(attrs) => if attrs is Null {
                Err(
                    LoginFault::Unsupported(
                        "account has no SRP attributes (use email/passkey login)"@,
                    ),
                )
            } else {
                Ok(attrs)
            },
            None => Err(
                LoginFault::Unsupported("account has no SRP attributes (use email/passkey login)"@),
            ),
        },
    }
}

/// The keys and the identity that the SRP attributes and the password give.
pub open spec fn prepared(attrs: JsonTree, password: Seq<char>) -> Result<PreparedView, LoginFault> {
    if attrs.flag("isEmailMFAEnabled"@) {
        Err(LoginFault::Unsupported("account uses email-based MFA, which is not supported"@))
    } else {
        match needed(attrs, "kekSalt"@) {
            Err(e) => Err(e),
            Ok(kek_salt) => match (
                attrs.natural_field("memLimit"@),
                attrs.natural_field("opsLimit"@),
            ) {
                (None, _) => Err(LoginFault::Recoverable("missing memLimit"@)),
                (Some(_), None) => Err(LoginFault::Recoverable("missing opsLimit"@)),
                (Some(mem), Some(ops)) => match lifted(
                    key_encryption_key(password, kek_salt, mem as usize, ops),
                ) {
                    Err(e) => Err(e),
                    Ok(kek) => match needed(attrs, "srpUserID"@) {
                        Err(e) => Err(e),
                        Ok(srp_user_id) => match needed(attrs, "srpSalt"@) {
                            Err(e) => Err(e),
                            Ok(encoded) => match lifted(base64_bytes(encoded)) {
                                Err(e) => Err(e),
                                Ok(salt) => Ok(
                                    PreparedView {
                                        kek,
                                        login_key: login_key_of(kek),
                                        srp_user_id,
                                        salt,
                                    },
                                ),
                            },
                        },
                    },
                },
            },
        }
    }
}

/// How far a login has come: what was asked for last.
pub enum LoginStage {
    /// The SRP attributes of the account.
    Attributes { password: String },
    /// An SRP session.
    Session { srp_user_id: String, srp: SrpClient, kek: [u8; 32] },
    /// The verification of the proof M1.
    Verification { kek: [u8; 32] },
}

/// The mathematical counterpart of `LoginStage`; `x` and `a` are the private
/// values of the SRP client.
pub enum StageView {
    Attributes { password: Seq<char> },
    Session { srp_user_id: Seq<char>, x: nat, a: nat, kek: Seq<u8> },
    Verification { kek: Seq<u8> },
}

impl View for LoginStage {
    type V = StageView;

    open spec fn view(&self) -> StageView {
        match self {
            LoginStage::Attributes { password } => StageView::Attributes { password: password@ },
            LoginStage::Session { srp_user_id, srp, kek } => StageView::Session {
                srp_user_id: srp_user_id@,
                x: srp.x_value(),
                a: srp.a_value(),
                kek: kek@,
            },
            LoginStage::Verification { kek } => StageView::Verification { kek: kek@ },
        }
    }
}

impl LoginStage {
    pub open spec fn wf(&self) -> bool {
        match self {
            LoginStage::Session { srp, .. } => srp.wf(),
            _ => true,
        }
    }
}

/// What a login does next.
pub enum LoginStep {
    /// Send the request, and go on with the stage on its answer.
    Ask(HttpRequest, LoginStage),
    Done(Result<AccountSecrets, LoginError>),
}

/// The mathematical counterpart of `LoginStep`.
pub enum LoginStepView {
    Ask(RequestView, StageView),
    Done(Result<SecretsView, LoginFault>),
}

impl View for LoginStep {
    type V = LoginStepView;

    open spec fn view(&self) -> LoginStepView {
        match self {
            LoginStep::Ask(request, stage) => LoginStepView::Ask(request@, stage@),
            LoginStep::Done(r) => LoginStepView::Done(login_outcome(*r)),
        }
    }
}

impl LoginStep {
    pub open spec fn wf(&self) -> bool {
        match self {
            LoginStep::Ask(_, stage) => stage.wf(),
            LoginStep::Done(_) => true,
        }
    }
}

/// What is sent to open an SRP session: the identity and A.
pub open spec fn create_session_fields(srp_user_id: Seq<char>, a: nat) -> Seq<
    (Seq<char>, DocTree),
> {
    seq![
        ("srpUserID"@, DocTree::Text(srp_user_id)),
        (
            "srpA"@,
            DocTree::Text(base64_padded(Alphabet::Standard, minimal_bytes(public_value(a)))),
        ),
    ]
}

/// What is sent to prove the password: the identity, the session and M1.
pub open spec fn verify_session_fields(
    srp_user_id: Seq<char>,
    session_id: Seq<char>,
    m1: Seq<u8>,
) -> Seq<(Seq<char>, DocTree)> {
    seq![
        ("srpUserID"@, DocTree::Text(srp_user_id)),
        ("sessionID"@, DocTree::Text(session_id)),
        ("srpM1"@, DocTree::Text(base64_padded(Alphabet::Standard, m1))),
    ]
}

/// The step that asks for an SRP session, for the private value `a`.
pub open spec fn session_step(client: ClientView, p: PreparedView, a: nat) -> LoginStepView {
    LoginStepView::Ask(
        client.post(
            "/users/srp/create-session"@,
            DocTree::Fields(create_session_fields(p.srp_user_id, a)),
        ),
        StageView::Session {
            srp_user_id: p.srp_user_id,
            x: private_x(encode_utf8(p.srp_user_id), p.salt, p.login_key),
            a,
            kek: p.kek,
        },
    )
}

/// The step that follows the first answer, for the private value `a`.
pub open spec fn after_attributes(
    client: ClientView,
    password: Seq<char>,
    answer: Result<JsonTree, ApiFault>,
    a: nat,
) -> LoginStepView {
    match srp_attributes(answer) {
        Err(e) => LoginStepView::Done(Err(e)),
        Ok(attrs) => match prepared(attrs, password) {
            Err(e) => LoginStepView::Done(Err(e)),
            Ok(p) => session_step(client, p, a),
        },
    }
}

/// The step that follows the answer to the request for an SRP session.
pub open spec fn after_session(
    client: ClientView,
    srp_user_id: Seq<char>,
    x: nat,
    a: nat,
    kek: Seq<u8>,
    answer: Result<JsonTree, ApiFault>,
) -> LoginStepView {
    match answer {
        Err(ApiFault::Status(_, m)) => LoginStepView::Done(
            Err(LoginFault::Recoverable("failed to create SRP session: "@ + m)),
        ),
        Err(e) => LoginStepView::Done(Err(LoginFault::Api(e))),
        Ok(session) => match needed(session, "srpB"@) {
            Err(e) => LoginStepView::Done(Err(e)),
            Ok(srp_b) => match needed(session, "sessionID"@) {
                Err(e) => LoginStepView::Done(Err(e)),
                Ok(session_id) => match lifted(base64_bytes(srp_b)) {
                    Err(e) => LoginStepView::Done(Err(e)),
                    Ok(b) => if !(0 < be_value(b) < modulus()) {
                        LoginStepView::Done(
                            Err(LoginFault::Recoverable("invalid server B value"@)),
                        )
                    } else {
                        LoginStepView::Ask(
                            client.post(
                                "/users/srp/verify-session"@,
                                DocTree::Fields(
                                    verify_session_fields(
                                        srp_user_id,
                                        session_id,
                                        proof_m1(x, a, b),
                                    ),
                                ),
                            ),
                            StageView::Verification { kek },
                        )
                    },
                },
            },
        },
    }
}

/// A field that demands another flow: a text that is not empty.
pub open spec fn demanded(auth: JsonTree, key: Seq<char>) -> Option<Seq<char>> {
    match auth.printed_field(key) {
        Some(s) => if s.len() == 0 {
            None
        } else {
            Some(s)
        },
        None => None,
    }
}

/// The end of a login, from the answer to the proof.
pub open spec fn after_verification(kek: Seq<u8>, answer: Result<JsonTree, ApiFault>) -> Result<
    SecretsView,
    LoginFault,
> {
    match answer {
        Err(ApiFault::Status(code, m)) => if code == 401 || code == 400 {
            Err(LoginFault::Recoverable("incorrect email or password"@))
        } else {
            Err(LoginFault::Recoverable("SRP verification failed: "@ + m))
        },
        Err(e) => Err(LoginFault::Api(e)),
        Ok(auth) => if demanded(auth, "passkeySessionID"@) is Some {
            Err(LoginFault::Unsupported("account requires passkey verification"@))
        } else {
            match demanded(auth, "twoFactorSessionID"@) {
                Some(session_id) => Err(LoginFault::TwoFactorRequired { session_id, kek }),
                None => secrets_of(auth, kek),
            }
        },
    }
}

/// The request for the SRP attributes of an account.
pub fn get_srp_attributes(client: &MuseumClient, email: &str) -> (r: HttpRequest)
    ensures
        r@ == attributes_request(client@, email@),
{
    let mut params: Vec<(String, String)> = Vec::new();
    assert(pairs(params@) =~= Seq::empty());
    push_pair(&mut params, "email", email);
    client.get("/users/srp/attributes", params)
}

/// Starts a login.
pub fn login(client: &MuseumClient, email: &str, password: &str) -> (r: LoginStep)
    ensures
        r.wf(),
        r@ == LoginStepView::Ask(
            attributes_request(client@, email@),
            StageView::Attributes { password: password@ },
        ),
{
    LoginStep::Ask(
        get_srp_attributes(client, email),
        LoginStage::Attributes { password: password.to_owned() },
    )
}

/// Derives the keys from the SRP attributes and the password.
pub fn prepare(attrs: &Json, password: &str) -> (r: Result<Prepared, LoginError>)
    ensures
        match r {
            Ok(p) => prepared(attrs@, password@) == Ok::<PreparedView, LoginFault>(p@),
            Err(e) => prepared(attrs@, password@) == Err::<PreparedView, LoginFault>(e@),
        },
{
    if attrs.is_set("isEmailMFAEnabled") {
        return Err(
            LoginError::Unsupported(
                "account uses email-based MFA, which is not supported".to_owned(),
            ),
        );
    }
    let kek_salt = match need(attrs, "kekSalt") {
        Ok(s) => s,
        Err(e) => return Err(e),
    };
    let mem_limit: u64 = match attrs.u64_field("memLimit") {
        Some(n) => n,
        None => return Err(recoverable("missing memLimit")),
    };
    let ops_limit: u64 = match attrs.u64_field("opsLimit") {
        Some(n) => n,
        None => return Err(recoverable("missing opsLimit")),
    };
    let kek = match derive_key_encryption_key(
        password,
        kek_salt.as_str(),
        mem_limit as usize,
        ops_limit,
    ) {
        Ok(k) => k,
        Err(e) => return Err(crypto_fault(e)),
    };
    let login_key = match derive_login_key(&kek) {
        Ok(k) => k,
        Err(e) => return Err(crypto_fault(e)),
    };
    let srp_user_id = match need(attrs, "srpUserID") {
        Ok(s) => s,
        Err(e) => return Err(e),
    };
    let srp_salt = match need(attrs, "srpSalt") {
        Ok(s) => s,
        Err(e) => return Err(e),
    };
    match b64decode(srp_salt.as_str()) {
        Ok(salt) => Ok(Prepared { kek, login_key, srp_user_id, salt }),
        Err(e) => Err(crypto_fault(e)),
    }
}

/// Asks for an SRP session.
pub fn create_session(client: &MuseumClient, p: Prepared, srp: SrpClient) -> (r: LoginStep)
    requires
        srp.wf(),
        srp.x_value() == private_x(encode_utf8(p@.srp_user_id), p@.salt, p@.login_key),
    ensures
        r.wf(),
        r@ == session_step(client@, p@, srp.a_value()),
{
    let mut fields = no_fields();
    put(&mut fields, "srpUserID", text(p.srp_user_id.as_str()));
    put(&mut fields, "srpA", text(b64encode(srp.a_bytes().as_slice()).as_str()));
    assert(field_trees(fields@) =~= create_session_fields(p.srp_user_id@, srp.a_value()));
    let request = client.post("/users/srp/create-session", object(fields));
    LoginStep::Ask(
        request,
        LoginStage::Session { srp_user_id: p.srp_user_id, srp, kek: p.kek },
    )
}

/// The SRP attributes in an answer.
fn attributes_of(v: &Json) -> (r: Option<&Json>)
    ensures
        match r {
            Some(attrs) => srp_attributes(Ok(v@)) == Ok::<JsonTree, LoginFault>(attrs@),
            None => srp_attributes(Ok(v@)) == Err::<JsonTree, LoginFault>(
                LoginFault::Unsupported("account has no SRP attributes (use email/passkey login)"@),
            ),
        },
{
    match v.get("attributes") {
        Some(attrs) => match attrs {
            Json::Null => None,
            _ => Some(attrs),
        },
        None => None,
    }
}

/// Goes on with the answer that holds the SRP attributes. The private value of
/// the SRP client is drawn at random.
fn attributes_answered(
    client: &MuseumClient,
    password: &str,
    answer: Result<Json, EnteApiError>,
) -> (r: LoginStep)
    ensures
        r.wf(),
        exists|a: Seq<u8>|
            a.len() == 32 && r@ == after_attributes(
                client@,
                password@,
                api_outcome(answer),
                #[trigger] be_value(a),
            ),
{
    let ghost some_a = Seq::new(32, |i: int| 0u8);
    let ghost some_value = be_value(some_a);
    let v = match answer {
        Ok(v) => v,
        Err(e) => return LoginStep::Done(Err(LoginError::Api(e))),
    };
    let attrs = match attributes_of(&v) {
        Some(attrs) => attrs,
        None => return LoginStep::Done(
            Err(
                LoginError::Unsupported(
                    "account has no SRP attributes (use email/passkey login)".to_owned(),
                ),
            ),
        ),
    };
    let p = match prepare(attrs, password) {
        Ok(p) => p,
        Err(e) => return LoginStep::Done(Err(e)),
    };
    let srp = SrpClient::new(p.srp_user_id.as_str().as_bytes(), p.salt.as_slice(), &p.login_key);
    create_session(client, p, srp)
}

/// Goes on with the answer to the request for an SRP session.
fn session_answered(
    client: &MuseumClient,
    srp_user_id: &str,
    srp: &SrpClient,
    kek: [u8; 32],
    answer: Result<Json, EnteApiError>,
) -> (r: LoginStep)
    requires
        srp.wf(),
    ensures
        r.wf(),
        r@ == after_session(
            client@,
            srp_user_id@,
            srp.x_value(),
            srp.a_value(),
            kek@,
            api_outcome(answer),
        ),
{
    let session = match answer {
        Ok(v) => v,
        Err(EnteApiError::Status(_, m)) => return LoginStep::Done(
            Err(LoginError::Recoverable(joined("failed to create SRP session: ", m.as_str()))),
        ),
        Err(e) => return LoginStep::Done(Err(LoginError::Api(e))),
    };
    let srp_b = match need(&session, "srpB") {
        Ok(s) => s,
        Err(e) => return LoginStep::Done(Err(e)),
    };
    let session_id = match need(&session, "sessionID") {
        Ok(s) => s,
        Err(e) => return LoginStep::Done(Err(e)),
    };
    let b_bytes = match b64decode(srp_b.as_str()) {
        Ok(b) => b,
        Err(e) => return LoginStep::Done(Err(crypto_fault(e))),
    };
    let m1 = match srp.compute_m1(b_bytes.as_slice()) {
        Ok(m1) => m1,
        Err(e) => return LoginStep::Done(Err(LoginError::Recoverable(e.message()))),
    };
    let mut fields = no_fields();
    put(&mut fields, "srpUserID", text(srp_user_id));
    put(&mut fields, "sessionID", text(session_id.as_str()));
    put(&mut fields, "srpM1", text(b64encode(m1.as_slice()).as_str()));
    assert(field_trees(fields@) =~= verify_session_fields(srp_user_id@, session_id@, m1@));
    LoginStep::Ask(
        client.post("/users/srp/verify-session", object(fields)),
        LoginStage::Verification { kek },
    )
}

fn demand(auth: &Json, key: &str) -> (r: Option<String>)
    ensures
        opt_text(r) == demanded(auth@, key@),
{
    match auth.printed(key) {
        Some(s) => if s.as_str().is_empty() {
            None
        } else {
            Some(s)
        },
        None => None,
    }
}

/// Ends a login with the answer to the proof.
fn verification_answered(kek: [u8; 32], answer: Result<Json, EnteApiError>) -> (r: Result<
    AccountSecrets,
    LoginError,
>)
    ensures
        login_outcome(r) == after_verification(kek@, api_outcome(answer)),
{
    let auth = match answer {
        Ok(v) => v,
        Err(EnteApiError::Status(code, m)) => {
            if code == 401 || code == 400 {
                return Err(recoverable("incorrect email or password"));
            }
            return Err(LoginError::Recoverable(joined("SRP verification failed: ", m.as_str())));
        },
        Err(e) => return Err(LoginError::Api(e)),
    };
    if let Some(_) = demand(&auth, "passkeySessionID") {
        return Err(LoginError::Unsupported("account requires passkey verification".to_owned()));
    }
    if let Some(session_id) = demand(&auth, "twoFactorSessionID") {
        return Err(LoginError::TwoFactorRequired { session_id, kek });
    }
    decrypt_secrets(&auth, &kek)
}

/// The step that follows an answer. `a` is the private value of the SRP client,
/// which matters on the first answer only.
pub open spec fn next_step(
    client: ClientView,
    stage: StageView,
    answer: Result<JsonTree, ApiFault>,
    a: nat,
) -> LoginStepView {
    match stage {
        StageView::Attributes { password } => after_attributes(client, password, answer, a),
        StageView::Session { srp_user_id, x, a, kek } => after_session(
            client,
            srp_user_id,
            x,
            a,
            kek,
            answer,
        ),
        StageView::Verification { kek } => LoginStepView::Done(after_verification(kek, answer)),
    }
}

/// Goes on with a login on the answer to its last request. On the first answer
/// the private value of the SRP client is drawn at random, 32 bytes long.
pub fn continue_login(client: &MuseumClient, stage: LoginStage, sent: &Result<Reply, String>) -> (r:
    LoginStep)
    requires
        stage.wf(),
    ensures
        r.wf(),
        exists|a: Seq<u8>|
            a.len() == 32 && r@ == next_step(
                client@,
                stage@,
                json_answer(sent_view(*sent)),
                #[trigger] be_value(a),
            ),
        stage@ matches StageView::Verification { kek } ==> r@ == LoginStepView::Done(
            after_verification(kek, json_answer(sent_view(*sent))),
        ),
        stage@ matches StageView::Session { srp_user_id, x, a, kek } ==> r@ == after_session(
            client@,
            srp_user_id,
            x,
            a,
            kek,
            json_answer(sent_view(*sent)),
        ),
{
    let answer = MuseumClient::json(sent);
    let ghost some_a = Seq::new(32, |i: int| 0u8);
    let ghost some_value = be_value(some_a);
    match stage {
        LoginStage::Attributes { password } => attributes_answered(
            client,
            password.as_str(),
            answer,
        ),
        LoginStage::Session { srp_user_id, srp, kek } => session_answered(
            client,
            srp_user_id.as_str(),
            &srp,
            kek,
            answer,
        ),
        LoginStage::Verification { kek } => LoginStep::Done(verification_answered(kek, answer)),
    }
}

// -------------------------------- two-factor -------------------------------

/// What is sent to verify a TOTP code.
pub open spec fn totp_fields(session_id: Seq<char>, code: Seq<char>) -> Seq<(Seq<char>, DocTree)> {
    seq![("sessionID"@, DocTree::Text(session_id)), ("code"@, DocTree::Text(code))]
}

/// The request that verifies a TOTP code.
pub open spec fn totp_request(client: ClientView, session_id: Seq<char>, code: Seq<char>) -> RequestView {
    client.post(
        "/users/two-factor/verify"@,
        DocTree::Fields(totp_fields(session_id, code)),
    )
}

/// Whether an answer refuses the code that was sent: a client error. Any other
/// failure is one of the museum itself.
pub open spec fn refuses_code(e: ApiFault) -> bool {
    match e {
        ApiFault::Status(code, _) => 400 <= code < 500,
        _ => false,
    }
}

/// The end of a login with a TOTP code.
pub open spec fn after_totp(kek: Seq<u8>, answer: Result<JsonTree, ApiFault>) -> Result<
    SecretsView,
    LoginFault,
> {
    match answer {
        Ok(auth) => secrets_of(auth, kek),
        Err(e) => if refuses_code(e) {
            Err(LoginFault::Recoverable("invalid two-factor code"@))
        } else {
            Err(LoginFault::Api(e))
        },
    }
}

/// Asks the museum to verify a TOTP code.
pub fn verify_totp(client: &MuseumClient, session_id: &str, code: &str) -> (r: HttpRequest)
    ensures
        r@ == totp_request(client@, session_id@, code@),
{
    let mut fields = no_fields();
    put(&mut fields, "sessionID", text(session_id));
    put(&mut fields, "code", text(code));
    assert(field_trees(fields@) =~= totp_fields(session_id@, code@));
    client.post("/users/two-factor/verify", object(fields))
}

/// Ends a login with the answer to the TOTP code.
pub fn totp_answered(kek: &[u8; 32], sent: &Result<Reply, String>) -> (r: Result<
    AccountSecrets,
    LoginError,
>)
    ensures
        login_outcome(r) == after_totp(kek@, json_answer(sent_view(*sent))),
{
    match MuseumClient::json(sent) {
        Ok(auth) => decrypt_secrets(&auth, kek),
        Err(EnteApiError::Status(code, m)) => if 400 <= code && code < 500 {
            Err(recoverable("invalid two-factor code"))
        } else {
            Err(LoginError::Api(EnteApiError::Status(code, m)))
        },
        Err(e) => Err(LoginError::Api(e)),
    }
}

// ----------------------------------- laws ----------------------------------

/// Secrets come only from the answer to the proof of the password: no other
/// answer ends a login well.
pub proof fn only_a_verified_login_ends_well(
    client: ClientView,
    stage: StageView,
    answer: Result<JsonTree, ApiFault>,
    a: nat,
)
    ensures
        next_step(client, stage, answer, a) matches LoginStepView::Done(Ok(secrets)) ==> stage
            is Verification && answer is Ok,
{
}

/// A museum that cannot be reached ends a login with that error, whatever was
/// asked for, the check of a second factor included.
pub proof fn unreachable_museum_is_reported(
    client: ClientView,
    stage: StageView,
    m: Seq<char>,
    a: nat,
    kek: Seq<u8>,
)
    ensures
        next_step(client, stage, Err(ApiFault::Transport(m)), a) == LoginStepView::Done(
            Err::<SecretsView, LoginFault>(LoginFault::Api(ApiFault::Transport(m))),
        ),
        after_totp(kek, Err(ApiFault::Transport(m))) == Err::<SecretsView, LoginFault>(
            LoginFault::Api(ApiFault::Transport(m)),
        ),
{
}

/// A second factor gives the secrets that a login without one gives: the KEK
/// that waited opens the same answer.
pub proof fn second_factor_gives_the_same_secrets(kek: Seq<u8>, auth: JsonTree)
    requires
        demanded(auth, "passkeySessionID"@) is None,
        demanded(auth, "twoFactorSessionID"@) is None,
    ensures
        after_totp(kek, Ok(auth)) == after_verification(kek, Ok(auth)),
{
}

/// What a login asks for and how it ends, from its three answers.
pub open spec fn login_run(
    client: ClientView,
    password: Seq<char>,
    answers: (Result<JsonTree, ApiFault>, Result<JsonTree, ApiFault>, Result<JsonTree, ApiFault>),
    a: nat,
) -> Result<SecretsView, LoginFault> {
    match next_step(client, StageView::Attributes { password }, answers.0, a) {
        LoginStepView::Done(r) => r,
        LoginStepView::Ask(_, second) => match next_step(client, second, answers.1, a) {
            LoginStepView::Done(r) => r,
            LoginStepView::Ask(_, third) => match next_step(client, third, answers.2, a) {
                LoginStepView::Done(r) => r,
                LoginStepView::Ask(_, _) => arbitrary(),
            },
        },
    }
}

/// A login takes three answers at most. It ends with secrets exactly where the
/// attributes and the password give keys, the session has a valid B, and the
/// answer to the proof opens with the KEK of the password.
pub proof fn login_ends_with_the_secrets_of_the_password(
    client: ClientView,
    password: Seq<char>,
    answers: (Result<JsonTree, ApiFault>, Result<JsonTree, ApiFault>, Result<JsonTree, ApiFault>),
    a: nat,
    secrets: SecretsView,
)
    ensures
        login_run(client, password, answers, a) == Ok::<SecretsView, LoginFault>(secrets) <==> {
            &&& srp_attributes(answers.0) matches Ok(attrs)
            &&& prepared(attrs, password) matches Ok(p)
            &&& after_session(
                client,
                p.srp_user_id,
                private_x(encode_utf8(p.srp_user_id), p.salt, p.login_key),
                a,
                p.kek,
                answers.1,
            ) is Ask
            &&& after_verification(p.kek, answers.2) == Ok::<SecretsView, LoginFault>(secrets)
        },
{
}

} // verus!
