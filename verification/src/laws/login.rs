//! Laws of logins: the keys come from the password and from what the museum sends,
//! the proof is the one the museum expects, and the secrets open in turn.

use crate::account::{
    after_attributes, after_session, after_totp, after_verification, next_step, prepared,
    secrets_of, LoginFault, LoginStepView, PreparedView, SecretsView, StageView,
};
use crate::bigint::be_value;
use crate::client::{ApiFault, ClientView};
use crate::crypto::{
    base64_bytes, kdf_subkey, password_hash, sealed_message, secretbox_message, CryptoFault,
};
use crate::doc::DocTree;
use crate::encoding::{base64_padded, Alphabet};
use crate::json::JsonTree;
use crate::laws::requests::sends;
use crate::srp::{
    minimal_bytes, modulus, multiplier, padded, private_x, proof_m1, proofs_agree, public_value,
    scrambler, sha256_of,
};
use vstd::arithmetic::power::pow;
use vstd::prelude::*;
use vstd::utf8::encode_utf8;

verus! {

// ------------------------------------ keys ---------------------------------

/// What the SRP attributes of an account say.
pub struct Attributes {
    pub kek_salt: Seq<u8>,
    pub mem_limit: u64,
    pub ops_limit: u64,
    pub srp_user_id: Seq<char>,
    pub srp_salt: Seq<u8>,
}

/// Whether the text of the field `key` encodes bytes.
pub open spec fn encodes(v: JsonTree, key: Seq<char>, bytes: Seq<u8>) -> bool {
    v.printed_field(key) matches Some(s) && base64_bytes(s) == Ok::<Seq<u8>, CryptoFault>(bytes)
}

/// Whether a document holds these attributes.
pub open spec fn holds_attributes(v: JsonTree, attrs: Attributes) -> bool {
    &&& encodes(v, "kekSalt"@, attrs.kek_salt)
    &&& v.natural_field("memLimit"@) == Some(attrs.mem_limit)
    &&& v.natural_field("opsLimit"@) == Some(attrs.ops_limit)
    &&& v.printed_field("srpUserID"@) == Some(attrs.srp_user_id)
    &&& encodes(v, "srpSalt"@, attrs.srp_salt)
}

/// The keys of a login come from the password and the attributes: the KEK is the
/// Argon2id hash of the password under the limits that the museum sent, the login key
/// the first half of its subkey; where the hash fails, so does the login.
pub proof fn keys_come_from_the_attributes(v: JsonTree, attrs: Attributes, password: Seq<char>)
    requires
        holds_attributes(v, attrs),
        !v.flag("isEmailMFAEnabled"@),
    ensures
        match password_hash(
            encode_utf8(password),
            attrs.kek_salt,
            attrs.ops_limit,
            attrs.mem_limit as usize,
        ) {
            Some(kek) => prepared(v, password) matches Ok(p) && {
                &&& p.kek == kek
                &&& p.login_key == kdf_subkey(
                    1,
                    seq![108u8, 111, 103, 105, 110, 99, 116, 120],
                    kek,
                ).subrange(0, 16)
                &&& p.srp_user_id == attrs.srp_user_id
                &&& p.salt == attrs.srp_salt
            },
            None => prepared(v, password) == Err::<PreparedView, LoginFault>(
                LoginFault::Recoverable("crypto operation failed"@),
            ),
        },
{
    assert(crate::crypto::LOGIN_CONTEXT@ =~= seq![108u8, 111, 103, 105, 110, 99, 116, 120]);
}

/// A login goes on only where the attributes are complete and can be read.
pub proof fn keys_need_all_attributes(v: JsonTree, password: Seq<char>)
    requires
        prepared(v, password) is Ok,
    ensures
        !v.flag("isEmailMFAEnabled"@),
        exists|attrs: Attributes| #[trigger] holds_attributes(v, attrs),
{
    let p = prepared(v, password)->Ok_0;
    let attrs = Attributes {
        kek_salt: base64_bytes(v.printed_field("kekSalt"@)->0)->Ok_0,
        mem_limit: v.natural_field("memLimit"@)->0,
        ops_limit: v.natural_field("opsLimit"@)->0,
        srp_user_id: p.srp_user_id,
        srp_salt: p.salt,
    };
    assert(holds_attributes(v, attrs));
}

/// An attribute that is missing is named; an account with e-mail codes is not
/// supported.
pub proof fn missing_attribute_is_named(v: JsonTree, password: Seq<char>)
    ensures
        v.flag("isEmailMFAEnabled"@) ==> (prepared(v, password) matches Err(e) && e
            is Unsupported),
        !v.flag("isEmailMFAEnabled"@) && v.printed_field("kekSalt"@) is None ==> prepared(
            v,
            password,
        ) == Err::<PreparedView, LoginFault>(
            LoginFault::Recoverable("missing "@ + "kekSalt"@),
        ),
        !v.flag("isEmailMFAEnabled"@) && v.printed_field("kekSalt"@) is Some && v.natural_field(
            "memLimit"@,
        ) is None ==> prepared(v, password) == Err::<PreparedView, LoginFault>(
            LoginFault::Recoverable("missing memLimit"@),
        ),
        !v.flag("isEmailMFAEnabled"@) && v.printed_field("kekSalt"@) is Some && v.natural_field(
            "memLimit"@,
        ) is Some && v.natural_field("opsLimit"@) is None ==> prepared(v, password) == Err::<
            PreparedView,
            LoginFault,
        >(LoginFault::Recoverable("missing opsLimit"@)),
{
}

// ------------------------------------ steps --------------------------------

/// The first answer leads to an SRP session for the account, opened with A = g^a: the
/// private value x is that of the password.
pub proof fn session_is_opened_for_the_account(
    client: ClientView,
    password: Seq<char>,
    answer: JsonTree,
    v: JsonTree,
    p: PreparedView,
    a: nat,
)
    requires
        answer.field("attributes"@) == Some(v),
        !(v is Null),
        prepared(v, password) == Ok::<PreparedView, LoginFault>(p),
    ensures
        after_attributes(client, password, Ok(answer), a) matches LoginStepView::Ask(request, next)
            && {
            &&& sends(
                request,
                client,
                "/users/srp/create-session"@,
                seq![
                    ("srpUserID"@, DocTree::Text(p.srp_user_id)),
                    (
                        "srpA"@,
                        DocTree::Text(
                            base64_padded(
                                Alphabet::Standard,
                                minimal_bytes((pow(5, a) % modulus() as int) as nat),
                            ),
                        ),
                    ),
                ],
            )
            &&& next == (StageView::Session {
                srp_user_id: p.srp_user_id,
                x: private_x(encode_utf8(p.srp_user_id), p.salt, p.login_key),
                a,
                kek: p.kek,
            })
        },
{
}

/// Without attributes there is no login by password, and where the keys cannot be
/// had the login ends with that error.
pub proof fn login_ends_without_keys(
    client: ClientView,
    password: Seq<char>,
    answer: JsonTree,
    a: nat,
)
    ensures
        (answer.field("attributes"@) matches Some(v) ==> v is Null) ==> (after_attributes(
            client,
            password,
            Ok(answer),
            a,
        ) matches LoginStepView::Done(Err(e)) && e is Unsupported),
        answer.field("attributes"@) matches Some(v) ==> (!(v is Null) ==> (prepared(
            v,
            password,
        ) matches Err(e) ==> after_attributes(client, password, Ok(answer), a)
            == LoginStepView::Done(Err::<SecretsView, LoginFault>(e)))),
{
}

/// The proof that is sent is the one that the museum computes: where the museum holds
/// the verifier v = g^x of the account, draws b and answers with B = k*v + g^b, the
/// proof is the hash of A, of the bytes of B as they were sent, and of the museum's
/// own secret (A * v^u) ^ b.
pub proof fn museum_accepts_the_proof(
    client: ClientView,
    srp_user_id: Seq<char>,
    x: nat,
    a: nat,
    kek: Seq<u8>,
    session: JsonTree,
    session_id: Seq<char>,
    b_bytes: Seq<u8>,
    v: nat,
    b: nat,
)
    requires
        encodes(session, "srpB"@, b_bytes),
        session.printed_field("sessionID"@) == Some(session_id),
        v == (pow(5, x) % modulus() as int) as nat,
        be_value(b_bytes) == ((multiplier() * v + pow(5, b)) % modulus() as int) as nat,
        be_value(b_bytes) > 0,
        be_value(b_bytes) < modulus(),
    ensures
        ({
            let expected = sha256_of(
                minimal_bytes(public_value(a)) + b_bytes + padded(
                    (pow(
                        public_value(a) * pow(
                            v as int,
                            scrambler(public_value(a), be_value(b_bytes)),
                        ),
                        b,
                    ) % modulus() as int) as nat,
                ),
            );
            after_session(client, srp_user_id, x, a, kek, Ok(session)) matches LoginStepView::Ask(
                request,
                next,
            ) && {
                &&& sends(
                    request,
                    client,
                    "/users/srp/verify-session"@,
                    seq![
                        ("srpUserID"@, DocTree::Text(srp_user_id)),
                        ("sessionID"@, DocTree::Text(session_id)),
                        (
                            "srpM1"@,
                            DocTree::Text(base64_padded(Alphabet::Standard, expected)),
                        ),
                    ],
                )
                &&& next == (StageView::Verification { kek })
            }
        }),
{
    proofs_agree(x, a, b, v, b_bytes);
}

/// Whatever B the museum sends, within the group, the proof is made of it, of A and of
/// the password's private value; the bytes of B enter it as they were sent.
pub proof fn proof_is_made_of_what_was_sent(
    client: ClientView,
    srp_user_id: Seq<char>,
    x: nat,
    a: nat,
    kek: Seq<u8>,
    session: JsonTree,
    session_id: Seq<char>,
    b_bytes: Seq<u8>,
)
    requires
        encodes(session, "srpB"@, b_bytes),
        session.printed_field("sessionID"@) == Some(session_id),
        0 < be_value(b_bytes) < modulus(),
    ensures
        after_session(client, srp_user_id, x, a, kek, Ok(session)) matches LoginStepView::Ask(
            request,
            next,
        ) && {
            &&& sends(
                request,
                client,
                "/users/srp/verify-session"@,
                seq![
                    ("srpUserID"@, DocTree::Text(srp_user_id)),
                    ("sessionID"@, DocTree::Text(session_id)),
                    (
                        "srpM1"@,
                        DocTree::Text(
                            base64_padded(Alphabet::Standard, proof_m1(x, a, b_bytes)),
                        ),
                    ),
                ],
            )
            &&& next == (StageView::Verification { kek })
        },
{
}

/// A session without a usable B or without an id ends the login, and so does one that
/// the museum refuses.
pub proof fn session_needs_a_usable_b(
    client: ClientView,
    srp_user_id: Seq<char>,
    x: nat,
    a: nat,
    kek: Seq<u8>,
    session: JsonTree,
    b_bytes: Seq<u8>,
    status: u16,
    m: Seq<char>,
)
    ensures
        encodes(session, "srpB"@, b_bytes) && (be_value(b_bytes) == 0 || be_value(b_bytes)
            >= modulus()) ==> (after_session(
            client,
            srp_user_id,
            x,
            a,
            kek,
            Ok(session),
        ) matches LoginStepView::Done(Err(e)) && e is Recoverable),
        session.printed_field("srpB"@) is None || session.printed_field("sessionID"@) is None ==> (
        after_session(client, srp_user_id, x, a, kek, Ok(session)) matches LoginStepView::Done(
            Err(e),
        ) && e is Recoverable),
        after_session(client, srp_user_id, x, a, kek, Err(ApiFault::Status(status, m)))
            == LoginStepView::Done(
            Err::<SecretsView, LoginFault>(
                LoginFault::Recoverable("failed to create SRP session: "@ + m),
            ),
        ),
{
}

/// A museum that fails ends the login with its error, whatever was asked for. Where
/// it answered with a status to the proof or to the session, that is told in words.
pub proof fn museum_failure_ends_the_login(
    client: ClientView,
    password: Seq<char>,
    srp_user_id: Seq<char>,
    x: nat,
    a: nat,
    kek: Seq<u8>,
    e: ApiFault,
)
    ensures
        after_attributes(client, password, Err(e), a) == LoginStepView::Done(
            Err::<SecretsView, LoginFault>(LoginFault::Api(e)),
        ),
        !(e is Status) ==> after_session(client, srp_user_id, x, a, kek, Err(e))
            == LoginStepView::Done(Err::<SecretsView, LoginFault>(LoginFault::Api(e))),
        !(e is Status) ==> after_verification(kek, Err(e)) == Err::<SecretsView, LoginFault>(
            LoginFault::Api(e),
        ),
{
}

/// Each answer is taken for what was asked for last.
pub proof fn answers_are_taken_in_turn(
    client: ClientView,
    stage: StageView,
    answer: Result<JsonTree, ApiFault>,
    drawn: nat,
)
    ensures
        stage matches StageView::Attributes { password } ==> next_step(client, stage, answer, drawn)
            == after_attributes(client, password, answer, drawn),
        stage matches StageView::Session { srp_user_id, x, a, kek } ==> next_step(
            client,
            stage,
            answer,
            drawn,
        ) == after_session(client, srp_user_id, x, a, kek, answer),
        stage matches StageView::Verification { kek } ==> next_step(client, stage, answer, drawn)
            == LoginStepView::Done(after_verification(kek, answer)),
{
}

/// A fault is told in its own words.
pub proof fn login_faults_are_told(m: Seq<char>, e: ApiFault, kek: Seq<u8>)
    ensures
        LoginFault::Recoverable(m).words() == m,
        LoginFault::Unsupported(m).words() == m,
        LoginFault::Api(e).words() == e.words(),
        (LoginFault::TwoFactorRequired { session_id: m, kek }).words()
            == "two-factor authentication required"@,
        CryptoFault::Base64(m).words() == "base64 decode failed: "@ + m,
        CryptoFault::Crypto.words() == "crypto operation failed"@,
        CryptoFault::Length.words() == "invalid key/nonce length"@,
{
}

/// Whether the text of the field `key` is there and not empty.
pub open spec fn asks_for(auth: JsonTree, key: Seq<char>) -> bool {
    auth.printed_field(key) matches Some(s) && s.len() > 0
}

/// The last answer ends the login: a refused proof means the wrong password, a
/// passkey is not supported, a second factor is asked for with the KEK kept for
/// later, and otherwise the secrets are opened.
pub proof fn last_answer_ends_the_login(kek: Seq<u8>, auth: JsonTree, status: u16, m: Seq<char>)
    ensures
        status == 401 || status == 400 ==> after_verification(
            kek,
            Err(ApiFault::Status(status, m)),
        ) == Err::<SecretsView, LoginFault>(
            LoginFault::Recoverable("incorrect email or password"@),
        ),
        status != 401 && status != 400 ==> after_verification(
            kek,
            Err(ApiFault::Status(status, m)),
        ) == Err::<SecretsView, LoginFault>(
            LoginFault::Recoverable("SRP verification failed: "@ + m),
        ),
        asks_for(auth, "passkeySessionID"@) ==> (after_verification(kek, Ok(auth)) matches Err(e)
            && e is Unsupported),
        !asks_for(auth, "passkeySessionID"@) && asks_for(auth, "twoFactorSessionID"@)
            ==> after_verification(kek, Ok(auth)) == Err::<SecretsView, LoginFault>(
            LoginFault::TwoFactorRequired {
                session_id: auth.printed_field("twoFactorSessionID"@)->0,
                kek,
            },
        ),
        !asks_for(auth, "passkeySessionID"@) && !asks_for(auth, "twoFactorSessionID"@)
            ==> after_verification(kek, Ok(auth)) == secrets_of(auth, kek),
{
}

// ----------------------------------- secrets -------------------------------

/// Whether a secret box in two fields holds a message under a key.
pub open spec fn box_holds(
    v: JsonTree,
    cipher: Seq<char>,
    nonce: Seq<char>,
    key: Seq<u8>,
    message: Seq<u8>,
) -> bool {
    exists|c: Seq<u8>, n: Seq<u8>|
        {
            &&& #[trigger] encodes(v, cipher, c)
            &&& #[trigger] encodes(v, nonce, n)
            &&& c.len() >= 16
            &&& n.len() == 24
            &&& key.len() == 32
            &&& secretbox_message(c, n, key) == Some(message)
        }
}

/// Whether the sealed token of an answer holds bytes for a key pair.
pub open spec fn token_holds(
    auth: JsonTree,
    public_key: Seq<u8>,
    secret_key: Seq<u8>,
    token: Seq<u8>,
) -> bool {
    exists|c: Seq<u8>|
        {
            &&& #[trigger] encodes(auth, "encryptedToken"@, c)
            &&& c.len() >= 48
            &&& public_key.len() == 32
            &&& secret_key.len() == 32
            &&& sealed_message(c, public_key, secret_key) == Some(token)
        }
}

/// The secrets of an account open in turn: the KEK opens the master key, the master
/// key opens the secret key, and the key pair opens the token, which is handed on in
/// URL-safe base64. They are had exactly where all of these open.
pub proof fn secrets_open_in_turn(
    auth: JsonTree,
    attrs: JsonTree,
    kek: Seq<u8>,
    token: Seq<u8>,
    secrets: SecretsView,
)
    requires
        auth.field("keyAttributes"@) == Some(attrs),
        !(attrs is Null),
        secrets.token == base64_padded(Alphabet::UrlSafe, token),
    ensures
        ({
            &&& box_holds(attrs, "encryptedKey"@, "keyDecryptionNonce"@, kek, secrets.master_key)
            &&& box_holds(
                attrs,
                "encryptedSecretKey"@,
                "secretKeyDecryptionNonce"@,
                secrets.master_key,
                secrets.secret_key,
            )
            &&& encodes(attrs, "publicKey"@, secrets.public_key)
            &&& token_holds(auth, secrets.public_key, secrets.secret_key, token)
            &&& auth.plain_integer_field("id"@) == Some(secrets.user_id)
        }) ==> secrets_of(auth, kek) == Ok::<SecretsView, LoginFault>(secrets),
{
}

/// Secrets that were had are those that opened.
pub proof fn secrets_are_those_that_opened(auth: JsonTree, kek: Seq<u8>, secrets: SecretsView)
    requires
        secrets_of(auth, kek) == Ok::<SecretsView, LoginFault>(secrets),
    ensures
        auth.field("keyAttributes"@) matches Some(attrs) && {
            &&& box_holds(attrs, "encryptedKey"@, "keyDecryptionNonce"@, kek, secrets.master_key)
            &&& box_holds(
                attrs,
                "encryptedSecretKey"@,
                "secretKeyDecryptionNonce"@,
                secrets.master_key,
                secrets.secret_key,
            )
            &&& encodes(attrs, "publicKey"@, secrets.public_key)
        },
        exists|token: Seq<u8>| #[trigger]
            token_holds(auth, secrets.public_key, secrets.secret_key, token) && secrets.token
                == base64_padded(Alphabet::UrlSafe, token),
        auth.plain_integer_field("id"@) == Some(secrets.user_id),
{
    let attrs = auth.field("keyAttributes"@)->0;
    let c1 = base64_bytes(attrs.printed_field("encryptedKey"@)->0)->Ok_0;
    let n1 = base64_bytes(attrs.printed_field("keyDecryptionNonce"@)->0)->Ok_0;
    assert(encodes(attrs, "encryptedKey"@, c1) && encodes(attrs, "keyDecryptionNonce"@, n1));
    let c2 = base64_bytes(attrs.printed_field("encryptedSecretKey"@)->0)->Ok_0;
    let n2 = base64_bytes(attrs.printed_field("secretKeyDecryptionNonce"@)->0)->Ok_0;
    assert(encodes(attrs, "encryptedSecretKey"@, c2));
    assert(encodes(attrs, "secretKeyDecryptionNonce"@, n2));
    let c3 = base64_bytes(auth.printed_field("encryptedToken"@)->0)->Ok_0;
    assert(encodes(auth, "encryptedToken"@, c3));
    let token = sealed_message(c3, secrets.public_key, secrets.secret_key)->0;
    assert(token_holds(auth, secrets.public_key, secrets.secret_key, token));
}

/// A wrong KEK opens nothing: where the box of the master key does not open, the
/// login fails.
pub proof fn wrong_kek_opens_nothing(
    auth: JsonTree,
    attrs: JsonTree,
    kek: Seq<u8>,
    cipher: Seq<u8>,
    nonce: Seq<u8>,
)
    requires
        auth.field("keyAttributes"@) == Some(attrs),
        encodes(attrs, "encryptedKey"@, cipher),
        encodes(attrs, "keyDecryptionNonce"@, nonce),
        secretbox_message(cipher, nonce, kek) is None,
    ensures
        secrets_of(auth, kek) is Err,
{
}

/// A second factor that the museum accepts opens the secrets with the KEK that
/// waited; a code that it refuses with a client error is wrong, and any other failure
/// is one of the museum.
pub proof fn second_factor_ends_the_login(
    kek: Seq<u8>,
    auth: JsonTree,
    status: u16,
    m: Seq<char>,
)
    ensures
        after_totp(kek, Ok(auth)) == secrets_of(auth, kek),
        400 <= status <= 499 ==> after_totp(kek, Err(ApiFault::Status(status, m))) == Err::<
            SecretsView,
            LoginFault,
        >(LoginFault::Recoverable("invalid two-factor code"@)),
        !(400 <= status <= 499) ==> after_totp(kek, Err(ApiFault::Status(status, m))) == Err::<
            SecretsView,
            LoginFault,
        >(LoginFault::Api(ApiFault::Status(status, m))),
        after_totp(kek, Err(ApiFault::Decode(m))) == Err::<SecretsView, LoginFault>(
            LoginFault::Api(ApiFault::Decode(m)),
        ),
{
}

} // verus!
