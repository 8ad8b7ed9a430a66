use base64::engine::general_purpose::{STANDARD, URL_SAFE};
use base64::Engine;
use dryoc::classic::crypto_box::{crypto_box_keypair, crypto_box_seal};
use dryoc::classic::crypto_secretbox::crypto_secretbox_easy;
use ente_api::account::{
    continue_login, decrypt_secrets, login, totp_answered, verify_totp, AccountSecrets, LoginError,
    LoginStage, LoginStep,
};
use ente_api::api::auth_two_factor;
use ente_api::client::{EnteApiError, HttpRequest, MuseumClient, Reply};
use ente_api::crypto::{derive_key_encryption_key, derive_login_key};
use ente_api::doc::Doc;
use ente_api::json::parse_json;
use ente_api::sessions::SessionStore;
use ente_api::srp::GROUP_PRIME;
use num_bigint::BigUint;
use sha2::{Digest, Sha256};

const KEK_SALT: &str = "ZcffcEOVipJicNykvxfynA==";

fn client() -> MuseumClient {
    MuseumClient::new("https://m.example", 5, None)
}

fn ok(body: &str) -> Result<Reply, String> {
    Ok(Reply {
        status: 200,
        location: None,
        text: String::new(),
        bytes: Ok(body.as_bytes().to_vec()),
    })
}

fn refused(status: u16, text: &str) -> Result<Reply, String> {
    Ok(Reply { status, location: None, text: text.to_string(), bytes: Ok(vec![]) })
}

fn text_field(request: &HttpRequest, key: &str) -> String {
    match request.body.as_ref().unwrap() {
        Doc::Fields(fields) => match fields.iter().find(|(k, _)| k == key) {
            Some((_, Doc::Text(s))) => s.clone(),
            _ => panic!("no text {key}"),
        },
        _ => panic!("no fields"),
    }
}

fn attributes() -> String {
    format!(
        r#"{{"attributes": {{"kekSalt": "{KEK_SALT}", "memLimit": 8388608, "opsLimit": 2,
            "srpUserID": "user-1", "srpSalt": "c2FsdA==", "isEmailMFAEnabled": false}}}}"#
    )
}

fn boxed(plain: &[u8], key: &[u8; 32]) -> (String, String) {
    let nonce = [5u8; 24];
    let mut cipher = vec![0u8; plain.len() + 16];
    crypto_secretbox_easy(&mut cipher, plain, &nonce, key).unwrap();
    (STANDARD.encode(cipher), STANDARD.encode(nonce))
}

/// The answer of a museum that holds an account with this KEK.
fn auth_body(kek: &[u8; 32]) -> (String, Vec<u8>) {
    let master = [9u8; 32];
    let (pk, sk) = crypto_box_keypair();
    let (key, key_nonce) = boxed(&master, kek);
    let (secret, secret_nonce) = boxed(&sk, &master);
    let token = b"museum token".to_vec();
    let mut sealed = vec![0u8; token.len() + 48];
    crypto_box_seal(&mut sealed, &token, &pk).unwrap();
    let body = format!(
        r#"{{"id": 77, "encryptedToken": "{}", "keyAttributes": {{"encryptedKey": "{key}",
            "keyDecryptionNonce": "{key_nonce}", "encryptedSecretKey": "{secret}",
            "secretKeyDecryptionNonce": "{secret_nonce}", "publicKey": "{}"}}}}"#,
        STANDARD.encode(sealed),
        STANDARD.encode(pk)
    );
    (body, token)
}

fn hash(parts: &[&[u8]]) -> Vec<u8> {
    let mut hasher = Sha256::new();
    for p in parts {
        hasher.update(p);
    }
    hasher.finalize().to_vec()
}

fn padded(n: &BigUint) -> Vec<u8> {
    let b = n.to_bytes_be();
    let mut out = vec![0u8; 512 - b.len()];
    out.extend_from_slice(&b);
    out
}

fn done(step: LoginStep) -> Result<AccountSecrets, LoginError> {
    match step {
        LoginStep::Done(r) => r,
        LoginStep::Ask(_, _) => panic!("the login goes on"),
    }
}

fn ask(step: LoginStep) -> (HttpRequest, LoginStage) {
    match step {
        LoginStep::Ask(request, stage) => (request, stage),
        LoginStep::Done(_) => panic!("the login ended"),
    }
}

fn failure(r: Result<AccountSecrets, LoginError>) -> LoginError {
    match r {
        Ok(_) => panic!("no failure"),
        Err(e) => e,
    }
}

fn first_stage() -> LoginStage {
    ask(login(&client(), "me@example.com", "correct horse")).1
}

fn session_stage() -> LoginStage {
    ask(continue_login(&client(), first_stage(), &ok(&attributes()))).1
}

#[test]
fn whole_login_against_a_server() {
    let (request, stage) = ask(login(&client(), "me@example.com", "correct horse"));
    assert_eq!(request.url, "https://m.example/users/srp/attributes");
    assert_eq!(request.query, vec![("email".to_string(), "me@example.com".to_string())]);

    let (request, stage) = ask(continue_login(&client(), stage, &ok(&attributes())));
    assert_eq!(request.url, "https://m.example/users/srp/create-session");
    assert_eq!(text_field(&request, "srpUserID"), "user-1");
    let a_bytes = STANDARD.decode(text_field(&request, "srpA")).unwrap();

    // The server's side of the handshake.
    let n = BigUint::from_bytes_be(&GROUP_PRIME);
    let g = BigUint::from(5u32);
    let k = BigUint::from_bytes_be(&hash(&[&padded(&n), &padded(&g)]));
    let kek = derive_key_encryption_key("correct horse", KEK_SALT, 8388608, 2).unwrap();
    let login_key = derive_login_key(&kek).unwrap();
    let x = BigUint::from_bytes_be(&hash(&[b"salt", &hash(&[b"user-1", b":", &login_key])]));
    let v = g.modpow(&x, &n);
    let b = BigUint::from_bytes_be(&[3u8; 32]);
    let b_pub = (&k * &v + g.modpow(&b, &n)) % &n;
    let b_bytes = b_pub.to_bytes_be();
    let u = BigUint::from_bytes_be(&hash(&[&a_bytes, &b_bytes]));
    let a_pub = BigUint::from_bytes_be(&a_bytes);
    let s = (a_pub * v.modpow(&u, &n)).modpow(&b, &n);
    let expected = hash(&[&a_bytes, &b_bytes, &padded(&s)]);

    let body = format!(r#"{{"srpB": "{}", "sessionID": "sess"}}"#, STANDARD.encode(&b_bytes));
    let (request, stage) = ask(continue_login(&client(), stage, &ok(&body)));
    assert_eq!(request.url, "https://m.example/users/srp/verify-session");
    assert_eq!(text_field(&request, "srpUserID"), "user-1");
    assert_eq!(text_field(&request, "sessionID"), "sess");
    assert_eq!(text_field(&request, "srpM1"), STANDARD.encode(expected));

    let (auth, token) = auth_body(&kek);
    let secrets = done(continue_login(&client(), stage, &ok(&auth))).unwrap();
    assert_eq!(secrets.user_id, 77);
    assert_eq!(secrets.token, URL_SAFE.encode(token));
    assert_eq!(secrets.master_key, vec![9u8; 32]);
    assert_eq!(secrets.secret_key.len(), 32);
    assert_eq!(secrets.clone().public_key, secrets.public_key);
}

#[test]
fn attributes_that_end_the_login() {
    let cases = [
        (r#"{}"#, true, "account has no SRP attributes (use email/passkey login)"),
        (
            r#"{"attributes": null}"#,
            true,
            "account has no SRP attributes (use email/passkey login)",
        ),
        (
            r#"{"attributes": {"isEmailMFAEnabled": true}}"#,
            true,
            "account uses email-based MFA, which is not supported",
        ),
        (r#"{"attributes": {}}"#, false, "missing kekSalt"),
        (r#"{"attributes": {"kekSalt": "AA"}}"#, false, "missing memLimit"),
        (r#"{"attributes": {"kekSalt": "AA", "memLimit": -1}}"#, false, "missing memLimit"),
        (r#"{"attributes": {"kekSalt": "AA", "memLimit": 1}}"#, false, "missing opsLimit"),
        (
            r#"{"attributes": {"kekSalt": "AA", "memLimit": 1, "opsLimit": 1}}"#,
            false,
            "crypto operation failed",
        ),
    ];
    for (body, unsupported, message) in cases {
        let e = failure(done(continue_login(&client(), first_stage(), &ok(body))));
        assert_eq!(e.message(), message);
        if unsupported {
            assert!(matches!(e, LoginError::Unsupported(_)));
        } else {
            assert!(matches!(e, LoginError::Recoverable(_)));
        }
    }
    let base = format!(r#""kekSalt": "{KEK_SALT}", "memLimit": 8388608, "opsLimit": 2"#);
    for (more, message) in [
        ("", "missing srpUserID"),
        (r#", "srpUserID": 5"#, "missing srpSalt"),
        (
            r#", "srpUserID": 5, "srpSalt": "?""#,
            "base64 decode failed: Invalid symbol 63, offset 0.",
        ),
    ] {
        let body = format!(r#"{{"attributes": {{{base}{more}}}}}"#);
        let e = failure(done(continue_login(&client(), first_stage(), &ok(&body))));
        assert_eq!(e.message(), message);
    }
    let e = failure(done(continue_login(&client(), first_stage(), &refused(500, "boom"))));
    assert!(matches!(e, LoginError::Api(EnteApiError::Status(500, _))));
    assert_eq!(e.message(), "museum returned 500: boom");
}

#[test]
fn sessions_that_end_the_login() {
    for (answer, message) in [
        (refused(429, "slow down"), "failed to create SRP session: slow down"),
        (ok("{}"), "missing srpB"),
        (ok(r#"{"srpB": "AQ=="}"#), "missing sessionID"),
        (
            ok(r#"{"srpB": "=A", "sessionID": 1}"#),
            "base64 decode failed: Invalid symbol 61, offset 0.",
        ),
        (ok(r#"{"srpB": "AA==", "sessionID": 1}"#), "invalid server B value"),
    ] {
        let e = failure(done(continue_login(&client(), session_stage(), &answer)));
        assert!(matches!(e, LoginError::Recoverable(_)));
        assert_eq!(e.message(), message);
    }
    let e = failure(done(continue_login(&client(), session_stage(), &Err("down".to_string()))));
    assert!(matches!(e, LoginError::Api(EnteApiError::Transport(_))));
}

#[test]
fn verifications_that_end_the_login() {
    let kek = [4u8; 32];
    for (answer, message) in [
        (refused(401, "x"), "incorrect email or password"),
        (refused(400, "x"), "incorrect email or password"),
        (refused(418, "tea"), "SRP verification failed: tea"),
    ] {
        let stage = LoginStage::Verification { kek };
        let e = failure(done(continue_login(&client(), stage, &answer)));
        assert!(matches!(e, LoginError::Recoverable(_)));
        assert_eq!(e.message(), message);
    }
    let stage = LoginStage::Verification { kek };
    let e = failure(done(continue_login(&client(), stage, &ok("["))));
    assert!(matches!(e, LoginError::Api(EnteApiError::Decode(_))));

    let stage = LoginStage::Verification { kek };
    let body = r#"{"passkeySessionID": "p", "twoFactorSessionID": "t"}"#;
    let e = failure(done(continue_login(&client(), stage, &ok(body))));
    assert!(matches!(e, LoginError::Unsupported(_)));
    assert_eq!(e.message(), "account requires passkey verification");

    let stage = LoginStage::Verification { kek };
    let body = r#"{"passkeySessionID": "", "twoFactorSessionID": "t"}"#;
    let e = failure(done(continue_login(&client(), stage, &ok(body))));
    assert_eq!(e.message(), "two-factor authentication required");
    match e {
        LoginError::TwoFactorRequired { session_id, kek: kept } => {
            assert_eq!(session_id, "t");
            assert_eq!(kept, kek);
        }
        _ => panic!("no second factor"),
    }
}

#[test]
fn second_factor() {
    let kek = [4u8; 32];
    let request = verify_totp(&client(), "sess", "123456");
    assert_eq!(request.url, "https://m.example/users/two-factor/verify");
    assert_eq!(text_field(&request, "sessionID"), "sess");
    assert_eq!(text_field(&request, "code"), "123456");

    let (auth, _) = auth_body(&kek);
    let secrets = totp_answered(&kek, &ok(&auth)).unwrap();
    let direct = done(continue_login(
        &client(),
        LoginStage::Verification { kek },
        &ok(&auth),
    ))
    .unwrap();
    assert_eq!(secrets.token, direct.token);
    assert_eq!(secrets.master_key, direct.master_key);

    for status in [400, 401, 404, 410, 499] {
        let e = failure(totp_answered(&kek, &refused(status, "no")));
        assert!(matches!(e, LoginError::Recoverable(_)));
        assert_eq!(e.message(), "invalid two-factor code");
    }
}

#[test]
fn second_factor_that_was_not_checked() {
    let kek = [4u8; 32];
    let mut store = SessionStore::new(1000);
    for (answer, message) in [
        (Err("down".to_string()), "cannot reach museum instance: down".to_string()),
        (refused(500, "no"), "museum returned 500: no".to_string()),
        (refused(503, "busy"), "museum returned 503: busy".to_string()),
        (refused(302, ""), "museum returned 302: ".to_string()),
    ] {
        let ended = totp_answered(&kek, &answer);
        assert!(matches!(ended, Err(LoginError::Api(_))));
        let e = auth_two_factor(&mut store, ended).err().unwrap();
        assert_eq!((e.status, e.detail), (502, message));
    }
    let ended = totp_answered(&kek, &ok("no json"));
    assert!(matches!(ended, Err(LoginError::Api(EnteApiError::Decode(_)))));
    assert_eq!(auth_two_factor(&mut store, ended).err().unwrap().status, 502);
    let ended = totp_answered(&kek, &refused(401, "no"));
    let e = auth_two_factor(&mut store, ended).err().unwrap();
    assert_eq!((e.status, e.detail.as_str()), (401, "invalid two-factor code"));
}

#[test]
fn secrets_that_cannot_be_opened() {
    let kek = [4u8; 32];
    let (auth, _) = auth_body(&kek);
    assert!(decrypt_secrets(&parse_json(auth.as_bytes()).unwrap(), &kek).is_ok());
    let wrong = [5u8; 32];
    let e = failure(decrypt_secrets(&parse_json(auth.as_bytes()).unwrap(), &wrong));
    assert_eq!(e.message(), "crypto operation failed");
    for (body, message) in [
        ("{}".to_string(), "login response missing key attributes or token"),
        (
            r#"{"encryptedToken": "AA", "keyAttributes": null}"#.to_string(),
            "login response missing key attributes or token",
        ),
        (
            r#"{"keyAttributes": {}}"#.to_string(),
            "login response missing key attributes or token",
        ),
        (r#"{"encryptedToken": "AA", "keyAttributes": {}}"#.to_string(), "missing encryptedKey"),
        (
            r#"{"encryptedToken": "AA", "keyAttributes": {"encryptedKey": "AA"}}"#.to_string(),
            "missing keyDecryptionNonce",
        ),
        (auth.replace("encryptedSecretKey", "x"), "missing encryptedSecretKey"),
        (auth.replace("secretKeyDecryptionNonce", "x"), "missing secretKeyDecryptionNonce"),
        (auth.replace("publicKey", "x"), "missing publicKey"),
        (auth.replace("\"id\": 77", "\"id\": \"77\""), "missing user id"),
    ] {
        let e = failure(decrypt_secrets(&parse_json(body.as_bytes()).unwrap(), &kek));
        assert!(matches!(e, LoginError::Recoverable(_)));
        assert_eq!(e.message(), message);
    }
}
