//! The cryptographic operations of the museum protocol.
//!
//! All of them are libsodium-compatible: keys, tokens and file payloads
//! written by the official apps decrypt byte for byte.

use crate::encoding::{
    base64_bare, base64_bare_injective, base64_padded, base64_refusal, decode_standard_bare,
    encode_standard, encode_url_safe, trim_padding, Alphabet,
};
use crate::text::{joined, trim_end, trim_end_of};
use dryoc::classic::crypto_box::crypto_box_seal_open;
use dryoc::classic::crypto_kdf::crypto_kdf_derive_from_key;
use dryoc::classic::crypto_pwhash::{crypto_pwhash, PasswordHashAlgorithm};
use dryoc::classic::crypto_secretbox::crypto_secretbox_open_easy;
use dryoc::classic::crypto_secretstream_xchacha20poly1305::{
    crypto_secretstream_xchacha20poly1305_init_pull, crypto_secretstream_xchacha20poly1305_pull,
    State,
};
use flate2::read::GzDecoder;
use std::io::Read;
use vstd::prelude::*;
use vstd::utf8::encode_utf8;

verus! {

/// How much longer a chunk of a stream is than its message.
pub const ABYTES: usize = 17;

/// File blobs are encrypted in chunks of 4 MiB of plaintext.
pub const DECRYPTION_CHUNK_SIZE: usize = 4 * 1024 * 1024 + ABYTES;

/// The tag of the last chunk of a stream.
pub const TAG_FINAL: u8 = 3;

/// The context of the login key: "loginctx".
pub const LOGIN_CONTEXT: [u8; 8] = [108, 111, 103, 105, 110, 99, 116, 120];

#[derive(Debug)]
pub enum CryptoError {
    Base64(String),
    Crypto,
    Length,
}

/// The mathematical counterpart of `CryptoError`.
pub enum CryptoFault {
    Base64(Seq<char>),
    Crypto,
    Length,
}

impl View for CryptoError {
    type V = CryptoFault;

    open spec fn view(&self) -> CryptoFault {
        match self {
            CryptoError::Base64(m) => CryptoFault::Base64(m@),
            CryptoError::Crypto => CryptoFault::Crypto,
            CryptoError::Length => CryptoFault::Length,
        }
    }
}

impl CryptoFault {
    /// The fault in words.
    pub open spec fn words(self) -> Seq<char> {
        match self {
            CryptoFault::Base64(m) => "base64 decode failed: "@ + m,
            CryptoFault::Crypto => "crypto operation failed"@,
            CryptoFault::Length => "invalid key/nonce length"@,
        }
    }
}

impl CryptoError {
    /// The error in words.
    pub fn message(&self) -> (r: String)
        ensures
            r@ == self@.words(),
    {
        match self {
            CryptoError::Base64(m) => joined("base64 decode failed: ", m.as_str()),
            CryptoError::Crypto => "crypto operation failed".to_owned(),
            CryptoError::Length => "invalid key/nonce length".to_owned(),
        }
    }
}

/// What a caller sees of the outcome of an operation.
pub open spec fn outcome(r: Result<Vec<u8>, CryptoError>) -> Result<Seq<u8>, CryptoFault> {
    match r {
        Ok(bytes) => Ok(bytes@),
        Err(e) => Err(e@),
    }
}

// ------------------------------ outside calls ------------------------------

/// `dryoc::Error`, carried as an opaque value.
#[verifier::external_type_specification]
#[verifier::external_body]
pub struct ExCryptoLibError(dryoc::Error);

/// The state of a secret stream, carried as an opaque value.
#[verifier::external_type_specification]
#[verifier::external_body]
pub struct ExStreamState(State);

/// The Argon2id hash of a password, 32 bytes long, or `None` where the limits
/// or the lengths are out of range.
pub uninterp spec fn password_hash(
    password: Seq<u8>,
    salt: Seq<u8>,
    ops_limit: u64,
    mem_limit: usize,
) -> Option<Seq<u8>>;

/// The subkey of `main_key` with number `id` in `context`, 32 bytes long.
pub uninterp spec fn kdf_subkey(id: u64, context: Seq<u8>, main_key: Seq<u8>) -> Seq<u8>;

/// The message in a secret box, or `None` where its MAC does not match.
pub uninterp spec fn secretbox_message(cipher: Seq<u8>, nonce: Seq<u8>, key: Seq<u8>) -> Option<
    Seq<u8>,
>;

/// The message in a sealed box, or `None` where it was not sealed for this
/// key pair.
pub uninterp spec fn sealed_message(
    cipher: Seq<u8>,
    public_key: Seq<u8>,
    secret_key: Seq<u8>,
) -> Option<Seq<u8>>;

/// The state in which a stream with this header and key starts.
pub uninterp spec fn stream_start(header: Seq<u8>, key: Seq<u8>) -> State;

/// The message and the tag of the next chunk of a stream and the state after
/// it, or `None` where the chunk's MAC does not match.
pub uninterp spec fn stream_pull(state: State, chunk: Seq<u8>) -> Option<(Seq<u8>, u8, State)>;

/// What a gzip member decompresses to, or `None` where it is damaged.
pub uninterp spec fn gunzipped(data: Seq<u8>) -> Option<Seq<u8>>;

/// `dryoc`'s `crypto_pwhash` with the algorithm Argon2id13. It refuses limits
/// below its minimum and salts that are too short. The memory limit is
/// allocated, so the machine must have it.
#[verifier::external_body]
fn argon2id(
    output: &mut [u8; 32],
    password: &[u8],
    salt: &[u8],
    ops_limit: u64,
    mem_limit: usize,
) -> (r: Result<(), dryoc::Error>)
    ensures
        match r {
            Ok(_) => password_hash(password@, salt@, ops_limit, mem_limit) == Some(
                final(output)@,
            ),
            Err(_) => password_hash(password@, salt@, ops_limit, mem_limit) is None,
        },
{
    let algorithm = PasswordHashAlgorithm::Argon2id13;
    crypto_pwhash(output, password, salt, ops_limit, mem_limit, algorithm)
}

/// `dryoc`'s `crypto_kdf_derive_from_key` fills a subkey of 32 bytes; it has
/// nothing to refuse at that length.
#[verifier::external_body]
fn kdf_derive(
    subkey: &mut [u8],
    subkey_id: u64,
    context: &[u8; 8],
    main_key: &[u8; 32],
) -> (r: Result<(), dryoc::Error>)
    requires
        old(subkey)@.len() == 32,
    ensures
        r is Ok,
        final(subkey)@.len() == 32,
        final(subkey)@ == kdf_subkey(subkey_id, context@, main_key@),
{
    crypto_kdf_derive_from_key(subkey, subkey_id, context, main_key)
}

/// `dryoc`'s `crypto_secretbox_open_easy` writes the message of an authentic
/// box into `message`, which has to be as long as that message, and fails on
/// any other box.
#[verifier::external_body]
fn secretbox_open_easy(
    message: &mut [u8],
    ciphertext: &[u8],
    nonce: &[u8; 24],
    key: &[u8; 32],
) -> (r: Result<(), dryoc::Error>)
    requires
        old(message)@.len() + 16 == ciphertext@.len(),
    ensures
        final(message)@.len() == old(message)@.len(),
        match r {
            Ok(_) => secretbox_message(ciphertext@, nonce@, key@) == Some(final(message)@),
            Err(_) => secretbox_message(ciphertext@, nonce@, key@) is None,
        },
{
    crypto_secretbox_open_easy(message, ciphertext, nonce, key)
}

/// `dryoc`'s `crypto_box_seal_open` writes the message of a box that was
/// sealed for the key pair into `message`, which has to be as long as that
/// message, and fails on any other box.
#[verifier::external_body]
fn seal_open(
    message: &mut [u8],
    ciphertext: &[u8],
    recipient_public_key: &[u8; 32],
    recipient_secret_key: &[u8; 32],
) -> (r: Result<(), dryoc::Error>)
    requires
        old(message)@.len() + 48 == ciphertext@.len(),
    ensures
        final(message)@.len() == old(message)@.len(),
        match r {
            Ok(_) => sealed_message(ciphertext@, recipient_public_key@, recipient_secret_key@)
                == Some(final(message)@),
            Err(_) => sealed_message(
                ciphertext@,
                recipient_public_key@,
                recipient_secret_key@,
            ) is None,
        },
{
    crypto_box_seal_open(message, ciphertext, recipient_public_key, recipient_secret_key)
}

/// `State::new` gives a state that has yet to be initialised.
pub assume_specification[ State::new ]() -> (r: State)
;

/// `dryoc`'s `crypto_secretstream_xchacha20poly1305_init_pull` overwrites the
/// whole state; what it writes depends on the header and the key alone.
#[verifier::external_body]
fn stream_init_pull(
    state: &mut State,
    header: &[u8; 24],
    key: &[u8; 32],
)
    ensures
        *final(state) == stream_start(header@, key@),
{
    crypto_secretstream_xchacha20poly1305_init_pull(state, header, key)
}

/// `dryoc`'s `crypto_secretstream_xchacha20poly1305_pull`, without associated
/// data: it checks the chunk against the state, writes the message and the tag
/// and moves the state on. `message` has to be as long as the message.
pub assume_specification[ crypto_secretstream_xchacha20poly1305_pull ](
    state: &mut State,
    message: &mut [u8],
    tag: &mut u8,
    ciphertext: &[u8],
    associated_data: Option<&[u8]>,
) -> (r: Result<usize, dryoc::Error>)
    requires
        old(message)@.len() + 17 == ciphertext@.len(),
        associated_data is None,
    ensures
        final(message)@.len() == old(message)@.len(),
        match r {
            Ok(n) => {
                &&& n == final(message)@.len()
                &&& stream_pull(*old(state), ciphertext@) == Some(
                    (final(message)@, *final(tag), *final(state)),
                )
            },
            Err(_) => stream_pull(*old(state), ciphertext@) is None,
        },
;

/// `flate2::read::GzDecoder` read to its end: the decompressed bytes of the
/// first gzip member in `data`.
#[verifier::external_body]
fn read_gzip(data: &[u8]) -> (r: Option<Vec<u8>>)
    ensures
        match r {
            Some(out) => gunzipped(data@) == Some(out@),
            None => gunzipped(data@) is None,
        },
{
    let mut out: Vec<u8> = Vec::new();
    match GzDecoder::new(data).read_to_end(&mut out) {
        Ok(_) => Some(out),
        Err(_) => None,
    }
}

// --------------------------------- base64 ----------------------------------

/// The bytes that a base64 text stands for, its padding left out of account.
pub open spec fn base64_bytes(text: Seq<char>) -> Result<Seq<u8>, CryptoFault> {
    let bare = trim_end_of(text, '=');
    if exists|bytes: Seq<u8>| bare == #[trigger] base64_bare(Alphabet::Standard, bytes) {
        Ok(choose|bytes: Seq<u8>| bare == #[trigger] base64_bare(Alphabet::Standard, bytes))
    } else {
        Err(CryptoFault::Base64(base64_refusal(bare)))
    }
}

/// Decodes a base64 text in the standard alphabet, with or without padding.
pub fn b64decode(value: &str) -> (r: Result<Vec<u8>, CryptoError>)
    ensures
        outcome(r) == base64_bytes(value@),
{
    let trimmed = trim_end(value, '=');
    match decode_standard_bare(trimmed.as_str()) {
        Ok(bytes) => {
            proof {
                let found = choose|b: Seq<u8>|
                    trimmed@ == #[trigger] base64_bare(Alphabet::Standard, b);
                base64_bare_injective(Alphabet::Standard, bytes@, found);
            }
            Ok(bytes)
        },
        Err(m) => Err(CryptoError::Base64(m)),
    }
}

/// Padded base64 in the standard alphabet.
pub fn b64encode(value: &[u8]) -> (r: String)
    ensures
        r@ == base64_padded(Alphabet::Standard, value@),
{
    encode_standard(value)
}

/// Padded base64 in the URL-safe alphabet.
pub fn b64encode_url(value: &[u8]) -> (r: String)
    ensures
        r@ == base64_padded(Alphabet::UrlSafe, value@),
{
    encode_url_safe(value)
}

/// Decoding gives back what was encoded, with the padding or without it.
pub proof fn decode_undoes_encode(bytes: Seq<u8>)
    ensures
        base64_bytes(base64_padded(Alphabet::Standard, bytes)) == Ok::<Seq<u8>, CryptoFault>(bytes),
        base64_bytes(base64_bare(Alphabet::Standard, bytes)) == Ok::<Seq<u8>, CryptoFault>(bytes),
{
    trim_padding(Alphabet::Standard, bytes);
    let bare = base64_bare(Alphabet::Standard, bytes);
    let found = choose|b: Seq<u8>| bare == #[trigger] base64_bare(Alphabet::Standard, b);
    base64_bare_injective(Alphabet::Standard, bytes, found);
}

// ---------------------------------- keys -----------------------------------

/// `bytes` as an array, where the length is right.
fn array_24(bytes: &[u8]) -> (r: Option<[u8; 24]>)
    ensures
        match r {
            Some(a) => a@ == bytes@,
            None => bytes@.len() != 24,
        },
{
    if bytes.len() != 24 {
        return None;
    }
    let mut out: [u8; 24] = [0u8;24];
    let mut i: usize = 0;
    while i < 24
        invariant
            i <= 24,
            bytes@.len() == 24,
            forall|j: int| 0 <= j < i ==> out@[j] == bytes@[j],
        decreases 24 - i,
    {
        out[i] = bytes[i];
        i += 1;
    }
    assert(out@ =~= bytes@);
    Some(out)
}

/// `bytes` as an array, where the length is right.
pub(crate) fn array_32(bytes: &[u8]) -> (r: Option<[u8; 32]>)
    ensures
        match r {
            Some(a) => a@ == bytes@,
            None => bytes@.len() != 32,
        },
{
    if bytes.len() != 32 {
        return None;
    }
    let mut out: [u8; 32] = [0u8;32];
    let mut i: usize = 0;
    while i < 32
        invariant
            i <= 32,
            bytes@.len() == 32,
            forall|j: int| 0 <= j < i ==> out@[j] == bytes@[j],
        decreases 32 - i,
    {
        out[i] = bytes[i];
        i += 1;
    }
    assert(out@ =~= bytes@);
    Some(out)
}

/// The key-encryption key of a password.
pub open spec fn key_encryption_key(
    password: Seq<char>,
    kek_salt_b64: Seq<char>,
    mem_limit: usize,
    ops_limit: u64,
) -> Result<Seq<u8>, CryptoFault> {
    match base64_bytes(kek_salt_b64) {
        Err(e) => Err(e),
        Ok(salt) => match password_hash(encode_utf8(password), salt, ops_limit, mem_limit) {
            Some(key) => Ok(key),
            None => Err(CryptoFault::Crypto),
        },
    }
}

/// Derives the key-encryption key (KEK) from the password with Argon2id.
pub fn derive_key_encryption_key(
    password: &str,
    kek_salt_b64: &str,
    mem_limit: usize,
    ops_limit: u64,
) -> (r: Result<[u8; 32], CryptoError>)
    ensures
        match r {
            Ok(key) => key_encryption_key(password@, kek_salt_b64@, mem_limit, ops_limit) == Ok::<
                Seq<u8>,
                CryptoFault,
            >(key@),
            Err(e) => key_encryption_key(password@, kek_salt_b64@, mem_limit, ops_limit) == Err::<
                Seq<u8>,
                CryptoFault,
            >(e@),
        },
        base64_bytes(kek_salt_b64@) matches Ok(salt) ==> match r {
            Ok(key) => password_hash(encode_utf8(password@), salt, ops_limit, mem_limit) == Some(
                key@,
            ),
            Err(_) => password_hash(encode_utf8(password@), salt, ops_limit, mem_limit) is None,
        },
        base64_bytes(kek_salt_b64@) is Err ==> r is Err,
{
    let salt = match b64decode(kek_salt_b64) {
        Ok(bytes) => bytes,
        Err(e) => return Err(e),
    };
    let mut out: [u8; 32] = [0u8;32];
    match argon2id(&mut out, password.as_bytes(), &salt, ops_limit, mem_limit) {
        Ok(_) => Ok(out),
        Err(_) => Err(CryptoError::Crypto),
    }
}

/// The login key of a key-encryption key: the first half of its subkey 1.
pub open spec fn login_key_of(kek: Seq<u8>) -> Seq<u8> {
    kdf_subkey(1, LOGIN_CONTEXT@, kek).take(16)
}

/// Derives the 16-byte login key from the KEK.
pub fn derive_login_key(kek: &[u8; 32]) -> (r: Result<[u8; 16], CryptoError>)
    ensures
        r matches Ok(key) && key@ == login_key_of(kek@),
{
    let mut subkey: [u8; 32] = [0u8;32];
    match kdf_derive(&mut subkey, 1, &LOGIN_CONTEXT, kek) {
        Ok(_) => {},
        Err(_) => return Err(CryptoError::Crypto),
    }
    let mut out: [u8; 16] = [0u8;16];
    let mut i: usize = 0;
    while i < 16
        invariant
            i <= 16,
            forall|j: int| 0 <= j < i ==> out@[j] == subkey@[j],
        decreases 16 - i,
    {
        out[i] = subkey[i];
        i += 1;
    }
    assert(out@ =~= subkey@.take(16));
    Ok(out)
}

// ---------------------------------- boxes ----------------------------------

/// The message in a secret box whose parts are base64 texts.
pub open spec fn secretbox_opened(
    cipher_b64: Seq<char>,
    nonce_b64: Seq<char>,
    key: Seq<u8>,
) -> Result<Seq<u8>, CryptoFault> {
    match base64_bytes(cipher_b64) {
        Err(e) => Err(e),
        Ok(cipher) => match base64_bytes(nonce_b64) {
            Err(e) => Err(e),
            Ok(nonce) => if nonce.len() != 24 || key.len() != 32 || cipher.len() < 16 {
                Err(CryptoFault::Length)
            } else {
                match secretbox_message(cipher, nonce, key) {
                    Some(message) => Ok(message),
                    None => Err(CryptoFault::Crypto),
                }
            },
        },
    }
}

/// Opens a secret box (MAC first, then the ciphertext).
pub fn secretbox_open(cipher_b64: &str, nonce_b64: &str, key: &[u8]) -> (r: Result<
    Vec<u8>,
    CryptoError,
>)
    ensures
        outcome(r) == secretbox_opened(cipher_b64@, nonce_b64@, key@),
        r matches Ok(p) ==> (base64_bytes(cipher_b64@) matches Ok(c) && p@.len() + 16 == c.len()),
{
    let cipher = match b64decode(cipher_b64) {
        Ok(bytes) => bytes,
        Err(e) => return Err(e),
    };
    let nonce_bytes = match b64decode(nonce_b64) {
        Ok(bytes) => bytes,
        Err(e) => return Err(e),
    };
    let nonce = match array_24(&nonce_bytes) {
        Some(a) => a,
        None => return Err(CryptoError::Length),
    };
    let key = match array_32(key) {
        Some(a) => a,
        None => return Err(CryptoError::Length),
    };
    if cipher.len() < 16 {
        return Err(CryptoError::Length);
    }
    let mut out: Vec<u8> = vec![0u8; cipher.len() - 16];
    match secretbox_open_easy(&mut out, &cipher, &nonce, &key) {
        Ok(_) => Ok(out),
        Err(_) => Err(CryptoError::Crypto),
    }
}

/// The message in a sealed box that is a base64 text.
pub open spec fn sealed_box_opened(
    cipher_b64: Seq<char>,
    public_key: Seq<u8>,
    secret_key: Seq<u8>,
) -> Result<Seq<u8>, CryptoFault> {
    match base64_bytes(cipher_b64) {
        Err(e) => Err(e),
        Ok(cipher) => if public_key.len() != 32 || secret_key.len() != 32 || cipher.len() < 48 {
            Err(CryptoFault::Length)
        } else {
            match sealed_message(cipher, public_key, secret_key) {
                Some(message) => Ok(message),
                None => Err(CryptoFault::Crypto),
            }
        },
    }
}

/// Opens a sealed (anonymous) box.
pub fn sealed_box_open(cipher_b64: &str, public_key: &[u8], secret_key: &[u8]) -> (r: Result<
    Vec<u8>,
    CryptoError,
>)
    ensures
        outcome(r) == sealed_box_opened(cipher_b64@, public_key@, secret_key@),
        r matches Ok(p) ==> (base64_bytes(cipher_b64@) matches Ok(c) && p@.len() + 48 == c.len()),
{
    let cipher = match b64decode(cipher_b64) {
        Ok(bytes) => bytes,
        Err(e) => return Err(e),
    };
    let pk = match array_32(public_key) {
        Some(a) => a,
        None => return Err(CryptoError::Length),
    };
    let sk = match array_32(secret_key) {
        Some(a) => a,
        None => return Err(CryptoError::Length),
    };
    if cipher.len() < 48 {
        return Err(CryptoError::Length);
    }
    let mut out: Vec<u8> = vec![0u8; cipher.len() - 48];
    match seal_open(&mut out, &cipher, &pk, &sk) {
        Ok(_) => Ok(out),
        Err(_) => Err(CryptoError::Crypto),
    }
}

// --------------------------------- streams ---------------------------------

/// What the next chunk of a stream holds; a chunk that is too short to hold a
/// tag and a MAC holds nothing.
pub open spec fn chunk_pulled(state: State, chunk: Seq<u8>) -> Option<(Seq<u8>, u8, State)> {
    if chunk.len() < ABYTES {
        None
    } else {
        stream_pull(state, chunk)
    }
}

/// Pulls the next chunk of a stream: its message and its tag.
fn pull_chunk(state: &mut State, chunk: &[u8]) -> (r: Option<(Vec<u8>, u8)>)
    ensures
        match r {
            Some((message, tag)) => {
                &&& chunk_pulled(*old(state), chunk@) == Some((message@, tag, *final(state)))
                &&& message@.len() + ABYTES == chunk@.len()
            },
            None => chunk_pulled(*old(state), chunk@) is None,
        },
{
    if chunk.len() < ABYTES {
        return None;
    }
    let message_len: usize = chunk.len() - ABYTES;
    let mut message: Vec<u8> = vec![0u8; message_len];
    let mut tag: u8 = 0;
    match crypto_secretstream_xchacha20poly1305_pull(state, &mut message, &mut tag, chunk, None) {
        Ok(_) => Some((message, tag)),
        Err(_) => None,
    }
}

/// The message of a stream of one chunk whose parts are base64 texts.
pub open spec fn chacha_decrypted(
    data_b64: Seq<char>,
    key: Seq<u8>,
    header_b64: Seq<char>,
) -> Result<Seq<u8>, CryptoFault> {
    match base64_bytes(data_b64) {
        Err(e) => Err(e),
        Ok(data) => match base64_bytes(header_b64) {
            Err(e) => Err(e),
            Ok(header) => if header.len() != 24 || key.len() != 32 {
                Err(CryptoFault::Length)
            } else {
                match chunk_pulled(stream_start(header, key), data) {
                    Some((message, _, _)) => Ok(message),
                    None => Err(CryptoFault::Crypto),
                }
            },
        },
    }
}

/// Decrypts a stream of a single chunk (metadata is kept so).
pub fn decrypt_chacha(data_b64: &str, key: &[u8], header_b64: &str) -> (r: Result<
    Vec<u8>,
    CryptoError,
>)
    ensures
        outcome(r) == chacha_decrypted(data_b64@, key@, header_b64@),
        r matches Ok(p) ==> (base64_bytes(data_b64@) matches Ok(c) && p@.len() + ABYTES == c.len()),
{
    let data = match b64decode(data_b64) {
        Ok(bytes) => bytes,
        Err(e) => return Err(e),
    };
    let header_bytes = match b64decode(header_b64) {
        Ok(bytes) => bytes,
        Err(e) => return Err(e),
    };
    let header = match array_24(&header_bytes) {
        Some(a) => a,
        None => return Err(CryptoError::Length),
    };
    let key = match array_32(key) {
        Some(a) => a,
        None => return Err(CryptoError::Length),
    };
    let mut state = State::new();
    stream_init_pull(&mut state, &header, &key);
    match pull_chunk(&mut state, &data) {
        Some((message, _)) => Ok(message),
        None => Err(CryptoError::Crypto),
    }
}

/// How long the first chunk of the rest of a stream is.
pub open spec fn chunk_end(rest: Seq<u8>) -> int {
    if rest.len() < DECRYPTION_CHUNK_SIZE {
        rest.len() as int
    } else {
        DECRYPTION_CHUNK_SIZE as int
    }
}

/// The plaintext of the rest of a stream: the messages of its chunks, up to
/// the end or up to the chunk that is tagged as the last.
pub open spec fn stream_plain(state: State, rest: Seq<u8>) -> Option<Seq<u8>>
    decreases rest.len(),
{
    if rest.len() == 0 {
        Some(Seq::empty())
    } else {
        let end = chunk_end(rest);
        match chunk_pulled(state, rest.take(end)) {
            None => None,
            Some((message, tag, next)) => if tag == TAG_FINAL {
                Some(message)
            } else {
                match stream_plain(next, rest.skip(end)) {
                    None => None,
                    Some(more) => Some(message + more),
                }
            },
        }
    }
}

/// Each chunk of the rest of a stream, up to the last, holds a message that is
/// shorter than the chunk by its tag and its MAC.
pub open spec fn chunks_fit(state: State, rest: Seq<u8>) -> bool
    decreases rest.len(),
{
    rest.len() > 0 ==> {
        let end = chunk_end(rest);
        match chunk_pulled(state, rest.take(end)) {
            None => true,
            Some((message, tag, next)) => {
                &&& message.len() + ABYTES == end
                &&& tag == TAG_FINAL || chunks_fit(next, rest.skip(end))
            },
        }
    }
}

/// The plaintext of a stream is shorter than the stream.
pub proof fn plaintext_is_shorter(state: State, rest: Seq<u8>)
    requires
        chunks_fit(state, rest),
    ensures
        stream_plain(state, rest) matches Some(plain) ==> plain.len() <= rest.len() && (rest.len()
            > 0 ==> plain.len() + ABYTES <= rest.len()),
    decreases rest.len(),
{
    if rest.len() > 0 {
        let end = chunk_end(rest);
        if let Some((_, tag, next)) = chunk_pulled(state, rest.take(end)) {
            if tag != TAG_FINAL {
                plaintext_is_shorter(next, rest.skip(end));
            }
        }
    }
}

/// The plaintext of a file blob.
pub open spec fn file_decrypted(encrypted: Seq<u8>, key: Seq<u8>, header: Seq<u8>) -> Result<
    Seq<u8>,
    CryptoFault,
> {
    if header.len() != 24 || key.len() != 32 {
        Err(CryptoFault::Length)
    } else {
        match stream_plain(stream_start(header, key), encrypted) {
            Some(plain) => Ok(plain),
            None => Err(CryptoFault::Crypto),
        }
    }
}

/// Decrypts a whole file blob.
pub fn decrypt_file_stream(encrypted: &[u8], key: &[u8], header: &[u8]) -> (r: Result<
    Vec<u8>,
    CryptoError,
>)
    ensures
        outcome(r) == file_decrypted(encrypted@, key@, header@),
        r is Ok ==> chunks_fit(stream_start(header@, key@), encrypted@),
{
    let header_array = match array_24(header) {
        Some(a) => a,
        None => return Err(CryptoError::Length),
    };
    let key_array = match array_32(key) {
        Some(a) => a,
        None => return Err(CryptoError::Length),
    };
    let mut state = State::new();
    stream_init_pull(&mut state, &header_array, &key_array);
    let ghost start = state;
    let total: usize = encrypted.len();
    let mut out: Vec<u8> = Vec::with_capacity(total);
    let mut offset: usize = 0;
    assert(encrypted@.skip(0) =~= encrypted@);
    proof {
        if let Some(more) = stream_plain(start, encrypted@) {
            assert(out@ + more =~= more);
        }
    }
    while offset < total
        invariant
            offset <= total,
            total == encrypted@.len(),
            header@.len() == 24,
            key@.len() == 32,
            start == stream_start(header@, key@),
            stream_plain(start, encrypted@) == (match stream_plain(
                state,
                encrypted@.skip(offset as int),
            ) {
                Some(more) => Some(out@ + more),
                None => None,
            }),
            chunks_fit(state, encrypted@.skip(offset as int)) ==> chunks_fit(start, encrypted@),
        decreases total - offset,
    {
        let end: usize = if total - offset < DECRYPTION_CHUNK_SIZE {
            total
        } else {
            offset + DECRYPTION_CHUNK_SIZE
        };
        let ghost rest = encrypted@.skip(offset as int);
        let chunk = &encrypted[offset..end];
        assert(chunk@ =~= rest.take(end - offset));
        assert(rest.skip(end - offset) =~= encrypted@.skip(end as int));
        offset = end;
        let ghost before = out@;
        match pull_chunk(&mut state, chunk) {
            None => return Err(CryptoError::Crypto),
            Some((message, tag)) => {
                out.extend_from_slice(&message);
                assert(out@ =~= before + message@);
                if tag == TAG_FINAL {
                    return Ok(out);
                }
                proof {
                    if let Some(more) = stream_plain(state, encrypted@.skip(offset as int)) {
                        assert(before + (message@ + more) =~= out@ + more);
                    }
                }
            },
        }
    }
    assert(encrypted@.skip(offset as int).len() == 0);
    assert(out@ + Seq::<u8>::empty() =~= out@);
    Ok(out)
}

/// Decompresses a gzip payload.
pub fn gunzip(data: &[u8]) -> (r: Result<Vec<u8>, CryptoError>)
    ensures
        outcome(r) == (match gunzipped(data@) {
            Some(plain) => Ok::<Seq<u8>, CryptoFault>(plain),
            None => Err::<Seq<u8>, CryptoFault>(CryptoFault::Crypto),
        }),
{
    match read_gzip(data) {
        Some(plain) => Ok(plain),
        None => Err(CryptoError::Crypto),
    }
}

/// What stands behind the chunk that is tagged as the last is not read.
pub proof fn nothing_follows_the_last_chunk(state: State, chunk: Seq<u8>, rest: Seq<u8>)
    requires
        chunk.len() == DECRYPTION_CHUNK_SIZE,
        chunk_pulled(state, chunk) matches Some((_, tag, _)) && tag == TAG_FINAL,
    ensures
        stream_plain(state, chunk + rest) == stream_plain(state, chunk),
{
    assert((chunk + rest).take(chunk.len() as int) =~= chunk);
    assert(chunk.take(chunk.len() as int) =~= chunk);
}

/// A stream is decrypted chunk by chunk: what a full chunk that is not the last
/// holds stands before what the rest holds.
pub proof fn chunks_follow_each_other(state: State, chunk: Seq<u8>, rest: Seq<u8>)
    requires
        chunk.len() == DECRYPTION_CHUNK_SIZE,
        chunk_pulled(state, chunk) matches Some((_, tag, _)) && tag != TAG_FINAL,
    ensures
        chunk_pulled(state, chunk) matches Some((message, _, next)) && stream_plain(
            state,
            chunk + rest,
        ) == (match stream_plain(next, rest) {
            Some(more) => Some(message + more),
            None => None,
        }),
{
    assert((chunk + rest).take(chunk.len() as int) =~= chunk);
    assert((chunk + rest).skip(chunk.len() as int) =~= rest);
}

} // verus!
