//! Laws of keys, boxes and streams.

use crate::crypto::{
    base64_bytes, chacha_decrypted, file_decrypted, kdf_subkey, key_encryption_key,
    login_key_of, password_hash, sealed_box_opened, sealed_message,
    secretbox_message, secretbox_opened, stream_plain, stream_pull, stream_start, CryptoFault,
};
use crate::encoding::{base64_bare, base64_bare_injective, Alphabet};
use crate::text::trim_end_of;
use dryoc::classic::crypto_secretstream_xchacha20poly1305::State;
use vstd::prelude::*;
use vstd::utf8::encode_utf8;

verus! {

/// The key-encryption key is the Argon2id hash of the password under exactly the
/// salt, the operations limit and the memory limit that were given, and fails
/// where that hash does. So limits that give other hashes give other keys.
pub proof fn kek_is_the_hash_under_the_given_limits(
    password: Seq<char>,
    salt_text: Seq<char>,
    salt: Seq<u8>,
    mem: usize,
    ops: u64,
    other_mem: usize,
    other_ops: u64,
    key: Seq<u8>,
)
    requires
        base64_bytes(salt_text) == Ok::<Seq<u8>, CryptoFault>(salt),
    ensures
        key_encryption_key(password, salt_text, mem, ops) == Ok::<Seq<u8>, CryptoFault>(key)
            <==> password_hash(encode_utf8(password), salt, ops, mem) == Some(key),
        key_encryption_key(password, salt_text, mem, ops) is Err <==> password_hash(
            encode_utf8(password),
            salt,
            ops,
            mem,
        ) is None,
        password_hash(encode_utf8(password), salt, ops, mem) != password_hash(
            encode_utf8(password),
            salt,
            other_ops,
            other_mem,
        ) ==> key_encryption_key(password, salt_text, mem, ops) != key_encryption_key(
            password,
            salt_text,
            other_mem,
            other_ops,
        ),
{
}

/// A salt that is no base64 gives no key.
pub proof fn kek_needs_a_salt(password: Seq<char>, salt_text: Seq<char>, mem: usize, ops: u64)
    requires
        base64_bytes(salt_text) is Err,
    ensures
        key_encryption_key(password, salt_text, mem, ops) is Err,
        key_encryption_key(password, salt_text, mem, ops)->Err_0 == base64_bytes(salt_text)->Err_0,
{
}

/// The login key is the first half of the first subkey of the KEK in the context
/// "loginctx".
pub proof fn login_key_is_half_a_subkey(kek: Seq<u8>, subkey: Seq<u8>)
    requires
        subkey == kdf_subkey(1, seq![108u8, 111, 103, 105, 110, 99, 116, 120], kek),
        subkey.len() == 32,
    ensures
        login_key_of(kek).len() == 16,
        forall|i: int| 0 <= i < 16 ==> #[trigger] login_key_of(kek)[i] == subkey[i],
{
    assert(crate::crypto::LOGIN_CONTEXT@ =~= seq![108u8, 111, 103, 105, 110, 99, 116, 120]);
}

/// A text that decodes is the encoding of what it decodes to, with any number of
/// `=` behind it.
pub proof fn decoded_text_encodes_the_bytes(text: Seq<char>, bytes: Seq<u8>)
    ensures
        base64_bytes(text) == Ok::<Seq<u8>, CryptoFault>(bytes) <==> trim_end_of(text, '=')
            == base64_bare(Alphabet::Standard, bytes),
{
    let bare = trim_end_of(text, '=');
    if bare == base64_bare(Alphabet::Standard, bytes) {
        let found = choose|b: Seq<u8>| bare == #[trigger] base64_bare(Alphabet::Standard, b);
        base64_bare_injective(Alphabet::Standard, found, bytes);
    }
}

/// A secret box opens to the message that the cipher holds under the nonce and the
/// key, and to nothing else: where its parts are too short or too long, or the MAC
/// does not match, it fails.
pub proof fn secret_box_opens_to_its_message(
    cipher_text: Seq<char>,
    nonce_text: Seq<char>,
    cipher: Seq<u8>,
    nonce: Seq<u8>,
    key: Seq<u8>,
)
    requires
        base64_bytes(cipher_text) == Ok::<Seq<u8>, CryptoFault>(cipher),
        base64_bytes(nonce_text) == Ok::<Seq<u8>, CryptoFault>(nonce),
    ensures
        ({
            let opened = secretbox_opened(cipher_text, nonce_text, key);
            if cipher.len() >= 16 && nonce.len() == 24 && key.len() == 32 {
                match secretbox_message(cipher, nonce, key) {
                    Some(message) => opened == Ok::<Seq<u8>, CryptoFault>(message),
                    None => opened == Err::<Seq<u8>, CryptoFault>(CryptoFault::Crypto),
                }
            } else {
                opened == Err::<Seq<u8>, CryptoFault>(CryptoFault::Length)
            }
        }),
{
}

/// A sealed box opens to the message that was sealed for the key pair, and to
/// nothing else.
pub proof fn sealed_box_opens_to_its_message(
    cipher_text: Seq<char>,
    cipher: Seq<u8>,
    public: Seq<u8>,
    secret: Seq<u8>,
)
    requires
        base64_bytes(cipher_text) == Ok::<Seq<u8>, CryptoFault>(cipher),
    ensures
        ({
            let opened = sealed_box_opened(cipher_text, public, secret);
            if cipher.len() >= 48 && public.len() == 32 && secret.len() == 32 {
                match sealed_message(cipher, public, secret) {
                    Some(message) => opened == Ok::<Seq<u8>, CryptoFault>(message),
                    None => opened == Err::<Seq<u8>, CryptoFault>(CryptoFault::Crypto),
                }
            } else {
                opened == Err::<Seq<u8>, CryptoFault>(CryptoFault::Length)
            }
        }),
{
}

/// Metadata is one chunk of a stream: it decrypts to the message of that chunk
/// under the header and the key, and fails where the chunk does.
pub proof fn metadata_is_one_chunk(
    data_text: Seq<char>,
    header_text: Seq<char>,
    data: Seq<u8>,
    header: Seq<u8>,
    key: Seq<u8>,
)
    requires
        base64_bytes(data_text) == Ok::<Seq<u8>, CryptoFault>(data),
        base64_bytes(header_text) == Ok::<Seq<u8>, CryptoFault>(header),
    ensures
        ({
            let plain = chacha_decrypted(data_text, key, header_text);
            if header.len() != 24 || key.len() != 32 {
                plain == Err::<Seq<u8>, CryptoFault>(CryptoFault::Length)
            } else if data.len() < 17 {
                plain == Err::<Seq<u8>, CryptoFault>(CryptoFault::Crypto)
            } else {
                match stream_pull(stream_start(header, key), data) {
                    Some((message, _, _)) => plain == Ok::<Seq<u8>, CryptoFault>(message),
                    None => plain == Err::<Seq<u8>, CryptoFault>(CryptoFault::Crypto),
                }
            }
        }),
{
}

/// Whatever is no base64 opens nothing.
pub proof fn text_that_is_no_base64_opens_nothing(
    bad: Seq<char>,
    text: Seq<char>,
    key: Seq<u8>,
    other: Seq<u8>,
)
    requires
        base64_bytes(bad) is Err,
    ensures
        secretbox_opened(bad, text, key) is Err,
        secretbox_opened(text, bad, key) is Err,
        sealed_box_opened(bad, key, other) is Err,
        chacha_decrypted(bad, key, text) is Err,
        chacha_decrypted(text, key, bad) is Err,
{
}

/// The chunks of a stream as they were written, what each holds, how each is
/// tagged, and the states between them.
pub struct ChunkRun {
    pub chunks: Seq<Seq<u8>>,
    pub messages: Seq<Seq<u8>>,
    pub tags: Seq<u8>,
    pub states: Seq<State>,
}

impl ChunkRun {
    /// The run starts in `state` and ends with the stream: each chunk holds its
    /// message, all but the last are full and not tagged as the last.
    pub open spec fn starts(self, state: State) -> bool {
        &&& self.chunks.len() > 0
        &&& self.messages.len() == self.chunks.len()
        &&& self.tags.len() == self.chunks.len()
        &&& self.states.len() == self.chunks.len() + 1
        &&& self.states[0] == state
        &&& forall|i: int|
            0 <= i < self.chunks.len() ==> stream_pull(
                self.states[i],
                #[trigger] self.chunks[i],
            ) == Some((self.messages[i], self.tags[i], self.states[i + 1]))
        &&& forall|i: int|
            0 <= i < self.chunks.len() - 1 ==> (#[trigger] self.chunks[i]).len() == 4 * 1024 * 1024
                + 17 && self.tags[i] != 3
        &&& 17 <= self.chunks.last().len() <= 4 * 1024 * 1024 + 17
    }

    /// The run without its first chunk.
    pub open spec fn tail(self) -> ChunkRun {
        ChunkRun {
            chunks: self.chunks.drop_first(),
            messages: self.messages.drop_first(),
            tags: self.tags.drop_first(),
            states: self.states.drop_first(),
        }
    }
}

/// Joined parts are the first part, then the others joined.
pub proof fn first_of_flattened(parts: Seq<Seq<u8>>)
    requires
        parts.len() > 0,
    ensures
        parts.flatten() == parts[0] + parts.drop_first().flatten(),
{
}

/// A stream decrypts to all its messages, joined in the order of its chunks.
pub proof fn stream_joins_all_chunks(state: State, run: ChunkRun)
    requires
        run.starts(state),
    ensures
        stream_plain(state, run.chunks.flatten()) == Some(run.messages.flatten()),
    decreases run.chunks.len(),
{
    let stream = run.chunks.flatten();
    first_of_flattened(run.chunks);
    first_of_flattened(run.messages);
    let tail = run.tail();
    if run.chunks.len() == 1 {
        assert(tail.chunks =~= Seq::empty());
        assert(tail.messages =~= Seq::empty());
        assert(stream =~= run.chunks[0]);
        assert(stream.take(stream.len() as int) =~= stream);
        assert(stream.skip(stream.len() as int) =~= Seq::<u8>::empty());
        assert(stream_plain(run.states[1], Seq::<u8>::empty()) == Some(Seq::<u8>::empty()));
        assert(run.messages[0] + Seq::<u8>::empty() =~= run.messages[0]);
        assert(run.messages.flatten() =~= run.messages[0]);
    } else {
        let rest = tail.chunks.flatten();
        assert(tail.starts(run.states[1])) by {
            assert forall|i: int| 0 <= i < tail.chunks.len() implies stream_pull(
                tail.states[i],
                #[trigger] tail.chunks[i],
            ) == Some((tail.messages[i], tail.tags[i], tail.states[i + 1])) by {
                assert(tail.chunks[i] == run.chunks[i + 1]);
            }
            assert forall|i: int| 0 <= i < tail.chunks.len() - 1 implies (
            #[trigger] tail.chunks[i]).len() == 4 * 1024 * 1024 + 17 && tail.tags[i] != 3 by {
                assert(tail.chunks[i] == run.chunks[i + 1]);
            }
            assert(tail.chunks.last() == run.chunks.last());
        }
        stream_joins_all_chunks(run.states[1], tail);
        let full = run.chunks[0].len() as int;
        assert(stream.take(full) =~= run.chunks[0]);
        assert(stream.skip(full) =~= rest);
    }
}

/// A stream is decrypted from its front: a full chunk that is not tagged as the
/// last is followed by what the rest holds under the state that the chunk leaves,
/// and fails where the rest fails.
pub proof fn stream_goes_on_behind_a_chunk(
    state: State,
    chunk: Seq<u8>,
    message: Seq<u8>,
    tag: u8,
    next: State,
    rest: Seq<u8>,
)
    requires
        chunk.len() == 4 * 1024 * 1024 + 17,
        stream_pull(state, chunk) == Some((message, tag, next)),
    ensures
        tag != 3 ==> stream_plain(state, chunk + rest) == (match stream_plain(next, rest) {
            Some(more) => Some(message + more),
            None => None,
        }),
        tag == 3 ==> stream_plain(state, chunk + rest) == Some(message),
{
    let stream = chunk + rest;
    assert(stream.take(chunk.len() as int) =~= chunk);
    assert(stream.skip(chunk.len() as int) =~= rest);
}

/// A stream whose next chunk does not match its MAC, or is too short to hold one,
/// is refused.
pub proof fn damaged_stream_is_refused(state: State, stream: Seq<u8>)
    requires
        stream.len() > 0,
        ({
            let end = if stream.len() < 4 * 1024 * 1024 + 17 {
                stream.len() as int
            } else {
                4194321int
            };
            end < 17 || stream_pull(state, stream.subrange(0, end)) is None
        }),
    ensures
        stream_plain(state, stream) is None,
{
}

/// The plaintext of a blob is that of its stream under its header and its key.
pub proof fn blob_is_its_stream(encrypted: Seq<u8>, key: Seq<u8>, header: Seq<u8>, plain: Seq<u8>)
    ensures
        file_decrypted(encrypted, key, header) == Ok::<Seq<u8>, CryptoFault>(plain) <==> {
            &&& header.len() == 24
            &&& key.len() == 32
            &&& stream_plain(stream_start(header, key), encrypted) == Some(plain)
        },
{
}

} // verus!
