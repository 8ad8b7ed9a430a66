use base64::engine::general_purpose::STANDARD;
use base64::Engine;
use dryoc::classic::crypto_box::{crypto_box_keypair, crypto_box_seal};
use dryoc::classic::crypto_secretbox::crypto_secretbox_easy;
use dryoc::classic::crypto_secretstream_xchacha20poly1305::{
    crypto_secretstream_xchacha20poly1305_init_push, crypto_secretstream_xchacha20poly1305_push,
    State,
};
use ente_api::crypto::{
    b64decode, b64encode, b64encode_url, decrypt_chacha, decrypt_file_stream,
    derive_key_encryption_key, derive_login_key, gunzip, sealed_box_open, secretbox_open,
    CryptoError,
};
use flate2::write::GzEncoder;
use flate2::Compression;
use std::io::Write;

fn bytes(b64: &str) -> Vec<u8> {
    STANDARD.decode(b64).unwrap()
}

#[test]
fn argon2_matches_libsodium() {
    let kek = derive_key_encryption_key("correct horse", "ZcffcEOVipJicNykvxfynA==", 8388608, 2).unwrap();
    assert_eq!(STANDARD.encode(kek), "EPQhVHUZqaGi7g63eiAQSIBL7/fy9/lm3HGKeMzk5iA=");
}

#[test]
fn kdf_login_key_matches_libsodium() {
    let mut kek = [0u8; 32];
    kek.copy_from_slice(&bytes("WsujxV3JK32FTrJDJJPjZ6wDJbo+9PYO7v03gBmYeBA="));
    let login_key = derive_login_key(&kek).unwrap();
    assert_eq!(STANDARD.encode(login_key), "7E7cVDZXUemPzH9L2AM+DA==");
}

#[test]
fn secretbox_matches_libsodium() {
    let key = bytes("oSN23Z+uMybm7aYjwMMQIsy7D7jDqp7CAP93M6xJa9Y=");
    let plain = secretbox_open(
        "DWblciPOrs8eZOW8rsJ8XTUQKroz8fBfOuIJMeLkbVODZrEJCrBBBtKXVPo=",
        "05AgtlXrySwU4k45mr70nZ728O8Qf7x3",
        &key,
    )
    .unwrap();
    assert_eq!(STANDARD.encode(plain), "YSBzZWNyZXQgbWVzc2FnZSBmb3IgdGhlIGJveA==");
}

#[test]
fn sealedbox_matches_libsodium() {
    let pk = bytes("qGv5f21Xj1ybSTmu/uC0uthSORBfT4icZcoMFjA9pE8=");
    let sk = bytes("T4t+kIvcdwCkaMkCBC/ZyVthKByME3MPweP8JR4nDXU=");
    let plain = sealed_box_open(
        "Lnys3BFLVw/Eo7YCQzTg+wNnuNgt03qxIN4eL/kllGMlx7OJttuWj6f7WUJCLXfg3C145vUS4+VBXv95PHKDv6A95rdRSnBcjsD9",
        &pk,
        &sk,
    )
    .unwrap();
    assert_eq!(STANDARD.encode(plain), "dG9rZW4gYnl0ZXMgaW4gYSBzZWFsZWQgYm94");
}

#[test]
fn secretstream_metadata_matches_libsodium() {
    let key = bytes("JBFtGxjKapzR3cgVNI9aFtevwYtgPfq09nsksUt2N6E=");
    let plain = decrypt_chacha(
        "Q4xcOHFJGTEg+y1lPbKgd0FbJlm6lZsOxj2+w3JYfvyo6Gyk+cvxiPj5JeJLHMgJ8SCQ",
        &key,
        "J54LGHP1seTKuPGDuapzFv4NEvttl/bW",
    )
    .unwrap();
    assert_eq!(STANDARD.encode(plain), "eyJ0aXRsZSI6IklNR18xLmpwZyIsImZpbGVUeXBlIjowfQ==");
}

#[test]
fn secretstream_file_matches_libsodium() {
    let key = bytes("c3Yob/uYg7K4FhoGZ7DxtVuogysBC5yjXPpzE738YaM=");
    let cipher = bytes(
        "2STXZlmNr3p5OQLL2mod9XufcSbdzqKYaI/JZuJPS90dBWzKkr/IT0nuIg9kKbYKeRDQaZCMH4o5utIuUjLsubuNDc5kT4fVsBMSp0iGEJmENpq11a7dgCUIx+IUmCx8bM9PzPUWLGLIyhqCx6IIFWGerDOQ+4k+f/moozMOdhvflKPOMqPrmymUKlUCRSE/5RJrsPKd0sgvs+P82nhSC3N7mRwkBX/rSSZ+VadakgtRAXD3IoYHiKpVY0rnOAkPK4qODhYO9S7lJdCDuutaMFscGtYfXTF8xauPpevQDJNMM0S8Y9TugBJFm4rGaLKy+/hN882sdchrnmbD0hf/JGXiOnsAWo9gev+Y8bTPFrxLNh8U+jQeMp1scF8dDopRvSiYcDlf5fux5+UbBd8t1ztLF58SrDL7q4VsvLo=",
    );
    let header = bytes("MxzYb0GL7VDnbzvOwKH5C5IvQ1D2YgqB");
    let plain = decrypt_file_stream(&cipher, &key, &header).unwrap();
    assert_eq!(
        STANDARD.encode(plain),
        "Pn8YA6cmOW8KCwJ9Qf1ZyQQVUsns8xZ6X+YzckulT4K7EKNkfXIsFfXtC+0AI9vNKjGkZLCJmXg9SJtdtC8O7hg4/tTDVwx1EeuJHLMpBynP6LIRtbijKdnWSkf+4veFx7B5a8RGIRAfaNxWjRFCfdiBJHnOxyVwGy7GS+V7rqhW4Bmxx0XfUz/se869UXpxBiSFRbIACfA8oN+3f3h/QDX7WbM+848zCbbpY/aRasD1L6lCLmS+uhig3idzbxDf7UfvK9xOlEzewVlq8q4I4HrhbyS3DuurJTQjTiZCJIGWXifapP85/bhgEQF9RXyjpXTBlEFLoux0kbXU0KFTVk4fWcC0jVSp3N8JkqyW3rxCq9AJ5S8jEnR/LJnE0sdo4l+kCmuRaaiqZszQ"
    );
}

fn stream(key: &[u8; 32], parts: &[(&[u8], u8)]) -> (Vec<u8>, Vec<u8>) {
    let mut state = State::new();
    let mut header = [0u8; 24];
    crypto_secretstream_xchacha20poly1305_init_push(&mut state, &mut header, key);
    let mut out = Vec::new();
    for (message, tag) in parts {
        let mut chunk = vec![0u8; message.len() + 17];
        crypto_secretstream_xchacha20poly1305_push(&mut state, &mut chunk, message, None, *tag)
            .unwrap();
        out.extend_from_slice(&chunk);
    }
    (out, header.to_vec())
}

#[test]
fn plaintexts_are_shorter_by_what_surrounds_them() {
    let key = [7u8; 32];
    let nonce = [1u8; 24];
    let (pk, sk) = crypto_box_keypair();
    for len in [0usize, 1, 40] {
        let plain = vec![9u8; len];
        let mut cipher = vec![0u8; len + 16];
        crypto_secretbox_easy(&mut cipher, &plain, &nonce, &key).unwrap();
        let opened =
            secretbox_open(&STANDARD.encode(&cipher), &STANDARD.encode(nonce), &key).unwrap();
        assert_eq!(opened, plain);
        let mut sealed = vec![0u8; len + 48];
        crypto_box_seal(&mut sealed, &plain, &pk).unwrap();
        assert_eq!(sealed_box_open(&STANDARD.encode(&sealed), &pk, &sk).unwrap(), plain);
        let (cipher, header) = stream(&key, &[(plain.as_slice(), 3)]);
        assert_eq!(cipher.len(), len + 17);
        assert_eq!(
            decrypt_chacha(&STANDARD.encode(&cipher), &key, &STANDARD.encode(&header)).unwrap(),
            plain
        );
        assert_eq!(decrypt_file_stream(&cipher, &key, &header).unwrap(), plain);
    }
}

#[test]
fn file_of_two_chunks_is_joined() {
    let key = [7u8; 32];
    let first = vec![1u8; 4 * 1024 * 1024];
    let second = b"the rest".to_vec();
    let (cipher, header) = stream(&key, &[(first.as_slice(), 0), (second.as_slice(), 3)]);
    let plain = decrypt_file_stream(&cipher, &key, &header).unwrap();
    let mut expected = first.clone();
    expected.extend_from_slice(&second);
    assert_eq!(plain, expected);
}

#[test]
fn stream_ends_at_the_last_tag() {
    let key = [7u8; 32];
    let first = vec![2u8; 4 * 1024 * 1024];
    let (mut cipher, header) = stream(&key, &[(first.as_slice(), 3)]);
    cipher.extend_from_slice(b"garbage behind the last chunk");
    assert_eq!(decrypt_file_stream(&cipher, &key, &header).unwrap(), first);
}

#[test]
fn empty_blob_decrypts_to_nothing() {
    assert_eq!(decrypt_file_stream(&[], &[0; 32], &[0; 24]).unwrap(), Vec::<u8>::new());
}

#[test]
fn damaged_streams_are_refused() {
    let key = [7u8; 32];
    let (mut cipher, header) = stream(&key, &[(b"hello".as_slice(), 3)]);
    cipher[3] ^= 1;
    assert!(matches!(
        decrypt_file_stream(&cipher, &key, &header),
        Err(CryptoError::Crypto)
    ));
    assert!(matches!(
        decrypt_file_stream(&[0; 5], &key, &header),
        Err(CryptoError::Crypto)
    ));
    assert!(matches!(
        decrypt_file_stream(&cipher, &key[1..], &header),
        Err(CryptoError::Length)
    ));
    assert!(matches!(
        decrypt_file_stream(&cipher, &key, &header[1..]),
        Err(CryptoError::Length)
    ));
    assert!(matches!(
        decrypt_chacha("AAAA", &key, &STANDARD.encode(&header)),
        Err(CryptoError::Crypto)
    ));
    assert!(matches!(
        decrypt_chacha("AAAA", &key, "AAAA"),
        Err(CryptoError::Length)
    ));
}

#[test]
fn base64_takes_padding_or_none() {
    assert_eq!(b64decode("aGVsbG8=").unwrap(), b"hello");
    assert_eq!(b64decode("aGVsbG8").unwrap(), b"hello");
    assert_eq!(b64decode("").unwrap(), b"");
    assert_eq!(b64encode(b"hello"), "aGVsbG8=");
    assert_eq!(b64encode(&[0xfb, 0xff]), "+/8=");
    assert_eq!(b64encode_url(&[0xfb, 0xff]), "-_8=");
    for n in 0..50u8 {
        let data: Vec<u8> = (0..n).collect();
        assert_eq!(b64decode(&b64encode(&data)).unwrap(), data);
    }
}

#[test]
fn bad_base64_is_refused_with_its_reason() {
    let e = b64decode("a*b").unwrap_err();
    assert!(matches!(e, CryptoError::Base64(_)));
    assert_eq!(e.message(), "base64 decode failed: Invalid symbol 42, offset 1.");
    assert!(b64decode("AB").is_err());
    assert!(b64decode("_-8").is_err());
    assert_eq!(CryptoError::Crypto.message(), "crypto operation failed");
    assert_eq!(CryptoError::Length.message(), "invalid key/nonce length");
}

#[test]
fn boxes_refuse_wrong_lengths_and_keys() {
    let nonce = STANDARD.encode([0u8; 24]);
    let cipher = STANDARD.encode([0u8; 20]);
    assert!(matches!(secretbox_open(&cipher, &nonce, &[0; 32]), Err(CryptoError::Crypto)));
    assert!(matches!(secretbox_open(&cipher, &nonce, &[0; 31]), Err(CryptoError::Length)));
    assert!(matches!(secretbox_open(&cipher, "AAAA", &[0; 32]), Err(CryptoError::Length)));
    assert!(matches!(secretbox_open("AAAA", &nonce, &[0; 32]), Err(CryptoError::Length)));
    assert!(matches!(secretbox_open("*", &nonce, &[0; 32]), Err(CryptoError::Base64(_))));
    let sealed = STANDARD.encode([9u8; 60]);
    assert!(matches!(sealed_box_open(&sealed, &[1; 32], &[2; 32]), Err(CryptoError::Crypto)));
    assert!(matches!(sealed_box_open(&sealed, &[1; 3], &[2; 32]), Err(CryptoError::Length)));
    assert!(matches!(sealed_box_open(&sealed, &[1; 32], &[2; 3]), Err(CryptoError::Length)));
    assert!(matches!(sealed_box_open(&cipher, &[1; 32], &[2; 32]), Err(CryptoError::Length)));
}

#[test]
fn argon2_refuses_what_is_out_of_range() {
    assert!(matches!(
        derive_key_encryption_key("pw", "AAAAAAAAAAAAAAAAAAAAAA==", 1, 2),
        Err(CryptoError::Crypto)
    ));
    assert!(matches!(
        derive_key_encryption_key("pw", "*", 8 * 1024 * 1024, 2),
        Err(CryptoError::Base64(_))
    ));
}

#[test]
fn gunzip_undoes_gzip() {
    let mut encoder = GzEncoder::new(Vec::new(), Compression::default());
    encoder.write_all(b"some text, some text, some text").unwrap();
    let zipped = encoder.finish().unwrap();
    assert_eq!(gunzip(&zipped).unwrap(), b"some text, some text, some text");
    assert!(matches!(gunzip(b"not gzip"), Err(CryptoError::Crypto)));
    assert!(gunzip(&zipped[..zipped.len() - 9]).is_err());
}
