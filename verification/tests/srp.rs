use base64::engine::general_purpose::STANDARD;
use base64::Engine;
use ente_api::srp::{SrpClient, SrpError, GROUP_PRIME};
use num_bigint::BigUint;
use sha2::{Digest, Sha256};

fn hexd(s: &str) -> Vec<u8> {
    (0..s.len())
        .step_by(2)
        .map(|i| u8::from_str_radix(&s[i..i + 2], 16).unwrap())
        .collect()
}

const IDENTITY: &str = "757365722d37663361";
const SALT: &str = "d63c2ccec009ba3a93072916540ec567";
const LOGIN_KEY: &str = "859614d018fe9089265879ea14171aeb";
const A_PRIVATE: &str = "867e2cb04f5a04dcbd592501a5e8fe9ceaafca50255626ca736c138042530ba4";
const A_PUBLIC: &str = "MglKyYgp+H/qbUMfZb4qs9M/svfguBuVFYHFOuxwa3JcLyV4A9FRHtF35VRdOdbUTJ/LJ6Un1LrdqzBGWxDQqMMuoUer3gI02VWpUr0zaAs7DoIp4TkYRVnSCpDXVuqVILOc3/+o2VJs4oFFaR+tXA0T7ohUumpfbZIqk9ms6HN/+PiiPKqTa7tmXh1lw43QzFFecoYpchYD5ptB9ZQARfSC9XeGncOc2Z2+Dm3vWw8wZYmywlzJ6JYEt8OzMM4yPVk3C8n/hJpOLycjf/7I8WuH6x/TqZ3Yt0R7YSE2wFW2QyQ+4bAiwQCRoqFEJtZ2K62ldsQDt/olrNzArte6ic+a/p5Jwig2NVdY5lixVdts+pRSti5otv3CguWG3UiTej5aF1X3rA8gTdQsLv2a3xXJvJkbUm3ezjWvK9ho60gIaNtbI+3f6An+0XlXA2AmBJ67nspl0xzGF/UuzvvFkVy4W68PjZo8ez+pD2Qky/vYckrMAilPwjviILOuwBTU0aT2NjNEqtJ1Ch+fXUvvtzjeIE2D1rq+F6F5MUOrRV/7P9das0PFJ/eeP/yFbNq0F+i58CyL+G/EGDJxirA2EXJFv2t633IPTsEOhl37Ct2tA19uxGM0/SMrtfATDiNWYaZKAKZDt0O1DsIr6uXcI5URRsRLMqhBLGC8aDPzZZE=";
const B_PUBLIC: &str = "DwnZxIM4DYb7k4w+7AnJgWPO2ZCzNO9DAjBafqO5MBCsQZhxrQGe41P/SNu8gzX5jAVwHVPRSgcwzjCqEAcBdIdRFJm+Y7fhTmjLCkPUzQ7iBiXvPNIxTFwR8HGab8cQ5SPf57lWl5a7fc8Q5GCxAd3iRDV2+dri7IN8YNa0hDg61VpXypJxwOb/m1w+VjfkzvYoHUijK9OGwmPZie5c3Hp5MFPDjVcNYkZBEiTYN7B4pEyL8JIP3fXEkGcZdrDa42ibYZqxqkZNY9X6diW3ThEWsZiD5jNcF510ZDu3QLSL5Ie5aanCQgJPRXuYuw3FehfTydXl2TmNUpud24bd/IJ8EQlbZSdz7DS30gTSEeQQbrGfOf/uGi1m0JhnPoX2ri7j0TwlAQlVKAW08cex8E5SIckhvEZw8aCUTaBBDF6BcVP5x19Y9CRLorl6ZApHZ7H8hh97b14nPjgzPZSmXOgmzJl0AiH3KDy5dQezN/eJ7gFAbatubGcdXqfo9aNP8iKV/RmYusZqrUlMbNJtkorV4n/EVMzlg+BNBqMi8TYGo2eltxbo06S4fqekE6j6xmmQ+HEGNNehQRpWxyHX6puLnurAqL1cofpjDx+kg5zL0R4Gk6fsUid+dk1LaQOqdoWM9mjmfm0GehbUV/FaqgEb/fW9J0IK+J1upsbWrYE=";
const M1: &str = "W4vUnY4gJM4k3XGL/FW/6lKnB4mmbO2mPA1yvipvpRc=";

#[test]
fn srp_matches_python_reference() {
    let client = SrpClient::with_a(
        &hexd(IDENTITY),
        &hexd(SALT),
        &hexd(LOGIN_KEY),
        &hexd(A_PRIVATE),
    );
    assert_eq!(STANDARD.encode(client.a_bytes()), A_PUBLIC, "A mismatch");
    let b_bytes = STANDARD.decode(B_PUBLIC).unwrap();
    let m1 = client.compute_m1(&b_bytes).unwrap();
    assert_eq!(STANDARD.encode(&m1), M1, "M1 mismatch");
}

#[test]
fn public_value_is_shortest() {
    assert_eq!(SrpClient::with_a(b"i", b"s", b"k", &[0]).a_bytes(), vec![1]);
    assert_eq!(SrpClient::with_a(b"i", b"s", b"k", &[]).a_bytes(), vec![1]);
    assert_eq!(SrpClient::with_a(b"i", b"s", b"k", &[4]).a_bytes(), vec![2, 113]);
    assert_eq!(SrpClient::with_a(b"i", b"s", b"k", &[0, 0, 4]).a_bytes(), vec![2, 113]);
}

#[test]
fn server_value_must_lie_in_the_group() {
    let client = SrpClient::with_a(b"i", b"s", b"k", &[9]);
    for bad in [&[][..], &[0, 0][..], &GROUP_PRIME[..]] {
        let e = client.compute_m1(bad).unwrap_err();
        assert!(matches!(e, SrpError::InvalidB));
        assert_eq!(e.message(), "invalid server B value");
    }
    let mut below = GROUP_PRIME.to_vec();
    let last = below.len() - 1;
    below[last] -= 1;
    assert_eq!(client.compute_m1(&below).unwrap().len(), 32);
    let mut above = GROUP_PRIME.to_vec();
    above.insert(0, 0);
    assert!(client.compute_m1(&above).is_err());
    above.insert(0, 1);
    assert!(client.compute_m1(&above).is_err());
}

fn number(bytes: &[u8]) -> BigUint {
    BigUint::from_bytes_be(bytes)
}

fn hash(parts: &[&[u8]]) -> Vec<u8> {
    Sha256::digest(parts.concat()).to_vec()
}

fn padded(bytes: &[u8]) -> Vec<u8> {
    let mut out = vec![0u8; 512 - bytes.len()];
    out.extend_from_slice(bytes);
    out
}

/// k and x of the identity "i", the salt "s" and the login key "k".
fn k_and_x() -> (BigUint, BigUint) {
    let k = number(&hash(&[&GROUP_PRIME, &padded(&[5])]));
    let x = number(&hash(&[b"s", &hash(&[b"i:k"])]));
    (k, x)
}

#[test]
fn short_secrets_are_padded() {
    let client = SrpClient::with_a(b"i", b"s", b"k", &[9]);
    let n = number(&GROUP_PRIME);
    let (k, x) = k_and_x();
    let kgx = k * BigUint::from(5u8).modpow(&x, &n);
    for secret in [0u8, 1] {
        // B - k * g^x is 0 or 1, and so is every power of it.
        let b_bytes = ((&kgx + secret) % &n).to_bytes_be();
        let m1 = client.compute_m1(&b_bytes).unwrap();
        assert_eq!(m1.len(), 32);
        assert_eq!(m1, hash(&[&client.a_bytes(), &b_bytes, &padded(&[secret])]));
        assert_ne!(m1, hash(&[&client.a_bytes(), &b_bytes, &[secret]]));
    }
}

#[test]
fn both_sides_compute_the_same_proof() {
    let client = SrpClient::with_a(b"i", b"s", b"k", &[9, 200]);
    let n = number(&GROUP_PRIME);
    let g = BigUint::from(5u8);
    let (k, x) = k_and_x();
    let v = g.modpow(&x, &n);
    let b = BigUint::from(123_456_789u64);
    let b_pub = (k * &v + g.modpow(&b, &n)) % &n;
    let u = number(&hash(&[&client.a_bytes(), &b_pub.to_bytes_be()]));
    let secret = (number(&client.a_bytes()) * v.modpow(&u, &n)).modpow(&b, &n);
    let shortest = b_pub.to_bytes_be();
    let mut longer = vec![0u8; 3];
    longer.extend_from_slice(&shortest);
    for b_bytes in [shortest, longer] {
        let server = hash(&[&client.a_bytes(), &b_bytes, &padded(&secret.to_bytes_be())]);
        assert_eq!(client.compute_m1(&b_bytes).unwrap(), server);
    }
}

#[test]
fn raw_server_bytes_enter_the_proof() {
    let client = SrpClient::with_a(b"i", b"s", b"k", &[9]);
    let plain = client.compute_m1(&[7]).unwrap();
    let padded = client.compute_m1(&[0, 7]).unwrap();
    assert_ne!(plain, padded);
}

#[test]
fn private_values_are_drawn_at_random() {
    let one = SrpClient::new(b"i", b"s", b"k");
    let two = SrpClient::new(b"i", b"s", b"k");
    assert_ne!(one.a_bytes(), two.a_bytes());
}
