//! SRP-6a client in the variant of the museum server (not RFC 5054).
//!
//! * group: 4096 bits, g = 5, hash = SHA-256, N takes 512 bytes
//! * k  = H( PAD(N) || PAD(g) )
//! * x  = H( salt || H(identity || ":" || login_key) )
//! * u  = H( A.minimal_bytes || B.minimal_bytes )
//! * S  = (B - k * g^x) ^ (a + u*x) mod N
//! * M1 = H( A.minimal_bytes || B_raw_bytes || PAD(S) )

use crate::bigint::{
    be_bytes, be_bytes_fit, be_bytes_value, be_value, be_value_at_least_first, be_value_fits,
    big_add, big_is_zero, big_less, big_modpow, big_mul, big_rem, big_shortest, big_sub, zeros,
    zeros_add_nothing,
};
use crate::random::random_bytes;
use sha2::{Digest, Sha256};
use vstd::arithmetic::div_mod::{
    lemma_add_mod_noop, lemma_mod_bound, lemma_mod_twice, lemma_mul_mod_noop,
    lemma_mul_mod_noop_right, lemma_sub_mod_noop,
};
use vstd::arithmetic::power::{
    lemma_pow_adds, lemma_pow_mod_noop, lemma_pow_multiplies, lemma_pow_positive, pow,
};
use vstd::prelude::*;

verus! {

/// How many bytes the modulus takes.
pub const N_LEN_BYTES: usize = 512;

/// The modulus N.
pub const GROUP_PRIME: [u8; 512] = [
    0xff, 0xff, 0xff, 0xff, 0xff, 0xff, 0xff, 0xff, 0xc9, 0x0f, 0xda, 0xa2, 0x21, 0x68, 0xc2, 0x34,
    0xc4, 0xc6, 0x62, 0x8b, 0x80, 0xdc, 0x1c, 0xd1, 0x29, 0x02, 0x4e, 0x08, 0x8a, 0x67, 0xcc, 0x74,
    0x02, 0x0b, 0xbe, 0xa6, 0x3b, 0x13, 0x9b, 0x22, 0x51, 0x4a, 0x08, 0x79, 0x8e, 0x34, 0x04, 0xdd,
    0xef, 0x95, 0x19, 0xb3, 0xcd, 0x3a, 0x43, 0x1b, 0x30, 0x2b, 0x0a, 0x6d, 0xf2, 0x5f, 0x14, 0x37,
    0x4f, 0xe1, 0x35, 0x6d, 0x6d, 0x51, 0xc2, 0x45, 0xe4, 0x85, 0xb5, 0x76, 0x62, 0x5e, 0x7e, 0xc6,
    0xf4, 0x4c, 0x42, 0xe9, 0xa6, 0x37, 0xed, 0x6b, 0x0b, 0xff, 0x5c, 0xb6, 0xf4, 0x06, 0xb7, 0xed,
    0xee, 0x38, 0x6b, 0xfb, 0x5a, 0x89, 0x9f, 0xa5, 0xae, 0x9f, 0x24, 0x11, 0x7c, 0x4b, 0x1f, 0xe6,
    0x49, 0x28, 0x66, 0x51, 0xec, 0xe4, 0x5b, 0x3d, 0xc2, 0x00, 0x7c, 0xb8, 0xa1, 0x63, 0xbf, 0x05,
    0x98, 0xda, 0x48, 0x36, 0x1c, 0x55, 0xd3, 0x9a, 0x69, 0x16, 0x3f, 0xa8, 0xfd, 0x24, 0xcf, 0x5f,
    0x83, 0x65, 0x5d, 0x23, 0xdc, 0xa3, 0xad, 0x96, 0x1c, 0x62, 0xf3, 0x56, 0x20, 0x85, 0x52, 0xbb,
    0x9e, 0xd5, 0x29, 0x07, 0x70, 0x96, 0x96, 0x6d, 0x67, 0x0c, 0x35, 0x4e, 0x4a, 0xbc, 0x98, 0x04,
    0xf1, 0x74, 0x6c, 0x08, 0xca, 0x18, 0x21, 0x7c, 0x32, 0x90, 0x5e, 0x46, 0x2e, 0x36, 0xce, 0x3b,
    0xe3, 0x9e, 0x77, 0x2c, 0x18, 0x0e, 0x86, 0x03, 0x9b, 0x27, 0x83, 0xa2, 0xec, 0x07, 0xa2, 0x8f,
    0xb5, 0xc5, 0x5d, 0xf0, 0x6f, 0x4c, 0x52, 0xc9, 0xde, 0x2b, 0xcb, 0xf6, 0x95, 0x58, 0x17, 0x18,
    0x39, 0x95, 0x49, 0x7c, 0xea, 0x95, 0x6a, 0xe5, 0x15, 0xd2, 0x26, 0x18, 0x98, 0xfa, 0x05, 0x10,
    0x15, 0x72, 0x8e, 0x5a, 0x8a, 0xaa, 0xc4, 0x2d, 0xad, 0x33, 0x17, 0x0d, 0x04, 0x50, 0x7a, 0x33,
    0xa8, 0x55, 0x21, 0xab, 0xdf, 0x1c, 0xba, 0x64, 0xec, 0xfb, 0x85, 0x04, 0x58, 0xdb, 0xef, 0x0a,
    0x8a, 0xea, 0x71, 0x57, 0x5d, 0x06, 0x0c, 0x7d, 0xb3, 0x97, 0x0f, 0x85, 0xa6, 0xe1, 0xe4, 0xc7,
    0xab, 0xf5, 0xae, 0x8c, 0xdb, 0x09, 0x33, 0xd7, 0x1e, 0x8c, 0x94, 0xe0, 0x4a, 0x25, 0x61, 0x9d,
    0xce, 0xe3, 0xd2, 0x26, 0x1a, 0xd2, 0xee, 0x6b, 0xf1, 0x2f, 0xfa, 0x06, 0xd9, 0x8a, 0x08, 0x64,
    0xd8, 0x76, 0x02, 0x73, 0x3e, 0xc8, 0x6a, 0x64, 0x52, 0x1f, 0x2b, 0x18, 0x17, 0x7b, 0x20, 0x0c,
    0xbb, 0xe1, 0x17, 0x57, 0x7a, 0x61, 0x5d, 0x6c, 0x77, 0x09, 0x88, 0xc0, 0xba, 0xd9, 0x46, 0xe2,
    0x08, 0xe2, 0x4f, 0xa0, 0x74, 0xe5, 0xab, 0x31, 0x43, 0xdb, 0x5b, 0xfc, 0xe0, 0xfd, 0x10, 0x8e,
    0x4b, 0x82, 0xd1, 0x20, 0xa9, 0x21, 0x08, 0x01, 0x1a, 0x72, 0x3c, 0x12, 0xa7, 0x87, 0xe6, 0xd7,
    0x88, 0x71, 0x9a, 0x10, 0xbd, 0xba, 0x5b, 0x26, 0x99, 0xc3, 0x27, 0x18, 0x6a, 0xf4, 0xe2, 0x3c,
    0x1a, 0x94, 0x68, 0x34, 0xb6, 0x15, 0x0b, 0xda, 0x25, 0x83, 0xe9, 0xca, 0x2a, 0xd4, 0x4c, 0xe8,
    0xdb, 0xbb, 0xc2, 0xdb, 0x04, 0xde, 0x8e, 0xf9, 0x2e, 0x8e, 0xfc, 0x14, 0x1f, 0xbe, 0xca, 0xa6,
    0x28, 0x7c, 0x59, 0x47, 0x4e, 0x6b, 0xc0, 0x5d, 0x99, 0xb2, 0x96, 0x4f, 0xa0, 0x90, 0xc3, 0xa2,
    0x23, 0x3b, 0xa1, 0x86, 0x51, 0x5b, 0xe7, 0xed, 0x1f, 0x61, 0x29, 0x70, 0xce, 0xe2, 0xd7, 0xaf,
    0xb8, 0x1b, 0xdd, 0x76, 0x21, 0x70, 0x48, 0x1c, 0xd0, 0x06, 0x91, 0x27, 0xd5, 0xb0, 0x5a, 0xa9,
    0x93, 0xb4, 0xea, 0x98, 0x8d, 0x8f, 0xdd, 0xc1, 0x86, 0xff, 0xb7, 0xdc, 0x90, 0xa6, 0xc0, 0x8f,
    0x4d, 0xf4, 0x35, 0xc9, 0x34, 0x06, 0x31, 0x99, 0xff, 0xff, 0xff, 0xff, 0xff, 0xff, 0xff, 0xff,
];

/// The generator g.
pub const GENERATOR: [u8; 1] = [5];

#[derive(Debug)]
pub enum SrpError {
    InvalidB,
}

impl SrpError {
    /// The error in words.
    pub fn message(&self) -> (r: String)
        ensures
            r@ == "invalid server B value"@,
    {
        "invalid server B value".to_owned()
    }
}

/// The SHA-256 digest of `data`.
pub uninterp spec fn sha256_of(data: Seq<u8>) -> Seq<u8>;

/// `sha2`'s `Sha256::digest`.
#[verifier::external_body]
fn sha256(data: &[u8]) -> (r: [u8; 32])
    ensures
        r@ == sha256_of(data@),
{
    Sha256::digest(data).into()
}

pub open spec fn modulus() -> nat {
    be_value(GROUP_PRIME@)
}

/// A number, padded with zeros on the left to the length of the modulus.
pub open spec fn padded(n: nat) -> Seq<u8> {
    let bytes = be_bytes(n);
    if bytes.len() >= N_LEN_BYTES {
        bytes
    } else {
        zeros((N_LEN_BYTES - bytes.len()) as nat) + bytes
    }
}

/// The shortest bytes of a number; zero takes none.
pub open spec fn minimal_bytes(n: nat) -> Seq<u8> {
    if n == 0 {
        Seq::empty()
    } else {
        be_bytes(n)
    }
}

/// k = H( PAD(N) || PAD(g) )
pub open spec fn multiplier() -> nat {
    be_value(sha256_of(padded(modulus()) + padded(5)))
}

/// x = H( salt || H(identity || ":" || login_key) )
pub open spec fn private_x(identity: Seq<u8>, salt: Seq<u8>, login_key: Seq<u8>) -> nat {
    be_value(sha256_of(salt + sha256_of(identity + seq![58u8] + login_key)))
}

/// A = g^a mod N
pub open spec fn public_value(a: nat) -> nat {
    (pow(5, a) % modulus() as int) as nat
}

/// u = H( A || B )
pub open spec fn scrambler(a_pub: nat, b_pub: nat) -> nat {
    be_value(sha256_of(minimal_bytes(a_pub) + minimal_bytes(b_pub)))
}

/// S = (B - k * g^x) ^ (a + u*x) mod N
pub open spec fn client_secret(x: nat, a: nat, b_pub: nat) -> nat {
    let u = scrambler(public_value(a), b_pub);
    (pow(b_pub - multiplier() * pow(5, x), a + u * x) % modulus() as int) as nat
}

/// M1 = H( A || B_raw || PAD(S) )
pub open spec fn proof_m1(x: nat, a: nat, b_bytes: Seq<u8>) -> Seq<u8> {
    sha256_of(
        minimal_bytes(public_value(a)) + b_bytes + padded(client_secret(x, a, be_value(b_bytes))),
    )
}

/// The modulus is greater than one.
pub proof fn modulus_is_large()
    ensures
        modulus() > 1,
{
    assert(GROUP_PRIME@[0] == 0xff);
    be_value_at_least_first(GROUP_PRIME@);
}

fn join(a: &[u8], b: &[u8]) -> (r: Vec<u8>)
    ensures
        r@ == a@ + b@,
{
    let mut out: Vec<u8> = Vec::new();
    out.extend_from_slice(a);
    out.extend_from_slice(b);
    assert(out@ =~= a@ + b@);
    out
}

/// The number in `value`, padded to the length of the modulus.
fn pad(value: &[u8]) -> (r: Vec<u8>)
    ensures
        r@ == padded(be_value(value@)),
{
    let bytes = big_shortest(value);
    if bytes.len() >= N_LEN_BYTES {
        return bytes;
    }
    let zeros_len: usize = N_LEN_BYTES - bytes.len();
    let mut out: Vec<u8> = vec![0u8; zeros_len];
    out.extend_from_slice(&bytes);
    assert(out@ =~= padded(be_value(value@)));
    out
}

/// The shortest bytes of the number in `value`.
fn minimal(value: &[u8]) -> (r: Vec<u8>)
    ensures
        r@ == minimal_bytes(be_value(value@)),
{
    if big_is_zero(value) {
        return Vec::new();
    }
    big_shortest(value)
}

/// A client for one login attempt. All numbers are big-endian bytes.
pub struct SrpClient {
    x: Vec<u8>,
    a: Vec<u8>,
    a_pub: Vec<u8>,
}

impl SrpClient {
    pub closed spec fn x_value(&self) -> nat {
        be_value(self.x@)
    }

    pub closed spec fn a_value(&self) -> nat {
        be_value(self.a@)
    }

    /// The public value belongs to the private one.
    pub closed spec fn wf(&self) -> bool {
        self.a_pub@ == be_bytes(public_value(self.a_value()))
    }

    /// A client with a random private value of 32 bytes.
    pub fn new(identity: &[u8], salt: &[u8], login_key: &[u8]) -> (r: SrpClient)
        ensures
            r.wf(),
            r.x_value() == private_x(identity@, salt@, login_key@),
            exists|a: Seq<u8>| a.len() == 32 && r.a_value() == #[trigger] be_value(a),
    {
        let a = random_bytes(32);
        SrpClient::with_a(identity, salt, login_key, &a)
    }

    /// A client with the private value `a`.
    pub fn with_a(identity: &[u8], salt: &[u8], login_key: &[u8], a: &[u8]) -> (r: SrpClient)
        ensures
            r.wf(),
            r.x_value() == private_x(identity@, salt@, login_key@),
            r.a_value() == be_value(a@),
    {
        let colon: [u8; 1] = [58];
        let inner = sha256(&join(&join(identity, &colon), login_key));
        assert(colon@ =~= seq![58u8]);
        let x = sha256(&join(salt, &inner));
        proof {
            modulus_is_large();
            generator_is_five();
        }
        let a_pub = big_modpow(&GENERATOR, a, &GROUP_PRIME);
        let mut x_bytes: Vec<u8> = Vec::new();
        x_bytes.extend_from_slice(&x);
        assert(x_bytes@ =~= x@);
        let mut a_bytes: Vec<u8> = Vec::new();
        a_bytes.extend_from_slice(a);
        assert(a_bytes@ =~= a@);
        SrpClient { x: x_bytes, a: a_bytes, a_pub }
    }

    /// The public value A in its shortest bytes.
    pub fn a_bytes(&self) -> (r: Vec<u8>)
        requires
            self.wf(),
        ensures
            r@ == minimal_bytes(public_value(self.a_value())),
    {
        proof {
            be_bytes_value(public_value(self.a_value()));
        }
        minimal(&self.a_pub)
    }

    /// Takes the server's B, as the bytes it sent, and gives M1.
    pub fn compute_m1(&self, b_bytes: &[u8]) -> (r: Result<Vec<u8>, SrpError>)
        requires
            self.wf(),
        ensures
            match r {
                Ok(m1) => {
                    &&& 0 < be_value(b_bytes@) < modulus()
                    &&& m1@ == proof_m1(self.x_value(), self.a_value(), b_bytes@)
                    &&& m1@.len() == 32
                },
                Err(SrpError::InvalidB) => be_value(b_bytes@) == 0 || be_value(b_bytes@)
                    >= modulus(),
            },
    {
        if big_is_zero(b_bytes) || !big_less(b_bytes, &GROUP_PRIME) {
            return Err(SrpError::InvalidB);
        }
        proof {
            modulus_is_large();
            generator_is_five();
        }
        let ghost n = modulus();
        let ghost b = be_value(b_bytes@);
        let ghost x = self.x_value();
        let ghost a = self.a_value();
        let ghost k = multiplier();

        let k_bytes = sha256(&join(&pad(&GROUP_PRIME), &pad(&GENERATOR)));
        let a_min = self.a_bytes();
        let u_bytes = sha256(&join(&a_min, &minimal(b_bytes)));
        let ghost u = scrambler(public_value(a), b);

        let gx = big_modpow(&GENERATOR, &self.x, &GROUP_PRIME);
        let ghost gx_value = (pow(5, x) % n as int) as nat;
        proof {
            lemma_pow_positive(5, x);
            lemma_mod_bound(pow(5, x), n as int);
            be_bytes_value(gx_value);
        }
        let product = big_mul(&k_bytes, &gx);
        proof {
            be_bytes_value(k * gx_value);
        }
        let kgx = big_rem(&product, &GROUP_PRIME);
        let ghost kgx_value = (k * gx_value) % n;
        proof {
            be_bytes_value(kgx_value);
            be_bytes_value(b + n);
        }
        let lifted = big_sub(&big_add(b_bytes, &GROUP_PRIME), &kgx);
        proof {
            be_bytes_value((b + n - kgx_value) as nat);
        }
        let base = big_rem(&lifted, &GROUP_PRIME);
        let ghost base_value = ((b + n - kgx_value) as nat) % n;
        proof {
            be_bytes_value(base_value);
            base_is_reduced(b as int, n as int, k as int, pow(5, x));
        }
        let ux = big_mul(&u_bytes, &self.x);
        proof {
            be_bytes_value(u * x);
            be_bytes_value(a + u * x);
        }
        let exponent = big_add(&self.a, &ux);
        let s = big_modpow(&base, &exponent, &GROUP_PRIME);
        proof {
            lemma_pow_mod_noop(b - k * pow(5, x), a + u * x, n as int);
            lemma_mod_bound(pow(base_value as int, a + u * x), n as int);
            be_bytes_value(client_secret(x, a, b));
        }
        let s_padded = pad(&s);
        let m1 = sha256(&join(&join(&a_min, b_bytes), &s_padded));
        let mut out: Vec<u8> = Vec::new();
        out.extend_from_slice(&m1);
        assert(out@ =~= m1@);
        Ok(out)
    }
}

/// Both sides of a login hold the same secret: where the server keeps the
/// verifier v = g^x and answers with B = k*v + g^b, the client's S is the
/// server's (A * v^u) ^ b.
pub proof fn secrets_agree(x: nat, a: nat, b: nat, v: nat, b_pub: nat)
    requires
        v == (pow(5, x) % modulus() as int) as nat,
        b_pub == ((multiplier() * v + pow(5, b)) % modulus() as int) as nat,
    ensures
        client_secret(x, a, b_pub) == pow(
            public_value(a) * pow(v as int, scrambler(public_value(a), b_pub)),
            b,
        ) % modulus() as int,
{
    modulus_is_large();
    let n = modulus() as int;
    let k = multiplier() as int;
    let u = scrambler(public_value(a), b_pub);
    lemma_pow_positive(5, x);
    lemma_pow_positive(5, b);
    lemma_pow_positive(5, a);
    lemma_mod_bound(pow(5, x), n);
    lemma_mod_bound(pow(5, a), n);
    assert(k * v >= 0) by (nonlinear_arith)
        requires
            k >= 0,
            v >= 0,
    ;
    lemma_mod_bound(k * v + pow(5, b), n);

    // (B - k * g^x) % n == g^b % n
    let kgx = k * pow(5, x);
    assert((b_pub - kgx) % n == pow(5, b) % n) by {
        lemma_mul_mod_noop_right(k, pow(5, x), n);
        lemma_add_mod_noop(k * v, pow(5, b), n);
        lemma_add_mod_noop(kgx, pow(5, b), n);
        assert(b_pub as int == (kgx + pow(5, b)) % n);
        lemma_sub_mod_noop(b_pub as int, kgx, n);
        lemma_sub_mod_noop(kgx + pow(5, b), kgx, n);
        lemma_mod_twice(kgx + pow(5, b), n);
        assert(kgx + pow(5, b) - kgx == pow(5, b));
    }
    // the client's side is g^(b * (a + u*x)) % n
    let e = a + u * x;
    assert(client_secret(x, a, b_pub) == pow(5, b * e) % n) by {
        lemma_pow_mod_noop(b_pub - kgx, e, n);
        lemma_pow_mod_noop(pow(5, b), e, n);
        lemma_pow_multiplies(5, b, e);
        lemma_mod_bound(pow(b_pub - kgx, e), n);
    }
    // A * v^u is g^(a + u*x) modulo n
    let product = public_value(a) * pow(v as int, u);
    assert(product % n == pow(5, e) % n) by {
        lemma_pow_mod_noop(pow(5, x), u, n);
        lemma_pow_multiplies(5, x, u);
        lemma_mul_mod_noop(pow(5, a) % n, pow(v as int, u), n);
        lemma_mod_twice(pow(5, a), n);
        lemma_mul_mod_noop(pow(5, a), pow(5, x * u), n);
        lemma_pow_adds(5, a, x * u);
        assert(x * u == u * x) by (nonlinear_arith);
    }
    lemma_pow_mod_noop(product, b, n);
    lemma_pow_mod_noop(pow(5, e), b, n);
    lemma_pow_multiplies(5, e, b);
    assert(e * b == b * e) by (nonlinear_arith);
}

proof fn generator_is_five()
    ensures
        be_value(GENERATOR@) == 5,
{
    assert(GENERATOR@.len() == 1);
    assert(GENERATOR@[0] == 5);
    assert(be_value(GENERATOR@.drop_last()) == 0);
}

/// Reducing k * g^x in two steps and keeping the difference non-negative gives
/// the difference modulo n.
proof fn base_is_reduced(b: int, n: int, k: int, p: int)
    requires
        n > 0,
        b >= 0,
    ensures
        (b + n - (k * (p % n)) % n) % n == (b - k * p) % n,
{
    lemma_mul_mod_noop_right(k, p, n);
    lemma_sub_mod_noop(b + n, k * p, n);
    lemma_sub_mod_noop(b + n, (k * p) % n, n);
    lemma_mod_twice(k * p, n);
    lemma_sub_mod_noop(b, k * p, n);
    lemma_add_mod_noop(b, n, n);
    assert((b + n - k * p) % n == (b - k * p) % n) by {
        vstd::arithmetic::div_mod::lemma_mod_add_multiples_vanish(b - k * p, n);
    }
}

/// The proof that the client sends is the one that the server computes from
/// its own secret, in whatever bytes the server sends B.
pub proof fn proofs_agree(x: nat, a: nat, b: nat, v: nat, b_bytes: Seq<u8>)
    requires
        v == (pow(5, x) % modulus() as int) as nat,
        be_value(b_bytes) == ((multiplier() * v + pow(5, b)) % modulus() as int) as nat,
    ensures
        proof_m1(x, a, b_bytes) == sha256_of(
            minimal_bytes(public_value(a)) + b_bytes + padded(
                (pow(
                    public_value(a) * pow(v as int, scrambler(public_value(a), be_value(b_bytes))),
                    b,
                ) % modulus() as int) as nat,
            ),
        ),
{
    secrets_agree(x, a, b, v, be_value(b_bytes));
}

proof fn bits_to_bytes()
    ensures
        pow(2, 4096) == pow(256, 512),
{
    reveal_with_fuel(pow, 9);
    lemma_pow_multiplies(2, 8, 512);
}

/// PAD keeps a number of up to 4096 bits: 512 bytes that stand for it, zeros
/// before its shortest bytes.
pub proof fn padding_keeps_the_number(n: nat)
    requires
        n < pow(2, 4096),
    ensures
        padded(n).len() == N_LEN_BYTES,
        be_value(padded(n)) == n,
        padded(n) == zeros((N_LEN_BYTES - minimal_bytes(n).len()) as nat) + minimal_bytes(n),
        padded(0) == zeros(N_LEN_BYTES as nat),
{
    bits_to_bytes();
    be_bytes_fit(n, 512);
    be_bytes_value(n);
    let bytes = be_bytes(n);
    let missing = (N_LEN_BYTES - bytes.len()) as nat;
    zeros_add_nothing(missing, bytes);
    assert(padded(n) =~= zeros(missing) + bytes);
    assert(be_bytes(0) =~= seq![0u8]);
    assert(padded(0) =~= zeros(N_LEN_BYTES as nat));
    if n == 0 {
        assert(zeros(N_LEN_BYTES as nat) + minimal_bytes(n) =~= zeros(N_LEN_BYTES as nat));
    }
}

/// Whatever is reduced by the modulus, the secret S among it, is padded to the
/// length of the modulus and keeps its value.
pub proof fn residues_are_padded_in_full(n: nat)
    requires
        n < modulus(),
    ensures
        padded(n).len() == N_LEN_BYTES,
        be_value(padded(n)) == n,
{
    be_value_fits(GROUP_PRIME@);
    bits_to_bytes();
    padding_keeps_the_number(n);
}

} // verus!
