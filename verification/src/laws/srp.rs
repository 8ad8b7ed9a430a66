//! Laws of the SRP values.

use crate::bigint::{be_bytes, be_bytes_value, be_value, be_value_at_least_first, zeros};
use crate::srp::{
    client_secret, minimal_bytes, modulus, multiplier, padded, private_x,
    proof_m1, public_value, residues_are_padded_in_full, scrambler, sha256_of, GROUP_PRIME,
};
use vstd::arithmetic::power::pow;
use vstd::prelude::*;

verus! {

/// Whether bytes have no zero in front.
pub open spec fn no_zero_in_front(bytes: Seq<u8>) -> bool {
    bytes.len() > 0 ==> bytes[0] != 0
}

/// Bytes without a zero in front are the shortest of the number they stand for.
pub proof fn bytes_without_zeros_are_shortest(bytes: Seq<u8>)
    requires
        no_zero_in_front(bytes),
    ensures
        minimal_bytes(be_value(bytes)) == bytes,
    decreases bytes.len(),
{
    if bytes.len() == 0 {
        assert(bytes =~= Seq::<u8>::empty());
    } else {
        be_value_at_least_first(bytes);
        let n = be_value(bytes);
        let front = bytes.drop_last();
        if front.len() == 0 {
            assert(be_value(front) == 0);
            assert(bytes =~= seq![bytes[0]]);
            assert(be_bytes(n) =~= bytes);
        } else {
            assert(front[0] == bytes[0]);
            bytes_without_zeros_are_shortest(front);
            be_value_at_least_first(front);
            let m = be_value(front);
            assert(n == m * 256 + bytes.last() as nat);
            assert(n / 256 == m);
            assert(n % 256 == bytes.last());
            assert(front.push(bytes.last()) =~= bytes);
        }
    }
}

/// A number is sent in its shortest bytes: they stand for it and have no zero in
/// front.
pub proof fn numbers_are_sent_shortest(n: nat)
    ensures
        be_value(minimal_bytes(n)) == n,
        no_zero_in_front(minimal_bytes(n)),
{
    if n > 0 {
        be_bytes_value(n);
        first_byte_is_not_zero(n);
    }
}

proof fn first_byte_is_not_zero(n: nat)
    requires
        n > 0,
    ensures
        be_bytes(n).len() > 0,
        be_bytes(n)[0] != 0,
    decreases n,
{
    if n >= 256 {
        first_byte_is_not_zero(n / 256);
    }
}

/// u is the hash of A and B, each in its shortest bytes.
pub proof fn u_hashes_the_shortest_bytes(a_bytes: Seq<u8>, b_bytes: Seq<u8>)
    requires
        no_zero_in_front(a_bytes),
        no_zero_in_front(b_bytes),
    ensures
        scrambler(be_value(a_bytes), be_value(b_bytes)) == be_value(sha256_of(a_bytes + b_bytes)),
{
    bytes_without_zeros_are_shortest(a_bytes);
    bytes_without_zeros_are_shortest(b_bytes);
}

/// k is the hash of the modulus and of the generator, each 512 bytes long.
pub proof fn k_hashes_modulus_and_generator()
    ensures
        multiplier() == be_value(sha256_of(GROUP_PRIME@ + zeros(511) + seq![5u8])),
        GROUP_PRIME@.len() == 512,
{
    assert(GROUP_PRIME@[0] == 0xff);
    bytes_without_zeros_are_shortest(GROUP_PRIME@);
    be_value_at_least_first(GROUP_PRIME@);
    assert(be_bytes(5) =~= seq![5u8]);
    assert(padded(modulus()) =~= GROUP_PRIME@);
    assert(padded(5) =~= zeros(511) + seq![5u8]);
    assert(GROUP_PRIME@ + (zeros(511) + seq![5u8]) =~= GROUP_PRIME@ + zeros(511) + seq![5u8]);
}

/// x is the hash of the salt and of the hash of identity, colon and login key.
pub proof fn x_hashes_salt_and_identity(
    identity: Seq<u8>,
    salt: Seq<u8>,
    login_key: Seq<u8>,
    inner: Seq<u8>,
)
    requires
        inner == sha256_of(identity.push(58u8) + login_key),
    ensures
        private_x(identity, salt, login_key) == be_value(sha256_of(salt + inner)),
{
    assert(identity.push(58u8) =~= identity + seq![58u8]);
}

/// A is the generator to the power of the private value, reduced by the modulus.
pub proof fn a_is_a_power_of_the_generator(a: nat)
    ensures
        public_value(a) == pow(5, a) % modulus() as int,
        public_value(a) < modulus(),
{
    crate::srp::modulus_is_large();
    vstd::arithmetic::power::lemma_pow_positive(5, a);
    vstd::arithmetic::div_mod::lemma_mod_bound(pow(5, a), modulus() as int);
}

/// M1 is the hash of A in its shortest bytes, of the bytes of B as they came, and of
/// S in 512 bytes.
pub proof fn m1_hashes_a_b_and_s(
    x: nat,
    a: nat,
    b_bytes: Seq<u8>,
    a_bytes: Seq<u8>,
    s_bytes: Seq<u8>,
)
    requires
        no_zero_in_front(a_bytes),
        be_value(a_bytes) == pow(5, a) % modulus() as int,
        s_bytes.len() == 512,
        s_bytes == padded(client_secret(x, a, be_value(b_bytes))),
    ensures
        proof_m1(x, a, b_bytes) == sha256_of(a_bytes + b_bytes + s_bytes),
        be_value(s_bytes) == pow(
            be_value(b_bytes) - multiplier() * pow(5, x),
            a + scrambler(public_value(a), be_value(b_bytes)) * x,
        ) % modulus() as int,
{
    bytes_without_zeros_are_shortest(a_bytes);
    a_is_a_power_of_the_generator(a);
    let s = client_secret(x, a, be_value(b_bytes));
    let u = scrambler(public_value(a), be_value(b_bytes));
    crate::srp::modulus_is_large();
    vstd::arithmetic::div_mod::lemma_mod_bound(
        pow(be_value(b_bytes) - multiplier() * pow(5, x), a + u * x),
        modulus() as int,
    );
    residues_are_padded_in_full(s);
}

} // verus!
