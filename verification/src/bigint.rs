//! Natural numbers of any size, as big-endian bytes.

use num_bigint::BigUint;
use num_traits::Zero;
use vstd::arithmetic::power::pow;
use vstd::prelude::*;

verus! {

/// The number that big-endian bytes stand for.
pub open spec fn be_value(bytes: Seq<u8>) -> nat
    decreases bytes.len(),
{
    if bytes.len() == 0 {
        0
    } else {
        be_value(bytes.drop_last()) * 256 + bytes.last() as nat
    }
}

/// The shortest big-endian bytes of a number; zero takes one byte.
pub open spec fn be_bytes(n: nat) -> Seq<u8>
    decreases n,
{
    if n < 256 {
        seq![n as u8]
    } else {
        be_bytes(n / 256).push((n % 256) as u8)
    }
}

/// The shortest bytes of a number stand for it.
pub proof fn be_bytes_value(n: nat)
    ensures
        be_value(be_bytes(n)) == n,
        be_bytes(n).len() > 0,
    decreases n,
{
    if n < 256 {
        let s = be_bytes(n);
        assert(s.drop_last() =~= Seq::<u8>::empty());
        assert(be_value(s.drop_last()) == 0);
    } else {
        be_bytes_value(n / 256);
        let s = be_bytes(n);
        assert(s.drop_last() =~= be_bytes(n / 256));
    }
}

/// Bytes that start with `first` stand for at least that.
pub proof fn be_value_at_least_first(bytes: Seq<u8>)
    requires
        bytes.len() > 0,
    ensures
        be_value(bytes) >= bytes[0],
    decreases bytes.len(),
{
    if bytes.len() > 1 {
        be_value_at_least_first(bytes.drop_last());
    } else {
        assert(be_value(bytes.drop_last()) == 0);
    }
}

/// Bytes stand for less than their length allows.
pub proof fn be_value_fits(bytes: Seq<u8>)
    ensures
        be_value(bytes) < pow(256, bytes.len()),
    decreases bytes.len(),
{
    reveal(pow);
    if bytes.len() > 0 {
        be_value_fits(bytes.drop_last());
        assert(pow(256, bytes.len()) == 256 * pow(256, (bytes.len() - 1) as nat));
    }
}

/// The shortest bytes of a number are no more than its size asks for.
pub proof fn be_bytes_fit(n: nat, len: nat)
    requires
        n < pow(256, len),
        len > 0,
    ensures
        be_bytes(n).len() <= len,
    decreases n,
{
    reveal(pow);
    if n >= 256 {
        assert(pow(256, len) == 256 * pow(256, (len - 1) as nat));
        if len == 1 {
            assert(pow(256, 0) == 1);
        }
        be_bytes_fit(n / 256, (len - 1) as nat);
    }
}

/// A run of zero bytes.
pub open spec fn zeros(len: nat) -> Seq<u8> {
    Seq::new(len, |i: int| 0u8)
}

/// Zeros on the left leave the number as it is.
pub proof fn zeros_add_nothing(len: nat, bytes: Seq<u8>)
    ensures
        be_value(zeros(len) + bytes) == be_value(bytes),
    decreases len + bytes.len(),
{
    let all = zeros(len) + bytes;
    if bytes.len() > 0 {
        assert(all.drop_last() =~= zeros(len) + bytes.drop_last());
        zeros_add_nothing(len, bytes.drop_last());
    } else if len > 0 {
        let fewer = (len - 1) as nat;
        assert(all.drop_last() =~= zeros(fewer) + bytes);
        zeros_add_nothing(fewer, bytes);
    }
}

/// `BigUint::to_bytes_be` gives the shortest bytes of a number.
#[verifier::external_body]
pub(crate) fn big_shortest(a: &[u8]) -> (r: Vec<u8>)
    ensures
        r@ == be_bytes(be_value(a@)),
{
    BigUint::from_bytes_be(a).to_bytes_be()
}

/// `BigUint::is_zero`.
#[verifier::external_body]
pub(crate) fn big_is_zero(a: &[u8]) -> (r: bool)
    ensures
        r == (be_value(a@) == 0),
{
    BigUint::from_bytes_be(a).is_zero()
}

/// The order of `BigUint`.
#[verifier::external_body]
pub(crate) fn big_less(a: &[u8], b: &[u8]) -> (r: bool)
    ensures
        r == (be_value(a@) < be_value(b@)),
{
    BigUint::from_bytes_be(a) < BigUint::from_bytes_be(b)
}

/// The sum of two `BigUint`.
#[verifier::external_body]
pub(crate) fn big_add(a: &[u8], b: &[u8]) -> (r: Vec<u8>)
    ensures
        r@ == be_bytes(be_value(a@) + be_value(b@)),
{
    (BigUint::from_bytes_be(a) + BigUint::from_bytes_be(b)).to_bytes_be()
}

/// The difference of two `BigUint`, which must not be negative.
#[verifier::external_body]
pub(crate) fn big_sub(a: &[u8], b: &[u8]) -> (r: Vec<u8>)
    requires
        be_value(a@) >= be_value(b@),
    ensures
        r@ == be_bytes((be_value(a@) - be_value(b@)) as nat),
{
    (BigUint::from_bytes_be(a) - BigUint::from_bytes_be(b)).to_bytes_be()
}

/// The product of two `BigUint`.
#[verifier::external_body]
pub(crate) fn big_mul(a: &[u8], b: &[u8]) -> (r: Vec<u8>)
    ensures
        r@ == be_bytes(be_value(a@) * be_value(b@)),
{
    (BigUint::from_bytes_be(a) * BigUint::from_bytes_be(b)).to_bytes_be()
}

/// The remainder of two `BigUint`.
#[verifier::external_body]
pub(crate) fn big_rem(a: &[u8], m: &[u8]) -> (r: Vec<u8>)
    requires
        be_value(m@) > 0,
    ensures
        r@ == be_bytes(be_value(a@) % be_value(m@)),
{
    (BigUint::from_bytes_be(a) % BigUint::from_bytes_be(m)).to_bytes_be()
}

/// `BigUint::modpow`: a power, reduced by the modulus.
#[verifier::external_body]
pub(crate) fn big_modpow(base: &[u8], exponent: &[u8], m: &[u8]) -> (r: Vec<u8>)
    requires
        be_value(m@) > 1,
    ensures
        r@ == be_bytes((pow(be_value(base@) as int, be_value(exponent@)) % be_value(m@) as int) as nat),
{
    let base = BigUint::from_bytes_be(base);
    base.modpow(&BigUint::from_bytes_be(exponent), &BigUint::from_bytes_be(m)).to_bytes_be()
}

} // verus!
