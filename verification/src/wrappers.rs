//! The calls this library makes into other crates. Each function here states
//! what the called function does; nothing in this file is proved.
use crate::arith::words4;
use byteorder::{BigEndian, ByteOrder};
use vstd::prelude::*;

verus! {

/// The integer that a byte string holds, most significant byte first.
pub open spec fn be_value(bytes: Seq<u8>) -> nat
    decreases bytes.len(),
{
    if bytes.len() == 0 {
        0
    } else {
        be_value(bytes.drop_last()) * 256 + bytes.last() as nat
    }
}

/// `byteorder::BigEndian::read_u128`: reads the first sixteen bytes of `buf`
/// as one integer, most significant byte first. It panics on a shorter
/// buffer, which the precondition leaves out.
#[verifier::external_body]
pub(crate) fn read_u128_be(buf: &[u8]) -> (r: u128)
    requires
        buf@.len() >= 16,
    ensures
        r == be_value(buf@.subrange(0, 16)),
{
    BigEndian::read_u128(buf)
}

/// `crypto_bigint::Uint::add_mod`: the sum of `a` and `b` modulo `p`, each
/// given and returned as four 64-bit words, for operands whose sum is below
/// twice the modulus.
#[verifier::external_body]
pub(crate) fn add_mod_words(a: [u64; 4], b: [u64; 4], p: [u64; 4]) -> (r: [u64; 4])
    requires
        words4(a) + words4(b) < 2 * words4(p),
    ensures
        words4(r) == (words4(a) + words4(b)) % words4(p),
{
    let a = crypto_bigint::U256::from_words(a);
    let b = crypto_bigint::U256::from_words(b);
    let p = crypto_bigint::U256::from_words(p);
    a.add_mod(&b, &p).to_words()
}

/// `crypto_bigint::Uint::sub_mod`: the difference of `a` and `b` modulo `p`,
/// each given and returned as four 64-bit words, for operands whose
/// difference lies in `[-p, p)`.
#[verifier::external_body]
pub(crate) fn sub_mod_words(a: [u64; 4], b: [u64; 4], p: [u64; 4]) -> (r: [u64; 4])
    requires
        -words4(p) <= words4(a) - words4(b) < words4(p),
    ensures
        words4(r) == (words4(a) - words4(b)) % (words4(p) as int),
{
    let a = crypto_bigint::U256::from_words(a);
    let b = crypto_bigint::U256::from_words(b);
    let p = crypto_bigint::U256::from_words(p);
    a.sub_mod(&b, &p).to_words()
}

/// `crypto_bigint::Uint::neg_mod`: the negation of `a` modulo `p`, each given
/// and returned as four 64-bit words, for an operand below the modulus.
#[verifier::external_body]
pub(crate) fn neg_mod_words(a: [u64; 4], p: [u64; 4]) -> (r: [u64; 4])
    requires
        words4(a) < words4(p),
    ensures
        words4(r) == (-(words4(a) as int)) % (words4(p) as int),
{
    let a = crypto_bigint::U256::from_words(a);
    let p = crypto_bigint::U256::from_words(p);
    a.neg_mod(&p).to_words()
}

} // verus!
