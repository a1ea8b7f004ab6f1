//! The scalar field of the BN254 curve, whose order is the prime `modulus()`.
//! A field element is held as its canonical representation: 32 bytes,
//! little-endian, of an integer below the modulus. The arithmetic itself is
//! that of `halo2curves`' `bn256::Fr`, reached through `halo2_base`.
use vstd::prelude::*;
use halo2_base::halo2_proofs::halo2curves::bn256::Fr;
use halo2_base::halo2_proofs::halo2curves::ff::PrimeField;

verus! {

/// The order of the field.
pub open spec fn modulus() -> int {
    let w = 0x1_0000_0000_0000_0000int;
    ((0x30644e72e131a029int * w + 0xb85045b68181585dint) * w + 0x2833e84879b97091int) * w
        + 0x43e1f593f0000001int
}

/// The field element that the integer `x` stands for.
pub open spec fn reduce(x: int) -> int {
    x % modulus()
}

/// The integer whose little-endian bytes are `b`.
pub open spec fn le_value(b: Seq<u8>) -> int
    decreases b.len(),
{
    if b.len() == 0 {
        0
    } else {
        b[0] as int + 256 * le_value(b.drop_first())
    }
}

/// `b` is the canonical representation of a field element.
pub open spec fn is_repr(b: Seq<u8>) -> bool {
    b.len() == 32 && le_value(b) < modulus()
}

proof fn lemma_le_value_nonneg(b: Seq<u8>)
    ensures
        le_value(b) >= 0,
    decreases b.len(),
{
    if b.len() > 0 {
        lemma_le_value_nonneg(b.drop_first());
    }
}

/// Byte strings of one length with the same value are the same.
pub proof fn lemma_le_value_injective(a: Seq<u8>, b: Seq<u8>)
    requires
        a.len() == b.len(),
        le_value(a) == le_value(b),
    ensures
        a == b,
    decreases a.len(),
{
    if a.len() > 0 {
        let x = le_value(a.drop_first());
        let y = le_value(b.drop_first());
        lemma_le_value_nonneg(a.drop_first());
        lemma_le_value_nonneg(b.drop_first());
        let a0 = a[0] as int;
        let b0 = b[0] as int;
        assert(a0 == b0 && x == y) by (nonlinear_arith)
            requires
                a0 + 256 * x == b0 + 256 * y,
                0 <= a0 < 256,
                0 <= b0 < 256,
        ;
        lemma_le_value_injective(a.drop_first(), b.drop_first());
        assert(a =~= b) by {
            assert forall|i: int| 0 <= i < a.len() implies a[i] == b[i] by {
                if i > 0 {
                    assert(a[i] == a.drop_first()[i - 1]);
                    assert(b[i] == b.drop_first()[i - 1]);
                }
            };
        };
    }
}

/// Relies on `From<u64> for bn256::Fr` and `PrimeField::to_repr`: the field
/// element with the value `x`, as its canonical little-endian bytes.
#[verifier::external_body]
pub fn fe_from_u64(x: u64) -> (r: [u8; 32])
    ensures
        is_repr(r@),
        le_value(r@) == x as int,
{
    Fr::from(x).to_repr()
}

/// Relies on `PrimeField::from_repr`: it accepts exactly the canonical
/// representations, those of integers below the modulus.
#[verifier::external_body]
pub fn fe_is_canonical(b: &[u8; 32]) -> (r: bool)
    ensures
        r == (le_value(b@) < modulus()),
{
    bool::from(Fr::from_repr(*b).is_some())
}

/// Relies on `PrimeField::from_repr`, `Sub for bn256::Fr` and
/// `PrimeField::to_repr`: the difference of two field elements.
#[verifier::external_body]
pub fn fe_sub(a: &[u8; 32], b: &[u8; 32]) -> (r: [u8; 32])
    requires
        is_repr(a@),
        is_repr(b@),
    ensures
        is_repr(r@),
        le_value(r@) == reduce(le_value(a@) - le_value(b@)),
{
    (Fr::from_repr(*a).unwrap() - Fr::from_repr(*b).unwrap()).to_repr()
}

/// Relies on `PrimeField::from_repr`, `Mul for bn256::Fr` and
/// `PrimeField::to_repr`: the product of two field elements.
#[verifier::external_body]
pub fn fe_mul(a: &[u8; 32], b: &[u8; 32]) -> (r: [u8; 32])
    requires
        is_repr(a@),
        is_repr(b@),
    ensures
        is_repr(r@),
        le_value(r@) == reduce(le_value(a@) * le_value(b@)),
{
    (Fr::from_repr(*a).unwrap() * Fr::from_repr(*b).unwrap()).to_repr()
}

/// Whether two canonical representations stand for the same element.
pub fn fe_eq(a: &[u8; 32], b: &[u8; 32]) -> (r: bool)
    requires
        is_repr(a@),
        is_repr(b@),
    ensures
        r == (le_value(a@) == le_value(b@)),
{
    let mut i: usize = 0;
    while i < 32
        invariant
            0 <= i <= 32,
            a@.len() == 32,
            b@.len() == 32,
            forall|j: int| 0 <= j < i ==> a@[j] == b@[j],
        decreases 32 - i,
    {
        if a[i] != b[i] {
            proof {
                if le_value(a@) == le_value(b@) {
                    lemma_le_value_injective(a@, b@);
                }
            }
            return false;
        }
        i = i + 1;
    }
    assert(a@ =~= b@);
    true
}

} // verus!
