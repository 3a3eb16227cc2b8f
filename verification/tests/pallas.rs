//! The scalar field of the Pallas curve.
use nova_r1cs::field::Scalar;
use nova_r1cs::pallas::PallasScalar;
use nova_r1cs::traits::TranscriptReprTrait;

/// The order of the field, least significant byte first.
const ORDER: [u8; 32] = [
    0x01, 0x00, 0x00, 0x00, 0x21, 0xeb, 0x46, 0x8c, 0xdd, 0xa8, 0x94, 0x09, 0xfc, 0x98, 0x46, 0x22,
    0x00, 0x00, 0x00, 0x00, 0x00, 0x00, 0x00, 0x00, 0x00, 0x00, 0x00, 0x00, 0x00, 0x00, 0x00, 0x40,
];

fn largest() -> PallasScalar {
    let mut repr = ORDER;
    repr[0] = 0;
    PallasScalar::from_repr(repr).unwrap()
}

#[test]
fn sums_wrap_at_the_order() {
    assert_eq!(largest().add(PallasScalar::one()), PallasScalar::zero());
    let five = PallasScalar::from_u64(2).add(PallasScalar::from_u64(3));
    assert_eq!(five, PallasScalar::from_u64(5));
}

#[test]
fn differences_wrap_below_zero() {
    assert_eq!(PallasScalar::zero().sub(PallasScalar::one()), largest());
    let five = PallasScalar::from_u64(12).sub(PallasScalar::from_u64(7));
    assert_eq!(five, PallasScalar::from_u64(5));
}

#[test]
fn products_wrap_at_the_order() {
    assert_eq!(largest().mul(largest()), PallasScalar::one());
    let n = PallasScalar::from_u64(12).mul(PallasScalar::from_u64(7));
    assert_eq!(n, PallasScalar::from_u64(84));
}

#[test]
fn bytes_of_the_order_or_more_are_no_element() {
    assert!(PallasScalar::from_repr(ORDER).is_none());
    assert!(PallasScalar::from_repr([0xff; 32]).is_none());
    let mut repr = ORDER;
    repr[0] = 0;
    assert_eq!(PallasScalar::from_repr(repr).unwrap().to_repr(), repr);
}

#[test]
fn bytes_have_the_least_significant_first() {
    let mut repr = [0u8; 32];
    repr[0] = 0x04;
    repr[1] = 0x03;
    repr[7] = 0x80;
    let x = PallasScalar::from_u64(0x8000_0000_0000_0304);
    assert_eq!(x.to_repr(), repr);
    assert_eq!(x.to_transcript_bytes(), repr.to_vec());
}

#[test]
fn elements_are_compared_by_value() {
    assert!(PallasScalar::one().equals(&PallasScalar::from_u64(1)));
    assert!(!PallasScalar::one().equals(&PallasScalar::zero()));
    assert!(!PallasScalar::zero().equals(&largest()));
}
