use verifier_lib::bigint::{add_mod, mul_mod, sub_mod, U256};
use verifier_lib::error::DecodeError;
use verifier_lib::field::{FieldElement, Fq};
use verifier_lib::fq2::Fq2;

const MODULUS_Q: &str = "30644e72e131a029b85045b68181585d97816a916871ca8d3c208c16d87cfd47";
const MODULUS_R: &str = "30644e72e131a029b85045b68181585d2833e84879b9709143e1f593f0000001";
const Q_MINUS_1: &str = "30644e72e131a029b85045b68181585d97816a916871ca8d3c208c16d87cfd46";
const R_MINUS_1: &str = "30644e72e131a029b85045b68181585d2833e84879b9709143e1f593f0000000";
const FQ_A: &str = "30644e72e131a029b85045b68181585d97816a916871ca8d3c208c16d87cfd42";
const FQ_B: &str = "1234567890abcdef1234567890abcdef1234567890abcdef1234567890abcdef";
const FQ_SUM: &str = "1234567890abcdef1234567890abcdef1234567890abcdef1234567890abcdea";
const FQ_DIFF: &str = "1234567890abcdef1234567890abcdef1234567890abcdef1234567890abcdf4";
const FQ_PROD: &str = "05c2ec8aef083aa8159adb122fa7ab0fd3fd24c7fd888f6f1d3b67d2dd9ef4e3";
const FQ_NEG_B: &str = "1e2ff7fa5085d23aa61bef3df0d58a6e854d1418d7c5fc9e29ec359e47d12f58";
const WIDE: &str = "0102030405060708090a0b0c0d0e0f101112131415161718191a1b1c1d1e1f20\
    2122232425262728292a2b2c2d2e2f30";
const WIDE_REDUCED: &str = "1bee1f106da4075eb532b675cd011b0dde06c6559ce55de7c30f378f535686b6";
const ALL_FF_REDUCED: &str = "0e0a77c19a07df2f666ea36f7879462e36fc76959f60cd29ac96341c4ffffffa";
const FQ2_X: &str = "1234567890abcdef1234567890abcdef1234567890abcdef1234567890abcdef\
    30644e72e131a029b85045b68181585d97816a916871ca8d3c208c16d87cfd42";
const FQ2_Y: &str = "0000000000000000000000000000000000000000000000000000000000000007\
    1234567890abcdef1234567890abcdef1234567890abcdef1234567890abcdef";
const FQ2_PROD: &str = "17060736c31b238d5ffb2eabd2d09c4947b7f25aec3c8e80624d4ae1a498071b\
    17817a979dea799bbf1d4ee9bf79129f1b130730422b4d8d522eaecb72634b2f";
const FQ2_SUM: &str = "1234567890abcdef1234567890abcdef1234567890abcdef1234567890abcdf6\
    1234567890abcdef1234567890abcdef1234567890abcdef1234567890abcdea";
const U_A: &str = "fffffffffffffffffffffffffffffffffffffffffffffffffffffffffffffffd";
const U_B: &str = "0000000000000000000000000000000000000000000000000000000000000005";

fn unhex(text: &str) -> Vec<u8> {
    let digits: Vec<u8> = text
        .bytes()
        .map(|c| match c {
            b'0'..=b'9' => c - b'0',
            b'a'..=b'f' => c - b'a' + 10,
            _ => panic!("not a hex digit"),
        })
        .collect();
    digits.chunks(2).map(|pair| pair[0] * 16 + pair[1]).collect()
}

#[test]
fn u256_round_trips_through_its_encoding() {
    let bytes = unhex(FQ_B);
    let n = U256::from_be_bytes(&bytes);
    assert_eq!(n.l3, 0x1234567890abcdef);
    assert_eq!(n.l0, 0x1234567890abcdef);
    assert_eq!(n.to_be_bytes(), bytes);
}

#[test]
fn u256_limbs_are_least_significant_first() {
    let n = U256::from_be_bytes(&unhex(U_A));
    assert_eq!(n, U256 { l0: 0xffff_ffff_ffff_fffd, l1: u64::MAX, l2: u64::MAX, l3: u64::MAX });
    assert_eq!(U256::from_u64(5).to_be_bytes(), unhex(U_B));
}

#[test]
fn u256_addition_reports_the_carry() {
    let a = U256::from_be_bytes(&unhex(U_A));
    let b = U256::from_be_bytes(&unhex(U_B));
    let (sum, carry) = a.overflowing_add(&b);
    assert!(carry);
    assert_eq!(sum, U256::from_u64(2));
    let (small, no_carry) = b.overflowing_add(&b);
    assert!(!no_carry);
    assert_eq!(small, U256::from_u64(10));
}

#[test]
fn u256_subtraction_reports_the_borrow() {
    let a = U256::from_be_bytes(&unhex(U_A));
    let b = U256::from_be_bytes(&unhex(U_B));
    let (diff, borrow) = b.overflowing_sub(&a);
    assert!(borrow);
    assert_eq!(diff, U256::from_u64(8));
    let (back, no_borrow) = a.overflowing_sub(&b);
    assert!(!no_borrow);
    assert_eq!(back, U256 { l0: 0xffff_ffff_ffff_fff8, l1: u64::MAX, l2: u64::MAX, l3: u64::MAX });
}

#[test]
fn u256_comparison_and_halving() {
    let a = U256::from_be_bytes(&unhex(U_A));
    let b = U256::from_u64(5);
    assert!(b.lt(&a));
    assert!(!a.lt(&b));
    assert!(!a.lt(&a));
    assert!(a.is_odd());
    assert!(!a.is_zero());
    assert!(U256::zero().is_zero());
    assert_eq!(b.half(), U256::from_u64(2));
    assert_eq!(
        U256 { l0: 0, l1: 1, l2: 0, l3: 0 }.half(),
        U256 { l0: 0x8000_0000_0000_0000, l1: 0, l2: 0, l3: 0 }
    );
}

#[test]
fn modular_arithmetic_on_small_numbers() {
    let m = U256::from_u64(97);
    let a = U256::from_u64(60);
    let b = U256::from_u64(50);
    assert_eq!(add_mod(&a, &b, &m), U256::from_u64(13));
    assert_eq!(sub_mod(&b, &a, &m), U256::from_u64(87));
    assert_eq!(sub_mod(&a, &b, &m), U256::from_u64(10));
    assert_eq!(mul_mod(&a, &b, &m), U256::from_u64(90));
    assert_eq!(mul_mod(&a, &U256::zero(), &m), U256::zero());
}

#[test]
fn modular_product_takes_any_multiplier() {
    let m = U256::from_be_bytes(&unhex(MODULUS_Q));
    let a = U256::from_be_bytes(&unhex(FQ_A));
    let b = U256::from_be_bytes(&unhex(FQ_B));
    assert_eq!(mul_mod(&a, &b, &m).to_be_bytes(), unhex(FQ_PROD));
    // 2^256 - 3 is above the modulus; the product is still reduced.
    let big = U256::from_be_bytes(&unhex(U_A));
    let one = U256::from_u64(1);
    let reduced = mul_mod(&one, &big, &m);
    assert!(reduced.lt(&m));
}

#[test]
fn scalar_decodes_below_the_modulus() {
    let bytes = unhex(R_MINUS_1);
    let e = FieldElement::decode(&bytes).unwrap();
    assert_eq!(e.encode(), bytes);
    assert_eq!(FieldElement::decode(&[0u8; 32]).unwrap(), FieldElement::from_u64(0));
}

#[test]
fn scalar_at_the_modulus_is_not_canonical() {
    assert_eq!(FieldElement::decode(&unhex(MODULUS_R)), Err(DecodeError::NotCanonical));
    assert_eq!(FieldElement::decode(&[0xffu8; 32]), Err(DecodeError::NotCanonical));
    // The base modulus is above the scalar modulus.
    assert_eq!(FieldElement::decode(&unhex(Q_MINUS_1)), Err(DecodeError::NotCanonical));
}

#[test]
fn scalar_of_the_wrong_width_is_refused() {
    assert_eq!(FieldElement::decode(&[0u8; 31]), Err(DecodeError::Length));
    assert_eq!(FieldElement::decode(&[0u8; 33]), Err(DecodeError::Length));
    assert_eq!(FieldElement::decode(&[]), Err(DecodeError::Length));
}

#[test]
fn scalar_from_a_word() {
    let mut expected = vec![0u8; 32];
    expected[31] = 7;
    assert_eq!(FieldElement::from_u64(7).encode(), expected);
    assert_eq!(FieldElement::from_u64(7), FieldElement::decode(&expected).unwrap());
}

#[test]
fn wide_bytes_reduce_modulo_the_scalar_modulus() {
    assert_eq!(FieldElement::from_be_bytes_reduced(&unhex(WIDE)).encode(), unhex(WIDE_REDUCED));
    assert_eq!(
        FieldElement::from_be_bytes_reduced(&[0xffu8; 32]).encode(),
        unhex(ALL_FF_REDUCED)
    );
    assert_eq!(FieldElement::from_be_bytes_reduced(&unhex(MODULUS_R)), FieldElement::from_u64(0));
    assert_eq!(FieldElement::from_be_bytes_reduced(&[]), FieldElement::from_u64(0));
    assert_eq!(FieldElement::from_be_bytes_reduced(&[1, 0]), FieldElement::from_u64(256));
}

#[test]
fn coordinate_decodes_below_the_modulus() {
    let bytes = unhex(Q_MINUS_1);
    let c = Fq::decode(&bytes).unwrap();
    assert_eq!(c.encode(), bytes);
    assert!(!c.is_zero());
    assert!(Fq::zero().is_zero());
    assert_eq!(Fq::decode(&unhex(MODULUS_Q)), Err(DecodeError::NotCanonical));
    assert_eq!(Fq::decode(&[0u8; 16]), Err(DecodeError::Length));
}

#[test]
fn coordinate_arithmetic_is_modular() {
    let a = Fq::decode(&unhex(FQ_A)).unwrap();
    let b = Fq::decode(&unhex(FQ_B)).unwrap();
    assert_eq!(a.add(&b).encode(), unhex(FQ_SUM));
    assert_eq!(b.sub(&a).encode(), unhex(FQ_DIFF));
    assert_eq!(a.mul(&b).encode(), unhex(FQ_PROD));
    assert_eq!(b.neg().encode(), unhex(FQ_NEG_B));
    assert_eq!(Fq::zero().neg(), Fq::zero());
    assert_eq!(a.add(&Fq::from_u64(5)), Fq::zero());
    assert!(a.equals(&a));
    assert!(!a.equals(&b));
}

#[test]
fn extension_arithmetic_uses_u_squared_minus_one() {
    let x = Fq2::decode(&unhex(FQ2_X)).unwrap();
    let y = Fq2::decode(&unhex(FQ2_Y)).unwrap();
    assert_eq!(x.mul(&y).encode(), unhex(FQ2_PROD));
    assert_eq!(x.add(&y).encode(), unhex(FQ2_SUM));
    // u * u = -1
    let u = Fq2::new(Fq::zero(), Fq::from_u64(1));
    let minus_one = Fq2::new(Fq::from_u64(1).neg(), Fq::zero());
    assert!(u.mul(&u).equals(&minus_one));
    assert!(!u.is_zero());
}

#[test]
fn extension_element_puts_the_coefficient_of_u_first() {
    let mut bytes = vec![0u8; 64];
    bytes[31] = 9;
    bytes[63] = 4;
    let e = Fq2::decode(&bytes).unwrap();
    assert!(e.equals(&Fq2::new(Fq::from_u64(4), Fq::from_u64(9))));
    assert_eq!(e.encode(), bytes);
    let mut high = unhex(MODULUS_Q);
    high.extend_from_slice(&[0u8; 32]);
    assert_eq!(Fq2::decode(&high), Err(DecodeError::NotCanonical));
    assert_eq!(Fq2::decode(&bytes[..63]), Err(DecodeError::Length));
}

#[test]
fn scalar_arithmetic_is_modular() {
    let top = FieldElement::decode(&unhex(R_MINUS_1)).unwrap();
    let one = FieldElement::from_u64(1);
    let two = FieldElement::from_u64(2);
    assert_eq!(top.add(&one), FieldElement::from_u64(0));
    assert_eq!(top.add(&two), one);
    assert_eq!(one.sub(&two), top);
    assert_eq!(two.sub(&one), one);
    // (r - 1) * (r - 1) = 1 and (r - 1) * 2 = r - 2 modulo r
    assert_eq!(top.mul(&top), one);
    assert_eq!(top.mul(&two), top.sub(&one));
    assert_eq!(
        FieldElement::from_u64(6).mul(&FieldElement::from_u64(7)),
        FieldElement::from_u64(42)
    );
    assert!(top.equals(&top));
    assert!(!top.equals(&one));
}
