use rabe_bn::arith::U256;
use rabe_bn::fq::Fq;
use rabe_bn::{FieldError, Fr};

fn hex(s: &str) -> Vec<u8> {
    (0..s.len() / 2).map(|i| u8::from_str_radix(&s[2 * i..2 * i + 2], 16).unwrap()).collect()
}

const R_HEX: &str = "30644e72e131a029b85045b68181585d2833e84879b9709143e1f593f0000001";
const R_MINUS_ONE_HEX: &str = "30644e72e131a029b85045b68181585d2833e84879b9709143e1f593f0000000";
const Q_HEX: &str = "30644e72e131a029b85045b68181585d97816a916871ca8d3c208c16d87cfd47";

#[test]
fn u256_add_sub_half() {
    let a = U256 { hi: 1, lo: u128::MAX };
    let b = U256 { hi: 0, lo: 1 };
    let s = a.add_small(&b);
    assert_eq!(s, U256 { hi: 2, lo: 0 });
    assert_eq!(s.sub_small(&b), a);
    assert_eq!(s.half(), U256 { hi: 1, lo: 0 });
    assert_eq!(a.half(), U256 { hi: 0, lo: u128::MAX });
    assert!(a.is_odd());
    assert!(a.lt(&s));
    assert!(!s.lt(&a));
}

#[test]
fn u256_modular_small_modulus() {
    let m = U256 { hi: 0, lo: 97 };
    let a = U256 { hi: 0, lo: 45 };
    let b = U256 { hi: 0, lo: 80 };
    assert_eq!(a.add_mod(&b, &m).lo, 28);
    assert_eq!(a.sub_mod(&b, &m).lo, 62);
    assert_eq!(a.neg_mod(&m).lo, 52);
    assert_eq!(a.mul_mod(&b, &m).lo, 11);
    assert_eq!(a.pow_mod(&U256 { hi: 0, lo: 5 }, &m).lo, 184528125u128 % 97);
    assert_eq!(U256 { hi: 1, lo: 0 }.reduce(&m).lo, 35);
    assert_eq!(U256::reduce_wide(&U256 { hi: 0, lo: 1 }, &U256 { hi: 0, lo: 3 }, &m).lo, (35 * 35 + 3) % 97);
}

#[test]
fn u256_bytes() {
    let mut bytes = vec![0u8; 32];
    bytes[0] = 0x12;
    bytes[15] = 0x34;
    bytes[16] = 0x56;
    bytes[31] = 0x78;
    let v = U256::read_be(&bytes, 0);
    assert_eq!(v.hi, (0x12u128 << 120) | 0x34);
    assert_eq!(v.lo, (0x56u128 << 120) | 0x78);
    let mut out = Vec::new();
    v.write_be(&mut out);
    assert_eq!(out, bytes);
}

#[test]
fn fr_zero_and_one() {
    assert!(Fr::zero().is_zero());
    assert!(!Fr::one().is_zero());
    assert_eq!(Fr::one().add(&Fr::zero()), Fr::one());
    assert_eq!(Fr::one().mul(&Fr::zero()), Fr::zero());
    assert_eq!(Fr::one().v, U256 { hi: 0, lo: 1 });
}

#[test]
fn fr_arithmetic_wraps_at_the_order() {
    let top = Fr::from_slice(&hex(R_MINUS_ONE_HEX)).unwrap();
    assert_eq!(top.add(&Fr::small(2)), Fr::one());
    assert_eq!(Fr::one().sub(&Fr::small(2)), top);
    assert_eq!(Fr::one().neg(), top);
    assert_eq!(Fr::zero().neg(), Fr::zero());
    assert_eq!(top.mul(&top), Fr::one());
    assert_eq!(Fr::small(6).mul(&Fr::small(7)), Fr::small(42));
}

#[test]
fn fr_field_laws_on_values() {
    let a = Fr::from_str("123456789012345678901234567890").unwrap();
    let b = Fr::from_str("98765432109876543210987654321098765432109876543210").unwrap();
    let c = Fr::from_slice(&hex(R_MINUS_ONE_HEX)).unwrap().sub(&Fr::small(12345));
    assert_eq!(a.add(&b), b.add(&a));
    assert_eq!(a.mul(&b), b.mul(&a));
    assert_eq!(a.add(&b).add(&c), a.add(&b.add(&c)));
    assert_eq!(a.mul(&b).mul(&c), a.mul(&b.mul(&c)));
    assert_eq!(a.mul(&b.add(&c)), a.mul(&b).add(&a.mul(&c)));
    assert_eq!(a.add(&a.neg()), Fr::zero());
    assert_eq!(a.mul(&a.inverse().unwrap()), Fr::one());
    let ab = a.mul(&b);
    assert_eq!(ab.mul(&ab), a.mul(&a).mul(&b.mul(&b)));
}

#[test]
fn fr_fermat() {
    let a = Fr::from_str("31415926535897932384626433832795").unwrap();
    let top = Fr::from_slice(&hex(R_MINUS_ONE_HEX)).unwrap();
    assert_eq!(a.pow(top), Fr::one());
    let r = U256::read_be(&hex(R_HEX), 0);
    assert_eq!(a.pow_u256(&r), a);
}

#[test]
fn fq_fermat_and_inverse() {
    let a = Fq::small(987654321);
    let q = U256::read_be(&hex(Q_HEX), 0);
    assert_eq!(a.pow_u256(&q), a);
    assert_eq!(a.mul(&a.inverse().unwrap()), Fq::one());
    assert!(Fq::zero().inverse().is_none());
    assert_eq!(Fq::modulus(), q);
}

#[test]
fn fr_pow_small() {
    assert_eq!(Fr::small(7).pow(Fr::small(5)), Fr::small(16807));
    assert_eq!(Fr::small(7).pow(Fr::zero()), Fr::one());
    assert_eq!(Fr::zero().pow(Fr::zero()), Fr::one());
    assert_eq!(Fr::small(2).pow(Fr::small(64)).v, U256 { hi: 0, lo: 1u128 << 64 });
}

#[test]
fn fr_inverse() {
    assert!(Fr::zero().inverse().is_none());
    let half = Fr::small(2).inverse().unwrap();
    assert_eq!(half.into_bytes(), hex("183227397098d014dc2822db40c0ac2e9419f4243cdcb848a1f0fac9f8000001"));
    assert_eq!(half.mul(&Fr::small(2)), Fr::one());
    assert_eq!(
        Fr::small(3).inverse().unwrap().into_bytes(),
        hex("2042def740cbc01bd03583cf0100e59370229adafbd0f5b62d414e62a0000001")
    );
}

#[test]
fn fr_from_str() {
    assert_eq!(Fr::from_str("0"), Some(Fr::zero()));
    assert_eq!(Fr::from_str(""), Some(Fr::zero()));
    assert_eq!(Fr::from_str("00042"), Some(Fr::small(42)));
    assert_eq!(Fr::from_str("12a"), None);
    assert_eq!(Fr::from_str("-1"), None);
    assert_eq!(Fr::from_str(" 1"), None);
    assert_eq!(
        Fr::from_str("21888242871839275222246405745257275088548364400416034343698204186575808495617"),
        Some(Fr::zero())
    );
    assert_eq!(
        Fr::from_str("12345678901234567890123456789012345678901234567890123456789012345678901234567890"),
        Fr::from_str("709921517216664776483948687242528959957046055480086943225184450145243039902")
    );
    assert_eq!(
        Fr::from_str("21888242871839275222246405745257275088548364400416034343698204186575808495616"),
        Some(Fr::one().neg())
    );
}

#[test]
fn fr_from_slice_lengths() {
    assert_eq!(Fr::from_slice(&[]), Err(FieldError::InvalidSliceLength));
    assert_eq!(Fr::from_slice(&[0u8; 31]), Err(FieldError::InvalidSliceLength));
    assert_eq!(Fr::from_slice(&[0u8; 33]), Err(FieldError::InvalidSliceLength));
    assert_eq!(Fr::from_slice(&[0u8; 32]), Ok(Fr::zero()));
}

#[test]
fn fr_from_slice_rejects_the_order() {
    assert_eq!(Fr::from_slice(&hex(R_HEX)), Err(FieldError::NotMember));
    assert_eq!(Fr::from_slice(&[0xffu8; 32]), Err(FieldError::NotMember));
    assert_eq!(Fr::from_slice(&hex(R_MINUS_ONE_HEX)), Ok(Fr::one().neg()));
}

#[test]
fn fr_bytes_round_trip() {
    let a = Fr::from_str("1234567890123456789012345678901234567890123456789012345678901234567890").unwrap();
    let bytes = a.into_bytes();
    assert_eq!(bytes.len(), 32);
    assert_eq!(Fr::from_slice(&bytes), Ok(a));
    let mut one = vec![0u8; 32];
    one[31] = 1;
    assert_eq!(Fr::one().into_bytes(), one);
    assert_eq!(Fr::from_slice(&hex(R_MINUS_ONE_HEX)).unwrap().into_bytes(), hex(R_MINUS_ONE_HEX));
}

#[test]
fn fr_interpret() {
    assert_eq!(Fr::interpret(&[0u8; 64]), Fr::zero());
    let mut buf = [0u8; 64];
    buf[63] = 5;
    assert_eq!(Fr::interpret(&buf), Fr::small(5));
    let mut wide = [0u8; 64];
    wide[31] = 1;
    assert_eq!(
        Fr::interpret(&wide).into_bytes(),
        hex("0e0a77c19a07df2f666ea36f7879462e36fc76959f60cd29ac96341c4ffffffb")
    );
    let mut order = [0u8; 64];
    order[32..].copy_from_slice(&hex(R_HEX));
    assert_eq!(Fr::interpret(&order), Fr::zero());
}

#[test]
fn fr_new_mul_factor_reduces() {
    assert_eq!(Fr::new_mul_factor(U256 { hi: 0, lo: 9 }), Fr::small(9));
    assert_eq!(Fr::new_mul_factor(U256::read_be(&hex(R_HEX), 0)), Fr::zero());
    assert_eq!(
        Fr::new_mul_factor(U256 { hi: u128::MAX, lo: u128::MAX }),
        Fr::interpret(&{
            let mut b = [0u8; 64];
            b[31] = 1;
            b
        })
        .sub(&Fr::one())
    );
}

#[test]
fn fr_from_wide_slice() {
    assert_eq!(Fr::from_wide_slice(&[0u8; 63]), Err(FieldError::InvalidU512Encoding));
    assert_eq!(Fr::from_wide_slice(&[0u8; 32]), Err(FieldError::InvalidU512Encoding));
    let mut buf = [0xabu8; 64];
    buf[7] = 3;
    assert_eq!(Fr::from_wide_slice(&buf), Ok(Fr::interpret(&buf)));
    let hi = Fr::new_mul_factor(U256::read_be(&buf, 0));
    let lo = Fr::new_mul_factor(U256::read_be(&buf, 32));
    let shift = Fr::small(2).pow(Fr::small(256));
    assert_eq!(Fr::interpret(&buf), hi.mul(&shift).add(&lo));
}

#[test]
fn pop_pads_and_truncates() {
    assert_eq!(rabe_bn::pop(&[]), [0u8; 64]);
    let short = rabe_bn::pop(&[1, 2, 3]);
    assert_eq!(short[..3].to_vec(), vec![1u8, 2, 3]);
    assert_eq!(short[3..].to_vec(), vec![0u8; 61]);
    let long: Vec<u8> = (0..100u8).collect();
    assert_eq!(rabe_bn::pop(&long).to_vec(), long[..64].to_vec());
}
