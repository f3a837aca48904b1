use rabe_bn::arith::U256;
use rabe_bn::fq::Fq;
use rabe_bn::fq12::Fq12;
use rabe_bn::pairing::miller_loop;
use rabe_bn::{pairing, FieldError, Fr, Gt, G1, G2};

fn hex(s: &str) -> Vec<u8> {
    (0..s.len() / 2).map(|i| u8::from_str_radix(&s[2 * i..2 * i + 2], 16).unwrap()).collect()
}

#[test]
fn pairing_with_identity_is_one() {
    assert_eq!(pairing(G1::zero(), G2::one()), Gt::one());
    assert_eq!(pairing(G1::one(), G2::zero()), Gt::one());
    assert_eq!(pairing(G1::zero(), G2::zero()), Gt::one());
}

#[test]
fn pairing_is_not_degenerate() {
    let e = pairing(G1::one(), G2::one());
    assert_ne!(e, Gt::one());
    assert!(!e.equals(&Gt::one()));
}

#[test]
fn pairing_has_the_group_order() {
    let e = pairing(G1::one(), G2::one());
    let r = U256::read_be(&hex("30644e72e131a029b85045b68181585d2833e84879b9709143e1f593f0000001"), 0);
    assert_eq!(e.0.pow_u256(&r), Fq12::one());
    assert_eq!(e.pow(Fr::one().neg()).mul(&e), Gt::one());
}

#[test]
fn pairing_is_bilinear() {
    let a = Fr::small(3);
    let b = Fr::from_str("1234567891011121314151617181920").unwrap();
    let p = G1::one().mul(&Fr::small(7));
    let q = G2::one().mul(&Fr::small(13));
    let ab = a.mul(&b);
    let left = pairing(p.mul(&a), q.mul(&b));
    assert_eq!(left, pairing(p, q).pow(ab));
    assert_eq!(left, pairing(p.mul(&ab), q));
    assert_eq!(left, pairing(p, q.mul(&ab)));
}

#[test]
fn pairing_is_additive_in_each_argument() {
    let p = G1::one().mul(&Fr::small(5));
    let p2 = G1::one().mul(&Fr::small(9));
    let q = G2::one().mul(&Fr::small(4));
    let q2 = G2::one().mul(&Fr::small(6));
    assert_eq!(pairing(p, q).mul(&pairing(p, q2)), pairing(p, q.add(&q2)));
    assert_eq!(pairing(p, q).mul(&pairing(p2, q)), pairing(p.add(&p2), q));
}

#[test]
fn signature_check() {
    let sk = Fr::from_str("271828182845904523536028747135266249775724709369995").unwrap();
    let m = G1::one().mul(&Fr::from_str("1618033988749894848204586834365638117720309").unwrap());
    let pk = G2::one().mul(&sk);
    let sig = m.mul(&sk);
    assert_eq!(pairing(sig, G2::one()), pairing(m, pk));
}

#[test]
fn pairing_of_doubles() {
    let e = pairing(G1::one(), G2::one());
    let two = Fr::small(2);
    let left = pairing(G1::one().mul(&two), G2::one());
    assert_eq!(left, e.mul(&e));
    assert_eq!(left, pairing(G1::one(), G2::one().mul(&two)));
    assert_eq!(left.into_bytes().len(), 384);
}

#[test]
fn frobenius_is_the_power_by_the_prime() {
    let x = pairing(G1::one().mul(&Fr::small(3)), G2::one()).0.add(&Fq12::one());
    let q = Fq::modulus();
    assert_eq!(x.frobenius(), x.pow_u256(&q));
    let mut y = x.mul(&x).add(&x);
    y.c1.c2.c0 = Fq::small(123456789);
    y.c0.c1.c1 = Fq::small(42);
    assert_eq!(y.frobenius(), y.pow_u256(&q));
}

#[test]
fn gt_inverse_and_product() {
    let e = pairing(G1::one(), G2::one());
    let inv = e.inverse();
    assert_eq!(e.mul(&inv), Gt::one());
    assert_eq!(Gt(e.0.unitary_inverse()), inv);
    assert_eq!(e.checked_inverse(), Some(inv));
    assert_eq!(Gt(Fq12::zero()).checked_inverse(), None);
    assert_eq!(e.pow(Fr::zero()), Gt::one());
    assert_eq!(e.pow(Fr::small(3)), e.mul(&e).mul(&e));
}

#[test]
fn gt_bytes() {
    let mut one = vec![0u8; 384];
    one[31] = 1;
    assert_eq!(Gt::one().into_bytes(), one);
    let e = pairing(G1::one(), G2::one());
    let bytes = e.into_bytes();
    assert_eq!(bytes.len(), 384);
    assert_eq!(bytes[..32].to_vec(), e.0.c0.c0.c0.into_bytes());
    assert_eq!(bytes[32..64].to_vec(), e.0.c0.c0.c1.into_bytes());
    assert_eq!(bytes[352..].to_vec(), e.0.c1.c2.c1.into_bytes());
}

#[test]
fn field_laws_in_the_extension() {
    let a = pairing(G1::one(), G2::one()).0;
    let b = a.add(&Fq12::one());
    let c = a.mul(&a).sub(&Fq12::one());
    assert_eq!(a.mul(&b), b.mul(&a));
    assert_eq!(a.mul(&b).mul(&c), a.mul(&b.mul(&c)));
    assert_eq!(a.mul(&b.add(&c)), a.mul(&b).add(&a.mul(&c)));
    assert_eq!(b.mul(&b.inverse().unwrap()), Fq12::one());
    assert_eq!(b.add(&b.neg()), Fq12::zero());
    assert_eq!(a.mul(&b).square(), a.square().mul(&b.square()));
    assert_eq!(b.c0.mul(&b.c0.inverse().unwrap()), rabe_bn::fq6::Fq6::one());
    assert_eq!(b.c0.c1.mul(&b.c0.c1.inverse().unwrap()), rabe_bn::fq2::Fq2::one());
}

#[test]
fn gt_from_slice() {
    let e = pairing(G1::one(), G2::one().mul(&Fr::small(5)));
    let bytes = e.into_bytes();
    assert_eq!(Gt::from_slice(&bytes), Ok(e));
    assert_eq!(Gt::from_slice(&bytes[..383]), Err(FieldError::InvalidSliceLength));
    assert_eq!(Gt::from_slice(&[0xffu8; 384]), Err(FieldError::NotMember));
    let mut big = bytes.clone();
    big[352..].copy_from_slice(&hex("30644e72e131a029b85045b68181585d97816a916871ca8d3c208c16d87cfd47"));
    assert_eq!(Gt::from_slice(&big), Err(FieldError::NotMember));
    let mut one = vec![0u8; 384];
    one[31] = 1;
    assert_eq!(Gt::from_slice(&one), Ok(Gt::one()));
}

fn power_of_two_256(x: &Fq12) -> Fq12 {
    let mut y = *x;
    for _ in 0..256 {
        y = y.square();
    }
    y
}

#[test]
fn hard_part_is_a_fixed_power() {
    // 2 u (6 u^2 + 3 u + 1) (q^4 - q^2 + 1) / r, in 256-bit pieces from the
    // lowest up.
    let pieces = [
        "65c5644e949b6a900cf0888c7a0ff6cf114dc0ec2cab7ffdcaa4152366144ab4",
        "0c974024a316619f2566c550aeb7e0e25b35eb719e58db4b1be2458885117085",
        "e86518527b5e403626473fbcd1c3ec1e621d9bfed77c2ad0d147cb7d3a5203dc",
        "000000000000000000679dd974c687871891045f68d1576329259e9712ca7b71",
    ];
    let g = G1::one();
    let h = G2::one().mul(&Fr::small(3)).to_affine().unwrap();
    let m = miller_loop(&g.x, &g.y, &h.x, &h.y);
    let a = m.unitary_inverse().mul(&m.inverse().unwrap());
    let b = a.frobenius().frobenius().mul(&a);
    assert_eq!(b.mul(&b.unitary_inverse()), Fq12::one());
    let mut naive = Fq12::one();
    for piece in pieces.iter().rev() {
        naive = power_of_two_256(&naive).mul(&b.pow_u256(&U256::read_be(&hex(piece), 0)));
    }
    assert_eq!(b.final_exponentiation_hard(), naive);
    assert_eq!(m.final_exponentiation(), naive);
    assert_eq!(Gt(naive), pairing(g, G2::one().mul(&Fr::small(3))));
}

#[test]
fn sparse_products_agree_with_the_general_product() {
    let x = pairing(G1::one(), G2::one()).0;
    let a = x.c0.c1;
    let b = x.c1.c2;
    let c = x.c0.c0;
    let zero = rabe_bn::fq2::Fq2::zero();
    let sparse = Fq12 {
        c0: rabe_bn::fq6::Fq6 { c0: a, c1: zero, c2: b },
        c1: rabe_bn::fq6::Fq6 { c0: zero, c1: c, c2: zero },
    };
    assert_eq!(x.mul_by_024(&a, &b, &c), x.mul(&sparse));
    let l0 = Fq::small(77);
    let line = Fq12 {
        c0: rabe_bn::fq6::Fq6 {
            c0: rabe_bn::fq2::Fq2 { c0: l0, c1: Fq::zero() },
            c1: zero,
            c2: zero,
        },
        c1: rabe_bn::fq6::Fq6 { c0: a, c1: b, c2: zero },
    };
    assert_eq!(x.mul_by_line(&l0, &a, &b), line.mul(&x));
    assert_eq!(x.cyclotomic_square(), x.mul(&x));
}
