use rabe_bn::arith::U256;
use rabe_bn::fq::Fq;
use rabe_bn::fq2::Fq2;
use rabe_bn::{CurveError, FieldError, Fr, G1, G2};

fn hex(s: &str) -> Vec<u8> {
    (0..s.len() / 2).map(|i| u8::from_str_radix(&s[2 * i..2 * i + 2], 16).unwrap()).collect()
}

fn order_minus_one() -> Fr {
    Fr::one().neg()
}

#[test]
fn g1_identity_and_generator() {
    assert!(G1::zero().is_zero());
    assert!(!G1::one().is_zero());
    assert!(G1::one().is_on_curve());
    assert!(G1::zero().is_on_curve());
    assert!(G1::one().add(&G1::zero()).equals(&G1::one()));
    assert!(G1::zero().add(&G1::one()).equals(&G1::one()));
    assert!(!G1::one().equals(&G1::zero()));
    assert_eq!(G1::zero().into_bytes(), vec![0u8; 64]);
    let mut one = vec![0u8; 64];
    one[31] = 1;
    one[63] = 2;
    assert_eq!(G1::one().into_bytes(), one);
}

#[test]
fn g1_double_known_answer() {
    let expected = hex(
        "030644e72e131a029b85045b68181585d97816a916871ca8d3c208c16d87cfd315ed738c0e0a7c92e7845f96b2ae9c0a68a6a449e3538fc7ff3ebf7a5a18a2c4",
    );
    assert_eq!(G1::one().mul(&Fr::small(2)).into_bytes(), expected);
    assert_eq!(G1::one().double().into_bytes(), expected);
    assert_eq!(G1::one().add(&G1::one()).into_bytes(), expected);
}

#[test]
fn g1_group_laws_on_values() {
    let g = G1::one();
    let p = g.mul(&Fr::small(5));
    let q = g.mul(&Fr::small(11));
    let r = g.mul(&Fr::small(123456789));
    assert!(p.add(&q).equals(&q.add(&p)));
    assert!(p.add(&q).add(&r).equals(&p.add(&q.add(&r))));
    assert!(p.add(&p.neg()).is_zero());
    assert!(p.sub(&p).is_zero());
    assert!(p.add(&q).equals(&g.mul(&Fr::small(16))));
    assert!(q.sub(&p).equals(&g.mul(&Fr::small(6))));
    assert!(p.add(&q).is_on_curve());
    let a = Fr::from_str("918273645546372819").unwrap();
    let b = Fr::from_str("5647382910192837465564738291").unwrap();
    assert!(r.mul(&a.add(&b)).equals(&r.mul(&a).add(&r.mul(&b))));
}

#[test]
fn g1_order() {
    let g = G1::one();
    assert!(g.mul(&order_minus_one()).add(&g).is_zero());
    assert!(g.mul(&order_minus_one()).equals(&g.neg()));
    assert!(g.mul(&Fr::zero()).is_zero());
    assert!(G1::zero().mul(&Fr::small(77)).is_zero());
}

#[test]
fn g1_normalize() {
    let mut p = G1::one().mul(&Fr::small(9));
    let before = p;
    p.normalize();
    assert_eq!(p.z, Fq::one());
    assert!(p.equals(&before));
    assert_eq!(p.into_bytes(), before.into_bytes());
    let mut z = G1::zero();
    z.normalize();
    assert!(z.is_zero());
    assert!(G1::zero().to_affine().is_none());
}

#[test]
fn g1_off_curve_point_is_detected() {
    let p = G1 { x: Fq::small(1), y: Fq::small(3), z: Fq::one() };
    assert!(!p.is_on_curve());
}

#[test]
fn three_party_key_exchange() {
    let a = Fr::from_str("1020304050607080901020304050607080901").unwrap();
    let b = Fr::from_str("998877665544332211998877665544332211").unwrap();
    let c = Fr::from_str("31415926535897932384626433832795028841971").unwrap();
    let pa = G1::one().mul(&a);
    let pb = G1::one().mul(&b);
    let pc = G1::one().mul(&c);
    let x = pb.mul(&c);
    let y = pc.mul(&a);
    let z = pa.mul(&b);
    let ka = x.mul(&a);
    let kb = y.mul(&b);
    let kc = z.mul(&c);
    assert!(ka.equals(&kb));
    assert!(kb.equals(&kc));
    assert_eq!(ka.into_bytes(), kc.into_bytes());
}

#[test]
fn g2_identity_and_generator() {
    assert!(G2::zero().is_zero());
    assert!(!G2::one().is_zero());
    assert!(G2::one().is_on_curve());
    assert_eq!(G2::zero().into_bytes(), vec![0u8; 128]);
    assert_eq!(
        G2::one().into_bytes()[..64].to_vec(),
        hex(
            "198e9393920d483a7260bfb731fb5d25f1aa493335a9e71297e485b7aef312c21800deef121f1e76426a00665e5c4479674322d4f75edadd46debd5cd992f6ed"
        )
    );
}

#[test]
fn g2_double_known_answer() {
    let expected = hex(
        "203e205db4f19b37b60121b83a7333706db86431c6d835849957ed8c3928ad7927dc7234fd11d3e8c36c59277c3e6f149d5cd3cfa9a62aee49f8130962b4b3b9195e8aa5b7827463722b8c153931579d3505566b4edf48d498e185f0509de15204bb53b8977e5f92a0bc372742c4830944a59b4fe6b1c0466e2a6dad122b5d2e",
    );
    assert_eq!(G2::one().mul(&Fr::small(2)).into_bytes(), expected);
    assert_eq!(G2::one().add(&G2::one()).into_bytes(), expected);
}

#[test]
fn g2_group_laws_on_values() {
    let g = G2::one();
    let p = g.mul(&Fr::small(5));
    let q = g.mul(&Fr::small(11));
    let r = g.mul(&Fr::small(1234567));
    assert!(p.add(&q).equals(&q.add(&p)));
    assert!(p.add(&q).add(&r).equals(&p.add(&q.add(&r))));
    assert!(p.add(&p.neg()).is_zero());
    assert!(p.add(&q).equals(&g.mul(&Fr::small(16))));
    assert!(p.add(&q).is_on_curve());
    let a = Fr::from_str("918273645546372819").unwrap();
    let b = Fr::from_str("5647382910192837465564738291").unwrap();
    assert!(r.mul(&a.add(&b)).equals(&r.mul(&a).add(&r.mul(&b))));
}

#[test]
fn g2_order() {
    let g = G2::one();
    assert!(g.mul(&order_minus_one()).add(&g).is_zero());
    let mut n = g.mul(&Fr::small(3));
    n.normalize();
    assert!(n.equals(&g.add(&g).add(&g)));
}

#[test]
fn g1_from_slice() {
    assert_eq!(G1::from_slice(&[0u8; 63]), Err(CurveError::Field(FieldError::InvalidSliceLength)));
    assert_eq!(G1::from_slice(&[0u8; 64]), Ok(G1::zero()));
    let two = G1::one().double();
    let bytes = two.into_bytes();
    let back = G1::from_slice(&bytes).unwrap();
    assert!(back.equals(&two));
    assert_eq!(back, two.to_affine().unwrap());
    assert_eq!(back.into_bytes(), bytes);
    let mut off = bytes.clone();
    off[63] ^= 1;
    assert_eq!(G1::from_slice(&off), Err(CurveError::InvalidEncoding));
    let mut big = bytes.clone();
    big[..32].copy_from_slice(&hex("30644e72e131a029b85045b68181585d97816a916871ca8d3c208c16d87cfd47"));
    assert_eq!(G1::from_slice(&big), Err(CurveError::Field(FieldError::NotMember)));
    assert_eq!(G1::zero().affine_or_error(), Err(CurveError::ToAffineConversion));
    assert_eq!(G1::one().affine_or_error(), Ok(G1::one()));
    assert_eq!(CurveError::from(FieldError::NotMember), CurveError::Field(FieldError::NotMember));
}

#[test]
fn g2_from_slice() {
    assert_eq!(G2::from_slice(&[0u8; 64]), Err(CurveError::Field(FieldError::InvalidSliceLength)));
    assert_eq!(G2::from_slice(&[0u8; 128]), Ok(G2::zero()));
    let p = G2::one().mul(&Fr::small(7));
    let bytes = p.into_bytes();
    let back = G2::from_slice(&bytes).unwrap();
    assert!(back.equals(&p));
    assert_eq!(back.into_bytes(), bytes);
    let mut off = bytes.clone();
    off[127] ^= 1;
    assert_eq!(G2::from_slice(&off), Err(CurveError::InvalidEncoding));
}

#[test]
fn g2_from_slice_rejects_points_outside_the_subgroup() {
    // Search the twist for a point with a small x coordinate: y^2 = x^3 + b.
    // Such a point lies on the curve, and almost surely outside the subgroup.
    let b = G2::one().y.square().sub(&G2::one().x.square().mul(&G2::one().x));
    let q = Fq::modulus();
    let half = q.add_small(&U256::one()).half().half();
    let mut found = None;
    for i in 1u64..40 {
        let x = Fq2 { c0: Fq::small(i), c1: Fq::one() };
        let rhs = x.square().mul(&x).add(&b);
        // A square root in the quadratic extension, by the norm method.
        let norm = rhs.c0.mul(&rhs.c0).add(&rhs.c1.mul(&rhs.c1));
        let n = norm.pow_u256(&half);
        if n.mul(&n) != norm {
            continue;
        }
        let two_inv = Fq::small(2).inverse().unwrap();
        for sign in 0..2 {
            let nn = if sign == 0 { n } else { n.neg() };
            let t = rhs.c0.add(&nn).mul(&two_inv);
            let y0 = t.pow_u256(&half);
            if y0.mul(&y0) != t || y0.is_zero() {
                continue;
            }
            let y1 = rhs.c1.mul(&two_inv).mul(&y0.inverse().unwrap());
            let y = Fq2 { c0: y0, c1: y1 };
            if y.square() == rhs {
                found = Some(G2 { x, y, z: Fq2::one() });
            }
        }
        if found.is_some() {
            break;
        }
    }
    let p = found.expect("a point of the twist with a small x coordinate");
    assert!(p.is_on_curve());
    assert_eq!(G2::from_slice(&p.into_bytes()), Err(CurveError::NotMember));
}

#[test]
fn g1_compressed_form() {
    assert_eq!(G1::zero().into_compressed(), vec![0u8; 32]);
    assert_eq!(G1::from_compressed(&[0u8; 32]), Ok(G1::zero()));
    assert_eq!(G1::from_compressed(&[0u8; 31]), Err(CurveError::Field(FieldError::InvalidSliceLength)));
    let mut one = vec![0u8; 32];
    one[31] = 1;
    assert_eq!(G1::one().into_compressed(), one);
    assert_eq!(G1::from_compressed(&one), Ok(G1::one()));
    let mut minus_one = one.clone();
    minus_one[0] = 0x80;
    assert_eq!(G1::one().neg().into_compressed(), minus_one);
    assert_eq!(G1::from_compressed(&minus_one), Ok(G1::one().neg()));
    let two = G1::one().double();
    let bytes = two.into_compressed();
    assert_eq!(bytes[1..].to_vec(), hex("0644e72e131a029b85045b68181585d97816a916871ca8d3c208c16d87cfd3"));
    assert_eq!(bytes[0], 0x03);
    assert_eq!(G1::from_compressed(&bytes), Ok(two.to_affine().unwrap()));
    for k in 3u64..12 {
        let p = G1::one().mul(&Fr::small(k));
        assert_eq!(G1::from_compressed(&p.into_compressed()), Ok(p.to_affine().unwrap()));
    }
    assert_eq!(
        G1::from_compressed(&hex("30644e72e131a029b85045b68181585d97816a916871ca8d3c208c16d87cfd47")),
        Err(CurveError::Field(FieldError::NotMember))
    );
    let mut rejected = 0;
    for k in 1u8..20 {
        let mut b = vec![0u8; 32];
        b[31] = k;
        match G1::from_compressed(&b) {
            Ok(p) => assert!(p.is_on_curve()),
            Err(e) => {
                assert_eq!(e, CurveError::InvalidEncoding);
                rejected += 1;
            },
        }
    }
    assert!(rejected > 0);
}

#[test]
fn fq_square_root() {
    let four = Fq::small(4).sqrt().unwrap();
    assert!(four == Fq::small(2) || four == Fq::small(2).neg());
    assert_eq!(Fq::zero().sqrt(), Some(Fq::zero()));
    let a = Fq::small(123456789);
    let sq = a.mul(&a);
    let root = sq.sqrt().unwrap();
    assert!(root == a || root == a.neg());
    assert!(Fq::small(5).is_odd());
    assert!(!Fq::small(6).is_odd());
}

#[test]
fn the_group_order_annihilates_the_generators() {
    let r = U256::read_be(&hex("30644e72e131a029b85045b68181585d2833e84879b9709143e1f593f0000001"), 0);
    assert!(G1::one().mul_u256(&r).is_zero());
    assert!(G2::one().mul_u256(&r).is_zero());
    assert!(G1::one().mul_u256(&r).equals(&G1::zero()));
    assert!(G2::one().mul_u256(&r).equals(&G2::zero()));
    let p = G1::one().mul(&Fr::small(99));
    assert!(p.mul_u256(&r).is_zero());
}
