use vstd::prelude::*;
use vstd::arithmetic::div_mod::{
    lemma_add_mod_noop, lemma_mul_mod_noop_left, lemma_mul_mod_noop_right, lemma_sub_mod_noop,
};
use vstd::arithmetic::mul::{
    lemma_mul_is_associative, lemma_mul_is_distributive_add,
    lemma_mul_is_distributive_add_other_way, lemma_mul_is_distributive_sub,
    lemma_mul_is_distributive_sub_other_way,
};
use vstd::slice::slice_subrange;
use crate::arith::{
    lemma_mod_add_associative, lemma_mod_add_negation, lemma_nat_bytes_len, nat_bytes, U256,
};
use crate::fq::{fq_add, fq_inv, fq_modulus, fq_mul, fq_neg, fq_sub, Fq};
use crate::fr::FieldError;

verus! {

/// The two residues of an element of the quadratic extension.
pub struct Fq2Value {
    pub c0: nat,
    pub c1: nat,
}

/// An element `c0 + c1 u` of the quadratic extension, where `u * u = -1`.
#[derive(Clone, Copy, Debug, PartialEq, Eq, Structural)]
pub struct Fq2 {
    pub c0: Fq,
    pub c1: Fq,
}

impl View for Fq2 {
    type V = Fq2Value;

    open spec fn view(&self) -> Fq2Value {
        Fq2Value { c0: self.c0@, c1: self.c1@ }
    }
}

impl Fq2Value {
    /// The additive identity.
    pub open spec fn zero() -> Fq2Value {
        Fq2Value { c0: 0, c1: 0 }
    }

    /// The multiplicative identity.
    pub open spec fn one() -> Fq2Value {
        Fq2Value { c0: 1, c1: 0 }
    }

    /// Whether both coordinates are zero.
    pub open spec fn is_zero(self) -> bool {
        (self.c0 == 0) && (self.c1 == 0)
    }

    /// Whether two elements agree in both coordinates.
    pub open spec fn equals(self, other: Fq2Value) -> bool {
        (self.c0 == other.c0) && (self.c1 == other.c1)
    }

    /// The sum, coordinate by coordinate.
    pub open spec fn add(self, other: Fq2Value) -> Fq2Value {
        Fq2Value { c0: fq_add(self.c0, other.c0), c1: fq_add(self.c1, other.c1) }
    }

    /// The difference, coordinate by coordinate.
    pub open spec fn sub(self, other: Fq2Value) -> Fq2Value {
        Fq2Value { c0: fq_sub(self.c0, other.c0), c1: fq_sub(self.c1, other.c1) }
    }

    /// The additive inverse.
    pub open spec fn neg(self) -> Fq2Value {
        Fq2Value { c0: fq_neg(self.c0), c1: fq_neg(self.c1) }
    }

    /// The conjugate `c0 - c1 u`.
    pub open spec fn conjugate(self) -> Fq2Value {
        Fq2Value { c0: self.c0, c1: fq_neg(self.c1) }
    }

    /// The product with an element of the base field.
    pub open spec fn scale(self, k: nat) -> Fq2Value {
        Fq2Value { c0: fq_mul(self.c0, k), c1: fq_mul(self.c1, k) }
    }

    /// The product, with `u * u = -1`.
    #[verifier::opaque]
    pub open spec fn mul(self, other: Fq2Value) -> Fq2Value {
        let a = fq_mul(self.c0, other.c0);
        let b = fq_mul(self.c1, other.c1);
        let c = fq_mul(self.c0, other.c1);
        let d = fq_mul(self.c1, other.c0);
        Fq2Value { c0: fq_sub(a, b), c1: fq_add(c, d) }
    }

    /// The product of the element with itself.
    #[verifier::opaque]
    pub open spec fn square(self) -> Fq2Value {
        let a = fq_mul(self.c0, self.c0);
        let b = fq_mul(self.c1, self.c1);
        let c = fq_mul(self.c0, self.c1);
        Fq2Value { c0: fq_sub(a, b), c1: fq_add(c, c) }
    }

    /// The product with `9 + u`, the non-residue that the cubic extension is built on.
    #[verifier::opaque]
    pub open spec fn mul_by_nonresidue(self) -> Fq2Value {
        let nine = 9nat;
        let a = fq_mul(nine, self.c0);
        let b = fq_mul(nine, self.c1);
        Fq2Value { c0: fq_sub(a, self.c1), c1: fq_add(b, self.c0) }
    }

    /// The multiplicative inverse: the conjugate over the norm, where the norm has an inverse; kept only where its product with the element is one.
    #[verifier::opaque]
    pub open spec fn inverse(self) -> Option<Fq2Value> {
        let a = fq_mul(self.c0, self.c0);
        let b = fq_mul(self.c1, self.c1);
        let n = fq_add(a, b);
        match fq_inv(n) {
            Some(di) => {
                let nc = fq_neg(self.c1);
                let cand = Fq2Value { c0: fq_mul(self.c0, di), c1: fq_mul(nc, di) };
                let prod = self.mul(cand);
                if prod.equals(Fq2Value::one()) {
                    Some(cand)
                } else {
                    None
                }
            },
            None => None,
        }
    }

    /// Multiplication is associative.
    pub proof fn lemma_mul_associative(a: Fq2Value, b: Fq2Value, c: Fq2Value)
        ensures
            a.mul(b).mul(c) == a.mul(b.mul(c)),
    {
        reveal(Fq2Value::mul);
        let q = fq_modulus() as int;
        let a0 = a.c0 as int;
        let a1 = a.c1 as int;
        let b0 = b.c0 as int;
        let b1 = b.c1 as int;
        let c0 = c.c0 as int;
        let c1 = c.c1 as int;
        let x = a0 * b0 - a1 * b1;
        let y = a0 * b1 + a1 * b0;
        let u = b0 * c0 - b1 * c1;
        let v = b0 * c1 + b1 * c0;
        lemma_sub_mod_noop(a0 * b0, a1 * b1, q);
        lemma_add_mod_noop(a0 * b1, a1 * b0, q);
        lemma_sub_mod_noop(b0 * c0, b1 * c1, q);
        lemma_add_mod_noop(b0 * c1, b1 * c0, q);
        assert(a.mul(b).c0 == x % q && a.mul(b).c1 == y % q);
        assert(b.mul(c).c0 == u % q && b.mul(c).c1 == v % q);
        assert(a.mul(b).mul(c).c0 == a.mul(b.mul(c)).c0) by {
            lemma_mul_mod_noop_left(x, c0, q);
            lemma_mul_mod_noop_left(y, c1, q);
            lemma_sub_mod_noop(x * c0, y * c1, q);
            lemma_mul_mod_noop_right(a0, u, q);
            lemma_mul_mod_noop_right(a1, v, q);
            lemma_sub_mod_noop(a0 * u, a1 * v, q);
            lemma_mul_is_distributive_sub_other_way(c0, a0 * b0, a1 * b1);
            lemma_mul_is_distributive_add_other_way(c1, a0 * b1, a1 * b0);
            lemma_mul_is_distributive_sub(a0, b0 * c0, b1 * c1);
            lemma_mul_is_distributive_add(a1, b0 * c1, b1 * c0);
            lemma_mul_is_associative(a0, b0, c0);
            lemma_mul_is_associative(a1, b1, c0);
            lemma_mul_is_associative(a0, b1, c1);
            lemma_mul_is_associative(a1, b0, c1);
            assert(x * c0 - y * c1 == a0 * u - a1 * v);
        }
        assert(a.mul(b).mul(c).c1 == a.mul(b.mul(c)).c1) by {
            lemma_mul_mod_noop_left(x, c1, q);
            lemma_mul_mod_noop_left(y, c0, q);
            lemma_add_mod_noop(x * c1, y * c0, q);
            lemma_mul_mod_noop_right(a0, v, q);
            lemma_mul_mod_noop_right(a1, u, q);
            lemma_add_mod_noop(a0 * v, a1 * u, q);
            lemma_mul_is_distributive_sub_other_way(c1, a0 * b0, a1 * b1);
            lemma_mul_is_distributive_add_other_way(c0, a0 * b1, a1 * b0);
            lemma_mul_is_distributive_add(a0, b0 * c1, b1 * c0);
            lemma_mul_is_distributive_sub(a1, b0 * c0, b1 * c1);
            lemma_mul_is_associative(a0, b0, c1);
            lemma_mul_is_associative(a1, b1, c1);
            lemma_mul_is_associative(a0, b1, c0);
            lemma_mul_is_associative(a1, b0, c0);
            assert(x * c1 + y * c0 == a0 * v + a1 * u);
        }
    }

    /// Multiplication distributes over addition.
    pub proof fn lemma_distributive(a: Fq2Value, b: Fq2Value, c: Fq2Value)
        ensures
            a.mul(b.add(c)) == a.mul(b).add(a.mul(c)),
    {
        reveal(Fq2Value::mul);
        let q = fq_modulus() as int;
        let a0 = a.c0 as int;
        let a1 = a.c1 as int;
        let b0 = b.c0 as int;
        let b1 = b.c1 as int;
        let c0 = c.c0 as int;
        let c1 = c.c1 as int;
        assert(a.mul(b.add(c)).c0 == a.mul(b).add(a.mul(c)).c0) by {
            lemma_mul_mod_noop_right(a0, b0 + c0, q);
            lemma_mul_mod_noop_right(a1, b1 + c1, q);
            lemma_sub_mod_noop(a0 * (b0 + c0), a1 * (b1 + c1), q);
            lemma_sub_mod_noop(a0 * b0, a1 * b1, q);
            lemma_sub_mod_noop(a0 * c0, a1 * c1, q);
            lemma_add_mod_noop(a0 * b0 - a1 * b1, a0 * c0 - a1 * c1, q);
            lemma_mul_is_distributive_add(a0, b0, c0);
            lemma_mul_is_distributive_add(a1, b1, c1);
        }
        assert(a.mul(b.add(c)).c1 == a.mul(b).add(a.mul(c)).c1) by {
            lemma_mul_mod_noop_right(a0, b1 + c1, q);
            lemma_mul_mod_noop_right(a1, b0 + c0, q);
            lemma_add_mod_noop(a0 * (b1 + c1), a1 * (b0 + c0), q);
            lemma_add_mod_noop(a0 * b1, a1 * b0, q);
            lemma_add_mod_noop(a0 * c1, a1 * c0, q);
            lemma_add_mod_noop(a0 * b1 + a1 * b0, a0 * c1 + a1 * c0, q);
            lemma_mul_is_distributive_add(a0, b1, c1);
            lemma_mul_is_distributive_add(a1, b0, c0);
        }
    }

    /// Where an element has an inverse, their product is one.
    pub proof fn lemma_inverse(a: Fq2Value)
        ensures
            a.inverse() matches Some(x) ==> a.mul(x) == Fq2Value::one(),
    {
        reveal(Fq2Value::inverse);
    }

    /// Every coordinate is below the modulus.
    pub open spec fn reduced(self) -> bool {
        self.c0 < fq_modulus() && self.c1 < fq_modulus()
    }

    /// Addition is associative.
    pub proof fn lemma_add_associative(a: Fq2Value, b: Fq2Value, c: Fq2Value)
        requires
            a.reduced(),
            b.reduced(),
            c.reduced(),
        ensures
            a.add(b).add(c) == a.add(b.add(c)),
    {
        lemma_mod_add_associative(a.c0, b.c0, c.c0, fq_modulus());
        lemma_mod_add_associative(a.c1, b.c1, c.c1, fq_modulus());
    }

    /// An element and its negation add up to zero.
    pub proof fn lemma_add_negation(a: Fq2Value)
        requires
            a.reduced(),
        ensures
            a.add(a.neg()) == Fq2Value::zero(),
    {
        lemma_mod_add_negation(a.c0, fq_modulus());
        lemma_mod_add_negation(a.c1, fq_modulus());
    }

    /// Addition is commutative.
    pub proof fn lemma_add_commutative(a: Fq2Value, b: Fq2Value)
        ensures
            a.add(b) == b.add(a),
    {
    }

    /// Multiplication is commutative.
    pub proof fn lemma_mul_commutative(a: Fq2Value, b: Fq2Value)
        ensures
            a.mul(b) == b.mul(a),
    {
        reveal(Fq2Value::mul);
        assert(a.c0 * b.c0 == b.c0 * a.c0 && a.c1 * b.c1 == b.c1 * a.c1 && a.c0 * b.c1 == b.c1 * a.c0
            && a.c1 * b.c0 == b.c0 * a.c1) by (nonlinear_arith);
    }

    /// The 64 bytes of the element: the 32 of `c1` before the 32 of `c0`.
    pub open spec fn encoding(self) -> Seq<u8> {
        nat_bytes(self.c1) + nat_bytes(self.c0)
    }
}

impl Fq2 {
    /// Every coordinate is a reduced residue.
    pub open spec fn wf(&self) -> bool {
        self.c0.wf() && self.c1.wf()
    }

    /// The additive identity.
    pub fn zero() -> (r: Fq2)
        ensures
            r.wf(),
            r@ == Fq2Value::zero(),
    {
        Fq2 { c0: Fq::zero(), c1: Fq::zero() }
    }

    /// The multiplicative identity.
    pub fn one() -> (r: Fq2)
        ensures
            r.wf(),
            r@ == Fq2Value::one(),
    {
        Fq2 { c0: Fq::one(), c1: Fq::zero() }
    }

    /// Whether both coordinates are zero.
    pub fn is_zero(&self) -> (r: bool)
        requires
            self.wf(),
        ensures
            r == self@.is_zero(),
    {
        self.c0.is_zero() && self.c1.is_zero()
    }

    /// Whether two elements agree in both coordinates.
    pub fn equals(&self, other: &Fq2) -> (r: bool)
        requires
            self.wf(),
            other.wf(),
        ensures
            r == self@.equals(other@),
    {
        self.c0.equals(&other.c0) && self.c1.equals(&other.c1)
    }

    /// The sum, coordinate by coordinate.
    pub fn add(&self, other: &Fq2) -> (r: Fq2)
        requires
            self.wf(),
            other.wf(),
        ensures
            r.wf(),
            r@ == self@.add(other@),
    {
        Fq2 { c0: self.c0.add(&other.c0), c1: self.c1.add(&other.c1) }
    }

    /// The difference, coordinate by coordinate.
    pub fn sub(&self, other: &Fq2) -> (r: Fq2)
        requires
            self.wf(),
            other.wf(),
        ensures
            r.wf(),
            r@ == self@.sub(other@),
    {
        Fq2 { c0: self.c0.sub(&other.c0), c1: self.c1.sub(&other.c1) }
    }

    /// The additive inverse.
    pub fn neg(&self) -> (r: Fq2)
        requires
            self.wf(),
        ensures
            r.wf(),
            r@ == self@.neg(),
    {
        Fq2 { c0: self.c0.neg(), c1: self.c1.neg() }
    }

    /// The conjugate `c0 - c1 u`.
    pub fn conjugate(&self) -> (r: Fq2)
        requires
            self.wf(),
        ensures
            r.wf(),
            r@ == self@.conjugate(),
    {
        Fq2 { c0: self.c0, c1: self.c1.neg() }
    }

    /// The product with an element of the base field.
    pub fn scale(&self, k: &Fq) -> (r: Fq2)
        requires
            self.wf(),
            k.wf(),
        ensures
            r.wf(),
            r@ == self@.scale(k@),
    {
        Fq2 { c0: self.c0.mul(&k), c1: self.c1.mul(&k) }
    }

    /// The product, with `u * u = -1`.
    pub fn mul(&self, other: &Fq2) -> (r: Fq2)
        requires
            self.wf(),
            other.wf(),
        ensures
            r.wf(),
            r@ == self@.mul(other@),
    {
        proof {
            reveal(Fq2Value::mul);
        }
        let a = self.c0.mul(&other.c0);
        let b = self.c1.mul(&other.c1);
        let c = self.c0.mul(&other.c1);
        let d = self.c1.mul(&other.c0);
        Fq2 { c0: a.sub(&b), c1: c.add(&d) }
    }

    /// The product of the element with itself.
    pub fn square(&self) -> (r: Fq2)
        requires
            self.wf(),
        ensures
            r.wf(),
            r@ == self@.square(),
    {
        proof {
            reveal(Fq2Value::square);
        }
        let a = self.c0.mul(&self.c0);
        let b = self.c1.mul(&self.c1);
        let c = self.c0.mul(&self.c1);
        Fq2 { c0: a.sub(&b), c1: c.add(&c) }
    }

    /// The product with `9 + u`, the non-residue that the cubic extension is built on.
    pub fn mul_by_nonresidue(&self) -> (r: Fq2)
        requires
            self.wf(),
        ensures
            r.wf(),
            r@ == self@.mul_by_nonresidue(),
    {
        proof {
            reveal(Fq2Value::mul_by_nonresidue);
        }
        let nine = Fq::small(9);
        let a = nine.mul(&self.c0);
        let b = nine.mul(&self.c1);
        Fq2 { c0: a.sub(&self.c1), c1: b.add(&self.c0) }
    }

    /// The multiplicative inverse: the conjugate over the norm, where the norm has an inverse; kept only where its product with the element is one.
    pub fn inverse(&self) -> (r: Option<Fq2>)
        requires
            self.wf(),
        ensures
            r.is_some() == self@.inverse().is_some(),
            r matches Some(x) ==> x.wf() && x@ == self@.inverse().unwrap(),
    {
        proof {
            reveal(Fq2Value::inverse);
        }
        let a = self.c0.mul(&self.c0);
        let b = self.c1.mul(&self.c1);
        let n = a.add(&b);
        match n.inverse() {
            Some(di) => {
                let nc = self.c1.neg();
                let cand = Fq2 { c0: self.c0.mul(&di), c1: nc.mul(&di) };
                let prod = self.mul(&cand);
                if prod.equals(&Fq2::one()) {
                    Some(cand)
                } else {
                    None
                }
            },
            None => None,
        }
    }

    /// What `from_slice` makes of the bytes `s`: 64 bytes, the 32 of `c1`
    /// before the 32 of `c0`.
    pub open spec fn decode(s: Seq<u8>) -> Result<Fq2, FieldError> {
        if s.len() != 64 {
            Err(FieldError::InvalidSliceLength)
        } else {
            match Fq::decode(s.subrange(0, 32)) {
                Err(e) => Err(e),
                Ok(c1) => match Fq::decode(s.subrange(32, 64)) {
                    Err(e) => Err(e),
                    Ok(c0) => Ok(Fq2 { c0, c1 }),
                },
            }
        }
    }

    /// Reads an element from its 64 bytes.
    pub fn from_slice(slice: &[u8]) -> (r: Result<Fq2, FieldError>)
        ensures
            r == Fq2::decode(slice@),
            r matches Ok(x) ==> x.wf(),
    {
        if slice.len() != 64 {
            return Err(FieldError::InvalidSliceLength);
        }
        match Fq::from_slice(slice_subrange(slice, 0, 32)) {
            Err(e) => Err(e),
            Ok(c1) => match Fq::from_slice(slice_subrange(slice, 32, 64)) {
                Err(e) => Err(e),
                Ok(c0) => Ok(Fq2 { c0, c1 }),
            },
        }
    }

    /// Appends the 64 bytes of the element, those of `c1` first.
    pub fn write_bytes(&self, out: &mut Vec<u8>)
        ensures
            final(out)@ == old(out)@ + self@.encoding(),
    {
        let ghost before = out@;
        self.c1.write_bytes(out);
        self.c0.write_bytes(out);
        assert(out@ =~= before + self@.encoding());
    }

    /// Reading back the bytes of an element gives the element.
    pub proof fn lemma_bytes_round_trip(x: Fq2)
        requires
            x.wf(),
        ensures
            Fq2::decode(x@.encoding()) == Ok::<Fq2, FieldError>(x),
    {
        let s = x@.encoding();
        lemma_nat_bytes_len(x.c1@);
        lemma_nat_bytes_len(x.c0@);
        assert(s.subrange(0, 32) =~= nat_bytes(x.c1@));
        assert(s.subrange(32, 64) =~= nat_bytes(x.c0@));
        Fq::lemma_bytes_round_trip(x.c0);
        Fq::lemma_bytes_round_trip(x.c1);
    }
}

/// The factor that the Frobenius map puts on the coefficient of `w^i`, for
/// `i` from 1 to 5: the `i`-th power of `(9 + u)^((q - 1) / 6)`.
pub open spec fn frobenius_factor(i: int) -> Fq2 {
    if i == 1 {
        Fq2 { c0: Fq { v: U256 { hi: 0x1284_b71c_2865_a7df_e8b9_9fdd_76e6_8b60, lo: 0x5c52_1e08_292f_2176_d60b_35da_dcc9_e470 } }, c1: Fq { v: U256 { hi: 0x2469_96f3_b4fa_e7e6_a632_7cfe_1215_0b8e, lo: 0x7479_9277_8eee_c7e5_ca5c_f05f_80f3_62ac } } }
    } else if i == 2 {
        Fq2 { c0: Fq { v: U256 { hi: 0x2fb3_4798_4f79_11f7_4c0b_ec3c_f559_b143, lo: 0xb78c_c310_c2c3_330c_99e3_9557_176f_553d } }, c1: Fq { v: U256 { hi: 0x16c9_e550_61eb_ae20_4ba4_cc8b_d75a_0794, lo: 0x32ae_2a1d_0b7c_9dce_1665_d51c_640f_cba2 } } }
    } else if i == 3 {
        Fq2 { c0: Fq { v: U256 { hi: 0x063c_f305_489a_f5dc_dc5e_c698_b6e2_f9b9, lo: 0xdbaa_e0ed_a9c9_5998_dc54_0146_71a0_135a } }, c1: Fq { v: U256 { hi: 0x07c0_3cbc_ac41_049a_0704_b5a7_ec79_6f2b, lo: 0x2180_7dc9_8fa2_5bd2_82d3_7f63_2623_b0e3 } } }
    } else if i == 4 {
        Fq2 { c0: Fq { v: U256 { hi: 0x05b5_4f5e_64ee_a801_80f3_c0b7_5a18_1e84, lo: 0xd333_65f7_be94_ec72_848a_1f55_921e_a762 } }, c1: Fq { v: U256 { hi: 0x2c14_5edb_e7fd_8aee_9f3a_80b0_3b0b_1c92, lo: 0x3685_d2ea_1bde_c763_c13b_4711_cd2b_8126 } } }
    } else {
        Fq2 { c0: Fq { v: U256 { hi: 0x0183_c1e7_4f79_8649_e93a_3661_a435_3ff4, lo: 0x425c_459b_55aa_1bd3_2ea2_c810_eab7_692f } }, c1: Fq { v: U256 { hi: 0x12ac_f2ca_76fd_0675_a27f_b246_c772_9f7d, lo: 0xb080_cb99_678e_2ac0_24c6_b8ee_6e0c_2c4b } } }
    }
}

/// The Frobenius factor for the coefficient of `w^i`.
pub fn frobenius_coefficient(i: u8) -> (r: Fq2)
    ensures
        r == frobenius_factor(i as int),
        r.wf(),
{
    if i == 1 {
        Fq2 { c0: Fq { v: U256 { hi: 0x1284_b71c_2865_a7df_e8b9_9fdd_76e6_8b60, lo: 0x5c52_1e08_292f_2176_d60b_35da_dcc9_e470 } }, c1: Fq { v: U256 { hi: 0x2469_96f3_b4fa_e7e6_a632_7cfe_1215_0b8e, lo: 0x7479_9277_8eee_c7e5_ca5c_f05f_80f3_62ac } } }
    } else if i == 2 {
        Fq2 { c0: Fq { v: U256 { hi: 0x2fb3_4798_4f79_11f7_4c0b_ec3c_f559_b143, lo: 0xb78c_c310_c2c3_330c_99e3_9557_176f_553d } }, c1: Fq { v: U256 { hi: 0x16c9_e550_61eb_ae20_4ba4_cc8b_d75a_0794, lo: 0x32ae_2a1d_0b7c_9dce_1665_d51c_640f_cba2 } } }
    } else if i == 3 {
        Fq2 { c0: Fq { v: U256 { hi: 0x063c_f305_489a_f5dc_dc5e_c698_b6e2_f9b9, lo: 0xdbaa_e0ed_a9c9_5998_dc54_0146_71a0_135a } }, c1: Fq { v: U256 { hi: 0x07c0_3cbc_ac41_049a_0704_b5a7_ec79_6f2b, lo: 0x2180_7dc9_8fa2_5bd2_82d3_7f63_2623_b0e3 } } }
    } else if i == 4 {
        Fq2 { c0: Fq { v: U256 { hi: 0x05b5_4f5e_64ee_a801_80f3_c0b7_5a18_1e84, lo: 0xd333_65f7_be94_ec72_848a_1f55_921e_a762 } }, c1: Fq { v: U256 { hi: 0x2c14_5edb_e7fd_8aee_9f3a_80b0_3b0b_1c92, lo: 0x3685_d2ea_1bde_c763_c13b_4711_cd2b_8126 } } }
    } else {
        Fq2 { c0: Fq { v: U256 { hi: 0x0183_c1e7_4f79_8649_e93a_3661_a435_3ff4, lo: 0x425c_459b_55aa_1bd3_2ea2_c810_eab7_692f } }, c1: Fq { v: U256 { hi: 0x12ac_f2ca_76fd_0675_a27f_b246_c772_9f7d, lo: 0xb080_cb99_678e_2ac0_24c6_b8ee_6e0c_2c4b } } }
    }
}

} // verus!
