use vstd::prelude::*;
use vstd::arithmetic::div_mod::*;
use vstd::arithmetic::power::pow;
use crate::arith::{
    be_value_32, lemma_be_32_round_trip, lemma_u256_of_view, nat_bytes, valid_modulus, U256,
};
use crate::fr::FieldError;

verus! {

/// The prime over which the curve is defined.
pub open spec fn fq_modulus() -> nat {
    (U256 { hi: 0x3064_4e72_e131_a029_b850_45b6_8181_585d, lo: 0x9781_6a91_6871_ca8d_3c20_8c16_d87c_fd47 })@
}

/// The sum of two residues.
pub open spec fn fq_add(a: nat, b: nat) -> nat {
    (a + b) % fq_modulus()
}

/// The difference of two residues.
pub open spec fn fq_sub(a: nat, b: nat) -> nat {
    ((a - b) % (fq_modulus() as int)) as nat
}

/// The additive inverse of a residue.
pub open spec fn fq_neg(a: nat) -> nat {
    ((-(a as int)) % (fq_modulus() as int)) as nat
}

/// The product of two residues.
pub open spec fn fq_mul(a: nat, b: nat) -> nat {
    (a * b) % fq_modulus()
}

/// The multiplicative inverse of a residue, where `a^(p-2)` is one.
pub open spec fn fq_inv(a: nat) -> Option<nat> {
    if (a * Fq::inverse_candidate(a)) % fq_modulus() == 1 {
        Some(Fq::inverse_candidate(a))
    } else {
        None
    }
}

/// An element of the base field, held as its least non-negative residue.
#[derive(Clone, Copy, Debug, PartialEq, Eq, Structural)]
pub struct Fq {
    pub v: U256,
}

impl View for Fq {
    type V = nat;

    open spec fn view(&self) -> nat {
        self.v@
    }
}

impl Fq {
    /// The residue is below the modulus.
    pub open spec fn wf(&self) -> bool {
        self.v@ < fq_modulus()
    }

    /// The residue that inverts `a` whenever anything does: `a^(p-2) mod p`.
    pub open spec fn inverse_candidate(a: nat) -> nat {
        (pow(a as int, (fq_modulus() - 2) as nat) % (fq_modulus() as int)) as nat
    }

    /// What `from_slice` makes of the bytes `s`.
    pub open spec fn decode(s: Seq<u8>) -> Result<Fq, FieldError> {
        if s.len() != 32 {
            Err(FieldError::InvalidSliceLength)
        } else if be_value_32(s, 0) >= fq_modulus() {
            Err(FieldError::NotMember)
        } else {
            Ok(
                Fq {
                    v: U256 {
                        hi: crate::arith::be_value_16(s, 0) as u128,
                        lo: crate::arith::be_value_16(s, 16) as u128,
                    },
                },
            )
        }
    }

    /// The modulus as an integer value.
    pub fn modulus() -> (m: U256)
        ensures
            m@ == fq_modulus(),
            valid_modulus(m@),
    {
        U256 { hi: 0x3064_4e72_e131_a029_b850_45b6_8181_585d, lo: 0x9781_6a91_6871_ca8d_3c20_8c16_d87c_fd47 }
    }

    pub fn zero() -> (r: Fq)
        ensures
            r.wf(),
            r@ == 0,
    {
        Fq { v: U256::zero() }
    }

    pub fn one() -> (r: Fq)
        ensures
            r.wf(),
            r@ == 1,
    {
        Fq { v: U256::one() }
    }

    pub fn is_zero(&self) -> (r: bool)
        ensures
            r == (self@ == 0),
    {
        self.v.is_zero()
    }

    /// The element for a small integer.
    pub fn small(n: u64) -> (r: Fq)
        ensures
            r.wf(),
            r@ == n,
    {
        Fq { v: U256 { hi: 0, lo: n as u128 } }
    }

    /// Whether two elements are the same residue.
    pub fn equals(&self, other: &Fq) -> (r: bool)
        ensures
            r == (self@ == other@),
            r == (*self == *other),
    {
        self.v.hi == other.v.hi && self.v.lo == other.v.lo
    }

    /// The element that any 256-bit integer reduces to.
    pub fn new_mul_factor(val: U256) -> (r: Fq)
        ensures
            r.wf(),
            r@ == val@ % fq_modulus(),
    {
        Fq { v: val.reduce(&Fq::modulus()) }
    }

    pub fn add(&self, other: &Fq) -> (r: Fq)
        requires
            self.wf(),
            other.wf(),
        ensures
            r.wf(),
            r@ == (self@ + other@) % fq_modulus(),
    {
        Fq { v: self.v.add_mod(&other.v, &Fq::modulus()) }
    }

    pub fn sub(&self, other: &Fq) -> (r: Fq)
        requires
            self.wf(),
            other.wf(),
        ensures
            r.wf(),
            r@ == (self@ - other@) % (fq_modulus() as int),
    {
        Fq { v: self.v.sub_mod(&other.v, &Fq::modulus()) }
    }

    pub fn neg(&self) -> (r: Fq)
        requires
            self.wf(),
        ensures
            r.wf(),
            r@ == (-(self@ as int)) % (fq_modulus() as int),
    {
        Fq { v: self.v.neg_mod(&Fq::modulus()) }
    }

    pub fn mul(&self, other: &Fq) -> (r: Fq)
        requires
            self.wf(),
            other.wf(),
        ensures
            r.wf(),
            r@ == (self@ * other@) % fq_modulus(),
    {
        Fq { v: self.v.mul_mod(&other.v, &Fq::modulus()) }
    }

    /// The element raised to any 256-bit exponent.
    pub fn pow_u256(&self, exp: &U256) -> (r: Fq)
        requires
            self.wf(),
        ensures
            r.wf(),
            r@ == pow(self@ as int, exp@) % (fq_modulus() as int),
    {
        Fq { v: self.v.pow_mod(exp, &Fq::modulus()) }
    }

    /// The multiplicative inverse, found as `a^(p-2)` and kept only where the
    /// product with `a` is one. Zero has none.
    pub fn inverse(&self) -> (r: Option<Fq>)
        requires
            self.wf(),
        ensures
            r.is_some() == ((self@ * Fq::inverse_candidate(self@)) % fq_modulus() == 1),
            self@ == 0 ==> r.is_none(),
            r matches Some(x) ==> x.wf() && x@ == Fq::inverse_candidate(self@) && (self@ * x@)
                % fq_modulus() == 1,
    {
        let m = Fq::modulus();
        let e = m.sub_small(&U256 { hi: 0, lo: 2 });
        let x = self.v.pow_mod(&e, &m);
        let check = self.v.mul_mod(&x, &m);
        proof {
            if self@ == 0 {
                assert(self@ * x@ == 0) by (nonlinear_arith)
                    requires
                        self@ == 0,
                ;
                lemma_small_mod(0, fq_modulus());
            }
        }
        if check.hi == 0 && check.lo == 1 {
            Some(Fq { v: x })
        } else {
            None
        }
    }

    /// Reads an element from its 32 big-endian bytes.
    pub fn from_slice(slice: &[u8]) -> (r: Result<Fq, FieldError>)
        ensures
            r == Fq::decode(slice@),
            r matches Ok(x) ==> x.wf() && x@ == be_value_32(slice@, 0),
    {
        if slice.len() != 32 {
            return Err(FieldError::InvalidSliceLength);
        }
        let v = U256::read_be(slice, 0);
        if v.lt(&Fq::modulus()) {
            Ok(Fq { v })
        } else {
            Err(FieldError::NotMember)
        }
    }

    /// The 32 big-endian bytes of the residue.
    pub fn into_bytes(&self) -> (r: Vec<u8>)
        ensures
            r@ == nat_bytes(self@),
    {
        let mut out: Vec<u8> = Vec::new();
        self.v.write_be(&mut out);
        proof {
            reveal(nat_bytes);
            lemma_u256_of_view(self.v);
        }
        assert(out@ =~= nat_bytes(self@));
        out
    }

    /// Appends the 32 big-endian bytes of the residue.
    pub fn write_bytes(&self, out: &mut Vec<u8>)
        ensures
            final(out)@ == old(out)@ + nat_bytes(self@),
    {
        proof {
            reveal(nat_bytes);
            lemma_u256_of_view(self.v);
        }
        self.v.write_be(out);
    }

    /// Reading back what `into_bytes` wrote gives the element.
    pub proof fn lemma_bytes_round_trip(x: Fq)
        requires
            x.wf(),
        ensures
            Fq::decode(nat_bytes(x@)) == Ok::<Fq, FieldError>(x),
    {
        reveal(nat_bytes);
        lemma_u256_of_view(x.v);
        lemma_be_32_round_trip(x.v);
    }
    /// The residue that is a square root of `a` whenever `a` has one:
    /// `a^((q + 1) / 4)`.
    pub open spec fn sqrt_candidate(a: nat) -> nat {
        (pow(a as int, (U256 { hi: 0x0c19_139c_b84c_680a_6e14_116d_a060_5617, lo: 0x65e0_5aa4_5a1c_72a3_4f08_2305_b61f_3f52 })@) % (fq_modulus() as int)) as nat
    }

    /// What `sqrt` gives for the residue `a`.
    pub open spec fn sqrt_value(a: nat) -> Option<nat> {
        if (Fq::sqrt_candidate(a) * Fq::sqrt_candidate(a)) % fq_modulus() == a {
            Some(Fq::sqrt_candidate(a))
        } else {
            None
        }
    }

    /// A square root of the element, found as `a^((q + 1) / 4)` and kept only
    /// where its square is the element.
    pub fn sqrt(&self) -> (r: Option<Fq>)
        requires
            self.wf(),
        ensures
            r.is_some() == Fq::sqrt_value(self@).is_some(),
            r matches Some(x) ==> x.wf() && x@ == Fq::sqrt_value(self@).unwrap() && (x@ * x@)
                % fq_modulus() == self@,
    {
        let x = self.pow_u256(&U256 { hi: 0x0c19_139c_b84c_680a_6e14_116d_a060_5617, lo: 0x65e0_5aa4_5a1c_72a3_4f08_2305_b61f_3f52 });
        let sq = x.mul(&x);
        if sq.equals(self) {
            Some(x)
        } else {
            None
        }
    }

    /// Whether the residue is odd.
    pub fn is_odd(&self) -> (r: bool)
        ensures
            r == (self@ % 2 == 1),
    {
        self.v.is_odd()
    }
}

} // verus!
