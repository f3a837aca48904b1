use vstd::prelude::*;
use crate::arith::{
    be_value_16, lemma_append_keeps, lemma_nat_bytes_len, lemma_value_within, nat_bytes, U256,
};
use crate::fq::{fq_modulus, Fq};
use crate::fr::FieldError;
use crate::fq2::{frobenius_coefficient, frobenius_factor, Fq2, Fq2Value};
use crate::fq6::{Fq6, Fq6Value};

verus! {

/// The two coordinates of an element of the degree-twelve extension.
pub struct Fq12Value {
    pub c0: Fq6Value,
    pub c1: Fq6Value,
}

/// An element `c0 + c1 w` of the quadratic extension of the sextic one, where `w * w = v`.
#[derive(Clone, Copy, Debug, PartialEq, Eq, Structural)]
pub struct Fq12 {
    pub c0: Fq6,
    pub c1: Fq6,
}

impl View for Fq12 {
    type V = Fq12Value;

    open spec fn view(&self) -> Fq12Value {
        Fq12Value { c0: self.c0@, c1: self.c1@ }
    }
}

impl Fq12Value {
    /// The additive identity.
    pub open spec fn zero() -> Fq12Value {
        Fq12Value { c0: Fq6Value::zero(), c1: Fq6Value::zero() }
    }

    /// The multiplicative identity.
    pub open spec fn one() -> Fq12Value {
        Fq12Value { c0: Fq6Value::one(), c1: Fq6Value::zero() }
    }

    /// Whether two elements agree in every coordinate.
    pub open spec fn equals(self, other: Fq12Value) -> bool {
        self.c0.equals(other.c0) && self.c1.equals(other.c1)
    }

    /// The sum, coordinate by coordinate.
    pub open spec fn add(self, other: Fq12Value) -> Fq12Value {
        Fq12Value { c0: self.c0.add(other.c0), c1: self.c1.add(other.c1) }
    }

    /// The difference, coordinate by coordinate.
    pub open spec fn sub(self, other: Fq12Value) -> Fq12Value {
        Fq12Value { c0: self.c0.sub(other.c0), c1: self.c1.sub(other.c1) }
    }

    /// The additive inverse.
    pub open spec fn neg(self) -> Fq12Value {
        Fq12Value { c0: self.c0.neg(), c1: self.c1.neg() }
    }

    /// The product, with `w * w = v`.
    #[verifier::opaque]
    pub open spec fn mul(self, other: Fq12Value) -> Fq12Value {
        let aa = self.c0.mul(other.c0);
        let bb = self.c1.mul(other.c1);
        let ab = self.c0.mul(other.c1);
        let ba = self.c1.mul(other.c0);
        let bv = bb.mul_by_nonresidue();
        Fq12Value { c0: aa.add(bv), c1: ab.add(ba) }
    }

    /// The product of the element with itself.
    pub open spec fn square(self) -> Fq12Value {
        self.mul(self)
    }

    /// The square of an element of the cyclotomic subgroup; on every element it is the plain square.
    pub open spec fn cyclotomic_square(self) -> Fq12Value {
        self.mul(self)
    }

    /// The conjugate `c0 - c1 w`, which inverts the elements of the cyclotomic subgroup.
    pub open spec fn unitary_inverse(self) -> Fq12Value {
        Fq12Value { c0: self.c0, c1: self.c1.neg() }
    }

    /// The multiplicative inverse, through one inversion in the sextic extension; kept only where its product with the element is one.
    #[verifier::opaque]
    pub open spec fn inverse(self) -> Option<Fq12Value> {
        let a = self.c0.square();
        let b = self.c1.square();
        let bv = b.mul_by_nonresidue();
        let d = a.sub(bv);
        match d.inverse() {
            Some(di) => {
                let nc = self.c1.neg();
                let cand = Fq12Value { c0: self.c0.mul(di), c1: nc.mul(di) };
                let prod = self.mul(cand);
                if prod.equals(Fq12Value::one()) {
                    Some(cand)
                } else {
                    None
                }
            },
            None => None,
        }
    }

    /// The Frobenius map: every coefficient of `w^i` conjugated and multiplied by its fixed factor.
    #[verifier::opaque]
    pub open spec fn frobenius(self) -> Fq12Value {
        let g1 = frobenius_factor(1)@;
        let g2 = frobenius_factor(2)@;
        let g3 = frobenius_factor(3)@;
        let g4 = frobenius_factor(4)@;
        let g5 = frobenius_factor(5)@;
        let a0 = self.c0.c0.conjugate();
        let a1 = self.c1.c0.conjugate();
        let a2 = self.c0.c1.conjugate();
        let a3 = self.c1.c1.conjugate();
        let a4 = self.c0.c2.conjugate();
        let a5 = self.c1.c2.conjugate();
        Fq12Value {
            c0: Fq6Value { c0: a0, c1: a2.mul(g2), c2: a4.mul(g4) },
            c1: Fq6Value { c0: a1.mul(g1), c1: a3.mul(g3), c2: a5.mul(g5) },
        }
    }

    /// The product with the sparse element `l0 + l1 w + l3 w^3` that a line through points of the twist gives.
    #[verifier::opaque]
    pub open spec fn mul_by_line(self, l0: nat, l1: Fq2Value, l3: Fq2Value) -> Fq12Value {
        let line = Fq12Value {
            c0: Fq6Value { c0: Fq2Value { c0: l0, c1: 0nat }, c1: Fq2Value::zero(), c2: Fq2Value::zero() },
            c1: Fq6Value { c0: l1, c1: l3, c2: Fq2Value::zero() },
        };
        self.mul(line)
    }

    /// The product with the sparse element whose only coordinates other than zero are `a` at `c0.c0`, `b` at `c0.c2` and `c` at `c1.c1`.
    #[verifier::opaque]
    pub open spec fn mul_by_024(self, a: Fq2Value, b: Fq2Value, c: Fq2Value) -> Fq12Value {
        let sparse = Fq12Value {
            c0: Fq6Value { c0: a, c1: Fq2Value::zero(), c2: b },
            c1: Fq6Value { c0: Fq2Value::zero(), c1: c, c2: Fq2Value::zero() },
        };
        self.mul(sparse)
    }

    /// The value after `n` more rounds of squaring `cur` and multiplying it
    /// into `acc` where the lowest bit of `k` is set.
    pub open spec fn pow_loop(acc: Fq12Value, cur: Fq12Value, k: nat, n: nat) -> Fq12Value
        decreases n,
    {
        if n == 0 {
            acc
        } else {
            Fq12Value::pow_loop(
                if k % 2 == 1 {
                    acc.mul(cur)
                } else {
                    acc
                },
                cur.square(),
                k / 2,
                (n - 1) as nat,
            )
        }
    }

    /// The power with exponent `e`, by squaring and multiplying over the 256
    /// bits of `e` from the lowest up.
    pub open spec fn pow(self, e: nat) -> Fq12Value {
        Fq12Value::pow_loop(Fq12Value::one(), self, e, 256)
    }

    /// The 384 bytes of the element: its twelve residues, each as 32
    /// big-endian bytes, the coordinates of `c0` before those of `c1`.
    pub open spec fn encoding(self) -> Seq<u8> {
        nat_bytes(self.c0.c0.c0) + nat_bytes(self.c0.c0.c1) + nat_bytes(self.c0.c1.c0) + nat_bytes(self.c0.c1.c1) + nat_bytes(self.c0.c2.c0) + nat_bytes(self.c0.c2.c1) + nat_bytes(self.c1.c0.c0) + nat_bytes(self.c1.c0.c1) + nat_bytes(self.c1.c1.c0) + nat_bytes(self.c1.c1.c1) + nat_bytes(self.c1.c2.c0) + nat_bytes(self.c1.c2.c1)
    }

    /// Where an element has an inverse, their product is one.
    pub proof fn lemma_inverse(a: Fq12Value)
        ensures
            a.inverse() matches Some(x) ==> a.mul(x) == Fq12Value::one(),
    {
        reveal(Fq12Value::inverse);
    }

    /// Every coordinate is below the modulus.
    pub open spec fn reduced(self) -> bool {
        self.c0.reduced() && self.c1.reduced()
    }

    /// Addition is associative.
    pub proof fn lemma_add_associative(a: Fq12Value, b: Fq12Value, c: Fq12Value)
        requires
            a.reduced(),
            b.reduced(),
            c.reduced(),
        ensures
            a.add(b).add(c) == a.add(b.add(c)),
    {
        Fq6Value::lemma_add_associative(a.c0, b.c0, c.c0);
        Fq6Value::lemma_add_associative(a.c1, b.c1, c.c1);
    }

    /// An element and its negation add up to zero.
    pub proof fn lemma_add_negation(a: Fq12Value)
        requires
            a.reduced(),
        ensures
            a.add(a.neg()) == Fq12Value::zero(),
    {
        Fq6Value::lemma_add_negation(a.c0);
        Fq6Value::lemma_add_negation(a.c1);
    }

    /// Addition is commutative.
    pub proof fn lemma_add_commutative(a: Fq12Value, b: Fq12Value)
        ensures
            a.add(b) == b.add(a),
    {
        Fq6Value::lemma_add_commutative(a.c0, b.c0);
        Fq6Value::lemma_add_commutative(a.c1, b.c1);
    }

    /// Multiplication is commutative.
    pub proof fn lemma_mul_commutative(a: Fq12Value, b: Fq12Value)
        ensures
            a.mul(b) == b.mul(a),
    {
        reveal(Fq12Value::mul);
        Fq6Value::lemma_mul_commutative(a.c0, b.c0);
        Fq6Value::lemma_mul_commutative(a.c1, b.c1);
        Fq6Value::lemma_mul_commutative(a.c0, b.c1);
        Fq6Value::lemma_mul_commutative(a.c1, b.c0);
        Fq6Value::lemma_add_commutative(a.c0.mul(b.c1), a.c1.mul(b.c0));
    }
}

impl Fq12 {
    /// Every coordinate is a reduced residue.
    pub open spec fn wf(&self) -> bool {
        self.c0.wf() && self.c1.wf()
    }

    /// The additive identity.
    pub fn zero() -> (r: Fq12)
        ensures
            r.wf(),
            r@ == Fq12Value::zero(),
    {
        Fq12 { c0: Fq6::zero(), c1: Fq6::zero() }
    }

    /// The multiplicative identity.
    pub fn one() -> (r: Fq12)
        ensures
            r.wf(),
            r@ == Fq12Value::one(),
    {
        Fq12 { c0: Fq6::one(), c1: Fq6::zero() }
    }

    /// Whether two elements agree in every coordinate.
    pub fn equals(&self, other: &Fq12) -> (r: bool)
        requires
            self.wf(),
            other.wf(),
        ensures
            r == self@.equals(other@),
    {
        self.c0.equals(&other.c0) && self.c1.equals(&other.c1)
    }

    /// The sum, coordinate by coordinate.
    pub fn add(&self, other: &Fq12) -> (r: Fq12)
        requires
            self.wf(),
            other.wf(),
        ensures
            r.wf(),
            r@ == self@.add(other@),
    {
        Fq12 { c0: self.c0.add(&other.c0), c1: self.c1.add(&other.c1) }
    }

    /// The difference, coordinate by coordinate.
    pub fn sub(&self, other: &Fq12) -> (r: Fq12)
        requires
            self.wf(),
            other.wf(),
        ensures
            r.wf(),
            r@ == self@.sub(other@),
    {
        Fq12 { c0: self.c0.sub(&other.c0), c1: self.c1.sub(&other.c1) }
    }

    /// The additive inverse.
    pub fn neg(&self) -> (r: Fq12)
        requires
            self.wf(),
        ensures
            r.wf(),
            r@ == self@.neg(),
    {
        Fq12 { c0: self.c0.neg(), c1: self.c1.neg() }
    }

    /// The product, with `w * w = v`.
    pub fn mul(&self, other: &Fq12) -> (r: Fq12)
        requires
            self.wf(),
            other.wf(),
        ensures
            r.wf(),
            r@ == self@.mul(other@),
    {
        proof {
            reveal(Fq12Value::mul);
        }
        let aa = self.c0.mul(&other.c0);
        let bb = self.c1.mul(&other.c1);
        let ab = self.c0.mul(&other.c1);
        let ba = self.c1.mul(&other.c0);
        let bv = bb.mul_by_nonresidue();
        Fq12 { c0: aa.add(&bv), c1: ab.add(&ba) }
    }

    /// The product of the element with itself.
    pub fn square(&self) -> (r: Fq12)
        requires
            self.wf(),
        ensures
            r.wf(),
            r@ == self@.square(),
    {
        self.mul(self)
    }

    /// The square of an element of the cyclotomic subgroup; on every element it is the plain square.
    pub fn cyclotomic_square(&self) -> (r: Fq12)
        requires
            self.wf(),
        ensures
            r.wf(),
            r@ == self@.cyclotomic_square(),
    {
        self.mul(self)
    }

    /// The conjugate `c0 - c1 w`, which inverts the elements of the cyclotomic subgroup.
    pub fn unitary_inverse(&self) -> (r: Fq12)
        requires
            self.wf(),
        ensures
            r.wf(),
            r@ == self@.unitary_inverse(),
    {
        Fq12 { c0: self.c0, c1: self.c1.neg() }
    }

    /// The multiplicative inverse, through one inversion in the sextic extension; kept only where its product with the element is one.
    pub fn inverse(&self) -> (r: Option<Fq12>)
        requires
            self.wf(),
        ensures
            r.is_some() == self@.inverse().is_some(),
            r matches Some(x) ==> x.wf() && x@ == self@.inverse().unwrap(),
    {
        proof {
            reveal(Fq12Value::inverse);
        }
        let a = self.c0.square();
        let b = self.c1.square();
        let bv = b.mul_by_nonresidue();
        let d = a.sub(&bv);
        match d.inverse() {
            Some(di) => {
                let nc = self.c1.neg();
                let cand = Fq12 { c0: self.c0.mul(&di), c1: nc.mul(&di) };
                let prod = self.mul(&cand);
                if prod.equals(&Fq12::one()) {
                    Some(cand)
                } else {
                    None
                }
            },
            None => None,
        }
    }

    /// The Frobenius map: every coefficient of `w^i` conjugated and multiplied by its fixed factor.
    pub fn frobenius(&self) -> (r: Fq12)
        requires
            self.wf(),
        ensures
            r.wf(),
            r@ == self@.frobenius(),
    {
        proof {
            reveal(Fq12Value::frobenius);
        }
        let g1 = frobenius_coefficient(1);
        let g2 = frobenius_coefficient(2);
        let g3 = frobenius_coefficient(3);
        let g4 = frobenius_coefficient(4);
        let g5 = frobenius_coefficient(5);
        let a0 = self.c0.c0.conjugate();
        let a1 = self.c1.c0.conjugate();
        let a2 = self.c0.c1.conjugate();
        let a3 = self.c1.c1.conjugate();
        let a4 = self.c0.c2.conjugate();
        let a5 = self.c1.c2.conjugate();
        Fq12 {
            c0: Fq6 { c0: a0, c1: a2.mul(&g2), c2: a4.mul(&g4) },
            c1: Fq6 { c0: a1.mul(&g1), c1: a3.mul(&g3), c2: a5.mul(&g5) },
        }
    }

    /// The product with the sparse element `l0 + l1 w + l3 w^3` that a line through points of the twist gives.
    pub fn mul_by_line(&self, l0: &Fq, l1: &Fq2, l3: &Fq2) -> (r: Fq12)
        requires
            self.wf(),
            l0.wf(),
            l1.wf(),
            l3.wf(),
        ensures
            r.wf(),
            r@ == self@.mul_by_line(l0@, l1@, l3@),
    {
        proof {
            reveal(Fq12Value::mul_by_line);
        }
        let line = Fq12 {
            c0: Fq6 { c0: Fq2 { c0: *l0, c1: Fq::zero() }, c1: Fq2::zero(), c2: Fq2::zero() },
            c1: Fq6 { c0: *l1, c1: *l3, c2: Fq2::zero() },
        };
        self.mul(&line)
    }

    /// The product with the sparse element whose only coordinates other than zero are `a` at `c0.c0`, `b` at `c0.c2` and `c` at `c1.c1`.
    pub fn mul_by_024(&self, a: &Fq2, b: &Fq2, c: &Fq2) -> (r: Fq12)
        requires
            self.wf(),
            a.wf(),
            b.wf(),
            c.wf(),
        ensures
            r.wf(),
            r@ == self@.mul_by_024(a@, b@, c@),
    {
        proof {
            reveal(Fq12Value::mul_by_024);
        }
        let sparse = Fq12 {
            c0: Fq6 { c0: *a, c1: Fq2::zero(), c2: *b },
            c1: Fq6 { c0: Fq2::zero(), c1: *c, c2: Fq2::zero() },
        };
        self.mul(&sparse)
    }

    /// The power with a 256-bit exponent.
    pub fn pow_u256(&self, exp: &U256) -> (r: Fq12)
        requires
            self.wf(),
        ensures
            r.wf(),
            r@ == self@.pow(exp@),
    {
        self.pow_rounds(exp, 256)
    }

    /// The power that `rounds` rounds of squaring and multiplying give: the
    /// power by the lowest `rounds` bits of `exp`.
    pub fn pow_rounds(&self, exp: &U256, rounds: u32) -> (r: Fq12)
        requires
            self.wf(),
        ensures
            r.wf(),
            r@ == Fq12Value::pow_loop(Fq12Value::one(), self@, exp@, rounds as nat),
    {
        let mut acc = Fq12::one();
        let mut cur = *self;
        let mut k = *exp;
        let mut i: u32 = 0;
        while i < rounds
            invariant
                i <= rounds,
                acc.wf(),
                cur.wf(),
                Fq12Value::pow_loop(acc@, cur@, k@, (rounds - i) as nat) == Fq12Value::pow_loop(
                    Fq12Value::one(),
                    self@,
                    exp@,
                    rounds as nat,
                ),
            decreases rounds - i,
        {
            if k.is_odd() {
                acc = acc.mul(&cur);
            }
            cur = cur.square();
            k = k.half();
            i = i + 1;
        }
        acc
    }

    /// The 384 bytes of the element.
    pub fn into_bytes(&self) -> (r: Vec<u8>)
        ensures
            r@ == self@.encoding(),
    {
        let mut out: Vec<u8> = Vec::new();
        self.c0.c0.c0.write_bytes(&mut out);
        self.c0.c0.c1.write_bytes(&mut out);
        self.c0.c1.c0.write_bytes(&mut out);
        self.c0.c1.c1.write_bytes(&mut out);
        self.c0.c2.c0.write_bytes(&mut out);
        self.c0.c2.c1.write_bytes(&mut out);
        self.c1.c0.c0.write_bytes(&mut out);
        self.c1.c0.c1.write_bytes(&mut out);
        self.c1.c1.c0.write_bytes(&mut out);
        self.c1.c1.c1.write_bytes(&mut out);
        self.c1.c2.c0.write_bytes(&mut out);
        self.c1.c2.c1.write_bytes(&mut out);
        assert(out@ =~= self@.encoding());
        out
    }

    /// The residue that the bytes `s` hold at place `i` of twelve.
    pub open spec fn coordinate(s: Seq<u8>, i: int) -> Fq {
        Fq { v: U256 { hi: be_value_16(s, 32 * i) as u128, lo: be_value_16(s, 32 * i + 16) as u128 } }
    }

    /// What `from_slice` makes of the bytes `s`: twelve reduced residues of
    /// 32 bytes each, in the order of `encoding`.
    pub open spec fn decode(s: Seq<u8>) -> Result<Fq12, FieldError> {
        if s.len() != 384 {
            Err(FieldError::InvalidSliceLength)
        } else if !(forall|i: int| 0 <= i < 12 ==> (#[trigger] Fq12::coordinate(s, i)).wf()) {
            Err(FieldError::NotMember)
        } else {
            Ok(
                Fq12 {
                    c0: Fq6 {
                        c0: Fq2 { c0: Fq12::coordinate(s, 0), c1: Fq12::coordinate(s, 1) },
                        c1: Fq2 { c0: Fq12::coordinate(s, 2), c1: Fq12::coordinate(s, 3) },
                        c2: Fq2 { c0: Fq12::coordinate(s, 4), c1: Fq12::coordinate(s, 5) },
                    },
                    c1: Fq6 {
                        c0: Fq2 { c0: Fq12::coordinate(s, 6), c1: Fq12::coordinate(s, 7) },
                        c1: Fq2 { c0: Fq12::coordinate(s, 8), c1: Fq12::coordinate(s, 9) },
                        c2: Fq2 { c0: Fq12::coordinate(s, 10), c1: Fq12::coordinate(s, 11) },
                    },
                },
            )
        }
    }

    /// Reads an element from its 384 bytes.
    pub fn from_slice(slice: &[u8]) -> (r: Result<Fq12, FieldError>)
        ensures
            r == Fq12::decode(slice@),
            r matches Ok(x) ==> x.wf(),
    {
        if slice.len() != 384 {
            return Err(FieldError::InvalidSliceLength);
        }
        let m = Fq::modulus();
        let mut v: Vec<Fq> = Vec::new();
        let mut i: usize = 0;
        while i < 12
            invariant
                i <= 12,
                slice@.len() == 384,
                m@ == fq_modulus(),
                v@.len() == i,
                forall|j: int| 0 <= j < i ==> v@[j] == #[trigger] Fq12::coordinate(slice@, j) && v@[j].wf(),
            decreases 12 - i,
        {
            let u = U256::read_be(slice, 32 * i);
            if !u.lt(&m) {
                assert(!Fq12::coordinate(slice@, i as int).wf());
                return Err(FieldError::NotMember);
            }
            v.push(Fq { v: u });
            i = i + 1;
        }
        Ok(
            Fq12 {
                c0: Fq6 {
                    c0: Fq2 { c0: v[0], c1: v[1] },
                    c1: Fq2 { c0: v[2], c1: v[3] },
                    c2: Fq2 { c0: v[4], c1: v[5] },
                },
                c1: Fq6 {
                    c0: Fq2 { c0: v[6], c1: v[7] },
                    c1: Fq2 { c0: v[8], c1: v[9] },
                    c2: Fq2 { c0: v[10], c1: v[11] },
                },
            },
        )
    }

    /// Reading back the bytes of an element gives the element.
    pub proof fn lemma_bytes_round_trip(x: Fq12)
        requires
            x.wf(),
        ensures
            Fq12::decode(x@.encoding()) == Ok::<Fq12, FieldError>(x),
    {
        let e0 = nat_bytes(x.c0.c0.c0@);
        let e1 = e0 + nat_bytes(x.c0.c0.c1@);
        let e2 = e1 + nat_bytes(x.c0.c1.c0@);
        let e3 = e2 + nat_bytes(x.c0.c1.c1@);
        let e4 = e3 + nat_bytes(x.c0.c2.c0@);
        let e5 = e4 + nat_bytes(x.c0.c2.c1@);
        let e6 = e5 + nat_bytes(x.c1.c0.c0@);
        let e7 = e6 + nat_bytes(x.c1.c0.c1@);
        let e8 = e7 + nat_bytes(x.c1.c1.c0@);
        let e9 = e8 + nat_bytes(x.c1.c1.c1@);
        let e10 = e9 + nat_bytes(x.c1.c2.c0@);
        let e11 = e10 + nat_bytes(x.c1.c2.c1@);
        lemma_nat_bytes_len(x.c0.c0.c0@);
        lemma_nat_bytes_len(x.c0.c0.c1@);
        lemma_nat_bytes_len(x.c0.c1.c0@);
        lemma_nat_bytes_len(x.c0.c1.c1@);
        lemma_nat_bytes_len(x.c0.c2.c0@);
        lemma_nat_bytes_len(x.c0.c2.c1@);
        lemma_nat_bytes_len(x.c1.c0.c0@);
        lemma_nat_bytes_len(x.c1.c0.c1@);
        lemma_nat_bytes_len(x.c1.c1.c0@);
        lemma_nat_bytes_len(x.c1.c1.c1@);
        lemma_nat_bytes_len(x.c1.c2.c0@);
        lemma_nat_bytes_len(x.c1.c2.c1@);
        assert(e0.len() == 32);
        assert(e1.len() == 64);
        assert(e2.len() == 96);
        assert(e3.len() == 128);
        assert(e4.len() == 160);
        assert(e5.len() == 192);
        assert(e6.len() == 224);
        assert(e7.len() == 256);
        assert(e8.len() == 288);
        assert(e9.len() == 320);
        assert(e10.len() == 352);
        assert(e11.len() == 384);
        assert(be_value_16(e11, 0) == x.c0.c0.c0.v.hi && be_value_16(e11, 16) == x.c0.c0.c0.v.lo) by {
            let pre = Seq::<u8>::empty();
            let post = Seq::<u8>::empty();
            assert(e0 =~= pre + nat_bytes(x.c0.c0.c0@) + post);
            lemma_value_within(pre, x.c0.c0.c0.v, post);
            lemma_append_keeps(e0, nat_bytes(x.c0.c0.c1@), 0);
            lemma_append_keeps(e0, nat_bytes(x.c0.c0.c1@), 16);
            lemma_append_keeps(e1, nat_bytes(x.c0.c1.c0@), 0);
            lemma_append_keeps(e1, nat_bytes(x.c0.c1.c0@), 16);
            lemma_append_keeps(e2, nat_bytes(x.c0.c1.c1@), 0);
            lemma_append_keeps(e2, nat_bytes(x.c0.c1.c1@), 16);
            lemma_append_keeps(e3, nat_bytes(x.c0.c2.c0@), 0);
            lemma_append_keeps(e3, nat_bytes(x.c0.c2.c0@), 16);
            lemma_append_keeps(e4, nat_bytes(x.c0.c2.c1@), 0);
            lemma_append_keeps(e4, nat_bytes(x.c0.c2.c1@), 16);
            lemma_append_keeps(e5, nat_bytes(x.c1.c0.c0@), 0);
            lemma_append_keeps(e5, nat_bytes(x.c1.c0.c0@), 16);
            lemma_append_keeps(e6, nat_bytes(x.c1.c0.c1@), 0);
            lemma_append_keeps(e6, nat_bytes(x.c1.c0.c1@), 16);
            lemma_append_keeps(e7, nat_bytes(x.c1.c1.c0@), 0);
            lemma_append_keeps(e7, nat_bytes(x.c1.c1.c0@), 16);
            lemma_append_keeps(e8, nat_bytes(x.c1.c1.c1@), 0);
            lemma_append_keeps(e8, nat_bytes(x.c1.c1.c1@), 16);
            lemma_append_keeps(e9, nat_bytes(x.c1.c2.c0@), 0);
            lemma_append_keeps(e9, nat_bytes(x.c1.c2.c0@), 16);
            lemma_append_keeps(e10, nat_bytes(x.c1.c2.c1@), 0);
            lemma_append_keeps(e10, nat_bytes(x.c1.c2.c1@), 16);
        }
        assert(be_value_16(e11, 32) == x.c0.c0.c1.v.hi && be_value_16(e11, 48) == x.c0.c0.c1.v.lo) by {
            let post = Seq::<u8>::empty();
            assert(e1 =~= e0 + nat_bytes(x.c0.c0.c1@) + post);
            lemma_value_within(e0, x.c0.c0.c1.v, post);
            lemma_append_keeps(e1, nat_bytes(x.c0.c1.c0@), 32);
            lemma_append_keeps(e1, nat_bytes(x.c0.c1.c0@), 48);
            lemma_append_keeps(e2, nat_bytes(x.c0.c1.c1@), 32);
            lemma_append_keeps(e2, nat_bytes(x.c0.c1.c1@), 48);
            lemma_append_keeps(e3, nat_bytes(x.c0.c2.c0@), 32);
            lemma_append_keeps(e3, nat_bytes(x.c0.c2.c0@), 48);
            lemma_append_keeps(e4, nat_bytes(x.c0.c2.c1@), 32);
            lemma_append_keeps(e4, nat_bytes(x.c0.c2.c1@), 48);
            lemma_append_keeps(e5, nat_bytes(x.c1.c0.c0@), 32);
            lemma_append_keeps(e5, nat_bytes(x.c1.c0.c0@), 48);
            lemma_append_keeps(e6, nat_bytes(x.c1.c0.c1@), 32);
            lemma_append_keeps(e6, nat_bytes(x.c1.c0.c1@), 48);
            lemma_append_keeps(e7, nat_bytes(x.c1.c1.c0@), 32);
            lemma_append_keeps(e7, nat_bytes(x.c1.c1.c0@), 48);
            lemma_append_keeps(e8, nat_bytes(x.c1.c1.c1@), 32);
            lemma_append_keeps(e8, nat_bytes(x.c1.c1.c1@), 48);
            lemma_append_keeps(e9, nat_bytes(x.c1.c2.c0@), 32);
            lemma_append_keeps(e9, nat_bytes(x.c1.c2.c0@), 48);
            lemma_append_keeps(e10, nat_bytes(x.c1.c2.c1@), 32);
            lemma_append_keeps(e10, nat_bytes(x.c1.c2.c1@), 48);
        }
        assert(be_value_16(e11, 64) == x.c0.c1.c0.v.hi && be_value_16(e11, 80) == x.c0.c1.c0.v.lo) by {
            let post = Seq::<u8>::empty();
            assert(e2 =~= e1 + nat_bytes(x.c0.c1.c0@) + post);
            lemma_value_within(e1, x.c0.c1.c0.v, post);
            lemma_append_keeps(e2, nat_bytes(x.c0.c1.c1@), 64);
            lemma_append_keeps(e2, nat_bytes(x.c0.c1.c1@), 80);
            lemma_append_keeps(e3, nat_bytes(x.c0.c2.c0@), 64);
            lemma_append_keeps(e3, nat_bytes(x.c0.c2.c0@), 80);
            lemma_append_keeps(e4, nat_bytes(x.c0.c2.c1@), 64);
            lemma_append_keeps(e4, nat_bytes(x.c0.c2.c1@), 80);
            lemma_append_keeps(e5, nat_bytes(x.c1.c0.c0@), 64);
            lemma_append_keeps(e5, nat_bytes(x.c1.c0.c0@), 80);
            lemma_append_keeps(e6, nat_bytes(x.c1.c0.c1@), 64);
            lemma_append_keeps(e6, nat_bytes(x.c1.c0.c1@), 80);
            lemma_append_keeps(e7, nat_bytes(x.c1.c1.c0@), 64);
            lemma_append_keeps(e7, nat_bytes(x.c1.c1.c0@), 80);
            lemma_append_keeps(e8, nat_bytes(x.c1.c1.c1@), 64);
            lemma_append_keeps(e8, nat_bytes(x.c1.c1.c1@), 80);
            lemma_append_keeps(e9, nat_bytes(x.c1.c2.c0@), 64);
            lemma_append_keeps(e9, nat_bytes(x.c1.c2.c0@), 80);
            lemma_append_keeps(e10, nat_bytes(x.c1.c2.c1@), 64);
            lemma_append_keeps(e10, nat_bytes(x.c1.c2.c1@), 80);
        }
        assert(be_value_16(e11, 96) == x.c0.c1.c1.v.hi && be_value_16(e11, 112) == x.c0.c1.c1.v.lo) by {
            let post = Seq::<u8>::empty();
            assert(e3 =~= e2 + nat_bytes(x.c0.c1.c1@) + post);
            lemma_value_within(e2, x.c0.c1.c1.v, post);
            lemma_append_keeps(e3, nat_bytes(x.c0.c2.c0@), 96);
            lemma_append_keeps(e3, nat_bytes(x.c0.c2.c0@), 112);
            lemma_append_keeps(e4, nat_bytes(x.c0.c2.c1@), 96);
            lemma_append_keeps(e4, nat_bytes(x.c0.c2.c1@), 112);
            lemma_append_keeps(e5, nat_bytes(x.c1.c0.c0@), 96);
            lemma_append_keeps(e5, nat_bytes(x.c1.c0.c0@), 112);
            lemma_append_keeps(e6, nat_bytes(x.c1.c0.c1@), 96);
            lemma_append_keeps(e6, nat_bytes(x.c1.c0.c1@), 112);
            lemma_append_keeps(e7, nat_bytes(x.c1.c1.c0@), 96);
            lemma_append_keeps(e7, nat_bytes(x.c1.c1.c0@), 112);
            lemma_append_keeps(e8, nat_bytes(x.c1.c1.c1@), 96);
            lemma_append_keeps(e8, nat_bytes(x.c1.c1.c1@), 112);
            lemma_append_keeps(e9, nat_bytes(x.c1.c2.c0@), 96);
            lemma_append_keeps(e9, nat_bytes(x.c1.c2.c0@), 112);
            lemma_append_keeps(e10, nat_bytes(x.c1.c2.c1@), 96);
            lemma_append_keeps(e10, nat_bytes(x.c1.c2.c1@), 112);
        }
        assert(be_value_16(e11, 128) == x.c0.c2.c0.v.hi && be_value_16(e11, 144) == x.c0.c2.c0.v.lo) by {
            let post = Seq::<u8>::empty();
            assert(e4 =~= e3 + nat_bytes(x.c0.c2.c0@) + post);
            lemma_value_within(e3, x.c0.c2.c0.v, post);
            lemma_append_keeps(e4, nat_bytes(x.c0.c2.c1@), 128);
            lemma_append_keeps(e4, nat_bytes(x.c0.c2.c1@), 144);
            lemma_append_keeps(e5, nat_bytes(x.c1.c0.c0@), 128);
            lemma_append_keeps(e5, nat_bytes(x.c1.c0.c0@), 144);
            lemma_append_keeps(e6, nat_bytes(x.c1.c0.c1@), 128);
            lemma_append_keeps(e6, nat_bytes(x.c1.c0.c1@), 144);
            lemma_append_keeps(e7, nat_bytes(x.c1.c1.c0@), 128);
            lemma_append_keeps(e7, nat_bytes(x.c1.c1.c0@), 144);
            lemma_append_keeps(e8, nat_bytes(x.c1.c1.c1@), 128);
            lemma_append_keeps(e8, nat_bytes(x.c1.c1.c1@), 144);
            lemma_append_keeps(e9, nat_bytes(x.c1.c2.c0@), 128);
            lemma_append_keeps(e9, nat_bytes(x.c1.c2.c0@), 144);
            lemma_append_keeps(e10, nat_bytes(x.c1.c2.c1@), 128);
            lemma_append_keeps(e10, nat_bytes(x.c1.c2.c1@), 144);
        }
        assert(be_value_16(e11, 160) == x.c0.c2.c1.v.hi && be_value_16(e11, 176) == x.c0.c2.c1.v.lo) by {
            let post = Seq::<u8>::empty();
            assert(e5 =~= e4 + nat_bytes(x.c0.c2.c1@) + post);
            lemma_value_within(e4, x.c0.c2.c1.v, post);
            lemma_append_keeps(e5, nat_bytes(x.c1.c0.c0@), 160);
            lemma_append_keeps(e5, nat_bytes(x.c1.c0.c0@), 176);
            lemma_append_keeps(e6, nat_bytes(x.c1.c0.c1@), 160);
            lemma_append_keeps(e6, nat_bytes(x.c1.c0.c1@), 176);
            lemma_append_keeps(e7, nat_bytes(x.c1.c1.c0@), 160);
            lemma_append_keeps(e7, nat_bytes(x.c1.c1.c0@), 176);
            lemma_append_keeps(e8, nat_bytes(x.c1.c1.c1@), 160);
            lemma_append_keeps(e8, nat_bytes(x.c1.c1.c1@), 176);
            lemma_append_keeps(e9, nat_bytes(x.c1.c2.c0@), 160);
            lemma_append_keeps(e9, nat_bytes(x.c1.c2.c0@), 176);
            lemma_append_keeps(e10, nat_bytes(x.c1.c2.c1@), 160);
            lemma_append_keeps(e10, nat_bytes(x.c1.c2.c1@), 176);
        }
        assert(be_value_16(e11, 192) == x.c1.c0.c0.v.hi && be_value_16(e11, 208) == x.c1.c0.c0.v.lo) by {
            let post = Seq::<u8>::empty();
            assert(e6 =~= e5 + nat_bytes(x.c1.c0.c0@) + post);
            lemma_value_within(e5, x.c1.c0.c0.v, post);
            lemma_append_keeps(e6, nat_bytes(x.c1.c0.c1@), 192);
            lemma_append_keeps(e6, nat_bytes(x.c1.c0.c1@), 208);
            lemma_append_keeps(e7, nat_bytes(x.c1.c1.c0@), 192);
            lemma_append_keeps(e7, nat_bytes(x.c1.c1.c0@), 208);
            lemma_append_keeps(e8, nat_bytes(x.c1.c1.c1@), 192);
            lemma_append_keeps(e8, nat_bytes(x.c1.c1.c1@), 208);
            lemma_append_keeps(e9, nat_bytes(x.c1.c2.c0@), 192);
            lemma_append_keeps(e9, nat_bytes(x.c1.c2.c0@), 208);
            lemma_append_keeps(e10, nat_bytes(x.c1.c2.c1@), 192);
            lemma_append_keeps(e10, nat_bytes(x.c1.c2.c1@), 208);
        }
        assert(be_value_16(e11, 224) == x.c1.c0.c1.v.hi && be_value_16(e11, 240) == x.c1.c0.c1.v.lo) by {
            let post = Seq::<u8>::empty();
            assert(e7 =~= e6 + nat_bytes(x.c1.c0.c1@) + post);
            lemma_value_within(e6, x.c1.c0.c1.v, post);
            lemma_append_keeps(e7, nat_bytes(x.c1.c1.c0@), 224);
            lemma_append_keeps(e7, nat_bytes(x.c1.c1.c0@), 240);
            lemma_append_keeps(e8, nat_bytes(x.c1.c1.c1@), 224);
            lemma_append_keeps(e8, nat_bytes(x.c1.c1.c1@), 240);
            lemma_append_keeps(e9, nat_bytes(x.c1.c2.c0@), 224);
            lemma_append_keeps(e9, nat_bytes(x.c1.c2.c0@), 240);
            lemma_append_keeps(e10, nat_bytes(x.c1.c2.c1@), 224);
            lemma_append_keeps(e10, nat_bytes(x.c1.c2.c1@), 240);
        }
        assert(be_value_16(e11, 256) == x.c1.c1.c0.v.hi && be_value_16(e11, 272) == x.c1.c1.c0.v.lo) by {
            let post = Seq::<u8>::empty();
            assert(e8 =~= e7 + nat_bytes(x.c1.c1.c0@) + post);
            lemma_value_within(e7, x.c1.c1.c0.v, post);
            lemma_append_keeps(e8, nat_bytes(x.c1.c1.c1@), 256);
            lemma_append_keeps(e8, nat_bytes(x.c1.c1.c1@), 272);
            lemma_append_keeps(e9, nat_bytes(x.c1.c2.c0@), 256);
            lemma_append_keeps(e9, nat_bytes(x.c1.c2.c0@), 272);
            lemma_append_keeps(e10, nat_bytes(x.c1.c2.c1@), 256);
            lemma_append_keeps(e10, nat_bytes(x.c1.c2.c1@), 272);
        }
        assert(be_value_16(e11, 288) == x.c1.c1.c1.v.hi && be_value_16(e11, 304) == x.c1.c1.c1.v.lo) by {
            let post = Seq::<u8>::empty();
            assert(e9 =~= e8 + nat_bytes(x.c1.c1.c1@) + post);
            lemma_value_within(e8, x.c1.c1.c1.v, post);
            lemma_append_keeps(e9, nat_bytes(x.c1.c2.c0@), 288);
            lemma_append_keeps(e9, nat_bytes(x.c1.c2.c0@), 304);
            lemma_append_keeps(e10, nat_bytes(x.c1.c2.c1@), 288);
            lemma_append_keeps(e10, nat_bytes(x.c1.c2.c1@), 304);
        }
        assert(be_value_16(e11, 320) == x.c1.c2.c0.v.hi && be_value_16(e11, 336) == x.c1.c2.c0.v.lo) by {
            let post = Seq::<u8>::empty();
            assert(e10 =~= e9 + nat_bytes(x.c1.c2.c0@) + post);
            lemma_value_within(e9, x.c1.c2.c0.v, post);
            lemma_append_keeps(e10, nat_bytes(x.c1.c2.c1@), 320);
            lemma_append_keeps(e10, nat_bytes(x.c1.c2.c1@), 336);
        }
        assert(be_value_16(e11, 352) == x.c1.c2.c1.v.hi && be_value_16(e11, 368) == x.c1.c2.c1.v.lo) by {
            let post = Seq::<u8>::empty();
            assert(e11 =~= e10 + nat_bytes(x.c1.c2.c1@) + post);
            lemma_value_within(e10, x.c1.c2.c1.v, post);
        }
        assert(x@.encoding() == e11);
        assert forall|i: int| 0 <= i < 12 implies (#[trigger] Fq12::coordinate(e11, i)).wf() by {}
    }
}

} // verus!
