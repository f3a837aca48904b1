use vstd::prelude::*;
use crate::fq2::{Fq2, Fq2Value};

verus! {

/// The three coordinates of an element of the sextic extension.
pub struct Fq6Value {
    pub c0: Fq2Value,
    pub c1: Fq2Value,
    pub c2: Fq2Value,
}

/// An element `c0 + c1 v + c2 v^2` of the cubic extension of the quadratic one, where `v^3 = 9 + u`.
#[derive(Clone, Copy, Debug, PartialEq, Eq, Structural)]
pub struct Fq6 {
    pub c0: Fq2,
    pub c1: Fq2,
    pub c2: Fq2,
}

impl View for Fq6 {
    type V = Fq6Value;

    open spec fn view(&self) -> Fq6Value {
        Fq6Value { c0: self.c0@, c1: self.c1@, c2: self.c2@ }
    }
}

impl Fq6Value {
    /// The additive identity.
    pub open spec fn zero() -> Fq6Value {
        Fq6Value { c0: Fq2Value::zero(), c1: Fq2Value::zero(), c2: Fq2Value::zero() }
    }

    /// The multiplicative identity.
    pub open spec fn one() -> Fq6Value {
        Fq6Value { c0: Fq2Value::one(), c1: Fq2Value::zero(), c2: Fq2Value::zero() }
    }

    /// Whether two elements agree in every coordinate.
    pub open spec fn equals(self, other: Fq6Value) -> bool {
        self.c0.equals(other.c0) && self.c1.equals(other.c1) && self.c2.equals(other.c2)
    }

    /// The sum, coordinate by coordinate.
    pub open spec fn add(self, other: Fq6Value) -> Fq6Value {
        Fq6Value { c0: self.c0.add(other.c0), c1: self.c1.add(other.c1), c2: self.c2.add(other.c2) }
    }

    /// The difference, coordinate by coordinate.
    pub open spec fn sub(self, other: Fq6Value) -> Fq6Value {
        Fq6Value { c0: self.c0.sub(other.c0), c1: self.c1.sub(other.c1), c2: self.c2.sub(other.c2) }
    }

    /// The additive inverse.
    pub open spec fn neg(self) -> Fq6Value {
        Fq6Value { c0: self.c0.neg(), c1: self.c1.neg(), c2: self.c2.neg() }
    }

    /// The product with `v`, the non-residue that the next extension is built on.
    pub open spec fn mul_by_nonresidue(self) -> Fq6Value {
        Fq6Value { c0: self.c2.mul_by_nonresidue(), c1: self.c0, c2: self.c1 }
    }

    /// The product with an element of the quadratic extension.
    pub open spec fn scale(self, k: Fq2Value) -> Fq6Value {
        Fq6Value { c0: self.c0.mul(k), c1: self.c1.mul(k), c2: self.c2.mul(k) }
    }

    /// The product, with `v * v * v = 9 + u`.
    #[verifier::opaque]
    pub open spec fn mul(self, other: Fq6Value) -> Fq6Value {
        let a00 = self.c0.mul(other.c0);
        let a01 = self.c0.mul(other.c1);
        let a02 = self.c0.mul(other.c2);
        let a10 = self.c1.mul(other.c0);
        let a11 = self.c1.mul(other.c1);
        let a12 = self.c1.mul(other.c2);
        let a20 = self.c2.mul(other.c0);
        let a21 = self.c2.mul(other.c1);
        let a22 = self.c2.mul(other.c2);
        let h0 = a12.add(a21);
        let h1 = h0.mul_by_nonresidue();
        let h2 = a22.mul_by_nonresidue();
        let s1 = a01.add(a10);
        let s2 = a02.add(a20);
        Fq6Value { c0: a00.add(h1), c1: s1.add(h2), c2: s2.add(a11) }
    }

    /// The product of the element with itself.
    pub open spec fn square(self) -> Fq6Value {
        self.mul(self)
    }

    /// The multiplicative inverse, through one inversion in the quadratic extension; kept only where its product with the element is one.
    #[verifier::opaque]
    pub open spec fn inverse(self) -> Option<Fq6Value> {
        let c0s = self.c0.square();
        let c1s = self.c1.square();
        let c2s = self.c2.square();
        let c01 = self.c0.mul(self.c1);
        let c02 = self.c0.mul(self.c2);
        let c12 = self.c1.mul(self.c2);
        let x12 = c12.mul_by_nonresidue();
        let x22 = c2s.mul_by_nonresidue();
        let t0 = c0s.sub(x12);
        let t1 = x22.sub(c01);
        let t2 = c1s.sub(c02);
        let u1 = self.c2.mul(t1);
        let u2 = self.c1.mul(t2);
        let u3 = u1.add(u2);
        let u4 = u3.mul_by_nonresidue();
        let u0 = self.c0.mul(t0);
        let d = u0.add(u4);
        match d.inverse() {
            Some(di) => {
                let cand = Fq6Value { c0: t0.mul(di), c1: t1.mul(di), c2: t2.mul(di) };
                let prod = self.mul(cand);
                if prod.equals(Fq6Value::one()) {
                    Some(cand)
                } else {
                    None
                }
            },
            None => None,
        }
    }

    /// Where an element has an inverse, their product is one.
    pub proof fn lemma_inverse(a: Fq6Value)
        ensures
            a.inverse() matches Some(x) ==> a.mul(x) == Fq6Value::one(),
    {
        reveal(Fq6Value::inverse);
    }

    /// Every coordinate is below the modulus.
    pub open spec fn reduced(self) -> bool {
        self.c0.reduced() && self.c1.reduced() && self.c2.reduced()
    }

    /// Addition is associative.
    pub proof fn lemma_add_associative(a: Fq6Value, b: Fq6Value, c: Fq6Value)
        requires
            a.reduced(),
            b.reduced(),
            c.reduced(),
        ensures
            a.add(b).add(c) == a.add(b.add(c)),
    {
        Fq2Value::lemma_add_associative(a.c0, b.c0, c.c0);
        Fq2Value::lemma_add_associative(a.c1, b.c1, c.c1);
        Fq2Value::lemma_add_associative(a.c2, b.c2, c.c2);
    }

    /// An element and its negation add up to zero.
    pub proof fn lemma_add_negation(a: Fq6Value)
        requires
            a.reduced(),
        ensures
            a.add(a.neg()) == Fq6Value::zero(),
    {
        Fq2Value::lemma_add_negation(a.c0);
        Fq2Value::lemma_add_negation(a.c1);
        Fq2Value::lemma_add_negation(a.c2);
    }

    /// Addition is commutative.
    pub proof fn lemma_add_commutative(a: Fq6Value, b: Fq6Value)
        ensures
            a.add(b) == b.add(a),
    {
        Fq2Value::lemma_add_commutative(a.c0, b.c0);
        Fq2Value::lemma_add_commutative(a.c1, b.c1);
        Fq2Value::lemma_add_commutative(a.c2, b.c2);
    }

    /// Multiplication is commutative.
    pub proof fn lemma_mul_commutative(a: Fq6Value, b: Fq6Value)
        ensures
            a.mul(b) == b.mul(a),
    {
        reveal(Fq6Value::mul);
        Fq2Value::lemma_mul_commutative(a.c0, b.c0);
        Fq2Value::lemma_mul_commutative(a.c0, b.c1);
        Fq2Value::lemma_mul_commutative(a.c0, b.c2);
        Fq2Value::lemma_mul_commutative(a.c1, b.c0);
        Fq2Value::lemma_mul_commutative(a.c1, b.c1);
        Fq2Value::lemma_mul_commutative(a.c1, b.c2);
        Fq2Value::lemma_mul_commutative(a.c2, b.c0);
        Fq2Value::lemma_mul_commutative(a.c2, b.c1);
        Fq2Value::lemma_mul_commutative(a.c2, b.c2);
        Fq2Value::lemma_add_commutative(a.c1.mul(b.c2), a.c2.mul(b.c1));
        Fq2Value::lemma_add_commutative(a.c0.mul(b.c1), a.c1.mul(b.c0));
        Fq2Value::lemma_add_commutative(a.c0.mul(b.c2), a.c2.mul(b.c0));
    }
}

impl Fq6 {
    /// Every coordinate is a reduced residue.
    pub open spec fn wf(&self) -> bool {
        self.c0.wf() && self.c1.wf() && self.c2.wf()
    }

    /// The additive identity.
    pub fn zero() -> (r: Fq6)
        ensures
            r.wf(),
            r@ == Fq6Value::zero(),
    {
        Fq6 { c0: Fq2::zero(), c1: Fq2::zero(), c2: Fq2::zero() }
    }

    /// The multiplicative identity.
    pub fn one() -> (r: Fq6)
        ensures
            r.wf(),
            r@ == Fq6Value::one(),
    {
        Fq6 { c0: Fq2::one(), c1: Fq2::zero(), c2: Fq2::zero() }
    }

    /// Whether two elements agree in every coordinate.
    pub fn equals(&self, other: &Fq6) -> (r: bool)
        requires
            self.wf(),
            other.wf(),
        ensures
            r == self@.equals(other@),
    {
        self.c0.equals(&other.c0) && self.c1.equals(&other.c1) && self.c2.equals(&other.c2)
    }

    /// The sum, coordinate by coordinate.
    pub fn add(&self, other: &Fq6) -> (r: Fq6)
        requires
            self.wf(),
            other.wf(),
        ensures
            r.wf(),
            r@ == self@.add(other@),
    {
        Fq6 { c0: self.c0.add(&other.c0), c1: self.c1.add(&other.c1), c2: self.c2.add(&other.c2) }
    }

    /// The difference, coordinate by coordinate.
    pub fn sub(&self, other: &Fq6) -> (r: Fq6)
        requires
            self.wf(),
            other.wf(),
        ensures
            r.wf(),
            r@ == self@.sub(other@),
    {
        Fq6 { c0: self.c0.sub(&other.c0), c1: self.c1.sub(&other.c1), c2: self.c2.sub(&other.c2) }
    }

    /// The additive inverse.
    pub fn neg(&self) -> (r: Fq6)
        requires
            self.wf(),
        ensures
            r.wf(),
            r@ == self@.neg(),
    {
        Fq6 { c0: self.c0.neg(), c1: self.c1.neg(), c2: self.c2.neg() }
    }

    /// The product with `v`, the non-residue that the next extension is built on.
    pub fn mul_by_nonresidue(&self) -> (r: Fq6)
        requires
            self.wf(),
        ensures
            r.wf(),
            r@ == self@.mul_by_nonresidue(),
    {
        Fq6 { c0: self.c2.mul_by_nonresidue(), c1: self.c0, c2: self.c1 }
    }

    /// The product with an element of the quadratic extension.
    pub fn scale(&self, k: &Fq2) -> (r: Fq6)
        requires
            self.wf(),
            k.wf(),
        ensures
            r.wf(),
            r@ == self@.scale(k@),
    {
        Fq6 { c0: self.c0.mul(&k), c1: self.c1.mul(&k), c2: self.c2.mul(&k) }
    }

    /// The product, with `v * v * v = 9 + u`.
    pub fn mul(&self, other: &Fq6) -> (r: Fq6)
        requires
            self.wf(),
            other.wf(),
        ensures
            r.wf(),
            r@ == self@.mul(other@),
    {
        proof {
            reveal(Fq6Value::mul);
        }
        let a00 = self.c0.mul(&other.c0);
        let a01 = self.c0.mul(&other.c1);
        let a02 = self.c0.mul(&other.c2);
        let a10 = self.c1.mul(&other.c0);
        let a11 = self.c1.mul(&other.c1);
        let a12 = self.c1.mul(&other.c2);
        let a20 = self.c2.mul(&other.c0);
        let a21 = self.c2.mul(&other.c1);
        let a22 = self.c2.mul(&other.c2);
        let h0 = a12.add(&a21);
        let h1 = h0.mul_by_nonresidue();
        let h2 = a22.mul_by_nonresidue();
        let s1 = a01.add(&a10);
        let s2 = a02.add(&a20);
        Fq6 { c0: a00.add(&h1), c1: s1.add(&h2), c2: s2.add(&a11) }
    }

    /// The product of the element with itself.
    pub fn square(&self) -> (r: Fq6)
        requires
            self.wf(),
        ensures
            r.wf(),
            r@ == self@.square(),
    {
        self.mul(self)
    }

    /// The multiplicative inverse, through one inversion in the quadratic extension; kept only where its product with the element is one.
    pub fn inverse(&self) -> (r: Option<Fq6>)
        requires
            self.wf(),
        ensures
            r.is_some() == self@.inverse().is_some(),
            r matches Some(x) ==> x.wf() && x@ == self@.inverse().unwrap(),
    {
        proof {
            reveal(Fq6Value::inverse);
        }
        let c0s = self.c0.square();
        let c1s = self.c1.square();
        let c2s = self.c2.square();
        let c01 = self.c0.mul(&self.c1);
        let c02 = self.c0.mul(&self.c2);
        let c12 = self.c1.mul(&self.c2);
        let x12 = c12.mul_by_nonresidue();
        let x22 = c2s.mul_by_nonresidue();
        let t0 = c0s.sub(&x12);
        let t1 = x22.sub(&c01);
        let t2 = c1s.sub(&c02);
        let u1 = self.c2.mul(&t1);
        let u2 = self.c1.mul(&t2);
        let u3 = u1.add(&u2);
        let u4 = u3.mul_by_nonresidue();
        let u0 = self.c0.mul(&t0);
        let d = u0.add(&u4);
        match d.inverse() {
            Some(di) => {
                let cand = Fq6 { c0: t0.mul(&di), c1: t1.mul(&di), c2: t2.mul(&di) };
                let prod = self.mul(&cand);
                if prod.equals(&Fq6::one()) {
                    Some(cand)
                } else {
                    None
                }
            },
            None => None,
        }
    }
}

} // verus!
