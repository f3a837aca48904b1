use vstd::prelude::*;
use vstd::slice::slice_subrange;
use crate::arith::{be_value_32, lemma_nat_bytes_len, lemma_u256_of_view, nat_bytes, U256};
use crate::curve_error::CurveError;
use crate::fq::{fq_add, fq_inv, fq_modulus, fq_mul, fq_neg, fq_sub, Fq};
use crate::fr::{FieldError, Fr};

verus! {

/// The three coordinates of a point, as residues.
pub struct G1Value {
    pub x: nat,
    pub y: nat,
    pub z: nat,
}

/// A point of the curve `y^2 = x^3 + 3` over the base field, in Jacobian coordinates: `(x, y, z)` stands for `(x / z^2, y / z^3)`, and `z = 0` for the point at infinity.
#[derive(Clone, Copy, Debug, PartialEq, Eq, Structural)]
pub struct G1 {
    pub x: Fq,
    pub y: Fq,
    pub z: Fq,
}

impl View for G1 {
    type V = G1Value;

    open spec fn view(&self) -> G1Value {
        G1Value { x: self.x@, y: self.y@, z: self.z@ }
    }
}

impl G1Value {
    /// The identity of the group: the point at infinity.
    pub open spec fn zero() -> G1Value {
        G1Value { x: 0nat, y: 1nat, z: 0nat }
    }

    /// The fixed generator of the group.
    pub open spec fn one() -> G1Value {
        G1Value { x: 1, y: 2, z: 1nat }
    }

    /// Whether the point is the identity.
    pub open spec fn is_zero(self) -> bool {
        (self.z == 0)
    }

    /// Twice the point.
    #[verifier::opaque]
    pub open spec fn double(self) -> G1Value {
        let a = fq_mul(self.x, self.x);
        let b = fq_mul(self.y, self.y);
        let c = fq_mul(b, b);
        let t = fq_add(self.x, b);
        let t2 = fq_mul(t, t);
        let t3 = fq_sub(t2, a);
        let t4 = fq_sub(t3, c);
        let d = fq_add(t4, t4);
        let e1 = fq_add(a, a);
        let e = fq_add(e1, a);
        let f = fq_mul(e, e);
        let d2 = fq_add(d, d);
        let x3 = fq_sub(f, d2);
        let c2 = fq_add(c, c);
        let c4 = fq_add(c2, c2);
        let c8 = fq_add(c4, c4);
        let u = fq_sub(d, x3);
        let v = fq_mul(e, u);
        let y3 = fq_sub(v, c8);
        let yz = fq_mul(self.y, self.z);
        let z3 = fq_add(yz, yz);
        G1Value { x: x3, y: y3, z: z3 }
    }

    /// The sum of two points; equal points are doubled, opposite points give the identity.
    #[verifier::opaque]
    pub open spec fn add(self, other: G1Value) -> G1Value {
        if (self.z == 0) {
            other
        } else if (other.z == 0) {
            self
        } else {
            let z1z1 = fq_mul(self.z, self.z);
            let z2z2 = fq_mul(other.z, other.z);
            let u1 = fq_mul(self.x, z2z2);
            let u2 = fq_mul(other.x, z1z1);
            let t1 = fq_mul(self.y, other.z);
            let s1 = fq_mul(t1, z2z2);
            let t2 = fq_mul(other.y, self.z);
            let s2 = fq_mul(t2, z1z1);
            if (u1 == u2) && (s1 == s2) {
                self.double()
            } else {
                let h = fq_sub(u2, u1);
                let h2 = fq_add(h, h);
                let i = fq_mul(h2, h2);
                let j = fq_mul(h, i);
                let r0 = fq_sub(s2, s1);
                let rr = fq_add(r0, r0);
                let v = fq_mul(u1, i);
                let r2 = fq_mul(rr, rr);
                let x3a = fq_sub(r2, j);
                let v2 = fq_add(v, v);
                let x3 = fq_sub(x3a, v2);
                let w = fq_sub(v, x3);
                let rw = fq_mul(rr, w);
                let sj = fq_mul(s1, j);
                let sj2 = fq_add(sj, sj);
                let y3 = fq_sub(rw, sj2);
                let zz = fq_add(self.z, other.z);
                let zz2 = fq_mul(zz, zz);
                let zz3 = fq_sub(zz2, z1z1);
                let zz4 = fq_sub(zz3, z2z2);
                let z3 = fq_mul(zz4, h);
                G1Value { x: x3, y: y3, z: z3 }
            }
        }
    }

    /// The opposite point.
    pub open spec fn neg(self) -> G1Value {
        G1Value { x: self.x, y: fq_neg(self.y), z: self.z }
    }

    /// The sum with the opposite of `other`.
    pub open spec fn sub(self, other: G1Value) -> G1Value {
        let n = other.neg();
        self.add(n)
    }

    /// Whether two triples stand for the same point.
    #[verifier::opaque]
    pub open spec fn equals(self, other: G1Value) -> bool {
        if (self.z == 0) {
            (other.z == 0)
        } else if (other.z == 0) {
            false
        } else {
            let z1z1 = fq_mul(self.z, self.z);
            let z2z2 = fq_mul(other.z, other.z);
            let u1 = fq_mul(self.x, z2z2);
            let u2 = fq_mul(other.x, z1z1);
            let t1 = fq_mul(self.y, other.z);
            let s1 = fq_mul(t1, z2z2);
            let t2 = fq_mul(other.y, self.z);
            let s2 = fq_mul(t2, z1z1);
            (u1 == u2) && (s1 == s2)
        }
    }

    /// The representative with `z = 1`; the identity has none.
    #[verifier::opaque]
    pub open spec fn to_affine(self) -> Option<G1Value> {
        if (self.z == 0) {
            None
        } else {
            match fq_inv(self.z) {
                Some(zi) => {
                    let zi2 = fq_mul(zi, zi);
                    let zi3 = fq_mul(zi2, zi);
                    Some(G1Value { x: fq_mul(self.x, zi2), y: fq_mul(self.y, zi3), z: 1nat })
                },
                None => None,
            }
        }
    }

    /// Whether the triple meets `y^2 = x^3 + 3 z^6`; the identity does.
    #[verifier::opaque]
    pub open spec fn is_on_curve(self) -> bool {
        if (self.z == 0) {
            true
        } else {
            let y2 = fq_mul(self.y, self.y);
            let x2 = fq_mul(self.x, self.x);
            let x3 = fq_mul(x2, self.x);
            let z2 = fq_mul(self.z, self.z);
            let z4 = fq_mul(z2, z2);
            let z6 = fq_mul(z4, z2);
            let b = 3nat;
            let bz = fq_mul(b, z6);
            let rhs = fq_add(x3, bz);
            (y2 == rhs)
        }
    }

    /// The value after `n` more rounds of doubling `cur` and adding it to
    /// `acc` where the lowest bit of `k` is set.
    pub open spec fn mul_loop(acc: G1Value, cur: G1Value, k: nat, n: nat) -> G1Value
        decreases n,
    {
        if n == 0 {
            acc
        } else {
            G1Value::mul_loop(
                if k % 2 == 1 {
                    acc.add(cur)
                } else {
                    acc
                },
                cur.double(),
                k / 2,
                (n - 1) as nat,
            )
        }
    }

    /// Adding a point to the identity gives that point, and adding the
    /// identity to a point other than the identity gives that point.
    pub proof fn lemma_add_identity(p: G1Value)
        ensures
            G1Value::zero().add(p) == p,
            !p.is_zero() ==> p.add(G1Value::zero()) == p,
    {
        reveal(G1Value::add);
    }

    /// The multiple of the point by `k`, by doubling and adding over the 256
    /// bits of `k` from the lowest up.
    pub open spec fn mul(self, k: nat) -> G1Value {
        G1Value::mul_loop(G1Value::zero(), self, k, 256)
    }

    /// The bytes of the point: the affine coordinates, each residue as 32
    /// big-endian bytes, or zeros for the identity.
    pub open spec fn encoding(self) -> Seq<u8> {
        match self.to_affine() {
            Some(a) => nat_bytes(a.x) + nat_bytes(a.y),
            None => Seq::new(64, |i: int| 0u8),
        }
    }

    /// The point after normalising: its representative with `z = 1` where
    /// it has one, else the point unchanged.
    pub open spec fn normalized(self) -> G1Value {
        match self.to_affine() {
            Some(a) => a,
            None => self,
        }
    }
}

impl G1 {
    /// Every coordinate is a reduced residue.
    pub open spec fn wf(&self) -> bool {
        self.x.wf() && self.y.wf() && self.z.wf()
    }

    /// The identity of the group: the point at infinity.
    pub fn zero() -> (r: G1)
        ensures
            r.wf(),
            r@ == G1Value::zero(),
    {
        G1 { x: Fq::zero(), y: Fq::one(), z: Fq::zero() }
    }

    /// The fixed generator of the group.
    pub fn one() -> (r: G1)
        ensures
            r.wf(),
            r@ == G1Value::one(),
    {
        G1 { x: Fq::one(), y: Fq::small(2), z: Fq::one() }
    }

    /// Whether the point is the identity.
    pub fn is_zero(&self) -> (r: bool)
        requires
            self.wf(),
        ensures
            r == self@.is_zero(),
    {
        self.z.is_zero()
    }

    /// Twice the point.
    pub fn double(&self) -> (r: G1)
        requires
            self.wf(),
        ensures
            r.wf(),
            r@ == self@.double(),
    {
        proof {
            reveal(G1Value::double);
        }
        let a = self.x.mul(&self.x);
        let b = self.y.mul(&self.y);
        let c = b.mul(&b);
        let t = self.x.add(&b);
        let t2 = t.mul(&t);
        let t3 = t2.sub(&a);
        let t4 = t3.sub(&c);
        let d = t4.add(&t4);
        let e1 = a.add(&a);
        let e = e1.add(&a);
        let f = e.mul(&e);
        let d2 = d.add(&d);
        let x3 = f.sub(&d2);
        let c2 = c.add(&c);
        let c4 = c2.add(&c2);
        let c8 = c4.add(&c4);
        let u = d.sub(&x3);
        let v = e.mul(&u);
        let y3 = v.sub(&c8);
        let yz = self.y.mul(&self.z);
        let z3 = yz.add(&yz);
        G1 { x: x3, y: y3, z: z3 }
    }

    /// The sum of two points; equal points are doubled, opposite points give the identity.
    pub fn add(&self, other: &G1) -> (r: G1)
        requires
            self.wf(),
            other.wf(),
        ensures
            r.wf(),
            r@ == self@.add(other@),
    {
        proof {
            reveal(G1Value::add);
        }
        if self.z.is_zero() {
            *other
        } else if other.z.is_zero() {
            *self
        } else {
            let z1z1 = self.z.mul(&self.z);
            let z2z2 = other.z.mul(&other.z);
            let u1 = self.x.mul(&z2z2);
            let u2 = other.x.mul(&z1z1);
            let t1 = self.y.mul(&other.z);
            let s1 = t1.mul(&z2z2);
            let t2 = other.y.mul(&self.z);
            let s2 = t2.mul(&z1z1);
            if u1.equals(&u2) && s1.equals(&s2) {
                self.double()
            } else {
                let h = u2.sub(&u1);
                let h2 = h.add(&h);
                let i = h2.mul(&h2);
                let j = h.mul(&i);
                let r0 = s2.sub(&s1);
                let rr = r0.add(&r0);
                let v = u1.mul(&i);
                let r2 = rr.mul(&rr);
                let x3a = r2.sub(&j);
                let v2 = v.add(&v);
                let x3 = x3a.sub(&v2);
                let w = v.sub(&x3);
                let rw = rr.mul(&w);
                let sj = s1.mul(&j);
                let sj2 = sj.add(&sj);
                let y3 = rw.sub(&sj2);
                let zz = self.z.add(&other.z);
                let zz2 = zz.mul(&zz);
                let zz3 = zz2.sub(&z1z1);
                let zz4 = zz3.sub(&z2z2);
                let z3 = zz4.mul(&h);
                G1 { x: x3, y: y3, z: z3 }
            }
        }
    }

    /// The opposite point.
    pub fn neg(&self) -> (r: G1)
        requires
            self.wf(),
        ensures
            r.wf(),
            r@ == self@.neg(),
    {
        G1 { x: self.x, y: self.y.neg(), z: self.z }
    }

    /// The sum with the opposite of `other`.
    pub fn sub(&self, other: &G1) -> (r: G1)
        requires
            self.wf(),
            other.wf(),
        ensures
            r.wf(),
            r@ == self@.sub(other@),
    {
        let n = other.neg();
        self.add(&n)
    }

    /// Whether two triples stand for the same point.
    pub fn equals(&self, other: &G1) -> (r: bool)
        requires
            self.wf(),
            other.wf(),
        ensures
            r == self@.equals(other@),
    {
        proof {
            reveal(G1Value::equals);
        }
        if self.z.is_zero() {
            other.z.is_zero()
        } else if other.z.is_zero() {
            false
        } else {
            let z1z1 = self.z.mul(&self.z);
            let z2z2 = other.z.mul(&other.z);
            let u1 = self.x.mul(&z2z2);
            let u2 = other.x.mul(&z1z1);
            let t1 = self.y.mul(&other.z);
            let s1 = t1.mul(&z2z2);
            let t2 = other.y.mul(&self.z);
            let s2 = t2.mul(&z1z1);
            u1.equals(&u2) && s1.equals(&s2)
        }
    }

    /// The representative with `z = 1`; the identity has none.
    pub fn to_affine(&self) -> (r: Option<G1>)
        requires
            self.wf(),
        ensures
            r.is_some() == self@.to_affine().is_some(),
            r matches Some(x) ==> x.wf() && x@ == self@.to_affine().unwrap(),
    {
        proof {
            reveal(G1Value::to_affine);
        }
        if self.z.is_zero() {
            None
        } else {
            match self.z.inverse() {
                Some(zi) => {
                    let zi2 = zi.mul(&zi);
                    let zi3 = zi2.mul(&zi);
                    Some(G1 { x: self.x.mul(&zi2), y: self.y.mul(&zi3), z: Fq::one() })
                },
                None => None,
            }
        }
    }

    /// Whether the triple meets `y^2 = x^3 + 3 z^6`; the identity does.
    pub fn is_on_curve(&self) -> (r: bool)
        requires
            self.wf(),
        ensures
            r == self@.is_on_curve(),
    {
        proof {
            reveal(G1Value::is_on_curve);
        }
        if self.z.is_zero() {
            true
        } else {
            let y2 = self.y.mul(&self.y);
            let x2 = self.x.mul(&self.x);
            let x3 = x2.mul(&self.x);
            let z2 = self.z.mul(&self.z);
            let z4 = z2.mul(&z2);
            let z6 = z4.mul(&z2);
            let b = Fq::small(3);
            let bz = b.mul(&z6);
            let rhs = x3.add(&bz);
            y2.equals(&rhs)
        }
    }

    /// The multiple of the point by a scalar, over all 256 bits of the
    /// scalar.
    pub fn mul(&self, scalar: &Fr) -> (r: G1)
        requires
            self.wf(),
        ensures
            r.wf(),
            r@ == self@.mul(scalar@),
    {
        self.mul_u256(&scalar.v)
    }

    /// The multiple of the point by any 256-bit integer.
    pub fn mul_u256(&self, scalar: &U256) -> (r: G1)
        requires
            self.wf(),
        ensures
            r.wf(),
            r@ == self@.mul(scalar@),
    {
        let mut acc = G1::zero();
        let mut cur = *self;
        let mut k = *scalar;
        let mut i: u32 = 0;
        while i < 256
            invariant
                i <= 256,
                acc.wf(),
                cur.wf(),
                G1Value::mul_loop(acc@, cur@, k@, (256 - i) as nat) == self@.mul(scalar@),
            decreases 256 - i,
        {
            if k.is_odd() {
                acc = acc.add(&cur);
            }
            cur = cur.double();
            k = k.half();
            i = i + 1;
        }
        acc
    }

    /// Replaces the triple by its representative with `z = 1`; the identity
    /// stays as it is.
    pub fn normalize(&mut self)
        requires
            old(self).wf(),
        ensures
            final(self).wf(),
            final(self)@ == old(self)@.normalized(),
    {
        match self.to_affine() {
            Some(a) => {
                *self = a;
            },
            None => {},
        }
    }

    /// The bytes of the point in affine form, or zeros for the identity.
    pub fn into_bytes(&self) -> (r: Vec<u8>)
        requires
            self.wf(),
        ensures
            r@ == self@.encoding(),
    {
        let mut out: Vec<u8> = Vec::new();
        match self.to_affine() {
            Some(a) => {
                a.x.write_bytes(&mut out);
                a.y.write_bytes(&mut out);
            },
            None => {
                let mut i: usize = 0;
                while i < 64
                    invariant
                        i <= 64,
                        out@ =~= Seq::new(i as nat, |j: int| 0u8),
                    decreases 64 - i,
                {
                    out.push(0u8);
                    i = i + 1;
                }
            },
        }
        assert(out@ =~= self@.encoding());
        out
    }

    /// The affine form of the point, or the error for the identity, which
    /// has none.
    pub fn affine_or_error(&self) -> (r: Result<G1, CurveError>)
        requires
            self.wf(),
        ensures
            r.is_ok() == self@.to_affine().is_some(),
            r matches Ok(a) ==> a.wf() && a@ == self@.to_affine().unwrap(),
            r matches Err(e) ==> e == CurveError::ToAffineConversion,
    {
        match self.to_affine() {
            Some(a) => Ok(a),
            None => Err(CurveError::ToAffineConversion),
        }
    }

    /// What `from_slice` makes of the bytes `s`: the two affine coordinates
    /// one after the other. Zero coordinates stand for the identity; other
    /// coordinates must be reduced, meet the curve equation.
    pub open spec fn decode(s: Seq<u8>) -> Result<G1, CurveError> {
        if s.len() != 64 {
            Err(CurveError::Field(FieldError::InvalidSliceLength))
        } else {
            match Fq::decode(s.subrange(0, 32)) {
                Err(e) => Err(CurveError::Field(e)),
                Ok(x) => match Fq::decode(s.subrange(32, 64)) {
                    Err(e) => Err(CurveError::Field(e)),
                    Ok(y) => {
                        let p = G1 { x, y, z: Fq { v: U256 { hi: 0, lo: 1 } } };
                        if x@ == 0 && y@ == 0 {
                            Ok(G1 { x: Fq { v: U256 { hi: 0, lo: 0 } }, y: Fq { v: U256 { hi: 0, lo: 1 } }, z: Fq { v: U256 { hi: 0, lo: 0 } } })
                        } else if !p@.is_on_curve() {
                            Err(CurveError::InvalidEncoding)
                        } else {
                            Ok(p)
                        }
                    },
                },
            }
        }
    }

    /// Reads a point from its bytes.
    pub fn from_slice(slice: &[u8]) -> (r: Result<G1, CurveError>)
        ensures
            r == G1::decode(slice@),
            r matches Ok(p) ==> p.wf(),
    {
        if slice.len() != 64 {
            return Err(CurveError::Field(FieldError::InvalidSliceLength));
        }
        match Fq::from_slice(slice_subrange(slice, 0, 32)) {
            Err(e) => Err(CurveError::Field(e)),
            Ok(x) => match Fq::from_slice(slice_subrange(slice, 32, 64)) {
                Err(e) => Err(CurveError::Field(e)),
                Ok(y) => {
                    let p = G1 { x, y, z: Fq { v: U256 { hi: 0, lo: 1 } } };
                    if x.is_zero() && y.is_zero() {
                        Ok(G1 { x: Fq { v: U256 { hi: 0, lo: 0 } }, y: Fq { v: U256 { hi: 0, lo: 1 } }, z: Fq { v: U256 { hi: 0, lo: 0 } } })
                    } else if !p.is_on_curve() {
                        Err(CurveError::InvalidEncoding)
                    } else {
                        Ok(p)
                    }
                },
            },
        }
    }

    /// Reading back the bytes of an affine point that the decoder accepts
    /// gives the point.
    pub proof fn lemma_bytes_round_trip(a: G1)
        requires
            a.wf(),
            a.z == (Fq { v: U256 { hi: 0, lo: 1 } }),
            !(a.x@ == 0 && a.y@ == 0),
            a@.is_on_curve(),
        ensures
            G1::decode(nat_bytes(a.x@) + nat_bytes(a.y@)) == Ok::<G1, CurveError>(a),
    {
        let s = nat_bytes(a.x@) + nat_bytes(a.y@);
        lemma_nat_bytes_len(a.x@);
        lemma_nat_bytes_len(a.y@);
        assert(s.subrange(0, 32) =~= nat_bytes(a.x@));
        assert(s.subrange(32, 64) =~= nat_bytes(a.y@));
        Fq::lemma_bytes_round_trip(a.x);
        Fq::lemma_bytes_round_trip(a.y);
    }

    /// The weight of the bit that carries the parity of `y` in the compressed
    /// form: two to the 255.
    pub open spec fn parity_weight() -> nat {
        (U256 { hi: 0x8000_0000_0000_0000_0000_0000_0000_0000, lo: 0 })@
    }

    /// What `from_compressed` makes of the bytes `s`: 32 bytes that spell `x`,
    /// with two to the 255 added where `y` is odd. Zero stands for the
    /// identity; otherwise `x` must be reduced and `x^3 + 3` must have the
    /// square root that `Fq::sqrt` finds, and `y` is that root or its
    /// negation, whichever has the parity asked for.
    pub open spec fn decode_compressed(s: Seq<u8>) -> Result<G1Value, CurveError> {
        if s.len() != 32 {
            Err(CurveError::Field(FieldError::InvalidSliceLength))
        } else {
            let v = be_value_32(s, 0);
            let odd = v >= G1::parity_weight();
            let x = if odd {
                (v - G1::parity_weight()) as nat
            } else {
                v
            };
            if v == 0 {
                Ok(G1Value::zero())
            } else if x >= fq_modulus() {
                Err(CurveError::Field(FieldError::NotMember))
            } else {
                let rhs = fq_add(fq_mul(fq_mul(x, x), x), 3);
                match Fq::sqrt_value(rhs) {
                    None => Err(CurveError::InvalidEncoding),
                    Some(y) => {
                        let y2 = if (y % 2 == 1) == odd {
                            y
                        } else {
                            fq_neg(y)
                        };
                        if (y2 % 2 == 1) == odd {
                            Ok(G1Value { x, y: y2, z: 1 })
                        } else {
                            Err(CurveError::InvalidEncoding)
                        }
                    },
                }
            }
        }
    }

    /// Reads a point from its compressed form.
    pub fn from_compressed(slice: &[u8]) -> (r: Result<G1, CurveError>)
        ensures
            r.is_ok() == G1::decode_compressed(slice@).is_ok(),
            r matches Ok(p) ==> p.wf() && G1::decode_compressed(slice@) == Ok::<G1Value, CurveError>(
                p@,
            ),
            r matches Err(e) ==> G1::decode_compressed(slice@) == Err::<G1Value, CurveError>(e),
    {
        if slice.len() != 32 {
            return Err(CurveError::Field(FieldError::InvalidSliceLength));
        }
        let v = U256::read_be(slice, 0);
        let top = U256 { hi: 0x8000_0000_0000_0000_0000_0000_0000_0000, lo: 0 };
        let odd = !v.lt(&top);
        let xv = if odd {
            v.sub_small(&top)
        } else {
            v
        };
        if v.is_zero() {
            return Ok(G1::zero());
        }
        if !xv.lt(&Fq::modulus()) {
            return Err(CurveError::Field(FieldError::NotMember));
        }
        let x = Fq { v: xv };
        let x2 = x.mul(&x);
        let x3 = x2.mul(&x);
        let rhs = x3.add(&Fq::small(3));
        match rhs.sqrt() {
            None => Err(CurveError::InvalidEncoding),
            Some(y) => {
                let y2 = if y.is_odd() == odd {
                    y
                } else {
                    y.neg()
                };
                if y2.is_odd() == odd {
                    Ok(G1 { x, y: y2, z: Fq::one() })
                } else {
                    Err(CurveError::InvalidEncoding)
                }
            },
        }
    }

    /// The compressed bytes of the point as a value: those of `x`, with two
    /// to the 255 added where `y` is odd, both of the affine form; zeros for
    /// the identity.
    pub open spec fn compressed(p: G1Value) -> Seq<u8> {
        match p.to_affine() {
            Some(a) => nat_bytes(
                if a.y % 2 == 1 {
                    a.x + G1::parity_weight()
                } else {
                    a.x
                },
            ),
            None => nat_bytes(0),
        }
    }

    /// The 32 compressed bytes of the point.
    pub fn into_compressed(&self) -> (r: Vec<u8>)
        requires
            self.wf(),
        ensures
            r@ == G1::compressed(self@),
    {
        let v = match self.to_affine() {
            Some(a) => {
                if a.y.is_odd() {
                    U256 { hi: a.x.v.hi + 0x8000_0000_0000_0000_0000_0000_0000_0000, lo: a.x.v.lo }
                } else {
                    a.x.v
                }
            },
            None => U256::zero(),
        };
        let mut out: Vec<u8> = Vec::new();
        v.write_be(&mut out);
        proof {
            reveal(nat_bytes);
            lemma_u256_of_view(v);
        }
        assert(out@ =~= G1::compressed(self@));
        out
    }
}

} // verus!
