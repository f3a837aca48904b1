use vstd::prelude::*;
use vstd::slice::slice_subrange;
use crate::arith::{lemma_nat_bytes_len, U256};
use crate::curve_error::CurveError;
use crate::fq::Fq;
use crate::fq2::{Fq2, Fq2Value};
use crate::fr::{FieldError, Fr};

verus! {

/// The three coordinates of a point, as residues.
pub struct G2Value {
    pub x: Fq2Value,
    pub y: Fq2Value,
    pub z: Fq2Value,
}

/// A point of the twist `y^2 = x^3 + 3 / (9 + u)` over the quadratic extension, in Jacobian coordinates: `(x, y, z)` stands for `(x / z^2, y / z^3)`, and `z = 0` for the point at infinity.
#[derive(Clone, Copy, Debug, PartialEq, Eq, Structural)]
pub struct G2 {
    pub x: Fq2,
    pub y: Fq2,
    pub z: Fq2,
}

impl View for G2 {
    type V = G2Value;

    open spec fn view(&self) -> G2Value {
        G2Value { x: self.x@, y: self.y@, z: self.z@ }
    }
}

impl G2Value {
    /// The identity of the group: the point at infinity.
    pub open spec fn zero() -> G2Value {
        G2Value { x: Fq2Value::zero(), y: Fq2Value::one(), z: Fq2Value::zero() }
    }

    /// The fixed generator of the group.
    pub open spec fn one() -> G2Value {
        G2Value { x: (Fq2 { c0: Fq { v: U256 { hi: 0x1800_deef_121f_1e76_426a_0066_5e5c_4479, lo: 0x6743_22d4_f75e_dadd_46de_bd5c_d992_f6ed } }, c1: Fq { v: U256 { hi: 0x198e_9393_920d_483a_7260_bfb7_31fb_5d25, lo: 0xf1aa_4933_35a9_e712_97e4_85b7_aef3_12c2 } } })@, y: (Fq2 { c0: Fq { v: U256 { hi: 0x12c8_5ea5_db8c_6deb_4aab_7180_8dcb_408f, lo: 0xe3d1_e769_0c43_d37b_4ce6_cc01_66fa_7daa } }, c1: Fq { v: U256 { hi: 0x0906_89d0_585f_f075_ec9e_99ad_690c_3395, lo: 0xbc4b_3133_70b3_8ef3_55ac_dadc_d122_975b } } })@, z: Fq2Value::one() }
    }

    /// Whether the point is the identity.
    pub open spec fn is_zero(self) -> bool {
        self.z.is_zero()
    }

    /// Twice the point.
    #[verifier::opaque]
    pub open spec fn double(self) -> G2Value {
        let a = self.x.mul(self.x);
        let b = self.y.mul(self.y);
        let c = b.mul(b);
        let t = self.x.add(b);
        let t2 = t.mul(t);
        let t3 = t2.sub(a);
        let t4 = t3.sub(c);
        let d = t4.add(t4);
        let e1 = a.add(a);
        let e = e1.add(a);
        let f = e.mul(e);
        let d2 = d.add(d);
        let x3 = f.sub(d2);
        let c2 = c.add(c);
        let c4 = c2.add(c2);
        let c8 = c4.add(c4);
        let u = d.sub(x3);
        let v = e.mul(u);
        let y3 = v.sub(c8);
        let yz = self.y.mul(self.z);
        let z3 = yz.add(yz);
        G2Value { x: x3, y: y3, z: z3 }
    }

    /// The sum of two points; equal points are doubled, opposite points give the identity.
    #[verifier::opaque]
    pub open spec fn add(self, other: G2Value) -> G2Value {
        if self.z.is_zero() {
            other
        } else if other.z.is_zero() {
            self
        } else {
            let z1z1 = self.z.mul(self.z);
            let z2z2 = other.z.mul(other.z);
            let u1 = self.x.mul(z2z2);
            let u2 = other.x.mul(z1z1);
            let t1 = self.y.mul(other.z);
            let s1 = t1.mul(z2z2);
            let t2 = other.y.mul(self.z);
            let s2 = t2.mul(z1z1);
            if u1.equals(u2) && s1.equals(s2) {
                self.double()
            } else {
                let h = u2.sub(u1);
                let h2 = h.add(h);
                let i = h2.mul(h2);
                let j = h.mul(i);
                let r0 = s2.sub(s1);
                let rr = r0.add(r0);
                let v = u1.mul(i);
                let r2 = rr.mul(rr);
                let x3a = r2.sub(j);
                let v2 = v.add(v);
                let x3 = x3a.sub(v2);
                let w = v.sub(x3);
                let rw = rr.mul(w);
                let sj = s1.mul(j);
                let sj2 = sj.add(sj);
                let y3 = rw.sub(sj2);
                let zz = self.z.add(other.z);
                let zz2 = zz.mul(zz);
                let zz3 = zz2.sub(z1z1);
                let zz4 = zz3.sub(z2z2);
                let z3 = zz4.mul(h);
                G2Value { x: x3, y: y3, z: z3 }
            }
        }
    }

    /// The opposite point.
    pub open spec fn neg(self) -> G2Value {
        G2Value { x: self.x, y: self.y.neg(), z: self.z }
    }

    /// The sum with the opposite of `other`.
    pub open spec fn sub(self, other: G2Value) -> G2Value {
        let n = other.neg();
        self.add(n)
    }

    /// Whether two triples stand for the same point.
    #[verifier::opaque]
    pub open spec fn equals(self, other: G2Value) -> bool {
        if self.z.is_zero() {
            other.z.is_zero()
        } else if other.z.is_zero() {
            false
        } else {
            let z1z1 = self.z.mul(self.z);
            let z2z2 = other.z.mul(other.z);
            let u1 = self.x.mul(z2z2);
            let u2 = other.x.mul(z1z1);
            let t1 = self.y.mul(other.z);
            let s1 = t1.mul(z2z2);
            let t2 = other.y.mul(self.z);
            let s2 = t2.mul(z1z1);
            u1.equals(u2) && s1.equals(s2)
        }
    }

    /// The representative with `z = 1`; the identity has none.
    #[verifier::opaque]
    pub open spec fn to_affine(self) -> Option<G2Value> {
        if self.z.is_zero() {
            None
        } else {
            match self.z.inverse() {
                Some(zi) => {
                    let zi2 = zi.mul(zi);
                    let zi3 = zi2.mul(zi);
                    Some(G2Value { x: self.x.mul(zi2), y: self.y.mul(zi3), z: Fq2Value::one() })
                },
                None => None,
            }
        }
    }

    /// Whether the triple meets `y^2 = x^3 + (3 / (9 + u)) z^6`; the identity does.
    #[verifier::opaque]
    pub open spec fn is_on_curve(self) -> bool {
        if self.z.is_zero() {
            true
        } else {
            let y2 = self.y.mul(self.y);
            let x2 = self.x.mul(self.x);
            let x3 = x2.mul(self.x);
            let z2 = self.z.mul(self.z);
            let z4 = z2.mul(z2);
            let z6 = z4.mul(z2);
            let b = (Fq2 { c0: Fq { v: U256 { hi: 0x2b14_9d40_ceb8_aaae_81be_1899_1be0_6ac3, lo: 0xb5b4_c5e5_59db_efa3_3267_e6dc_24a1_38e5 } }, c1: Fq { v: U256 { hi: 0x0097_13b0_3af0_fed4_cd2c_afad_eed8_fdf4, lo: 0xa74f_a084_e52d_1852_e4a2_bd06_85c3_15d2 } } })@;
            let bz = b.mul(z6);
            let rhs = x3.add(bz);
            y2.equals(rhs)
        }
    }

    /// The value after `n` more rounds of doubling `cur` and adding it to
    /// `acc` where the lowest bit of `k` is set.
    pub open spec fn mul_loop(acc: G2Value, cur: G2Value, k: nat, n: nat) -> G2Value
        decreases n,
    {
        if n == 0 {
            acc
        } else {
            G2Value::mul_loop(
                if k % 2 == 1 {
                    acc.add(cur)
                } else {
                    acc
                },
                cur.double(),
                k / 2,
                (n - 1) as nat,
            )
        }
    }

    /// Adding a point to the identity gives that point, and adding the
    /// identity to a point other than the identity gives that point.
    pub proof fn lemma_add_identity(p: G2Value)
        ensures
            G2Value::zero().add(p) == p,
            !p.is_zero() ==> p.add(G2Value::zero()) == p,
    {
        reveal(G2Value::add);
    }

    /// The multiple of the point by `k`, by doubling and adding over the 256
    /// bits of `k` from the lowest up.
    pub open spec fn mul(self, k: nat) -> G2Value {
        G2Value::mul_loop(G2Value::zero(), self, k, 256)
    }

    /// The bytes of the point: the affine coordinates, each residue as 32
    /// big-endian bytes, or zeros for the identity.
    pub open spec fn encoding(self) -> Seq<u8> {
        match self.to_affine() {
            Some(a) => a.x.encoding() + a.y.encoding(),
            None => Seq::new(128, |i: int| 0u8),
        }
    }

    /// The point after normalising: its representative with `z = 1` where
    /// it has one, else the point unchanged.
    pub open spec fn normalized(self) -> G2Value {
        match self.to_affine() {
            Some(a) => a,
            None => self,
        }
    }
}

impl G2 {
    /// Every coordinate is a reduced residue.
    pub open spec fn wf(&self) -> bool {
        self.x.wf() && self.y.wf() && self.z.wf()
    }

    /// The identity of the group: the point at infinity.
    pub fn zero() -> (r: G2)
        ensures
            r.wf(),
            r@ == G2Value::zero(),
    {
        G2 { x: Fq2::zero(), y: Fq2::one(), z: Fq2::zero() }
    }

    /// The fixed generator of the group.
    pub fn one() -> (r: G2)
        ensures
            r.wf(),
            r@ == G2Value::one(),
    {
        G2 { x: Fq2 { c0: Fq { v: U256 { hi: 0x1800_deef_121f_1e76_426a_0066_5e5c_4479, lo: 0x6743_22d4_f75e_dadd_46de_bd5c_d992_f6ed } }, c1: Fq { v: U256 { hi: 0x198e_9393_920d_483a_7260_bfb7_31fb_5d25, lo: 0xf1aa_4933_35a9_e712_97e4_85b7_aef3_12c2 } } }, y: Fq2 { c0: Fq { v: U256 { hi: 0x12c8_5ea5_db8c_6deb_4aab_7180_8dcb_408f, lo: 0xe3d1_e769_0c43_d37b_4ce6_cc01_66fa_7daa } }, c1: Fq { v: U256 { hi: 0x0906_89d0_585f_f075_ec9e_99ad_690c_3395, lo: 0xbc4b_3133_70b3_8ef3_55ac_dadc_d122_975b } } }, z: Fq2::one() }
    }

    /// Whether the point is the identity.
    pub fn is_zero(&self) -> (r: bool)
        requires
            self.wf(),
        ensures
            r == self@.is_zero(),
    {
        self.z.is_zero()
    }

    /// Twice the point.
    pub fn double(&self) -> (r: G2)
        requires
            self.wf(),
        ensures
            r.wf(),
            r@ == self@.double(),
    {
        proof {
            reveal(G2Value::double);
        }
        let a = self.x.mul(&self.x);
        let b = self.y.mul(&self.y);
        let c = b.mul(&b);
        let t = self.x.add(&b);
        let t2 = t.mul(&t);
        let t3 = t2.sub(&a);
        let t4 = t3.sub(&c);
        let d = t4.add(&t4);
        let e1 = a.add(&a);
        let e = e1.add(&a);
        let f = e.mul(&e);
        let d2 = d.add(&d);
        let x3 = f.sub(&d2);
        let c2 = c.add(&c);
        let c4 = c2.add(&c2);
        let c8 = c4.add(&c4);
        let u = d.sub(&x3);
        let v = e.mul(&u);
        let y3 = v.sub(&c8);
        let yz = self.y.mul(&self.z);
        let z3 = yz.add(&yz);
        G2 { x: x3, y: y3, z: z3 }
    }

    /// The sum of two points; equal points are doubled, opposite points give the identity.
    pub fn add(&self, other: &G2) -> (r: G2)
        requires
            self.wf(),
            other.wf(),
        ensures
            r.wf(),
            r@ == self@.add(other@),
    {
        proof {
            reveal(G2Value::add);
        }
        if self.z.is_zero() {
            *other
        } else if other.z.is_zero() {
            *self
        } else {
            let z1z1 = self.z.mul(&self.z);
            let z2z2 = other.z.mul(&other.z);
            let u1 = self.x.mul(&z2z2);
            let u2 = other.x.mul(&z1z1);
            let t1 = self.y.mul(&other.z);
            let s1 = t1.mul(&z2z2);
            let t2 = other.y.mul(&self.z);
            let s2 = t2.mul(&z1z1);
            if u1.equals(&u2) && s1.equals(&s2) {
                self.double()
            } else {
                let h = u2.sub(&u1);
                let h2 = h.add(&h);
                let i = h2.mul(&h2);
                let j = h.mul(&i);
                let r0 = s2.sub(&s1);
                let rr = r0.add(&r0);
                let v = u1.mul(&i);
                let r2 = rr.mul(&rr);
                let x3a = r2.sub(&j);
                let v2 = v.add(&v);
                let x3 = x3a.sub(&v2);
                let w = v.sub(&x3);
                let rw = rr.mul(&w);
                let sj = s1.mul(&j);
                let sj2 = sj.add(&sj);
                let y3 = rw.sub(&sj2);
                let zz = self.z.add(&other.z);
                let zz2 = zz.mul(&zz);
                let zz3 = zz2.sub(&z1z1);
                let zz4 = zz3.sub(&z2z2);
                let z3 = zz4.mul(&h);
                G2 { x: x3, y: y3, z: z3 }
            }
        }
    }

    /// The opposite point.
    pub fn neg(&self) -> (r: G2)
        requires
            self.wf(),
        ensures
            r.wf(),
            r@ == self@.neg(),
    {
        G2 { x: self.x, y: self.y.neg(), z: self.z }
    }

    /// The sum with the opposite of `other`.
    pub fn sub(&self, other: &G2) -> (r: G2)
        requires
            self.wf(),
            other.wf(),
        ensures
            r.wf(),
            r@ == self@.sub(other@),
    {
        let n = other.neg();
        self.add(&n)
    }

    /// Whether two triples stand for the same point.
    pub fn equals(&self, other: &G2) -> (r: bool)
        requires
            self.wf(),
            other.wf(),
        ensures
            r == self@.equals(other@),
    {
        proof {
            reveal(G2Value::equals);
        }
        if self.z.is_zero() {
            other.z.is_zero()
        } else if other.z.is_zero() {
            false
        } else {
            let z1z1 = self.z.mul(&self.z);
            let z2z2 = other.z.mul(&other.z);
            let u1 = self.x.mul(&z2z2);
            let u2 = other.x.mul(&z1z1);
            let t1 = self.y.mul(&other.z);
            let s1 = t1.mul(&z2z2);
            let t2 = other.y.mul(&self.z);
            let s2 = t2.mul(&z1z1);
            u1.equals(&u2) && s1.equals(&s2)
        }
    }

    /// The representative with `z = 1`; the identity has none.
    pub fn to_affine(&self) -> (r: Option<G2>)
        requires
            self.wf(),
        ensures
            r.is_some() == self@.to_affine().is_some(),
            r matches Some(x) ==> x.wf() && x@ == self@.to_affine().unwrap(),
    {
        proof {
            reveal(G2Value::to_affine);
        }
        if self.z.is_zero() {
            None
        } else {
            match self.z.inverse() {
                Some(zi) => {
                    let zi2 = zi.mul(&zi);
                    let zi3 = zi2.mul(&zi);
                    Some(G2 { x: self.x.mul(&zi2), y: self.y.mul(&zi3), z: Fq2::one() })
                },
                None => None,
            }
        }
    }

    /// Whether the triple meets `y^2 = x^3 + (3 / (9 + u)) z^6`; the identity does.
    pub fn is_on_curve(&self) -> (r: bool)
        requires
            self.wf(),
        ensures
            r == self@.is_on_curve(),
    {
        proof {
            reveal(G2Value::is_on_curve);
        }
        if self.z.is_zero() {
            true
        } else {
            let y2 = self.y.mul(&self.y);
            let x2 = self.x.mul(&self.x);
            let x3 = x2.mul(&self.x);
            let z2 = self.z.mul(&self.z);
            let z4 = z2.mul(&z2);
            let z6 = z4.mul(&z2);
            let b = Fq2 { c0: Fq { v: U256 { hi: 0x2b14_9d40_ceb8_aaae_81be_1899_1be0_6ac3, lo: 0xb5b4_c5e5_59db_efa3_3267_e6dc_24a1_38e5 } }, c1: Fq { v: U256 { hi: 0x0097_13b0_3af0_fed4_cd2c_afad_eed8_fdf4, lo: 0xa74f_a084_e52d_1852_e4a2_bd06_85c3_15d2 } } };
            let bz = b.mul(&z6);
            let rhs = x3.add(&bz);
            y2.equals(&rhs)
        }
    }

    /// The multiple of the point by a scalar, over all 256 bits of the
    /// scalar.
    pub fn mul(&self, scalar: &Fr) -> (r: G2)
        requires
            self.wf(),
        ensures
            r.wf(),
            r@ == self@.mul(scalar@),
    {
        self.mul_u256(&scalar.v)
    }

    /// The multiple of the point by any 256-bit integer.
    pub fn mul_u256(&self, scalar: &U256) -> (r: G2)
        requires
            self.wf(),
        ensures
            r.wf(),
            r@ == self@.mul(scalar@),
    {
        let mut acc = G2::zero();
        let mut cur = *self;
        let mut k = *scalar;
        let mut i: u32 = 0;
        while i < 256
            invariant
                i <= 256,
                acc.wf(),
                cur.wf(),
                G2Value::mul_loop(acc@, cur@, k@, (256 - i) as nat) == self@.mul(scalar@),
            decreases 256 - i,
        {
            if k.is_odd() {
                acc = acc.add(&cur);
            }
            cur = cur.double();
            k = k.half();
            i = i + 1;
        }
        acc
    }

    /// Replaces the triple by its representative with `z = 1`; the identity
    /// stays as it is.
    pub fn normalize(&mut self)
        requires
            old(self).wf(),
        ensures
            final(self).wf(),
            final(self)@ == old(self)@.normalized(),
    {
        match self.to_affine() {
            Some(a) => {
                *self = a;
            },
            None => {},
        }
    }

    /// The bytes of the point in affine form, or zeros for the identity.
    pub fn into_bytes(&self) -> (r: Vec<u8>)
        requires
            self.wf(),
        ensures
            r@ == self@.encoding(),
    {
        let mut out: Vec<u8> = Vec::new();
        match self.to_affine() {
            Some(a) => {
                a.x.write_bytes(&mut out);
                a.y.write_bytes(&mut out);
            },
            None => {
                let mut i: usize = 0;
                while i < 128
                    invariant
                        i <= 128,
                        out@ =~= Seq::new(i as nat, |j: int| 0u8),
                    decreases 128 - i,
                {
                    out.push(0u8);
                    i = i + 1;
                }
            },
        }
        assert(out@ =~= self@.encoding());
        out
    }

    /// The affine form of the point, or the error for the identity, which
    /// has none.
    pub fn affine_or_error(&self) -> (r: Result<G2, CurveError>)
        requires
            self.wf(),
        ensures
            r.is_ok() == self@.to_affine().is_some(),
            r matches Ok(a) ==> a.wf() && a@ == self@.to_affine().unwrap(),
            r matches Err(e) ==> e == CurveError::ToAffineConversion,
    {
        match self.to_affine() {
            Some(a) => Ok(a),
            None => Err(CurveError::ToAffineConversion),
        }
    }

    /// What `from_slice` makes of the bytes `s`: the two affine coordinates
    /// one after the other. Zero coordinates stand for the identity; other
    /// coordinates must be reduced, meet the curve equation and have the group order as a multiple that is the identity.
    pub open spec fn decode(s: Seq<u8>) -> Result<G2, CurveError> {
        if s.len() != 128 {
            Err(CurveError::Field(FieldError::InvalidSliceLength))
        } else {
            match Fq2::decode(s.subrange(0, 64)) {
                Err(e) => Err(CurveError::Field(e)),
                Ok(x) => match Fq2::decode(s.subrange(64, 128)) {
                    Err(e) => Err(CurveError::Field(e)),
                    Ok(y) => {
                        let p = G2 { x, y, z: Fq2 { c0: Fq { v: U256 { hi: 0, lo: 1 } }, c1: Fq { v: U256 { hi: 0, lo: 0 } } } };
                        if x@.is_zero() && y@.is_zero() {
                            Ok(G2 { x: Fq2 { c0: Fq { v: U256 { hi: 0, lo: 0 } }, c1: Fq { v: U256 { hi: 0, lo: 0 } } }, y: Fq2 { c0: Fq { v: U256 { hi: 0, lo: 1 } }, c1: Fq { v: U256 { hi: 0, lo: 0 } } }, z: Fq2 { c0: Fq { v: U256 { hi: 0, lo: 0 } }, c1: Fq { v: U256 { hi: 0, lo: 0 } } } })
                        } else if !p@.is_on_curve() {
                            Err(CurveError::InvalidEncoding)
                        } else if !p@.mul((U256 { hi: 0x3064_4e72_e131_a029_b850_45b6_8181_585d, lo: 0x2833_e848_79b9_7091_43e1_f593_f000_0001 })@).is_zero() {
                            Err(CurveError::NotMember)
                        } else {
                            Ok(p)
                        }
                    },
                },
            }
        }
    }

    /// Reads a point from its bytes.
    pub fn from_slice(slice: &[u8]) -> (r: Result<G2, CurveError>)
        ensures
            r == G2::decode(slice@),
            r matches Ok(p) ==> p.wf(),
    {
        if slice.len() != 128 {
            return Err(CurveError::Field(FieldError::InvalidSliceLength));
        }
        match Fq2::from_slice(slice_subrange(slice, 0, 64)) {
            Err(e) => Err(CurveError::Field(e)),
            Ok(x) => match Fq2::from_slice(slice_subrange(slice, 64, 128)) {
                Err(e) => Err(CurveError::Field(e)),
                Ok(y) => {
                    let p = G2 { x, y, z: Fq2 { c0: Fq { v: U256 { hi: 0, lo: 1 } }, c1: Fq { v: U256 { hi: 0, lo: 0 } } } };
                    if x.is_zero() && y.is_zero() {
                        Ok(G2 { x: Fq2 { c0: Fq { v: U256 { hi: 0, lo: 0 } }, c1: Fq { v: U256 { hi: 0, lo: 0 } } }, y: Fq2 { c0: Fq { v: U256 { hi: 0, lo: 1 } }, c1: Fq { v: U256 { hi: 0, lo: 0 } } }, z: Fq2 { c0: Fq { v: U256 { hi: 0, lo: 0 } }, c1: Fq { v: U256 { hi: 0, lo: 0 } } } })
                    } else if !p.is_on_curve() {
                        Err(CurveError::InvalidEncoding)
                    } else if !p.mul_u256(&U256 { hi: 0x3064_4e72_e131_a029_b850_45b6_8181_585d, lo: 0x2833_e848_79b9_7091_43e1_f593_f000_0001 }).is_zero() {
                        Err(CurveError::NotMember)
                    } else {
                        Ok(p)
                    }
                },
            },
        }
    }

    /// Reading back the bytes of an affine point that the decoder accepts
    /// gives the point.
    pub proof fn lemma_bytes_round_trip(a: G2)
        requires
            a.wf(),
            a.z == (Fq2 { c0: Fq { v: U256 { hi: 0, lo: 1 } }, c1: Fq { v: U256 { hi: 0, lo: 0 } } }),
            !(a.x@.is_zero() && a.y@.is_zero()),
            a@.is_on_curve(),
            a@.mul((U256 { hi: 0x3064_4e72_e131_a029_b850_45b6_8181_585d, lo: 0x2833_e848_79b9_7091_43e1_f593_f000_0001 })@).is_zero(),
        ensures
            G2::decode(a.x@.encoding() + a.y@.encoding()) == Ok::<G2, CurveError>(a),
    {
        let s = a.x@.encoding() + a.y@.encoding();
        lemma_nat_bytes_len(a.x.c0@);
        lemma_nat_bytes_len(a.x.c1@);
        lemma_nat_bytes_len(a.y.c0@);
        lemma_nat_bytes_len(a.y.c1@);
        assert(s.subrange(0, 64) =~= a.x@.encoding());
        assert(s.subrange(64, 128) =~= a.y@.encoding());
        Fq2::lemma_bytes_round_trip(a.x);
        Fq2::lemma_bytes_round_trip(a.y);
    }
}

} // verus!
