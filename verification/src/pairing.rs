use vstd::prelude::*;
use crate::arith::U256;
use crate::fq::Fq;
use crate::fq12::{Fq12, Fq12Value};
use crate::fq2::{frobenius_coefficient, frobenius_factor, Fq2, Fq2Value};
use crate::g1::{G1, G1Value};
use crate::g2::{G2, G2Value};
use crate::gt::Gt;

verus! {

/// The curve parameter `u`; the Miller loop runs over the bits of `6 u + 2`.
pub open spec fn curve_parameter() -> nat {
    4965661367192848881
}

/// The length of the Miller loop: `6 u + 2`.
pub open spec fn ate_loop_count() -> nat {
    29793968203157093288
}

/// The weight of the highest bit of the loop count that a round is run for:
/// the bit below its leading one.
pub open spec fn ate_top_weight() -> nat {
    0x8000_0000_0000_0000
}

/// The accumulator and the running point of the Miller loop as values.
pub struct MillerValue {
    pub f: Fq12Value,
    pub x: Fq2Value,
    pub y: Fq2Value,
}

/// The state of the Miller loop: the accumulator `f` and the running point
/// `(x, y)` of the twist, in affine form.
#[derive(Clone, Copy, Debug)]
pub struct MillerState {
    pub f: Fq12,
    pub x: Fq2,
    pub y: Fq2,
}

impl View for MillerState {
    type V = MillerValue;

    open spec fn view(&self) -> MillerValue {
        MillerValue { f: self.f@, x: self.x@, y: self.y@ }
    }
}

impl MillerValue {
    /// One doubling round: the accumulator squared and multiplied by the tangent at the running point, taken at `(px, py)`, and the running point doubled. Where the tangent is vertical only the squaring is done.
    #[verifier::opaque]
    pub open spec fn double_step(self, px: nat, py: nat) -> MillerValue {
        let f2 = self.f.square();
        let xx = self.x.square();
        let xx2 = xx.add(xx);
        let xx3 = xx2.add(xx);
        let y2 = self.y.add(self.y);
        match y2.inverse() {
            Some(yi) => {
                let lam = xx3.mul(yi);
                let lam2 = lam.square();
                let x2 = self.x.add(self.x);
                let x3 = lam2.sub(x2);
                let dx = self.x.sub(x3);
                let ldx = lam.mul(dx);
                let y3 = ldx.sub(self.y);
                let lp = lam.scale(px);
                let l1 = lp.neg();
                let lx = lam.mul(self.x);
                let l3 = lx.sub(self.y);
                MillerValue { f: f2.mul_by_line(py, l1, l3), x: x3, y: y3 }
            },
            None => MillerValue { f: f2, x: self.x, y: self.y },
        }
    }

    /// One addition round: the accumulator multiplied by the chord through the running point and `(qx, qy)`, taken at `(px, py)`, and `(qx, qy)` added to the running point. Where the chord is vertical nothing changes.
    #[verifier::opaque]
    pub open spec fn add_step(self, qx: Fq2Value, qy: Fq2Value, px: nat, py: nat) -> MillerValue {
        let dx = qx.sub(self.x);
        let dy = qy.sub(self.y);
        match dx.inverse() {
            Some(di) => {
                let lam = dy.mul(di);
                let lam2 = lam.square();
                let s = lam2.sub(self.x);
                let x3 = s.sub(qx);
                let d = self.x.sub(x3);
                let ld = lam.mul(d);
                let y3 = ld.sub(self.y);
                let lp = lam.scale(px);
                let l1 = lp.neg();
                let lx = lam.mul(self.x);
                let l3 = lx.sub(self.y);
                MillerValue { f: self.f.mul_by_line(py, l1, l3), x: x3, y: y3 }
            },
            None => MillerValue { f: self.f, x: self.x, y: self.y },
        }
    }

    /// The two closing rounds: the additions of the Frobenius image of `(qx, qy)` and of the opposite of its second Frobenius image.
    #[verifier::opaque]
    pub open spec fn frobenius_steps(self, qx: Fq2Value, qy: Fq2Value, px: nat, py: nat) -> MillerValue {
        let q1x0 = qx.conjugate();
        let q1x = q1x0.mul(frobenius_factor(2)@);
        let q1y0 = qy.conjugate();
        let q1y = q1y0.mul(frobenius_factor(3)@);
        let q2x0 = q1x.conjugate();
        let q2x = q2x0.mul(frobenius_factor(2)@);
        let q2y0 = q1y.conjugate();
        let q2y1 = q2y0.mul(frobenius_factor(3)@);
        let q2y = q2y1.neg();
        let s1 = self.add_step(q1x, q1y, px, py);
        s1.add_step(q2x, q2y, px, py)
    }

    /// The state after the rounds for the bits of the loop count of weight
    /// `weight` and below, the highest first.
    pub open spec fn rounds(self, weight: nat, qx: Fq2Value, qy: Fq2Value, px: nat, py: nat) -> MillerValue
        decreases weight,
    {
        if weight == 0 {
            self
        } else {
            let d = self.double_step(px, py);
            let a = if (ate_loop_count() / weight) % 2 == 1 {
                d.add_step(qx, qy, px, py)
            } else {
                d
            };
            a.rounds(weight / 2, qx, qy, px, py)
        }
    }
}

impl MillerState {
    /// Every coordinate is a reduced residue.
    pub open spec fn wf(&self) -> bool {
        self.f.wf() && self.x.wf() && self.y.wf()
    }

    /// One doubling round: the accumulator squared and multiplied by the tangent at the running point, taken at `(px, py)`, and the running point doubled. Where the tangent is vertical only the squaring is done.
    pub fn double_step(&self, px: &Fq, py: &Fq) -> (r: MillerState)
        requires
            self.wf(),
            px.wf(),
            py.wf(),
        ensures
            r.wf(),
            r@ == self@.double_step(px@, py@),
    {
        proof {
            reveal(MillerValue::double_step);
        }
        let f2 = self.f.square();
        let xx = self.x.square();
        let xx2 = xx.add(&xx);
        let xx3 = xx2.add(&xx);
        let y2 = self.y.add(&self.y);
        match y2.inverse() {
            Some(yi) => {
                let lam = xx3.mul(&yi);
                let lam2 = lam.square();
                let x2 = self.x.add(&self.x);
                let x3 = lam2.sub(&x2);
                let dx = self.x.sub(&x3);
                let ldx = lam.mul(&dx);
                let y3 = ldx.sub(&self.y);
                let lp = lam.scale(px);
                let l1 = lp.neg();
                let lx = lam.mul(&self.x);
                let l3 = lx.sub(&self.y);
                MillerState { f: f2.mul_by_line(py, &l1, &l3), x: x3, y: y3 }
            },
            None => MillerState { f: f2, x: self.x, y: self.y },
        }
    }

    /// One addition round: the accumulator multiplied by the chord through the running point and `(qx, qy)`, taken at `(px, py)`, and `(qx, qy)` added to the running point. Where the chord is vertical nothing changes.
    pub fn add_step(&self, qx: &Fq2, qy: &Fq2, px: &Fq, py: &Fq) -> (r: MillerState)
        requires
            self.wf(),
            qx.wf(),
            qy.wf(),
            px.wf(),
            py.wf(),
        ensures
            r.wf(),
            r@ == self@.add_step(qx@, qy@, px@, py@),
    {
        proof {
            reveal(MillerValue::add_step);
        }
        let dx = qx.sub(&self.x);
        let dy = qy.sub(&self.y);
        match dx.inverse() {
            Some(di) => {
                let lam = dy.mul(&di);
                let lam2 = lam.square();
                let s = lam2.sub(&self.x);
                let x3 = s.sub(qx);
                let d = self.x.sub(&x3);
                let ld = lam.mul(&d);
                let y3 = ld.sub(&self.y);
                let lp = lam.scale(px);
                let l1 = lp.neg();
                let lx = lam.mul(&self.x);
                let l3 = lx.sub(&self.y);
                MillerState { f: self.f.mul_by_line(py, &l1, &l3), x: x3, y: y3 }
            },
            None => MillerState { f: self.f, x: self.x, y: self.y },
        }
    }

    /// The two closing rounds: the additions of the Frobenius image of `(qx, qy)` and of the opposite of its second Frobenius image.
    pub fn frobenius_steps(&self, qx: &Fq2, qy: &Fq2, px: &Fq, py: &Fq) -> (r: MillerState)
        requires
            self.wf(),
            qx.wf(),
            qy.wf(),
            px.wf(),
            py.wf(),
        ensures
            r.wf(),
            r@ == self@.frobenius_steps(qx@, qy@, px@, py@),
    {
        proof {
            reveal(MillerValue::frobenius_steps);
        }
        let q1x0 = qx.conjugate();
        let q1x = q1x0.mul(&frobenius_coefficient(2));
        let q1y0 = qy.conjugate();
        let q1y = q1y0.mul(&frobenius_coefficient(3));
        let q2x0 = q1x.conjugate();
        let q2x = q2x0.mul(&frobenius_coefficient(2));
        let q2y0 = q1y.conjugate();
        let q2y1 = q2y0.mul(&frobenius_coefficient(3));
        let q2y = q2y1.neg();
        let s1 = self.add_step(&q1x, &q1y, px, py);
        s1.add_step(&q2x, &q2y, px, py)
    }
}

impl Fq12Value {
    /// The inverse of the power by the curve parameter, on an element of the
    /// cyclotomic subgroup.
    pub open spec fn exp_by_neg_z(self) -> Fq12Value {
        Fq12Value::pow_loop(Fq12Value::one(), self, curve_parameter(), 63).unitary_inverse()
    }

    /// The hard part of the final exponentiation, on an element of the cyclotomic subgroup: through three powers by the curve parameter `u` and the Frobenius map, the power by `2 u (6 u^2 + 3 u + 1) (q^4 - q^2 + 1) / r`.
    #[verifier::opaque]
    pub open spec fn final_exponentiation_hard(self) -> Fq12Value {
        let a = self.exp_by_neg_z();
        let b = a.cyclotomic_square();
        let c = b.cyclotomic_square();
        let d = c.mul(b);
        let e = d.exp_by_neg_z();
        let f = e.cyclotomic_square();
        let g = f.exp_by_neg_z();
        let h = d.unitary_inverse();
        let i = g.unitary_inverse();
        let j = i.mul(e);
        let k = j.mul(h);
        let l = k.mul(b);
        let m = k.mul(e);
        let n = self.mul(m);
        let o = l.frobenius();
        let p = o.mul(n);
        let q0 = k.frobenius();
        let q = q0.frobenius();
        let r1 = q.mul(p);
        let s = self.unitary_inverse();
        let t = s.mul(l);
        let u0 = t.frobenius();
        let u1 = u0.frobenius();
        let u = u1.frobenius();
        u.mul(r1)
    }

    /// The final exponentiation: the easy part, the power by `(q^6 - 1) (q^2 + 1)` through conjugation, one inversion and the Frobenius map, then the hard part. An element without inverse gives one.
    #[verifier::opaque]
    pub open spec fn final_exponentiation(self) -> Fq12Value {
        match self.inverse() {
            Some(fi) => {
                let c = self.unitary_inverse();
                let a = c.mul(fi);
                let a1 = a.frobenius();
                let a2 = a1.frobenius();
                let b = a2.mul(a);
                b.final_exponentiation_hard()
            },
            None => Fq12Value::one(),
        }
    }
}

impl Fq12 {
    /// The inverse of the power by the curve parameter, on an element of the
    /// cyclotomic subgroup.
    pub fn exp_by_neg_z(&self) -> (r: Fq12)
        requires
            self.wf(),
        ensures
            r.wf(),
            r@ == self@.exp_by_neg_z(),
    {
        let u = U256 { hi: 0, lo: 4965661367192848881 };
        let p = self.pow_rounds(&u, 63);
        p.unitary_inverse()
    }

    /// The hard part of the final exponentiation, on an element of the cyclotomic subgroup: through three powers by the curve parameter `u` and the Frobenius map, the power by `2 u (6 u^2 + 3 u + 1) (q^4 - q^2 + 1) / r`.
    pub fn final_exponentiation_hard(&self) -> (r: Fq12)
        requires
            self.wf(),
        ensures
            r.wf(),
            r@ == self@.final_exponentiation_hard(),
    {
        proof {
            reveal(Fq12Value::final_exponentiation_hard);
        }
        let a = self.exp_by_neg_z();
        let b = a.cyclotomic_square();
        let c = b.cyclotomic_square();
        let d = c.mul(&b);
        let e = d.exp_by_neg_z();
        let f = e.cyclotomic_square();
        let g = f.exp_by_neg_z();
        let h = d.unitary_inverse();
        let i = g.unitary_inverse();
        let j = i.mul(&e);
        let k = j.mul(&h);
        let l = k.mul(&b);
        let m = k.mul(&e);
        let n = self.mul(&m);
        let o = l.frobenius();
        let p = o.mul(&n);
        let q0 = k.frobenius();
        let q = q0.frobenius();
        let r1 = q.mul(&p);
        let s = self.unitary_inverse();
        let t = s.mul(&l);
        let u0 = t.frobenius();
        let u1 = u0.frobenius();
        let u = u1.frobenius();
        u.mul(&r1)
    }

    /// The final exponentiation: the easy part, the power by `(q^6 - 1) (q^2 + 1)` through conjugation, one inversion and the Frobenius map, then the hard part. An element without inverse gives one.
    pub fn final_exponentiation(&self) -> (r: Fq12)
        requires
            self.wf(),
        ensures
            r.wf(),
            r@ == self@.final_exponentiation(),
    {
        proof {
            reveal(Fq12Value::final_exponentiation);
        }
        match self.inverse() {
            Some(fi) => {
                let c = self.unitary_inverse();
                let a = c.mul(&fi);
                let a1 = a.frobenius();
                let a2 = a1.frobenius();
                let b = a2.mul(&a);
                b.final_exponentiation_hard()
            },
            None => Fq12::one(),
        }
    }
}

/// The value of the Miller loop at the affine points `(px, py)` of the curve
/// and `(qx, qy)` of the twist.
pub open spec fn miller_value(px: nat, py: nat, qx: Fq2Value, qy: Fq2Value) -> Fq12Value {
    (MillerValue { f: Fq12Value::one(), x: qx, y: qy }).rounds(
        ate_top_weight(),
        qx,
        qy,
        px,
        py,
    ).frobenius_steps(qx, qy, px, py).f
}

/// The pairing of two points as a value: one where either is the identity,
/// else the final exponentiation of the Miller loop at their affine forms.
pub open spec fn pairing_value(p: G1Value, q: G2Value) -> Fq12Value {
    match (p.to_affine(), q.to_affine()) {
        (Some(a), Some(b)) => miller_value(a.x, a.y, b.x, b.y).final_exponentiation(),
        _ => Fq12Value::one(),
    }
}

/// The pairing with the identity of either group is one.
pub proof fn lemma_pairing_with_identity(p: G1Value, q: G2Value)
    ensures
        pairing_value(G1Value::zero(), q) == Fq12Value::one(),
        pairing_value(p, G2Value::zero()) == Fq12Value::one(),
{
    reveal(G1Value::to_affine);
    reveal(G2Value::to_affine);
}

/// The Miller loop of the optimal ate pairing at two affine points.
pub fn miller_loop(px: &Fq, py: &Fq, qx: &Fq2, qy: &Fq2) -> (r: Fq12)
    requires
        px.wf(),
        py.wf(),
        qx.wf(),
        qy.wf(),
    ensures
        r.wf(),
        r@ == miller_value(px@, py@, qx@, qy@),
{
    let mut st = MillerState { f: Fq12::one(), x: *qx, y: *qy };
    let mut weight: u128 = 0x8000_0000_0000_0000;
    while weight > 0
        invariant
            st.wf(),
            px.wf(),
            py.wf(),
            qx.wf(),
            qy.wf(),
            st@.rounds(weight as nat, qx@, qy@, px@, py@) == (MillerValue {
                f: Fq12Value::one(),
                x: qx@,
                y: qy@,
            }).rounds(ate_top_weight(), qx@, qy@, px@, py@),
        decreases weight,
    {
        st = st.double_step(px, py);
        if (29793968203157093288u128 / weight) % 2 == 1 {
            st = st.add_step(qx, qy, px, py);
        }
        weight = weight / 2;
    }
    let last = st.frobenius_steps(qx, qy, px, py);
    last.f
}

/// The optimal ate pairing of a point of each group. Where either point is
/// the identity the result is one.
pub fn pairing(p: G1, q: G2) -> (r: Gt)
    requires
        p.wf(),
        q.wf(),
    ensures
        r.wf(),
        r@ == pairing_value(p@, q@),
{
    match p.to_affine() {
        Some(a) => match q.to_affine() {
            Some(b) => {
                let f = miller_loop(&a.x, &a.y, &b.x, &b.y);
                Gt(f.final_exponentiation())
            },
            None => Gt::one(),
        },
        None => Gt::one(),
    }
}

} // verus!
