use vstd::prelude::*;
use crate::fq12::{Fq12, Fq12Value};
use crate::fr::{FieldError, Fr};

verus! {

/// An element of the target group of the pairing, held as an element of the
/// degree-twelve extension.
#[derive(Clone, Copy, Debug, PartialEq, Eq, Structural)]
pub struct Gt(pub Fq12);

impl View for Gt {
    type V = Fq12Value;

    open spec fn view(&self) -> Fq12Value {
        self.0@
    }
}

impl Gt {
    /// Every coordinate is a reduced residue.
    pub open spec fn wf(&self) -> bool {
        self.0.wf()
    }

    /// The identity of the group.
    pub fn one() -> (r: Gt)
        ensures
            r.wf(),
            r@ == Fq12Value::one(),
    {
        Gt(Fq12::one())
    }

    /// The power by a scalar, over all 256 bits of the scalar.
    pub fn pow(&self, exp: Fr) -> (r: Gt)
        requires
            self.wf(),
        ensures
            r.wf(),
            r@ == self@.pow(exp@),
    {
        Gt(self.0.pow_u256(&exp.v))
    }

    /// The product of two elements.
    pub fn mul(&self, other: &Gt) -> (r: Gt)
        requires
            self.wf(),
            other.wf(),
        ensures
            r.wf(),
            r@ == self@.mul(other@),
    {
        Gt(self.0.mul(&other.0))
    }

    /// Whether two elements agree in every coordinate.
    pub fn equals(&self, other: &Gt) -> (r: bool)
        requires
            self.wf(),
            other.wf(),
        ensures
            r == self@.equals(other@),
    {
        self.0.equals(&other.0)
    }

    /// The inverse of an element that has one.
    pub fn inverse(&self) -> (r: Gt)
        requires
            self.wf(),
            self@.inverse().is_some(),
        ensures
            r.wf(),
            r@ == self@.inverse().unwrap(),
            self@.mul(r@) == Fq12Value::one(),
    {
        proof {
            Fq12Value::lemma_inverse(self@);
        }
        match self.0.inverse() {
            Some(x) => Gt(x),
            None => *self,
        }
    }

    /// The inverse of the element, or nothing where it has none.
    pub fn checked_inverse(&self) -> (r: Option<Gt>)
        requires
            self.wf(),
        ensures
            r.is_some() == self@.inverse().is_some(),
            r matches Some(x) ==> x.wf() && x@ == self@.inverse().unwrap() && self@.mul(x@)
                == Fq12Value::one(),
    {
        proof {
            Fq12Value::lemma_inverse(self@);
        }
        match self.0.inverse() {
            Some(x) => Some(Gt(x)),
            None => None,
        }
    }

    /// Reads an element from its 384 bytes: twelve reduced residues.
    /// Whether the element lies in the target group is not looked at.
    pub fn from_slice(slice: &[u8]) -> (r: Result<Gt, FieldError>)
        ensures
            r.is_ok() == Fq12::decode(slice@).is_ok(),
            r matches Ok(x) ==> x.wf() && Fq12::decode(slice@) == Ok::<Fq12, FieldError>(x.0),
            r matches Err(e) ==> Fq12::decode(slice@) == Err::<Fq12, FieldError>(e),
    {
        match Fq12::from_slice(slice) {
            Ok(x) => Ok(Gt(x)),
            Err(e) => Err(e),
        }
    }

    /// The 384 bytes of the element.
    pub fn into_bytes(&self) -> (r: Vec<u8>)
        ensures
            r@ == self@.encoding(),
    {
        self.0.into_bytes()
    }
}

/// The types that stand for elements of the target group.
pub trait SerializableGt: Copy + Clone + PartialEq + Eq {

}

impl SerializableGt for Gt {

}

} // verus!
