use vstd::prelude::*;
use crate::fr::FieldError;

verus! {

/// Why a point could not be read or converted.
#[derive(Clone, Copy, Debug, PartialEq, Eq, Structural)]
pub enum CurveError {
    InvalidEncoding,
    NotMember,
    Field(FieldError),
    ToAffineConversion,
}

impl From<FieldError> for CurveError {
    fn from(fe: FieldError) -> (r: CurveError) {
        CurveError::Field(fe)
    }
}

impl vstd::std_specs::convert::FromSpecImpl<FieldError> for CurveError {
    open spec fn obeys_from_spec() -> bool {
        true
    }

    open spec fn from_spec(fe: FieldError) -> CurveError {
        CurveError::Field(fe)
    }
}

} // verus!
