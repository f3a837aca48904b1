pub mod arith;
pub mod curve_error;
pub mod fq;
pub mod fq12;
pub mod fq2;
pub mod fq6;
pub mod fr;
pub mod g1;
pub mod g2;
pub mod gt;
pub mod pairing;

pub use crate::curve_error::CurveError;
pub use crate::fr::FieldError;
pub use crate::fr::pop;
pub use crate::fr::Fr;
pub use crate::g1::G1;
pub use crate::g2::G2;
pub use crate::gt::Gt;
pub use crate::gt::SerializableGt;
pub use crate::pairing::pairing;
