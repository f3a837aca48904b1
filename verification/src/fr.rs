use vstd::prelude::*;
use vstd::arithmetic::div_mod::*;
use vstd::arithmetic::power::pow;
use crate::arith::{
    be_value_32, lemma_be_32_round_trip, lemma_u256_of_view, nat_bytes, valid_modulus, U256,
};
use crate::arith::{all_decimal_digits, decimal_value, two_256};

verus! {

/// Why bytes were refused as a field element.
#[derive(Clone, Copy, Debug, PartialEq, Eq, Structural)]
pub enum FieldError {
    InvalidSliceLength,
    InvalidU512Encoding,
    NotMember,
}

/// The prime order of the three groups.
pub open spec fn fr_modulus() -> nat {
    (U256 { hi: 0x3064_4e72_e131_a029_b850_45b6_8181_585d, lo: 0x2833_e848_79b9_7091_43e1_f593_f000_0001 })@
}

/// An element of the scalar field, held as its least non-negative residue.
#[derive(Clone, Copy, Debug, PartialEq, Eq, Structural)]
pub struct Fr {
    pub v: U256,
}

impl View for Fr {
    type V = nat;

    open spec fn view(&self) -> nat {
        self.v@
    }
}

impl Fr {
    /// The residue is below the modulus.
    pub open spec fn wf(&self) -> bool {
        self.v@ < fr_modulus()
    }

    /// The residue that inverts `a` whenever anything does: `a^(p-2) mod p`.
    pub open spec fn inverse_candidate(a: nat) -> nat {
        (pow(a as int, (fr_modulus() - 2) as nat) % (fr_modulus() as int)) as nat
    }

    /// What `from_slice` makes of the bytes `s`.
    pub open spec fn decode(s: Seq<u8>) -> Result<Fr, FieldError> {
        if s.len() != 32 {
            Err(FieldError::InvalidSliceLength)
        } else if be_value_32(s, 0) >= fr_modulus() {
            Err(FieldError::NotMember)
        } else {
            Ok(
                Fr {
                    v: U256 {
                        hi: crate::arith::be_value_16(s, 0) as u128,
                        lo: crate::arith::be_value_16(s, 16) as u128,
                    },
                },
            )
        }
    }

    /// The modulus as an integer value.
    pub fn modulus() -> (m: U256)
        ensures
            m@ == fr_modulus(),
            valid_modulus(m@),
    {
        U256 { hi: 0x3064_4e72_e131_a029_b850_45b6_8181_585d, lo: 0x2833_e848_79b9_7091_43e1_f593_f000_0001 }
    }

    pub fn zero() -> (r: Fr)
        ensures
            r.wf(),
            r@ == 0,
    {
        Fr { v: U256::zero() }
    }

    pub fn one() -> (r: Fr)
        ensures
            r.wf(),
            r@ == 1,
    {
        Fr { v: U256::one() }
    }

    pub fn is_zero(&self) -> (r: bool)
        ensures
            r == (self@ == 0),
    {
        self.v.is_zero()
    }

    /// The element for a small integer.
    pub fn small(n: u64) -> (r: Fr)
        ensures
            r.wf(),
            r@ == n,
    {
        Fr { v: U256 { hi: 0, lo: n as u128 } }
    }

    /// Whether two elements are the same residue.
    pub fn equals(&self, other: &Fr) -> (r: bool)
        ensures
            r == (self@ == other@),
            r == (*self == *other),
    {
        self.v.hi == other.v.hi && self.v.lo == other.v.lo
    }

    /// The element that any 256-bit integer reduces to.
    pub fn new_mul_factor(val: U256) -> (r: Fr)
        ensures
            r.wf(),
            r@ == val@ % fr_modulus(),
    {
        Fr { v: val.reduce(&Fr::modulus()) }
    }

    pub fn add(&self, other: &Fr) -> (r: Fr)
        requires
            self.wf(),
            other.wf(),
        ensures
            r.wf(),
            r@ == (self@ + other@) % fr_modulus(),
    {
        Fr { v: self.v.add_mod(&other.v, &Fr::modulus()) }
    }

    pub fn sub(&self, other: &Fr) -> (r: Fr)
        requires
            self.wf(),
            other.wf(),
        ensures
            r.wf(),
            r@ == (self@ - other@) % (fr_modulus() as int),
    {
        Fr { v: self.v.sub_mod(&other.v, &Fr::modulus()) }
    }

    pub fn neg(&self) -> (r: Fr)
        requires
            self.wf(),
        ensures
            r.wf(),
            r@ == (-(self@ as int)) % (fr_modulus() as int),
    {
        Fr { v: self.v.neg_mod(&Fr::modulus()) }
    }

    pub fn mul(&self, other: &Fr) -> (r: Fr)
        requires
            self.wf(),
            other.wf(),
        ensures
            r.wf(),
            r@ == (self@ * other@) % fr_modulus(),
    {
        Fr { v: self.v.mul_mod(&other.v, &Fr::modulus()) }
    }

    /// The element raised to any 256-bit exponent.
    pub fn pow_u256(&self, exp: &U256) -> (r: Fr)
        requires
            self.wf(),
        ensures
            r.wf(),
            r@ == pow(self@ as int, exp@) % (fr_modulus() as int),
    {
        Fr { v: self.v.pow_mod(exp, &Fr::modulus()) }
    }

    /// The multiplicative inverse, found as `a^(p-2)` and kept only where the
    /// product with `a` is one. Zero has none.
    pub fn inverse(&self) -> (r: Option<Fr>)
        requires
            self.wf(),
        ensures
            r.is_some() == ((self@ * Fr::inverse_candidate(self@)) % fr_modulus() == 1),
            self@ == 0 ==> r.is_none(),
            r matches Some(x) ==> x.wf() && x@ == Fr::inverse_candidate(self@) && (self@ * x@)
                % fr_modulus() == 1,
    {
        let m = Fr::modulus();
        let e = m.sub_small(&U256 { hi: 0, lo: 2 });
        let x = self.v.pow_mod(&e, &m);
        let check = self.v.mul_mod(&x, &m);
        proof {
            if self@ == 0 {
                assert(self@ * x@ == 0) by (nonlinear_arith)
                    requires
                        self@ == 0,
                ;
                lemma_small_mod(0, fr_modulus());
            }
        }
        if check.hi == 0 && check.lo == 1 {
            Some(Fr { v: x })
        } else {
            None
        }
    }

    /// Reads an element from its 32 big-endian bytes.
    pub fn from_slice(slice: &[u8]) -> (r: Result<Fr, FieldError>)
        ensures
            r == Fr::decode(slice@),
            r matches Ok(x) ==> x.wf() && x@ == be_value_32(slice@, 0),
    {
        if slice.len() != 32 {
            return Err(FieldError::InvalidSliceLength);
        }
        let v = U256::read_be(slice, 0);
        if v.lt(&Fr::modulus()) {
            Ok(Fr { v })
        } else {
            Err(FieldError::NotMember)
        }
    }

    /// The 32 big-endian bytes of the residue.
    pub fn into_bytes(&self) -> (r: Vec<u8>)
        ensures
            r@ == nat_bytes(self@),
    {
        let mut out: Vec<u8> = Vec::new();
        self.v.write_be(&mut out);
        proof {
            reveal(nat_bytes);
            lemma_u256_of_view(self.v);
        }
        assert(out@ =~= nat_bytes(self@));
        out
    }

    /// Appends the 32 big-endian bytes of the residue.
    pub fn write_bytes(&self, out: &mut Vec<u8>)
        ensures
            final(out)@ == old(out)@ + nat_bytes(self@),
    {
        proof {
            reveal(nat_bytes);
            lemma_u256_of_view(self.v);
        }
        self.v.write_be(out);
    }

    /// Reading back what `into_bytes` wrote gives the element.
    pub proof fn lemma_bytes_round_trip(x: Fr)
        requires
            x.wf(),
        ensures
            Fr::decode(nat_bytes(x@)) == Ok::<Fr, FieldError>(x),
    {
        reveal(nat_bytes);
        lemma_u256_of_view(x.v);
        lemma_be_32_round_trip(x.v);
    }

    /// The element that a slice of 64 bytes, read as one big-endian 512-bit
    /// number, reduces to. A slice of another length is refused.
    pub fn from_wide_slice(slice: &[u8]) -> (r: Result<Fr, FieldError>)
        ensures
            slice@.len() != 64 ==> r == Err::<Fr, FieldError>(FieldError::InvalidU512Encoding),
            slice@.len() == 64 ==> (r matches Ok(x) && x.wf() && x@ == (be_value_32(slice@, 0)
                * two_256() + be_value_32(slice@, 32)) % fr_modulus()),
    {
        if slice.len() != 64 {
            return Err(FieldError::InvalidU512Encoding);
        }
        let hi = U256::read_be(slice, 0);
        let lo = U256::read_be(slice, 32);
        Ok(Fr { v: U256::reduce_wide(&hi, &lo, &Fr::modulus()) })
    }

    /// The element raised to the residue of another.
    pub fn pow(&self, exp: Fr) -> (r: Fr)
        requires
            self.wf(),
        ensures
            r.wf(),
            r@ == pow(self@ as int, exp@) % (fr_modulus() as int),
    {
        self.pow_u256(&exp.v)
    }

    /// Reads a decimal number, reduced modulo the group order. Text with
    /// any character that is no decimal digit is refused; empty text is zero.
    pub fn from_str(s: &str) -> (r: Option<Fr>)
        ensures
            r.is_some() == all_decimal_digits(s@),
            r matches Some(x) ==> x.wf() && x@ == decimal_value(s@) % fr_modulus(),
    {
        match U256::parse_decimal_mod(s, &Fr::modulus()) {
            Some(v) => Some(Fr { v }),
            None => None,
        }
    }

    /// The element that 64 bytes, read as one big-endian 512-bit number,
    /// reduce to.
    pub fn interpret(buf: &[u8; 64]) -> (r: Fr)
        ensures
            r.wf(),
            r@ == (be_value_32(buf@, 0) * two_256() + be_value_32(buf@, 32)) % fr_modulus(),
    {
        let bytes: &[u8] = buf.as_slice();
        let hi = U256::read_be(bytes, 0);
        let lo = U256::read_be(bytes, 32);
        Fr { v: U256::reduce_wide(&hi, &lo, &Fr::modulus()) }
    }
}

/// The first 64 bytes of `s`, with zeros after them where `s` is shorter.
pub open spec fn padded_to_64(s: Seq<u8>) -> Seq<u8> {
    Seq::new(
        64,
        |i: int|
            if i < s.len() {
                s[i]
            } else {
                0u8
            },
    )
}

/// Copies up to 64 bytes into an array of 64, with zeros in what is left.
pub fn pop(barry: &[u8]) -> (r: [u8; 64])
    ensures
        r@ == padded_to_64(barry@),
{
    let mut array = [0u8;64];
    let n: usize = barry.len();
    let mut i: usize = 0;
    while i < 64 && i < n
        invariant
            i <= 64,
            i <= n,
            n == barry@.len(),
            forall|j: int|
                0 <= j < 64 ==> #[trigger] array@[j] == (if j < i {
                    barry@[j]
                } else {
                    0u8
                }),
        decreases 64 - i,
    {
        array[i] = barry[i];
        i = i + 1;
    }
    assert(array@ =~= padded_to_64(barry@));
    array
}

} // verus!
