use vstd::prelude::*;
use vstd::arithmetic::div_mod::*;
use vstd::arithmetic::mul::*;
use vstd::arithmetic::power::*;
use vstd::arithmetic::power2::*;

verus! {

/// A 256-bit unsigned integer held as two 128-bit halves.
#[derive(Clone, Copy, Debug, PartialEq, Eq, Structural)]
pub struct U256 {
    pub hi: u128,
    pub lo: u128,
}

impl View for U256 {
    type V = nat;

    open spec fn view(&self) -> nat {
        self.hi as nat * 0x1_0000_0000_0000_0000 * 0x1_0000_0000_0000_0000 + self.lo as nat
    }
}

impl U256 {
    /// The largest value a `U256` holds.
    pub open spec fn max_value() -> nat {
        (U256 { hi: u128::MAX, lo: u128::MAX })@
    }

    /// Strict comparison of the two values.
    pub fn lt(&self, other: &U256) -> (r: bool)
        ensures
            r == (self@ < other@),
    {
        self.hi < other.hi || (self.hi == other.hi && self.lo < other.lo)
    }

    /// The sum of two values that together stay below two to the 256.
    pub fn add_small(&self, other: &U256) -> (r: U256)
        requires
            self@ + other@ <= U256::max_value(),
        ensures
            r@ == self@ + other@,
    {
        let room: u128 = u128::MAX - other.lo;
        if self.lo > room {
            let lo: u128 = self.lo - room - 1;
            U256 { hi: self.hi + other.hi + 1, lo }
        } else {
            U256 { hi: self.hi + other.hi, lo: self.lo + other.lo }
        }
    }

    /// The difference of two values, the first being at least the second.
    pub fn sub_small(&self, other: &U256) -> (r: U256)
        requires
            self@ >= other@,
        ensures
            r@ == self@ - other@,
    {
        if self.lo >= other.lo {
            U256 { hi: self.hi - other.hi, lo: self.lo - other.lo }
        } else {
            let gap: u128 = other.lo - self.lo;
            U256 { hi: self.hi - other.hi - 1, lo: u128::MAX - gap + 1 }
        }
    }

    /// Half of the value, rounded down.
    pub fn half(&self) -> (r: U256)
        ensures
            r@ == self@ / 2,
    {
        let carry: u128 = if self.hi % 2 == 1 { 0x8000_0000_0000_0000_0000_0000_0000_0000 } else { 0 };
        U256 { hi: self.hi / 2, lo: self.lo / 2 + carry }
    }

    /// Whether the value is odd.
    pub fn is_odd(&self) -> (r: bool)
        ensures
            r == (self@ % 2 == 1),
    {
        self.lo % 2 == 1
    }
}


/// A modulus that these routines accept: above one, and small enough that the
/// sum of two reduced values still fits in a `U256`.
pub open spec fn valid_modulus(m: nat) -> bool {
    1 < m && 2 * m <= U256::max_value()
}

pub proof fn lemma_mod_of_sum(x: int, m: int)
    requires
        0 < m,
        0 <= x < 2 * m,
    ensures
        x % m == (if x < m { x } else { x - m }),
{
    if x < m {
        lemma_fundamental_div_mod_converse(x, m, 0, x);
    } else {
        lemma_fundamental_div_mod_converse(x, m, 1, x - m);
    }
}

pub proof fn lemma_mod_of_difference(x: int, m: int)
    requires
        0 < m,
        -m < x < m,
    ensures
        x % m == (if x < 0 { x + m } else { x }),
{
    if x < 0 {
        lemma_fundamental_div_mod_converse(x, m, -1, x + m);
    } else {
        lemma_fundamental_div_mod_converse(x, m, 0, x);
    }
}

/// One step of binary multiplication keeps `acc + cur * k` in its residue class.
pub proof fn lemma_mul_step(acc: int, cur: int, k: int, m: int)
    requires
        0 < m,
        0 <= k,
    ensures
        ((acc + (if k % 2 == 1 { cur } else { 0 })) % m + ((2 * cur) % m) * (k / 2)) % m == (acc + cur
            * k) % m,
{
    let k2 = k / 2;
    let x = acc + (if k % 2 == 1 { cur } else { 0 });
    let y = 2 * cur;
    assert(acc + cur * k == x + y * k2) by (nonlinear_arith)
        requires
            k == 2 * k2 + k % 2,
            x == acc + (if k % 2 == 1 { cur } else { 0 }),
            k % 2 == 0 || k % 2 == 1,
            y == 2 * cur,
    ;
    lemma_mul_mod_noop_left(y, k2, m);
    lemma_add_mod_noop(x, y * k2, m);
    lemma_add_mod_noop(x % m, (y % m) * k2, m);
    lemma_mod_twice(x, m);
}

/// One step of binary exponentiation keeps `acc * cur^k` in its residue class.
pub proof fn lemma_pow_step(acc: int, cur: int, k: nat, m: int)
    requires
        0 < m,
    ensures
        (((acc * (if k % 2 == 1 { cur } else { 1 })) % m) * pow((cur * cur) % m, k / 2)) % m == (acc
            * pow(cur, k)) % m,
{
    let k2 = k / 2;
    let f = if k % 2 == 1 { cur } else { 1 };
    let sq = cur * cur;
    lemma_square_is_pow2(cur);
    lemma_pow_multiplies(cur, 2, k2);
    assert(pow(sq, k2) == pow(cur, 2 * k2));
    if k % 2 == 1 {
        lemma_pow_adds(cur, 2 * k2, 1);
        lemma_pow1(cur);
        assert(k == 2 * k2 + 1);
        assert(pow(cur, k) == pow(cur, 2 * k2) * cur);
    } else {
        assert(k == 2 * k2);
    }
    assert(acc * pow(cur, k) == (acc * f) * pow(sq, k2)) by (nonlinear_arith)
        requires
            pow(cur, k) == pow(sq, k2) * f,
    ;
    lemma_pow_mod_noop(sq, k2, m);
    lemma_mul_mod_noop_general(acc * f, pow(sq, k2), m);
    lemma_mul_mod_noop_general((acc * f) % m, pow(sq % m, k2), m);
    lemma_mod_twice(acc * f, m);
}

/// Every `U256` lies below two to the 256.
pub proof fn lemma_u256_bound(a: U256)
    ensures
        a@ < pow2(256),
{
    lemma2_to64();
    lemma_pow2_adds(64, 64);
    lemma_pow2_adds(128, 128);
    assert(pow2(128) == 0x1_0000_0000_0000_0000 * 0x1_0000_0000_0000_0000);
    assert(a@ <= U256::max_value());
    assert(pow2(256) == (0xffff_ffff_ffff_ffff_ffff_ffff_ffff_ffff + 1) * pow2(128));
    assert(U256::max_value() < (0xffff_ffff_ffff_ffff_ffff_ffff_ffff_ffff + 1) * pow2(128));
}

impl U256 {
    pub fn zero() -> (r: U256)
        ensures
            r@ == 0,
    {
        U256 { hi: 0, lo: 0 }
    }

    pub fn one() -> (r: U256)
        ensures
            r@ == 1,
    {
        U256 { hi: 0, lo: 1 }
    }

    pub fn is_zero(&self) -> (r: bool)
        ensures
            r == (self@ == 0),
    {
        self.hi == 0 && self.lo == 0
    }

    /// `(self + other) mod m`, on reduced operands.
    pub fn add_mod(&self, other: &U256, m: &U256) -> (r: U256)
        requires
            valid_modulus(m@),
            self@ < m@,
            other@ < m@,
        ensures
            r@ == (self@ + other@) % m@,
            r@ < m@,
    {
        proof {
            lemma_mod_of_sum((self@ + other@) as int, m@ as int);
        }
        let s = self.add_small(other);
        if s.lt(m) {
            s
        } else {
            s.sub_small(m)
        }
    }

    /// `(self - other) mod m`, on reduced operands.
    pub fn sub_mod(&self, other: &U256, m: &U256) -> (r: U256)
        requires
            valid_modulus(m@),
            self@ < m@,
            other@ < m@,
        ensures
            r@ == (self@ - other@) % (m@ as int),
            r@ < m@,
    {
        proof {
            lemma_mod_of_difference(self@ - other@, m@ as int);
        }
        if self.lt(other) {
            let t = m.sub_small(other);
            self.add_small(&t)
        } else {
            self.sub_small(other)
        }
    }

    /// `(-self) mod m`, on a reduced operand.
    pub fn neg_mod(&self, m: &U256) -> (r: U256)
        requires
            valid_modulus(m@),
            self@ < m@,
        ensures
            r@ == (-(self@ as int)) % (m@ as int),
            r@ < m@,
    {
        U256::zero().sub_mod(self, m)
    }

    /// `(self * other) mod m`, on a reduced `self` and any `other`, by doubling
    /// and adding over the bits of `other`.
    pub fn mul_mod(&self, other: &U256, m: &U256) -> (r: U256)
        requires
            valid_modulus(m@),
            self@ < m@,
        ensures
            r@ == (self@ * other@) % m@,
            r@ < m@,
    {
        let mut acc = U256::zero();
        let mut cur = *self;
        let mut k = *other;
        while !k.is_zero()
            invariant
                valid_modulus(m@),
                acc@ < m@,
                cur@ < m@,
                (acc@ + cur@ * k@) % m@ == (self@ * other@) % m@,
            decreases k@,
        {
            proof {
                lemma_mul_step(acc@ as int, cur@ as int, k@ as int, m@ as int);
                lemma_small_mod(acc@, m@);
            }
            if k.is_odd() {
                acc = acc.add_mod(&cur, m);
            }
            cur = cur.add_mod(&cur, m);
            k = k.half();
        }
        proof {
            assert(cur@ * k@ == 0) by (nonlinear_arith)
                requires
                    k@ == 0,
            ;
            lemma_small_mod(acc@, m@);
        }
        acc
    }

    /// `self^exp mod m`, on a reduced base, by squaring and multiplying over
    /// all 256 bits of `exp`.
    pub fn pow_mod(&self, exp: &U256, m: &U256) -> (r: U256)
        requires
            valid_modulus(m@),
            self@ < m@,
        ensures
            r@ == pow(self@ as int, exp@) % (m@ as int),
            r@ < m@,
    {
        let mut acc = U256::one();
        let mut cur = *self;
        let mut k = *exp;
        let mut i: u32 = 0;
        proof {
            lemma_u256_bound(k);
            assert(1 * pow(cur@ as int, k@) == pow(cur@ as int, k@));
        }
        while i < 256
            invariant
                i <= 256,
                valid_modulus(m@),
                acc@ < m@,
                cur@ < m@,
                k@ < pow2((256 - i) as nat),
                (acc@ * pow(cur@ as int, k@)) % (m@ as int) == pow(self@ as int, exp@) % (m@ as int),
            decreases 256 - i,
        {
            proof {
                lemma_pow_step(acc@ as int, cur@ as int, k@, m@ as int);
                lemma_pow2_unfold((256 - i) as nat);
                assert(acc@ * 1 == acc@);
                lemma_small_mod(acc@, m@);
            }
            if k.is_odd() {
                acc = acc.mul_mod(&cur, m);
            }
            cur = cur.mul_mod(&cur, m);
            k = k.half();
            i = i + 1;
        }
        proof {
            lemma2_to64();
            assert(k@ == 0);
            lemma_pow0(cur@ as int);
            assert(acc@ * pow(cur@ as int, k@) == acc@) by (nonlinear_arith)
                requires
                    pow(cur@ as int, k@) == 1,
            ;
            lemma_small_mod(acc@, m@);
        }
        acc
    }
}

/// The number that sixteen bytes of `s`, from index `off` on, spell in
/// big-endian order.
pub open spec fn be_value_16(s: Seq<u8>, off: int) -> nat {
    s[off + 0] as nat * 0x100_0000_0000_0000_0000_0000_0000_0000 + s[off + 1] as nat * 0x1_0000_0000_0000_0000_0000_0000_0000 + s[off + 2] as nat * 0x100_0000_0000_0000_0000_0000_0000 + s[off + 3] as nat * 0x1_0000_0000_0000_0000_0000_0000 + s[off + 4] as nat * 0x100_0000_0000_0000_0000_0000 + s[off + 5] as nat * 0x1_0000_0000_0000_0000_0000 + s[off + 6] as nat * 0x100_0000_0000_0000_0000 + s[off + 7] as nat * 0x1_0000_0000_0000_0000 + s[off + 8] as nat * 0x100_0000_0000_0000 + s[off + 9] as nat * 0x1_0000_0000_0000 + s[off + 10] as nat * 0x100_0000_0000 + s[off + 11] as nat * 0x1_0000_0000 + s[off + 12] as nat * 0x100_0000 + s[off + 13] as nat * 0x1_0000 + s[off + 14] as nat * 0x100 + s[off + 15] as nat
}

/// The sixteen bytes that spell `x` in big-endian order.
#[verifier::opaque]
pub open spec fn be_bytes_16(x: u128) -> Seq<u8> {
    seq![
        ((x as nat / 0x100_0000_0000_0000_0000_0000_0000_0000) % 256) as u8,
        ((x as nat / 0x1_0000_0000_0000_0000_0000_0000_0000) % 256) as u8,
        ((x as nat / 0x100_0000_0000_0000_0000_0000_0000) % 256) as u8,
        ((x as nat / 0x1_0000_0000_0000_0000_0000_0000) % 256) as u8,
        ((x as nat / 0x100_0000_0000_0000_0000_0000) % 256) as u8,
        ((x as nat / 0x1_0000_0000_0000_0000_0000) % 256) as u8,
        ((x as nat / 0x100_0000_0000_0000_0000) % 256) as u8,
        ((x as nat / 0x1_0000_0000_0000_0000) % 256) as u8,
        ((x as nat / 0x100_0000_0000_0000) % 256) as u8,
        ((x as nat / 0x1_0000_0000_0000) % 256) as u8,
        ((x as nat / 0x100_0000_0000) % 256) as u8,
        ((x as nat / 0x1_0000_0000) % 256) as u8,
        ((x as nat / 0x100_0000) % 256) as u8,
        ((x as nat / 0x1_0000) % 256) as u8,
        ((x as nat / 0x100) % 256) as u8,
        ((x as nat / 0x1) % 256) as u8,
    ]
}

/// The number that thirty-two bytes of `s`, from index `off` on, spell in
/// big-endian order.
pub open spec fn be_value_32(s: Seq<u8>, off: int) -> nat {
    be_value_16(s, off) * 0x1_0000_0000_0000_0000 * 0x1_0000_0000_0000_0000 + be_value_16(
        s,
        off + 16,
    )
}

/// The thirty-two bytes that spell `x` in big-endian order.
pub open spec fn be_bytes_32(x: U256) -> Seq<u8> {
    be_bytes_16(x.hi) + be_bytes_16(x.lo)
}

/// Reads sixteen big-endian bytes.
pub fn read_be_16(bytes: &[u8], off: usize) -> (r: u128)
    requires
        off + 16 <= bytes@.len(),
    ensures
        r == be_value_16(bytes@, off as int),
{
    let b0: u128 = bytes[off + 0] as u128;
    let b1: u128 = bytes[off + 1] as u128;
    let b2: u128 = bytes[off + 2] as u128;
    let b3: u128 = bytes[off + 3] as u128;
    let b4: u128 = bytes[off + 4] as u128;
    let b5: u128 = bytes[off + 5] as u128;
    let b6: u128 = bytes[off + 6] as u128;
    let b7: u128 = bytes[off + 7] as u128;
    let b8: u128 = bytes[off + 8] as u128;
    let b9: u128 = bytes[off + 9] as u128;
    let b10: u128 = bytes[off + 10] as u128;
    let b11: u128 = bytes[off + 11] as u128;
    let b12: u128 = bytes[off + 12] as u128;
    let b13: u128 = bytes[off + 13] as u128;
    let b14: u128 = bytes[off + 14] as u128;
    let b15: u128 = bytes[off + 15] as u128;
    b0 * 0x100_0000_0000_0000_0000_0000_0000_0000 + b1 * 0x1_0000_0000_0000_0000_0000_0000_0000 + b2 * 0x100_0000_0000_0000_0000_0000_0000 + b3 * 0x1_0000_0000_0000_0000_0000_0000 + b4 * 0x100_0000_0000_0000_0000_0000 + b5 * 0x1_0000_0000_0000_0000_0000 + b6 * 0x100_0000_0000_0000_0000 + b7 * 0x1_0000_0000_0000_0000 + b8 * 0x100_0000_0000_0000 + b9 * 0x1_0000_0000_0000 + b10 * 0x100_0000_0000 + b11 * 0x1_0000_0000 + b12 * 0x100_0000 + b13 * 0x1_0000 + b14 * 0x100 + b15
}

/// Appends the sixteen big-endian bytes of `x`.
pub fn write_be_16(out: &mut Vec<u8>, x: u128)
    ensures
        final(out)@ == old(out)@ + be_bytes_16(x),
{
    let ghost before = out@;
    proof {
        reveal(be_bytes_16);
    }
    out.push(((x / 0x100_0000_0000_0000_0000_0000_0000_0000) % 256) as u8);
    out.push(((x / 0x1_0000_0000_0000_0000_0000_0000_0000) % 256) as u8);
    out.push(((x / 0x100_0000_0000_0000_0000_0000_0000) % 256) as u8);
    out.push(((x / 0x1_0000_0000_0000_0000_0000_0000) % 256) as u8);
    out.push(((x / 0x100_0000_0000_0000_0000_0000) % 256) as u8);
    out.push(((x / 0x1_0000_0000_0000_0000_0000) % 256) as u8);
    out.push(((x / 0x100_0000_0000_0000_0000) % 256) as u8);
    out.push(((x / 0x1_0000_0000_0000_0000) % 256) as u8);
    out.push(((x / 0x100_0000_0000_0000) % 256) as u8);
    out.push(((x / 0x1_0000_0000_0000) % 256) as u8);
    out.push(((x / 0x100_0000_0000) % 256) as u8);
    out.push(((x / 0x1_0000_0000) % 256) as u8);
    out.push(((x / 0x100_0000) % 256) as u8);
    out.push(((x / 0x1_0000) % 256) as u8);
    out.push(((x / 0x100) % 256) as u8);
    out.push(((x / 0x1) % 256) as u8);
    assert(out@ =~= before + be_bytes_16(x));
}

/// Decoding what `be_bytes_16` wrote gives the number back.
pub proof fn lemma_be_16_round_trip(x: u128)
    ensures
        be_value_16(be_bytes_16(x), 0) == x,
        be_bytes_16(x).len() == 16,
{
    reveal(be_bytes_16);
    assert((((((((((((((((((((((((((((((((((x / 0x100_0000_0000_0000_0000_0000_0000_0000u128) % 256u128) * 0x100_0000_0000_0000_0000_0000_0000_0000u128) as u128) + ((((x / 0x1_0000_0000_0000_0000_0000_0000_0000u128) % 256u128) * 0x1_0000_0000_0000_0000_0000_0000_0000u128) as u128)) as u128) + ((((x / 0x100_0000_0000_0000_0000_0000_0000u128) % 256u128) * 0x100_0000_0000_0000_0000_0000_0000u128) as u128)) as u128) + ((((x / 0x1_0000_0000_0000_0000_0000_0000u128) % 256u128) * 0x1_0000_0000_0000_0000_0000_0000u128) as u128)) as u128) + ((((x / 0x100_0000_0000_0000_0000_0000u128) % 256u128) * 0x100_0000_0000_0000_0000_0000u128) as u128)) as u128) + ((((x / 0x1_0000_0000_0000_0000_0000u128) % 256u128) * 0x1_0000_0000_0000_0000_0000u128) as u128)) as u128) + ((((x / 0x100_0000_0000_0000_0000u128) % 256u128) * 0x100_0000_0000_0000_0000u128) as u128)) as u128) + ((((x / 0x1_0000_0000_0000_0000u128) % 256u128) * 0x1_0000_0000_0000_0000u128) as u128)) as u128) + ((((x / 0x100_0000_0000_0000u128) % 256u128) * 0x100_0000_0000_0000u128) as u128)) as u128) + ((((x / 0x1_0000_0000_0000u128) % 256u128) * 0x1_0000_0000_0000u128) as u128)) as u128) + ((((x / 0x100_0000_0000u128) % 256u128) * 0x100_0000_0000u128) as u128)) as u128) + ((((x / 0x1_0000_0000u128) % 256u128) * 0x1_0000_0000u128) as u128)) as u128) + ((((x / 0x100_0000u128) % 256u128) * 0x100_0000u128) as u128)) as u128) + ((((x / 0x1_0000u128) % 256u128) * 0x1_0000u128) as u128)) as u128) + ((((x / 0x100u128) % 256u128) * 0x100u128) as u128)) as u128) + ((x % 256u128))) as u128 == x) by (bit_vector);
}

impl U256 {
    /// Reads thirty-two big-endian bytes from index `off` on.
    pub fn read_be(bytes: &[u8], off: usize) -> (r: U256)
        requires
            off + 32 <= bytes@.len(),
        ensures
            r@ == be_value_32(bytes@, off as int),
            r.hi == be_value_16(bytes@, off as int),
            r.lo == be_value_16(bytes@, off + 16),
    {
        let n: usize = bytes.len();
        let hi: u128 = read_be_16(bytes, off);
        let lo: u128 = read_be_16(bytes, off + 16);
        U256 { hi, lo }
    }

    /// Appends the thirty-two big-endian bytes of the value.
    pub fn write_be(&self, out: &mut Vec<u8>)
        ensures
            final(out)@ == old(out)@ + be_bytes_32(*self),
    {
        let ghost before = out@;
        write_be_16(out, self.hi);
        write_be_16(out, self.lo);
        assert(out@ =~= before + be_bytes_32(*self));
    }
}

/// Two to the power 256, the weight of the upper half of a 512-bit number.
pub open spec fn two_256() -> nat {
    2 * (U256 { hi: 0x8000_0000_0000_0000_0000_0000_0000_0000, lo: 0 })@
}

/// Whether `c` is one of the ten ASCII decimal digits.
pub open spec fn is_decimal_digit(c: char) -> bool {
    48 <= c as u32 <= 57
}

/// Whether every character of `s` is a decimal digit.
pub open spec fn all_decimal_digits(s: Seq<char>) -> bool {
    forall|i: int| 0 <= i < s.len() ==> is_decimal_digit(#[trigger] s[i])
}

/// The number that the decimal digits of `s` spell; zero for the empty text.
pub open spec fn decimal_value(s: Seq<char>) -> nat
    decreases s.len(),
{
    if s.len() == 0 {
        0
    } else {
        (decimal_value(s.drop_last()) * 10 + (s.last() as u32 - 48)) as nat
    }
}

impl U256 {
    /// The remainder of any value on division by `m`.
    pub fn reduce(&self, m: &U256) -> (r: U256)
        requires
            valid_modulus(m@),
        ensures
            r@ == self@ % m@,
            r@ < m@,
    {
        assert(1 * self@ == self@);
        U256::one().mul_mod(self, m)
    }

    /// The remainder on division by `m` of the 512-bit number whose upper half
    /// is `hi` and whose lower half is `lo`.
    pub fn reduce_wide(hi: &U256, lo: &U256, m: &U256) -> (r: U256)
        requires
            valid_modulus(m@),
        ensures
            r@ == (hi@ * two_256() + lo@) % m@,
            r@ < m@,
    {
        let top = U256 { hi: 0x8000_0000_0000_0000_0000_0000_0000_0000, lo: 0 };
        let t1 = top.reduce(m);
        let t = t1.add_mod(&t1, m);
        let h = hi.reduce(m);
        let p = h.mul_mod(&t, m);
        let l = lo.reduce(m);
        proof {
            let mi = m@ as int;
            lemma_add_mod_noop(top@ as int, top@ as int, mi);
            assert(t@ == two_256() % m@);
            lemma_mul_mod_noop_general(hi@ as int, two_256() as int, mi);
            assert(p@ == (hi@ * two_256()) % m@);
            lemma_add_mod_noop((hi@ * two_256()) as int, lo@ as int, mi);
        }
        p.add_mod(&l, m)
    }

    /// Reads a decimal number and reduces it modulo `m`. Text with any
    /// character that is no decimal digit is refused.
    pub fn parse_decimal_mod(s: &str, m: &U256) -> (r: Option<U256>)
        requires
            valid_modulus(m@),
        ensures
            r.is_some() == all_decimal_digits(s@),
            r matches Some(x) ==> x@ == decimal_value(s@) % m@ && x@ < m@,
    {
        let n: usize = s.unicode_len();
        let ten = U256 { hi: 0, lo: 10 };
        let mut acc = U256::zero();
        let mut i: usize = 0;
        proof {
            lemma_small_mod(0, m@);
            assert(s@.subrange(0, 0).len() == 0);
        }
        while i < n
            invariant
                i <= n,
                n == s@.len(),
                valid_modulus(m@),
                ten@ == 10,
                acc@ < m@,
                acc@ == decimal_value(s@.subrange(0, i as int)) % m@,
                all_decimal_digits(s@.subrange(0, i as int)),
            decreases n - i,
        {
            let c: char = s.get_char(i);
            if !(c >= '0' && c <= '9') {
                assert(!is_decimal_digit(s@[i as int]));
                return None;
            }
            let d: u32 = c as u32 - 48;
            let digit = U256 { hi: 0, lo: d as u128 };
            let scaled = acc.mul_mod(&ten, m);
            let dr = digit.reduce(m);
            proof {
                let prev = s@.subrange(0, i as int);
                let next = s@.subrange(0, i + 1);
                assert(next.drop_last() =~= prev);
                assert(next.last() == c);
                let v = decimal_value(prev) as int;
                assert(decimal_value(next) == v * 10 + d);
                lemma_mul_mod_noop_left(v, 10, m@ as int);
                lemma_add_mod_noop(v * 10, d as int, m@ as int);
                assert forall|j: int| 0 <= j < next.len() implies is_decimal_digit(
                    #[trigger] next[j],
                ) by {
                    if j < i {
                        assert(next[j] == prev[j]);
                    }
                }
            }
            acc = scaled.add_mod(&dr, m);
            i = i + 1;
        }
        assert(s@.subrange(0, n as int) =~= s@);
        Some(acc)
    }
}

/// Sixteen bytes read at an offset of one text give what the same bytes give
/// alone.
pub proof fn lemma_be_value_16_window(s: Seq<u8>, off: int, t: Seq<u8>)
    requires
        forall|i: int| 0 <= i < 16 ==> s[off + i] == t[i],
    ensures
        be_value_16(s, off) == be_value_16(t, 0),
{
}

/// Decoding what `be_bytes_32` wrote gives the value back, half by half.
pub proof fn lemma_be_32_round_trip(x: U256)
    ensures
        be_value_32(be_bytes_32(x), 0) == x@,
        be_value_16(be_bytes_32(x), 0) == x.hi,
        be_value_16(be_bytes_32(x), 16) == x.lo,
        be_bytes_32(x).len() == 32,
{
    let a = be_bytes_16(x.hi);
    let b = be_bytes_16(x.lo);
    let s = a + b;
    lemma_be_16_round_trip(x.hi);
    lemma_be_16_round_trip(x.lo);
    assert forall|i: int| 0 <= i < 16 implies s[0 + i] == a[i] by {}
    assert forall|i: int| 0 <= i < 16 implies s[16 + i] == b[i] by {}
    lemma_be_value_16_window(s, 0, a);
    lemma_be_value_16_window(s, 16, b);
}

/// The 256-bit integer that holds the number `n`, for `n` below two to the 256.
pub open spec fn u256_of(n: nat) -> U256 {
    let hi = (n / 0x1_0000_0000_0000_0000) / 0x1_0000_0000_0000_0000;
    U256 { hi: hi as u128, lo: (n - hi * 0x1_0000_0000_0000_0000 * 0x1_0000_0000_0000_0000) as u128 }
}

/// The thirty-two bytes that spell the number `n` in big-endian order.
#[verifier::opaque]
pub open spec fn nat_bytes(n: nat) -> Seq<u8> {
    be_bytes_32(u256_of(n))
}

/// The number `n` is spelt in thirty-two bytes.
pub proof fn lemma_nat_bytes_len(n: nat)
    ensures
        nat_bytes(n).len() == 32,
{
    reveal(nat_bytes);
    lemma_be_16_round_trip(u256_of(n).hi);
    lemma_be_16_round_trip(u256_of(n).lo);
}

/// A 256-bit integer is the one that holds its own value.
pub proof fn lemma_u256_of_view(x: U256)
    ensures
        u256_of(x@) == x,
{
}

/// Addition of residues is commutative.
pub proof fn lemma_mod_add_commutative(a: nat, b: nat, m: nat)
    requires
        0 < m,
    ensures
        (a + b) % m == (b + a) % m,
{
}

/// Addition of residues is associative.
pub proof fn lemma_mod_add_associative(a: nat, b: nat, c: nat, m: nat)
    requires
        0 < m,
        a < m,
        b < m,
        c < m,
    ensures
        (((a + b) % m) + c) % m == (a + ((b + c) % m)) % m,
{
    let mi = m as int;
    lemma_small_mod(a, m);
    lemma_small_mod(c, m);
    lemma_add_mod_noop((a + b) as int, c as int, mi);
    lemma_add_mod_noop(a as int, (b + c) as int, mi);
}

/// Multiplication of residues is commutative.
pub proof fn lemma_mod_mul_commutative(a: nat, b: nat, m: nat)
    requires
        0 < m,
    ensures
        (a * b) % m == (b * a) % m,
{
    lemma_mul_is_commutative(a as int, b as int);
}

/// Multiplication of residues is associative.
pub proof fn lemma_mod_mul_associative(a: nat, b: nat, c: nat, m: nat)
    requires
        0 < m,
    ensures
        (((a * b) % m) * c) % m == (a * ((b * c) % m)) % m,
{
    let mi = m as int;
    lemma_mul_mod_noop_left((a * b) as int, c as int, mi);
    lemma_mul_mod_noop_right(a as int, (b * c) as int, mi);
    lemma_mul_is_associative(a as int, b as int, c as int);
}

/// Multiplication of residues distributes over their addition.
pub proof fn lemma_mod_distributive(a: nat, b: nat, c: nat, m: nat)
    requires
        0 < m,
    ensures
        (a * ((b + c) % m)) % m == (((a * b) % m) + ((a * c) % m)) % m,
{
    let mi = m as int;
    lemma_mul_mod_noop_right(a as int, (b + c) as int, mi);
    lemma_mul_is_distributive_add(a as int, b as int, c as int);
    lemma_add_mod_noop((a * b) as int, (a * c) as int, mi);
}

/// A residue and its negation add up to zero.
pub proof fn lemma_mod_add_negation(a: nat, m: nat)
    requires
        0 < m,
        a < m,
    ensures
        (a + (-(a as int)) % (m as int)) % (m as int) == 0,
{
    let mi = m as int;
    lemma_mod_of_difference(-(a as int), mi);
    if a == 0 {
        lemma_small_mod(0, m);
    } else {
        lemma_mod_self_0(mi);
    }
}

/// The square of a product of residues is the product of their squares.
pub proof fn lemma_mod_square_of_product(a: nat, b: nat, m: nat)
    requires
        0 < m,
    ensures
        (((a * b) % m) * ((a * b) % m)) % m == (((a * a) % m) * ((b * b) % m)) % m,
{
    let mi = m as int;
    lemma_mul_mod_noop_general((a * b) as int, (a * b) as int, mi);
    lemma_mul_mod_noop_general((a * a) as int, (b * b) as int, mi);
    assert((a * b) * (a * b) == (a * a) * (b * b)) by (nonlinear_arith);
}

/// Where the bytes of a value stand between two other texts, reading at
/// their place gives the two halves of the value.
pub proof fn lemma_value_within(pre: Seq<u8>, x: U256, post: Seq<u8>)
    ensures
        be_value_16(pre + nat_bytes(x@) + post, pre.len() as int) == x.hi,
        be_value_16(pre + nat_bytes(x@) + post, (pre.len() + 16) as int) == x.lo,
{
    reveal(nat_bytes);
    lemma_u256_of_view(x);
    let mid = be_bytes_32(x);
    let s = pre + mid + post;
    let a = be_bytes_16(x.hi);
    let b = be_bytes_16(x.lo);
    lemma_be_16_round_trip(x.hi);
    lemma_be_16_round_trip(x.lo);
    assert forall|i: int| 0 <= i < 16 implies s[pre.len() + i] == a[i] by {
        assert(mid[i] == a[i]);
    }
    assert forall|i: int| 0 <= i < 16 implies s[pre.len() + 16 + i] == b[i] by {
        assert(mid[16 + i] == b[i]);
    }
    lemma_be_value_16_window(s, pre.len() as int, a);
    lemma_be_value_16_window(s, (pre.len() + 16) as int, b);
}

/// Reading sixteen bytes inside a text gives the same after more text is
/// appended.
pub proof fn lemma_append_keeps(s: Seq<u8>, t: Seq<u8>, off: int)
    requires
        0 <= off,
        off + 16 <= s.len(),
    ensures
        be_value_16(s + t, off) == be_value_16(s, off),
{
    let w = s.subrange(off, off + 16);
    assert forall|i: int| 0 <= i < 16 implies (s + t)[off + i] == w[i] by {}
    assert forall|i: int| 0 <= i < 16 implies s[off + i] == w[i] by {}
    lemma_be_value_16_window(s + t, off, w);
    lemma_be_value_16_window(s, off, w);
}

} // verus!
