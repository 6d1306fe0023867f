use vstd::prelude::*;
use vstd::arithmetic::div_mod::{
    lemma_div_is_ordered, lemma_div_pos_is_pos, lemma_div_nonincreasing,
    lemma_mod_division_less_than_divisor, lemma_div_multiples_vanish, lemma_div_decreases,
    lemma_multiply_divide_lt,
};
use vstd::arithmetic::mul::lemma_mul_upper_bound;

verus! {

/// Quotient of `x / d` rounded toward zero, the rounding every RISC-V
/// division instruction uses.  Defined over the magnitudes so that each
/// sign case is explicit.
pub open spec fn trunc_div(x: int, d: int) -> int
    recommends
        d != 0,
{
    if x == 0 {
        0
    } else if x > 0 && d > 0 {
        x / d
    } else if x < 0 && d < 0 {
        (x * -1) / (d * -1)
    } else if x < 0 {
        ((x * -1) / d) * -1
    } else {
        (x / (d * -1)) * -1
    }
}

/// Remainder matching `trunc_div`: same sign as the dividend, and
/// `x == trunc_div(x, d) * d + trunc_rem(x, d)`.
pub open spec fn trunc_rem(x: int, d: int) -> int
    recommends
        d != 0,
{
    if x == 0 {
        0
    } else if x > 0 && d > 0 {
        x % d
    } else if x < 0 && d < 0 {
        ((x * -1) % (d * -1)) * -1
    } else if x < 0 {
        ((x * -1) % d) * -1
    } else {
        x % (d * -1)
    }
}

/// Capability set of an architectural register of some fixed width W:
/// wraparound arithmetic, signed/unsigned division and remainder with
/// overflow flags, and the three multiply-high variants.  All operations
/// are pure; division by zero is excluded by `requires`, so the ISA-level
/// zero-divisor substitution is the caller's job.
pub trait Register: Sized + Copy {
    /// 2^W, the modulus of the register width.
    spec fn wmod() -> int;

    /// The register's value read as an unsigned integer, in [0, 2^W).
    spec fn uval(self) -> int;

    /// The register's value reinterpreted as a two's-complement signed
    /// integer, in [-2^(W-1), 2^(W-1)).
    spec fn sval(self) -> int;

    /// Validity of any register value: the unsigned reading is bounded by
    /// the modulus, the signed reading is its two's-complement
    /// reinterpretation, and the modulus is an even number at least 8.
    proof fn lemma_valid(self)
        ensures
            0 <= self.uval() < Self::wmod(),
            self.sval() == if self.uval() < Self::wmod() / 2 {
                self.uval()
            } else {
                self.uval() - Self::wmod()
            },
            Self::wmod() == 2 * (Self::wmod() / 2),
            Self::wmod() / 2 >= 4,
    ;

    fn zero() -> (r: Self)
        ensures
            r.uval() == 0,
    ;

    fn one() -> (r: Self)
        ensures
            r.uval() == 1,
    ;

    /// The most negative value under the signed interpretation,
    /// bit pattern 1000...0.
    fn min_value() -> (r: Self)
        ensures
            r.uval() == Self::wmod() / 2,
            r.sval() == -(Self::wmod() / 2),
    ;

    /// The all-ones bit pattern: unsigned maximum, signed -1.
    fn max_value() -> (r: Self)
        ensures
            r.uval() == Self::wmod() - 1,
            r.sval() == -1,
    ;

    fn from_usize(v: usize) -> (r: Self)
        ensures
            r.uval() == v as int % Self::wmod(),
    ;

    fn is_zero(self) -> (r: bool)
        ensures
            r == (self.uval() == 0),
    ;

    /// The unsigned value widened to 64 bits; exact for both widths.
    fn to_u64(self) -> (r: u64)
        ensures
            r as int == self.uval(),
    ;

    fn overflowing_add(self, rhs: Self) -> (r: (Self, bool))
        ensures
            r.0.uval() == if self.uval() + rhs.uval() < Self::wmod() {
                self.uval() + rhs.uval()
            } else {
                self.uval() + rhs.uval() - Self::wmod()
            },
            r.1 == (self.uval() + rhs.uval() >= Self::wmod()),
    ;

    fn overflowing_sub(self, rhs: Self) -> (r: (Self, bool))
        ensures
            r.0.uval() == if self.uval() >= rhs.uval() {
                self.uval() - rhs.uval()
            } else {
                self.uval() - rhs.uval() + Self::wmod()
            },
            r.1 == (self.uval() < rhs.uval()),
    ;

    /// Low W bits of the product; the flag reports whether the unsigned
    /// product exceeded them.
    fn overflowing_mul(self, rhs: Self) -> (r: (Self, bool))
        ensures
            r.0.uval() == (self.uval() * rhs.uval()) % Self::wmod(),
            r.1 == (self.uval() * rhs.uval() >= Self::wmod()),
    ;

    /// Upper W bits of the 2W-bit product of the signed readings.
    fn overflowing_mul_high_signed(self, rhs: Self) -> (r: Self)
        ensures
            r.sval() == (self.sval() * rhs.sval()) / Self::wmod(),
    ;

    /// Upper W bits of the 2W-bit product of the signed reading of `self`
    /// with the unsigned reading of `rhs`.
    fn overflowing_mul_high_signed_unsigned(self, rhs: Self) -> (r: Self)
        ensures
            r.sval() == (self.sval() * rhs.uval()) / Self::wmod(),
    ;

    /// Upper W bits of the 2W-bit product of the unsigned readings.
    fn overflowing_mul_high_unsigned(self, rhs: Self) -> (r: Self)
        ensures
            r.uval() == (self.uval() * rhs.uval()) / Self::wmod(),
    ;

    fn overflowing_div(self, rhs: Self) -> (r: (Self, bool))
        requires
            rhs.uval() != 0,
        ensures
            r.0.uval() == self.uval() / rhs.uval(),
            r.1 == false,
    ;

    fn overflowing_rem(self, rhs: Self) -> (r: (Self, bool))
        requires
            rhs.uval() != 0,
        ensures
            r.0.uval() == self.uval() % rhs.uval(),
            r.1 == false,
    ;

    /// Signed division rounding toward zero.  The flag reports the one
    /// overflowing case, most-negative dividend divided by -1, in which
    /// the dividend is returned unchanged.
    fn overflowing_div_signed(self, rhs: Self) -> (r: (Self, bool))
        requires
            rhs.uval() != 0,
        ensures
            r.1 == (self.sval() == -(Self::wmod() / 2) && rhs.sval() == -1),
            !r.1 ==> r.0.sval() == trunc_div(self.sval(), rhs.sval()),
            r.1 ==> r.0.uval() == self.uval(),
    ;

    /// Signed remainder matching `overflowing_div_signed`; in the
    /// overflowing case the remainder is zero.
    fn overflowing_rem_signed(self, rhs: Self) -> (r: (Self, bool))
        requires
            rhs.uval() != 0,
        ensures
            r.1 == (self.sval() == -(Self::wmod() / 2) && rhs.sval() == -1),
            !r.1 ==> r.0.sval() == trunc_rem(self.sval(), rhs.sval()),
            r.1 ==> r.0.uval() == 0,
    ;
}

/// Range of the unsigned product and of its upper half: for unsigned
/// values below m, the high word (a * b) / m is again below m.
proof fn lemma_mulhu_range(a: int, b: int, m: int)
    requires
        0 <= a < m,
        0 <= b < m,
        2 <= m,
    ensures
        0 <= a * b,
        a * b <= (m - 1) * (m - 1),
        0 <= (a * b) / m < m,
{
    lemma_mul_upper_bound(a, m - 1, b, m - 1);
    assert(a * b >= 0) by (nonlinear_arith)
        requires
            0 <= a,
            0 <= b,
    ;
    lemma_div_pos_is_pos(a * b, m);
    assert((m - 1) * (m - 1) < m * m) by (nonlinear_arith)
        requires
            2 <= m,
    ;
    lemma_multiply_divide_lt(a * b, m, m);
}

/// Range of the signed product and of its upper half: for signed values
/// in [-h, h), the high word (a * b) / (2h) lies in [-h, h) again.
proof fn lemma_mulh_range(a: int, b: int, h: int)
    requires
        -h <= a < h,
        -h <= b < h,
        2 <= h,
    ensures
        -(h * h) <= a * b <= h * h,
        -h <= (a * b) / (2 * h) < h,
{
    let m = 2 * h;
    assert(-(h * h) <= a * b <= h * h) by (nonlinear_arith)
        requires
            -h <= a < h,
            -h <= b < h,
            2 <= h,
    ;
    assert(h * h < m * h) by (nonlinear_arith)
        requires
            2 <= h,
            m == 2 * h,
    ;
    lemma_multiply_divide_lt(a * b, m, h);
    assert(m * (-h) <= -(h * h)) by (nonlinear_arith)
        requires
            2 <= h,
            m == 2 * h,
    ;
    lemma_div_is_ordered(m * (-h), a * b, m);
    lemma_div_multiples_vanish(-h, m);
}

/// Range of the mixed product, a signed in [-h, h) times b unsigned in
/// [0, 2h): the high word (a * b) / (2h) lies in [-h, h).
proof fn lemma_mulhsu_range(a: int, b: int, h: int)
    requires
        -h <= a < h,
        0 <= b < 2 * h,
        2 <= h,
    ensures
        -(2 * h * h) <= a * b < 2 * h * h,
        -h <= (a * b) / (2 * h) < h,
{
    let m = 2 * h;
    assert(m * (-h) <= a * b && a * b < m * h) by (nonlinear_arith)
        requires
            -h <= a < h,
            0 <= b < m,
            2 <= h,
            m == 2 * h,
    ;
    lemma_multiply_divide_lt(a * b, m, h);
    lemma_div_is_ordered(m * (-h), a * b, m);
    lemma_div_multiples_vanish(-h, m);
    assert(m * h == 2 * h * h && m * (-h) == -(2 * h * h)) by (nonlinear_arith)
        requires
            m == 2 * h,
    ;
}

/// Ranges of truncated division and remainder on [-h, h): the quotient
/// overflows that range exactly for dividend -h and divisor -1, and the
/// remainder never does.
proof fn lemma_trunc_div_rem_range(x: int, d: int, h: int)
    requires
        -h <= x < h,
        -h <= d < h,
        d != 0,
        2 <= h,
    ensures
        (x == -h && d == -1) ==> trunc_div(x, d) == h,
        !(x == -h && d == -1) ==> -h <= trunc_div(x, d) < h,
        -h < trunc_rem(x, d) < h,
{
    if x == 0 {
    } else if x > 0 && d > 0 {
        lemma_div_pos_is_pos(x, d);
        lemma_div_nonincreasing(x, d);
        lemma_mod_division_less_than_divisor(x, d);
    } else if x < 0 && d < 0 {
        let p = x * -1;
        let e = d * -1;
        lemma_div_pos_is_pos(p, e);
        lemma_div_nonincreasing(p, e);
        lemma_mod_division_less_than_divisor(p, e);
        if e >= 2 {
            lemma_div_decreases(p, e);
        } else {
            assert(e == 1);
            lemma_div_multiples_vanish(p, 1);
            assert(1 * p == p);
        }
    } else if x < 0 {
        let p = x * -1;
        lemma_div_pos_is_pos(p, d);
        lemma_div_nonincreasing(p, d);
        lemma_mod_division_less_than_divisor(p, d);
    } else {
        let e = d * -1;
        lemma_div_pos_is_pos(x, e);
        lemma_div_nonincreasing(x, e);
        lemma_mod_division_less_than_divisor(x, e);
    }
}

/// How a u64 bit pattern reads as an i64: identical below 2^63, shifted
/// down by 2^64 above.
proof fn lemma_u64_to_i64(a: u64)
    by (bit_vector)
    ensures
        a < 0x8000_0000_0000_0000 ==> (a as i64) as int == a as int,
        a >= 0x8000_0000_0000_0000 ==> (a as i64) as int == a as int - 0x1_0000_0000_0000_0000,
{
}

/// How an i64 value reads back as a u64 bit pattern.
proof fn lemma_i64_to_u64(q: i64)
    by (bit_vector)
    ensures
        q >= 0 ==> (q as u64) as int == q as int && (q as u64) < 0x8000_0000_0000_0000,
        q < 0 ==> (q as u64) as int == q as int + 0x1_0000_0000_0000_0000 && (q as u64)
            >= 0x8000_0000_0000_0000,
{
}

/// Truncating an i128 in i64 range to a u64 keeps its two's-complement
/// reading.
proof fn lemma_i128_to_u64(q: i128)
    by (bit_vector)
    requires
        -0x8000_0000_0000_0000 <= q < 0x8000_0000_0000_0000,
    ensures
        q >= 0 ==> (q as u64) as int == q as int && (q as u64) < 0x8000_0000_0000_0000,
        q < 0 ==> (q as u64) as int == q as int + 0x1_0000_0000_0000_0000 && (q as u64)
            >= 0x8000_0000_0000_0000,
{
}

/// Truncating a usize to u64 reduces it modulo 2^64.
proof fn lemma_usize_to_u64(v: usize)
    by (bit_vector)
    ensures
        (v as u64) as int == v as int % 0x1_0000_0000_0000_0000,
{
}

impl Register for u64 {
    open spec fn wmod() -> int {
        0x1_0000_0000_0000_0000
    }

    open spec fn uval(self) -> int {
        self as int
    }

    open spec fn sval(self) -> int {
        if self < 0x8000_0000_0000_0000 {
            self as int
        } else {
            self as int - 0x1_0000_0000_0000_0000
        }
    }

    proof fn lemma_valid(self) {
    }

    fn zero() -> u64 {
        0
    }

    fn one() -> u64 {
        1
    }

    fn min_value() -> u64 {
        0x8000_0000_0000_0000
    }

    fn max_value() -> u64 {
        0xffff_ffff_ffff_ffff
    }

    fn from_usize(v: usize) -> u64 {
        proof {
            lemma_usize_to_u64(v);
        }
        #[verifier::truncate] (v as u64)
    }

    fn is_zero(self) -> bool {
        self == 0
    }

    fn to_u64(self) -> u64 {
        self
    }

    fn overflowing_add(self, rhs: u64) -> (u64, bool) {
        (self.wrapping_add(rhs), rhs > u64::MAX - self)
    }

    fn overflowing_sub(self, rhs: u64) -> (u64, bool) {
        (self.wrapping_sub(rhs), self < rhs)
    }

    fn overflowing_mul(self, rhs: u64) -> (u64, bool) {
        (self.wrapping_mul(rhs), self.checked_mul(rhs).is_none())
    }

    fn overflowing_mul_high_signed(self, rhs: u64) -> (r: u64) {
        proof {
            lemma_u64_to_i64(self);
            lemma_u64_to_i64(rhs);
            lemma_mulh_range(self.sval(), rhs.sval(), 0x8000_0000_0000_0000);
        }
        let a: i64 = #[verifier::truncate] (self as i64);
        let b: i64 = #[verifier::truncate] (rhs as i64);
        let p: i128 = (a as i128) * (b as i128);
        let q: i128 = p.checked_div_euclid(0x1_0000_0000_0000_0000i128).unwrap();
        proof {
            lemma_i128_to_u64(q);
        }
        #[verifier::truncate] (q as u64)
    }

    fn overflowing_mul_high_signed_unsigned(self, rhs: u64) -> (r: u64) {
        proof {
            lemma_u64_to_i64(self);
            lemma_mulhsu_range(self.sval(), rhs as int, 0x8000_0000_0000_0000);
        }
        let a: i64 = #[verifier::truncate] (self as i64);
        let p: i128 = (a as i128) * (rhs as i128);
        let q: i128 = p.checked_div_euclid(0x1_0000_0000_0000_0000i128).unwrap();
        proof {
            lemma_i128_to_u64(q);
        }
        #[verifier::truncate] (q as u64)
    }

    fn overflowing_mul_high_unsigned(self, rhs: u64) -> (r: u64) {
        proof {
            lemma_mulhu_range(self as int, rhs as int, 0x1_0000_0000_0000_0000);
        }
        let p: u128 = (self as u128) * (rhs as u128);
        (p / 0x1_0000_0000_0000_0000u128) as u64
    }

    fn overflowing_div(self, rhs: u64) -> (u64, bool) {
        (self / rhs, false)
    }

    fn overflowing_rem(self, rhs: u64) -> (u64, bool) {
        (self % rhs, false)
    }

    fn overflowing_div_signed(self, rhs: u64) -> (r: (u64, bool)) {
        proof {
            lemma_u64_to_i64(self);
            lemma_u64_to_i64(rhs);
            lemma_trunc_div_rem_range(self.sval(), rhs.sval(), 0x8000_0000_0000_0000);
        }
        let a: i64 = #[verifier::truncate] (self as i64);
        let b: i64 = #[verifier::truncate] (rhs as i64);
        match a.checked_div(b) {
            Some(q) => {
                proof {
                    lemma_i64_to_u64(q);
                }
                (#[verifier::truncate] (q as u64), false)
            },
            None => (self, true),
        }
    }

    fn overflowing_rem_signed(self, rhs: u64) -> (r: (u64, bool)) {
        proof {
            lemma_u64_to_i64(self);
            lemma_u64_to_i64(rhs);
            lemma_trunc_div_rem_range(self.sval(), rhs.sval(), 0x8000_0000_0000_0000);
        }
        let a: i64 = #[verifier::truncate] (self as i64);
        let b: i64 = #[verifier::truncate] (rhs as i64);
        match a.checked_rem(b) {
            Some(q) => {
                proof {
                    lemma_i64_to_u64(q);
                }
                (#[verifier::truncate] (q as u64), false)
            },
            None => (0, true),
        }
    }
}

/// How a u32 bit pattern reads as an i32: identical below 2^31, shifted
/// down by 2^32 above.
proof fn lemma_u32_to_i32(a: u32)
    by (bit_vector)
    ensures
        a < 0x8000_0000 ==> (a as i32) as int == a as int,
        a >= 0x8000_0000 ==> (a as i32) as int == a as int - 0x1_0000_0000,
{
}

/// How an i32 value reads back as a u32 bit pattern.
proof fn lemma_i32_to_u32(q: i32)
    by (bit_vector)
    ensures
        q >= 0 ==> (q as u32) as int == q as int && (q as u32) < 0x8000_0000,
        q < 0 ==> (q as u32) as int == q as int + 0x1_0000_0000 && (q as u32) >= 0x8000_0000,
{
}

/// Truncating an i64 in i32 range to a u32 keeps its two's-complement
/// reading.
proof fn lemma_i64_to_u32(q: i64)
    by (bit_vector)
    requires
        -0x8000_0000 <= q < 0x8000_0000,
    ensures
        q >= 0 ==> (q as u32) as int == q as int && (q as u32) < 0x8000_0000,
        q < 0 ==> (q as u32) as int == q as int + 0x1_0000_0000 && (q as u32) >= 0x8000_0000,
{
}

/// Truncating a usize to u32 reduces it modulo 2^32.
proof fn lemma_usize_to_u32(v: usize)
    by (bit_vector)
    ensures
        (v as u32) as int == v as int % 0x1_0000_0000,
{
}

impl Register for u32 {
    open spec fn wmod() -> int {
        0x1_0000_0000
    }

    open spec fn uval(self) -> int {
        self as int
    }

    open spec fn sval(self) -> int {
        if self < 0x8000_0000 {
            self as int
        } else {
            self as int - 0x1_0000_0000
        }
    }

    proof fn lemma_valid(self) {
    }

    fn zero() -> u32 {
        0
    }

    fn one() -> u32 {
        1
    }

    fn min_value() -> u32 {
        0x8000_0000
    }

    fn max_value() -> u32 {
        0xffff_ffff
    }

    fn from_usize(v: usize) -> u32 {
        proof {
            lemma_usize_to_u32(v);
        }
        #[verifier::truncate] (v as u32)
    }

    fn is_zero(self) -> bool {
        self == 0
    }

    fn to_u64(self) -> u64 {
        self as u64
    }

    fn overflowing_add(self, rhs: u32) -> (u32, bool) {
        (self.wrapping_add(rhs), rhs > u32::MAX - self)
    }

    fn overflowing_sub(self, rhs: u32) -> (u32, bool) {
        (self.wrapping_sub(rhs), self < rhs)
    }

    fn overflowing_mul(self, rhs: u32) -> (u32, bool) {
        (self.wrapping_mul(rhs), self.checked_mul(rhs).is_none())
    }

    fn overflowing_mul_high_signed(self, rhs: u32) -> (r: u32) {
        proof {
            lemma_u32_to_i32(self);
            lemma_u32_to_i32(rhs);
            lemma_mulh_range(self.sval(), rhs.sval(), 0x8000_0000);
        }
        let a: i32 = #[verifier::truncate] (self as i32);
        let b: i32 = #[verifier::truncate] (rhs as i32);
        let p: i64 = (a as i64) * (b as i64);
        let q: i64 = p.checked_div_euclid(0x1_0000_0000i64).unwrap();
        proof {
            lemma_i64_to_u32(q);
        }
        #[verifier::truncate] (q as u32)
    }

    fn overflowing_mul_high_signed_unsigned(self, rhs: u32) -> (r: u32) {
        proof {
            lemma_u32_to_i32(self);
            lemma_mulhsu_range(self.sval(), rhs as int, 0x8000_0000);
        }
        let a: i32 = #[verifier::truncate] (self as i32);
        let p: i64 = (a as i64) * (rhs as i64);
        let q: i64 = p.checked_div_euclid(0x1_0000_0000i64).unwrap();
        proof {
            lemma_i64_to_u32(q);
        }
        #[verifier::truncate] (q as u32)
    }

    fn overflowing_mul_high_unsigned(self, rhs: u32) -> (r: u32) {
        proof {
            lemma_mulhu_range(self as int, rhs as int, 0x1_0000_0000);
        }
        let p: u64 = (self as u64) * (rhs as u64);
        (p / 0x1_0000_0000u64) as u32
    }

    fn overflowing_div(self, rhs: u32) -> (u32, bool) {
        (self / rhs, false)
    }

    fn overflowing_rem(self, rhs: u32) -> (u32, bool) {
        (self % rhs, false)
    }

    fn overflowing_div_signed(self, rhs: u32) -> (r: (u32, bool)) {
        proof {
            lemma_u32_to_i32(self);
            lemma_u32_to_i32(rhs);
            lemma_trunc_div_rem_range(self.sval(), rhs.sval(), 0x8000_0000);
        }
        let a: i32 = #[verifier::truncate] (self as i32);
        let b: i32 = #[verifier::truncate] (rhs as i32);
        match a.checked_div(b) {
            Some(q) => {
                proof {
                    lemma_i32_to_u32(q);
                }
                (#[verifier::truncate] (q as u32), false)
            },
            None => (self, true),
        }
    }

    fn overflowing_rem_signed(self, rhs: u32) -> (r: (u32, bool)) {
        proof {
            lemma_u32_to_i32(self);
            lemma_u32_to_i32(rhs);
            lemma_trunc_div_rem_range(self.sval(), rhs.sval(), 0x8000_0000);
        }
        let a: i32 = #[verifier::truncate] (self as i32);
        let b: i32 = #[verifier::truncate] (rhs as i32);
        match a.checked_rem(b) {
            Some(q) => {
                proof {
                    lemma_i32_to_u32(q);
                }
                (#[verifier::truncate] (q as u32), false)
            },
            None => (0, true),
        }
    }
}

} // verus!
