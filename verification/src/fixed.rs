//! Binary fixed-point numbers, and the doubles that they are read from.

use vstd::prelude::*;
use vstd::arithmetic::power2::*;
use vstd::string::*;
use crate::ratio::{round_half_even, rounded_quotient};
use crate::text::{one_place, push_one_place};

verus! {

/// The raw value of one: 2^64.
pub const ONE_RAW: i128 = 0x1_0000_0000_0000_0000;

/// The largest raw magnitude a [`Fixed`] takes on by arithmetic: 2^127 - 1.
pub const MAX_RAW: i128 = 0x7FFF_FFFF_FFFF_FFFF_FFFF_FFFF_FFFF_FFFF;

/// A signed number with 64 binary fraction digits: it stands for `raw / 2^64`.
///
/// Sums and whole multiples are exact, and quotients are rounded toward
/// zero, until a magnitude would pass [`MAX_RAW`]: there it stays at that
/// bound. Every double from 2^-12 up to 2^63 in magnitude is held exactly.
#[derive(Clone, Copy, Debug, PartialEq, Eq, Structural)]
pub struct Fixed {
    pub raw: i128,
}

/// `x` held within `-MAX_RAW ..= MAX_RAW`.
pub open spec fn saturate(x: int) -> i128 {
    if x > MAX_RAW {
        MAX_RAW
    } else if x < -MAX_RAW {
        (-MAX_RAW) as i128
    } else {
        x as i128
    }
}

/// Ten to the power `n`.
pub open spec fn pow10(n: nat) -> nat
    decreases n,
{
    if n == 0 {
        1
    } else {
        10 * pow10((n - 1) as nat)
    }
}

/// The raw value with the given sign and magnitude, held at the bound.
pub open spec fn signed_raw(negative: bool, magnitude: nat) -> i128 {
    saturate(
        if negative {
            -(magnitude as int)
        } else {
            magnitude as int
        },
    )
}

/// The sign bit of a double given by its bit pattern.
pub open spec fn double_negative(bits: u64) -> bool {
    bits >= 0x8000_0000_0000_0000
}

/// The biased exponent field of a double.
pub open spec fn double_exponent(bits: u64) -> nat {
    ((bits / 0x10_0000_0000_0000) % 0x800) as nat
}

/// The 52 stored fraction bits of a double.
pub open spec fn double_fraction(bits: u64) -> nat {
    (bits % 0x10_0000_0000_0000) as nat
}

/// The integer significand of a double: the fraction bits, with the hidden
/// leading bit unless the number is subnormal.
pub open spec fn double_significand(bits: u64) -> nat {
    if double_exponent(bits) == 0 {
        double_fraction(bits)
    } else {
        0x10_0000_0000_0000 + double_fraction(bits)
    }
}

/// The power of two that scales the significand: a finite double has the
/// magnitude `double_significand * 2^double_scale`.
pub open spec fn double_scale(bits: u64) -> int {
    (if double_exponent(bits) == 0 {
        1int
    } else {
        double_exponent(bits) as int
    }) - 1075
}

/// The magnitude of a finite double in units of 2^-64, rounded down.
pub open spec fn double_magnitude_raw(bits: u64) -> nat {
    let shift = double_scale(bits) + 64;
    if shift >= 0 {
        double_significand(bits) * pow2(shift as nat)
    } else {
        double_significand(bits) / pow2((-shift) as nat)
    }
}

/// The fixed-point value of a double: its magnitude in units of 2^-64, rounded
/// toward zero and held at [`MAX_RAW`], with the double's sign. An infinity or
/// a NaN pattern counts as a magnitude beyond every bound.
pub open spec fn fixed_of_double(bits: u64) -> Fixed {
    let magnitude: int = if double_exponent(bits) == 0x7FF || double_magnitude_raw(bits)
        > MAX_RAW {
        MAX_RAW as int
    } else {
        double_magnitude_raw(bits) as int
    };
    Fixed {
        raw: (if double_negative(bits) {
            -magnitude
        } else {
            magnitude
        }) as i128,
    }
}

impl Fixed {
    /// The size of the value in units of 2^-64, without its sign.
    pub open spec fn magnitude(self) -> nat {
        if self.raw < 0 {
            (-self.raw) as nat
        } else {
            self.raw as nat
        }
    }

    /// The value is greater than the whole number `n`.
    pub open spec fn above_whole(self, n: nat) -> bool {
        self.raw > n * ONE_RAW
    }

    /// A hundred times the value, held at the bound.
    pub open spec fn hundredfold(self) -> Fixed {
        Fixed { raw: saturate(self.raw * 100) }
    }

    /// The sum of two values, held at the bound.
    pub open spec fn sum(self, other: Fixed) -> Fixed {
        Fixed { raw: saturate(self.raw + other.raw) }
    }

    /// The value times `count / 10^decimals`, rounded toward zero and held at
    /// the bound: what a price makes of a raw supply with that many decimals.
    pub open spec fn scaled_product(self, count: u64, decimals: u64) -> Fixed {
        Fixed {
            raw: signed_raw(
                self.raw < 0,
                ((self.magnitude() * count) as nat) / pow10(decimals as nat),
            ),
        }
    }

    /// The value divided by `count`, rounded toward zero.
    pub open spec fn quotient(self, count: u64) -> Fixed {
        Fixed { raw: signed_raw(self.raw < 0, self.magnitude() / (count as nat)) }
    }

    /// The value in decimal with one place, rounded half to even.
    pub open spec fn one_decimal(self) -> Seq<char> {
        (if self.raw < 0 {
            seq!['-']
        } else {
            Seq::<char>::empty()
        }) + one_place(round_half_even(self.magnitude() * 10, ONE_RAW as nat))
    }

    /// The number zero.
    pub fn zero() -> (r: Fixed)
        ensures
            r.raw == 0,
    {
        Fixed { raw: 0 }
    }

    /// The value of the double with the given bit pattern.
    pub fn from_double_bits(bits: u64) -> (r: Fixed)
        ensures
            r == fixed_of_double(bits),
    {
        let exponent: u64 = (bits / 0x10_0000_0000_0000) % 0x800;
        let fraction: u64 = bits % 0x10_0000_0000_0000;
        let negative: bool = bits >= 0x8000_0000_0000_0000;
        let significand: u128 = if exponent == 0 {
            fraction as u128
        } else {
            0x10_0000_0000_0000u128 + fraction as u128
        };
        let position: u64 = if exponent == 0 {
            1
        } else {
            exponent
        };
        proof {
            lemma_pow2_landmarks();
        }
        let magnitude: i128 = if exponent == 0x7FF {
            MAX_RAW
        } else if position >= 1011 {
            let shift: u64 = position - 1011;
            if shift >= 75 {
                proof {
                    if shift > 75 {
                        lemma_pow2_strictly_increases(75, shift as nat);
                    }
                    let p = pow2(shift as nat);
                    assert(significand * p >= 0x10_0000_0000_0000 * 0x800_0000_0000_0000_0000)
                        by (nonlinear_arith)
                        requires
                            significand >= 0x10_0000_0000_0000,
                            p >= 0x800_0000_0000_0000_0000,
                    ;
                }
                MAX_RAW
            } else {
                let p: u128 = pow2_u128(shift as u32);
                proof {
                    if shift < 74 {
                        lemma_pow2_strictly_increases(shift as nat, 74);
                    }
                    assert(significand * p < 0x20_0000_0000_0000 * 0x400_0000_0000_0000_0000)
                        by (nonlinear_arith)
                        requires
                            significand < 0x20_0000_0000_0000,
                            p <= 0x400_0000_0000_0000_0000,
                    ;
                }
                (significand * p) as i128
            }
        } else {
            let shift: u64 = 1011 - position;
            if shift >= 53 {
                proof {
                    if shift > 53 {
                        lemma_pow2_strictly_increases(53, shift as nat);
                    }
                    vstd::arithmetic::div_mod::lemma_basic_div_specific_divisor(
                        pow2(shift as nat) as int,
                    );
                    assert(significand as int / pow2(shift as nat) as int == 0);
                }
                0
            } else {
                let p: u128 = pow2_u128(shift as u32);
                proof {
                    lemma_pow2_pos(shift as nat);
                }
                (significand / p) as i128
            }
        };
        Fixed {
            raw: if negative {
                -magnitude
            } else {
                magnitude
            },
        }
    }

    /// Whether the value is greater than the whole number `n`.
    pub fn exceeds(&self, n: u32) -> (r: bool)
        ensures
            r == self.above_whole(n as nat),
    {
        self.raw > (n as i128) * ONE_RAW
    }

    /// A hundred times the value, held at the bound.
    pub fn times_hundred(&self) -> (r: Fixed)
        ensures
            r == self.hundredfold(),
    {
        if self.raw > MAX_RAW / 100 {
            Fixed { raw: MAX_RAW }
        } else if self.raw < -(MAX_RAW / 100) {
            Fixed { raw: -MAX_RAW }
        } else {
            Fixed { raw: self.raw * 100 }
        }
    }

    /// The sum of two values, held at the bound.
    pub fn plus(&self, other: &Fixed) -> (r: Fixed)
        ensures
            r == self.sum(*other),
    {
        match self.raw.checked_add(other.raw) {
            Some(total) => if total < -MAX_RAW {
                Fixed { raw: -MAX_RAW }
            } else {
                Fixed { raw: total }
            },
            None => if self.raw > 0 {
                Fixed { raw: MAX_RAW }
            } else {
                Fixed { raw: -MAX_RAW }
            },
        }
    }

    fn magnitude_bits(&self) -> (m: u128)
        ensures
            m == self.magnitude(),
            m <= 0x8000_0000_0000_0000_0000_0000_0000_0000,
    {
        if self.raw == i128::MIN {
            0x8000_0000_0000_0000_0000_0000_0000_0000u128
        } else if self.raw < 0 {
            (-self.raw) as u128
        } else {
            self.raw as u128
        }
    }

    fn with_sign(negative: bool, magnitude: u128) -> (r: Fixed)
        ensures
            r.raw == signed_raw(negative, magnitude as nat),
    {
        let held: i128 = if magnitude > MAX_RAW as u128 {
            MAX_RAW
        } else {
            magnitude as i128
        };
        Fixed {
            raw: if negative {
                -held
            } else {
                held
            },
        }
    }

    /// The value times `count / 10^decimals`, rounded toward zero and held at
    /// the bound.
    pub fn scaled_by(&self, count: u64, decimals: u64) -> (r: Fixed)
        ensures
            r == self.scaled_product(count, decimals),
    {
        let magnitude: u128 = self.magnitude_bits();
        let high: u128 = magnitude / 0x1_0000_0000_0000_0000u128;
        let low: u128 = magnitude % 0x1_0000_0000_0000_0000u128;
        proof {
            assert(low * count <= 0xFFFF_FFFF_FFFF_FFFF * 0xFFFF_FFFF_FFFF_FFFF) by (nonlinear_arith)
                requires
                    0 <= low <= 0xFFFF_FFFF_FFFF_FFFF,
                    0 <= count <= 0xFFFF_FFFF_FFFF_FFFF,
            ;
            assert(high * count <= 0x8000_0000_0000_0000 * 0xFFFF_FFFF_FFFF_FFFF)
                by (nonlinear_arith)
                requires
                    0 <= high <= 0x8000_0000_0000_0000,
                    0 <= count <= 0xFFFF_FFFF_FFFF_FFFF,
            ;
        }
        let low_product: u128 = low * (count as u128);
        let high_product: u128 = high * (count as u128);
        let middle: u128 = high_product + low_product / 0x1_0000_0000_0000_0000u128;
        let mut a0: u128 = low_product % 0x1_0000_0000_0000_0000u128;
        let mut a1: u128 = middle % 0x1_0000_0000_0000_0000u128;
        let mut a2: u128 = middle / 0x1_0000_0000_0000_0000u128;
        let ghost product: nat = (magnitude * count) as nat;
        proof {
            let b: int = 0x1_0000_0000_0000_0000;
            let carry: int = low_product as int / b;
            assert(low_product == carry * b + a0);
            assert(middle == a2 * b + a1);
            assert(product == a2 * b * b + a1 * b + a0) by (nonlinear_arith)
                requires
                    product == magnitude * count,
                    magnitude == high * b + low,
                    low * count == carry * b + a0,
                    high * count + carry == a2 * b + a1,
            ;
            assert(pow10(0) == 1);
            assert(product as int / 1 == product);
        }
        let mut i: u64 = 0;
        while i < decimals && (a0 != 0 || a1 != 0 || a2 != 0)
            invariant
                i <= decimals,
                a0 < 0x1_0000_0000_0000_0000,
                a1 < 0x1_0000_0000_0000_0000,
                a2 < 0x1_0000_0000_0000_0000,
                a2 * 0x1_0000_0000_0000_0000 * 0x1_0000_0000_0000_0000 + a1
                    * 0x1_0000_0000_0000_0000 + a0 == product / pow10(i as nat),
            decreases decimals - i,
        {
            let t1: u128 = (a2 % 10) * 0x1_0000_0000_0000_0000u128 + a1;
            let t0: u128 = (t1 % 10) * 0x1_0000_0000_0000_0000u128 + a0;
            proof {
                lemma_limbs_tenth(
                    a2 as nat,
                    a1 as nat,
                    a0 as nat,
                    (a2 / 10) as nat,
                    (t1 / 10) as nat,
                    (t0 / 10) as nat,
                );
                lemma_quotient_step(product, i as nat);
            }
            a2 = a2 / 10;
            a1 = t1 / 10;
            a0 = t0 / 10;
            i = i + 1;
        }
        proof {
            if a0 == 0 && a1 == 0 && a2 == 0 {
                lemma_quotient_stays_zero(product, i as nat, decimals as nat);
            }
        }
        let held: u128 = if a2 != 0 || a1 >= 0x8000_0000_0000_0000u128 {
            0x8000_0000_0000_0000_0000_0000_0000_0000u128
        } else {
            a1 * 0x1_0000_0000_0000_0000u128 + a0
        };
        Fixed::with_sign(self.raw < 0, held)
    }

    /// The value divided by `count`, rounded toward zero.
    pub fn divided_by(&self, count: u64) -> (r: Fixed)
        requires
            count > 0,
        ensures
            r == self.quotient(count),
    {
        Fixed::with_sign(self.raw < 0, self.magnitude_bits() / (count as u128))
    }

    /// Appends the value in decimal with one place.
    pub fn push_one_decimal(&self, out: &mut String)
        ensures
            final(out)@ == old(out)@ + self.one_decimal(),
    {
        if self.raw < 0 {
            proof {
                reveal_strlit("-");
            }
            out.append("-");
        }
        let magnitude: u128 = self.magnitude_bits();
        let whole: u128 = magnitude / 0x1_0000_0000_0000_0000u128;
        let part: u128 = magnitude % 0x1_0000_0000_0000_0000u128;
        let tenths: u128 = whole * 10 + rounded_quotient(part * 10, 0x1_0000_0000_0000_0000u128);
        proof {
            lemma_tenths_split(magnitude as nat, whole as nat, part as nat);
        }
        push_one_place(out, tenths);
        assert(out@ =~= old(out)@ + self.one_decimal());
    }
}

proof fn lemma_pow2_landmarks()
    ensures
        pow2(52) == 0x10_0000_0000_0000,
        pow2(53) == 0x20_0000_0000_0000,
        pow2(64) == 0x1_0000_0000_0000_0000,
        pow2(74) == 0x400_0000_0000_0000_0000,
        pow2(75) == 0x800_0000_0000_0000_0000,
        pow2(126) == 0x4000_0000_0000_0000_0000_0000_0000_0000,
{
    lemma2_to64();
    lemma_pow2_adds(32, 20);
    lemma_pow2_adds(32, 21);
    lemma_pow2_adds(64, 10);
    lemma_pow2_adds(64, 11);
    lemma_pow2_adds(64, 30);
    lemma_pow2_adds(94, 32);
}

/// 2^e as a machine integer.
fn pow2_u128(e: u32) -> (r: u128)
    requires
        e <= 126,
    ensures
        r == pow2(e as nat),
{
    let mut r: u128 = 1;
    let mut i: u32 = 0;
    proof {
        lemma2_to64();
    }
    while i < e
        invariant
            i <= e <= 126,
            r == pow2(i as nat),
        decreases e - i,
    {
        proof {
            lemma_pow2_unfold((i + 1) as nat);
            lemma_pow2_landmarks();
            if i + 1 < 126 {
                lemma_pow2_strictly_increases((i + 1) as nat, 126);
            }
        }
        r = r * 2;
        i = i + 1;
    }
    r
}

/// Rounding to tenths does not depend on the whole part: for a magnitude
/// `whole * 2^64 + part`, the tenths are ten per whole plus those of the part.
proof fn lemma_tenths_split(magnitude: nat, whole: nat, part: nat)
    requires
        magnitude == whole * ONE_RAW + part,
        part < ONE_RAW,
    ensures
        round_half_even(magnitude * 10, ONE_RAW as nat) == whole * 10 + round_half_even(
            part * 10,
            ONE_RAW as nat,
        ),
{
    let unit = ONE_RAW as int;
    let q = (part * 10) as int / unit;
    let r = (part * 10) as int % unit;
    vstd::arithmetic::div_mod::lemma_fundamental_div_mod((part * 10) as int, unit);
    assert((magnitude * 10) as int == (whole * 10 + q) * unit + r) by (nonlinear_arith)
        requires
            magnitude == whole * unit + part,
            (part * 10) as int == unit * q + r,
    ;
    vstd::arithmetic::div_mod::lemma_fundamental_div_mod_converse(
        (magnitude * 10) as int,
        unit,
        whole * 10 + q,
        r,
    );
}

proof fn lemma_pow10_grows(i: nat, j: nat)
    requires
        i <= j,
    ensures
        0 < pow10(i) <= pow10(j),
    decreases j,
{
    if j > 0 {
        if i < j {
            lemma_pow10_grows(i, (j - 1) as nat);
        } else {
            lemma_pow10_grows((i - 1) as nat, (j - 1) as nat);
        }
    }
}

/// Once the quotient by a power of ten is zero, it is zero by every higher
/// power.
proof fn lemma_quotient_stays_zero(x: nat, i: nat, j: nat)
    requires
        i <= j,
        x / pow10(i) == 0,
    ensures
        x / pow10(j) == 0,
{
    lemma_pow10_grows(i, j);
    vstd::arithmetic::div_mod::lemma_fundamental_div_mod(x as int, pow10(i) as int);
    vstd::arithmetic::div_mod::lemma_basic_div_specific_divisor(pow10(j) as int);
}

/// One more division by ten takes the quotient to the next power of ten.
proof fn lemma_quotient_step(x: nat, i: nat)
    ensures
        (x / pow10(i)) / 10 == x / pow10(i + 1),
{
    lemma_pow10_grows(i, i);
    vstd::arithmetic::div_mod::lemma_div_denominator(x as int, pow10(i) as int, 10);
    assert(pow10(i + 1) == pow10(i) * 10);
}

/// Dividing a number of three 64-bit limbs by ten, limb by limb from the top.
proof fn lemma_limbs_tenth(a2: nat, a1: nat, a0: nat, q2: nat, q1: nat, q0: nat)
    requires
        q2 == a2 / 10,
        q1 == ((a2 % 10) * 0x1_0000_0000_0000_0000 + a1) / 10,
        q0 == ((((a2 % 10) * 0x1_0000_0000_0000_0000 + a1) % 10) * 0x1_0000_0000_0000_0000 + a0)
            / 10,
    ensures
        (a2 * 0x1_0000_0000_0000_0000 * 0x1_0000_0000_0000_0000 + a1 * 0x1_0000_0000_0000_0000
            + a0) / 10 == q2 * 0x1_0000_0000_0000_0000 * 0x1_0000_0000_0000_0000 + q1
            * 0x1_0000_0000_0000_0000 + q0,
{
    let b: int = 0x1_0000_0000_0000_0000;
    let r2 = (a2 % 10) as int;
    let t1 = r2 * b + a1;
    let r1 = t1 % 10;
    let t0 = r1 * b + a0;
    let r0 = t0 % 10;
    let x = a2 * b * b + a1 * b + a0;
    let q = q2 * b * b + q1 * b + q0;
    assert(a2 == 10 * q2 + r2);
    assert(t1 == 10 * q1 + r1);
    assert(t0 == 10 * q0 + r0);
    assert(x == q * 10 + r0) by (nonlinear_arith)
        requires
            a2 == 10 * q2 + r2,
            r2 * b + a1 == 10 * q1 + r1,
            r1 * b + a0 == 10 * q0 + r0,
            x == a2 * b * b + a1 * b + a0,
            q == q2 * b * b + q1 * b + q0,
    ;
    vstd::arithmetic::div_mod::lemma_fundamental_div_mod_converse(x, 10, q, r0);
}

} // verus!
