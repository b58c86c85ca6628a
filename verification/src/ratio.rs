//! Quotients of counts, held exactly.

use vstd::prelude::*;
use vstd::string::*;
use crate::text::{one_place, push_one_place, push_two_places, two_places};

verus! {

/// `n / d` rounded to the nearest integer, a tie going to the even neighbour.
pub open spec fn round_half_even(n: nat, d: nat) -> nat {
    let q = n / d;
    let r = n % d;
    if 2 * r > d || (2 * r == d && q % 2 == 1) {
        q + 1
    } else {
        q
    }
}

/// `n / d` rounded to the nearest integer, a tie going to the even neighbour.
pub fn rounded_quotient(n: u128, d: u128) -> (r: u128)
    requires
        d > 0,
    ensures
        r == round_half_even(n as nat, d as nat),
{
    let q: u128 = n / d;
    let r: u128 = n % d;
    if r > d - r || (r == d - r && q % 2 == 1) {
        proof {
            assert(q * d <= n) by (nonlinear_arith)
                requires
                    q == n / d,
                    d > 0,
            ;
            assert(q * 2 <= q * d) by (nonlinear_arith)
                requires
                    d >= 2,
                    q >= 0,
            ;
        }
        q + 1
    } else {
        q
    }
}

/// The quotient of two counts, `num / den`, held exactly.
///
/// With `den == 0` it compares as the limit does: above every bound when
/// `num > 0`, neither above nor below any bound when `num == 0`.
#[derive(Clone, Copy, Debug, PartialEq, Eq, Structural)]
pub struct Ratio {
    pub num: u64,
    pub den: u64,
}

impl Ratio {
    /// The quotient is greater than `p / q`.
    pub open spec fn above(self, p: nat, q: nat) -> bool {
        self.num * q > p * self.den
    }

    /// The quotient is less than `p / q`.
    pub open spec fn below(self, p: nat, q: nat) -> bool {
        self.num * q < p * self.den
    }

    /// The quotient is at most one.
    pub open spec fn at_most_one(self) -> bool {
        self.num <= self.den
    }

    /// The quotient times `scale`, rounded half to even.
    pub open spec fn rounded(self, scale: nat) -> nat {
        round_half_even((self.num * scale) as nat, self.den as nat)
    }

    /// What is written for a quotient with a zero denominator.
    pub open spec fn unbounded_text(self) -> Seq<char> {
        if self.num == 0 {
            "NaN"@
        } else {
            "inf"@
        }
    }

    /// The quotient as a percentage with one decimal place.
    pub open spec fn percent_one_decimal(self) -> Seq<char> {
        if self.den == 0 {
            self.unbounded_text()
        } else {
            one_place(self.rounded(1000))
        }
    }

    /// The quotient as a percentage with two decimal places.
    pub open spec fn percent_two_decimals(self) -> Seq<char> {
        if self.den == 0 {
            self.unbounded_text()
        } else {
            two_places(self.rounded(10000))
        }
    }

    /// The quotient with two decimal places.
    pub open spec fn two_decimals(self) -> Seq<char> {
        if self.den == 0 {
            self.unbounded_text()
        } else {
            two_places(self.rounded(100))
        }
    }

    /// The quotient of `num` by `den`, with the numerator held to the
    /// denominator so that the quotient is at most one.
    pub open spec fn capped(num: u64, den: u64) -> Ratio {
        Ratio {
            num: if num > den {
                den
            } else {
                num
            },
            den,
        }
    }

    /// Whether the quotient is greater than `p / q`.
    pub fn is_above(&self, p: u64, q: u64) -> (r: bool)
        ensures
            r == self.above(p as nat, q as nat),
    {
        proof {
            lemma_product_fits(self.num, q);
            lemma_product_fits(p, self.den);
        }
        (self.num as u128) * (q as u128) > (p as u128) * (self.den as u128)
    }

    /// Whether the quotient is less than `p / q`.
    pub fn is_below(&self, p: u64, q: u64) -> (r: bool)
        ensures
            r == self.below(p as nat, q as nat),
    {
        proof {
            lemma_product_fits(self.num, q);
            lemma_product_fits(p, self.den);
        }
        (self.num as u128) * (q as u128) < (p as u128) * (self.den as u128)
    }

    /// The quotient of `num` by `den`, held to at most one.
    pub fn new_capped(num: u64, den: u64) -> (r: Ratio)
        ensures
            r == Ratio::capped(num, den),
    {
        Ratio {
            num: if num > den {
                den
            } else {
                num
            },
            den,
        }
    }

    fn push_unbounded(&self, out: &mut String)
        requires
            self.den == 0,
        ensures
            final(out)@ == old(out)@ + self.unbounded_text(),
    {
        if self.num == 0 {
            out.append("NaN");
        } else {
            out.append("inf");
        }
    }

    fn scaled(&self, scale: u64) -> (r: u128)
        requires
            self.den > 0,
        ensures
            r == self.rounded(scale as nat),
    {
        proof {
            lemma_product_fits(self.num, scale);
        }
        rounded_quotient((self.num as u128) * (scale as u128), self.den as u128)
    }

    /// Appends the quotient as a percentage with one decimal place.
    pub fn push_percent_one_decimal(&self, out: &mut String)
        ensures
            final(out)@ == old(out)@ + self.percent_one_decimal(),
    {
        if self.den == 0 {
            self.push_unbounded(out);
        } else {
            push_one_place(out, self.scaled(1000));
        }
    }

    /// Appends the quotient as a percentage with two decimal places.
    pub fn push_percent_two_decimals(&self, out: &mut String)
        ensures
            final(out)@ == old(out)@ + self.percent_two_decimals(),
    {
        if self.den == 0 {
            self.push_unbounded(out);
        } else {
            push_two_places(out, self.scaled(10000));
        }
    }

    /// Appends the quotient with two decimal places.
    pub fn push_two_decimals(&self, out: &mut String)
        ensures
            final(out)@ == old(out)@ + self.two_decimals(),
    {
        if self.den == 0 {
            self.push_unbounded(out);
        } else {
            push_two_places(out, self.scaled(100));
        }
    }
}

proof fn lemma_product_fits(a: u64, b: u64)
    ensures
        a * b <= 0xFFFF_FFFF_FFFF_FFFE_0000_0000_0000_0001,
{
    assert(a * b <= 0xFFFF_FFFF_FFFF_FFFF * 0xFFFF_FFFF_FFFF_FFFF) by (nonlinear_arith)
        requires
            0 <= a <= 0xFFFF_FFFF_FFFF_FFFF,
            0 <= b <= 0xFFFF_FFFF_FFFF_FFFF,
    ;
}

} // verus!
