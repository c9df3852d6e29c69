//! Unsigned 256-bit integers, as far as the statistics need them: enough room
//! for a count times a sum of squared 64-bit samples.

use vstd::prelude::*;

verus! {

/// 2^64.
pub open spec fn two_to_64() -> int {
    0x1_0000_0000_0000_0000int
}

/// 2^128.
pub open spec fn two_to_128() -> int {
    0x1_0000_0000_0000_0000_0000_0000_0000_0000int
}

/// An unsigned integer below 2^256, held as two 128-bit halves.
#[derive(Clone, Copy, Debug)]
pub struct Wide {
    pub hi: u128,
    pub lo: u128,
}

impl View for Wide {
    type V = int;

    /// The number that the two halves stand for.
    open spec fn view(&self) -> int {
        self.hi * two_to_128() + self.lo
    }
}

/// The product of two numbers below 2^64 is below 2^128.
pub proof fn lemma_half_product(a: int, b: int)
    requires
        0 <= a < two_to_64(),
        0 <= b < two_to_64(),
    ensures
        0 <= a * b <= 0xFFFF_FFFF_FFFF_FFFE_0000_0000_0000_0001int,
{
    assert(0 <= a * b <= 0xFFFF_FFFF_FFFF_FFFFint * 0xFFFF_FFFF_FFFF_FFFFint) by (nonlinear_arith)
        requires
            0 <= a <= 0xFFFF_FFFF_FFFF_FFFFint,
            0 <= b <= 0xFFFF_FFFF_FFFF_FFFFint,
    ;
    assert(0xFFFF_FFFF_FFFF_FFFFint * 0xFFFF_FFFF_FFFF_FFFFint
        == 0xFFFF_FFFF_FFFF_FFFE_0000_0000_0000_0001int) by (nonlinear_arith);
}

/// Schoolbook multiplication on halves.
pub proof fn lemma_product_by_halves(a1: int, a0: int, b1: int, b0: int, base: int)
    ensures
        (a1 * base + a0) * (b1 * base + b0) == (a1 * b1) * (base * base) + (a1 * b0) * base + (a0
            * b1) * base + a0 * b0,
{
    let x = a1 * base;
    let y = b1 * base;
    assert((x + a0) * (y + b0) == x * y + x * b0 + a0 * y + a0 * b0) by (nonlinear_arith);
    assert(x * y == (a1 * b1) * (base * base)) by (nonlinear_arith)
        requires
            x == a1 * base,
            y == b1 * base,
    ;
    assert(x * b0 == (a1 * b0) * base) by (nonlinear_arith)
        requires
            x == a1 * base,
    ;
    assert(a0 * y == (a0 * b1) * base) by (nonlinear_arith)
        requires
            y == b1 * base,
    ;
}

impl Wide {
    /// Zero.
    pub fn zero() -> (w: Wide)
        ensures
            w@ == 0,
    {
        Wide { hi: 0, lo: 0 }
    }

    /// A 128-bit number, widened.
    pub fn from_u128(x: u128) -> (w: Wide)
        ensures
            w@ == x,
    {
        Wide { hi: 0, lo: x }
    }

    /// The exact product of two 128-bit numbers.
    pub fn product(a: u128, b: u128) -> (w: Wide)
        ensures
            w@ == a * b,
    {
        let a1: u128 = a / 0x1_0000_0000_0000_0000;
        let a0: u128 = a % 0x1_0000_0000_0000_0000;
        let b1: u128 = b / 0x1_0000_0000_0000_0000;
        let b0: u128 = b % 0x1_0000_0000_0000_0000;
        proof {
            lemma_half_product(a0 as int, b0 as int);
            lemma_half_product(a0 as int, b1 as int);
            lemma_half_product(a1 as int, b0 as int);
            lemma_half_product(a1 as int, b1 as int);
        }
        let p00: u128 = a0 * b0;
        let p01: u128 = a0 * b1;
        let p10: u128 = a1 * b0;
        let p11: u128 = a1 * b1;
        let cross: u128 = p00 / 0x1_0000_0000_0000_0000 + p01 % 0x1_0000_0000_0000_0000 + p10
            % 0x1_0000_0000_0000_0000;
        let lo: u128 = p00 % 0x1_0000_0000_0000_0000 + (cross % 0x1_0000_0000_0000_0000)
            * 0x1_0000_0000_0000_0000;
        let hi: u128 = p11 + p01 / 0x1_0000_0000_0000_0000 + p10 / 0x1_0000_0000_0000_0000 + cross
            / 0x1_0000_0000_0000_0000;
        proof {
            lemma_product_by_halves(a1 as int, a0 as int, b1 as int, b0 as int, two_to_64());
            assert(0x1_0000_0000_0000_0000int * 0x1_0000_0000_0000_0000int
                == 0x1_0000_0000_0000_0000_0000_0000_0000_0000int) by (nonlinear_arith);
            assert(a * b == p11 * two_to_128() + p10 * two_to_64() + p01 * two_to_64() + p00);
        }
        Wide { hi, lo }
    }

    /// The sum, where it stays below 2^256.
    pub fn plus(self, other: Wide) -> (w: Wide)
        requires
            self@ + other@ < two_to_128() * two_to_128(),
        ensures
            w@ == self@ + other@,
    {
        let room: u128 = u128::MAX - self.lo;
        proof {
            assert(self.hi * two_to_128() + other.hi * two_to_128() == (self.hi + other.hi) * two_to_128())
                by (nonlinear_arith);
            assert((self.hi + other.hi) < two_to_128()) by (nonlinear_arith)
                requires
                    (self.hi + other.hi) * two_to_128() < two_to_128() * two_to_128(),
            ;
        }
        if other.lo > room {
            let lo: u128 = other.lo - room - 1;
            proof {
                assert(lo + two_to_128() == self.lo + other.lo);
                assert((self.hi + other.hi + 1) * two_to_128() == (self.hi + other.hi) * two_to_128()
                    + two_to_128()) by (nonlinear_arith);
                assert((self.hi + other.hi + 1) < two_to_128()) by (nonlinear_arith)
                    requires
                        (self.hi + other.hi + 1) * two_to_128() <= self@ + other@,
                        self@ + other@ < two_to_128() * two_to_128(),
                ;
            }
            Wide { hi: self.hi + other.hi + 1, lo }
        } else {
            Wide { hi: self.hi + other.hi, lo: self.lo + other.lo }
        }
    }

    /// The difference, where it is not negative.
    pub fn minus(self, other: Wide) -> (w: Wide)
        requires
            other@ <= self@,
        ensures
            w@ == self@ - other@,
    {
        proof {
            assert(self.hi >= other.hi) by (nonlinear_arith)
                requires
                    other.hi * two_to_128() + other.lo <= self.hi * two_to_128() + self.lo,
                    0 <= self.lo < two_to_128(),
                    0 <= other.lo < two_to_128(),
            ;
            assert((self.hi - other.hi) * two_to_128() == self.hi * two_to_128() - other.hi * two_to_128())
                by (nonlinear_arith);
        }
        if self.lo >= other.lo {
            Wide { hi: self.hi - other.hi, lo: self.lo - other.lo }
        } else {
            proof {
                assert(self.hi > other.hi) by (nonlinear_arith)
                    requires
                        other.hi * two_to_128() + other.lo <= self.hi * two_to_128() + self.lo,
                        self.lo < other.lo,
                ;
                assert((self.hi - other.hi - 1) * two_to_128() == self.hi * two_to_128() - other.hi
                    * two_to_128() - two_to_128()) by (nonlinear_arith);
            }
            let gap: u128 = other.lo - self.lo;
            Wide { hi: self.hi - other.hi - 1, lo: u128::MAX - gap + 1 }
        }
    }

    /// Whether `self` is at most `other`.
    pub fn at_most(self, other: Wide) -> (b: bool)
        ensures
            b == (self@ <= other@),
    {
        proof {
            if self.hi < other.hi {
                assert(self.hi * two_to_128() + two_to_128() <= other.hi * two_to_128()) by (nonlinear_arith)
                    requires
                        self.hi + 1 <= other.hi,
                ;
            }
            if self.hi > other.hi {
                assert(other.hi * two_to_128() + two_to_128() <= self.hi * two_to_128()) by (nonlinear_arith)
                    requires
                        other.hi + 1 <= self.hi,
                ;
            }
        }
        self.hi < other.hi || (self.hi == other.hi && self.lo <= other.lo)
    }

    /// The product with a 64-bit number, where it stays below 2^256.
    pub fn times(self, n: u64) -> (w: Wide)
        requires
            self@ * n < two_to_128() * two_to_128(),
        ensures
            w@ == self@ * n,
    {
        let low = Wide::product(self.lo, n as u128);
        let high = Wide::product(self.hi, n as u128);
        proof {
            assert(self@ * n == (self.hi * n) * two_to_128() + self.lo * n) by (nonlinear_arith)
                requires
                    self@ == self.hi * two_to_128() + self.lo,
            ;
            assert(0 <= self.lo * n) by (nonlinear_arith)
                requires
                    0 <= self.lo, 0 <= n,
            ;
            assert(high@ < two_to_128()) by (nonlinear_arith)
                requires
                    high@ * two_to_128() < two_to_128() * two_to_128(),
            ;
            assert(high.hi == 0) by (nonlinear_arith)
                requires
                    high.hi * two_to_128() + high.lo < two_to_128(),
                    0 <= high.hi,
                    0 <= high.lo,
            ;
        }
        Wide { hi: high.lo, lo: 0 }.plus(low)
    }
}

} // verus!
