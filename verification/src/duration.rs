//! A span of time with nanosecond precision, modelled by its total number of
//! nanoseconds.
use vstd::arithmetic::div_mod::{lemma_fundamental_div_mod, lemma_fundamental_div_mod_converse};
use vstd::prelude::*;

verus! {

/// Nanoseconds in one second.
pub const NANOS_PER_SEC: u32 = 1_000_000_000;

/// The largest representable span, in nanoseconds: `u64::MAX` seconds plus
/// `NANOS_PER_SEC - 1` nanoseconds.
pub open spec fn max_nanos() -> nat {
    u64::MAX as nat * 1_000_000_000 + 999_999_999
}

/// `min(a, b)` on naturals.
pub open spec fn min_nat(a: nat, b: nat) -> nat {
    if a <= b {
        a
    } else {
        b
    }
}

/// A span of time: whole seconds plus a sub-second part in nanoseconds.
///
/// The view of a `Duration` is its total length in nanoseconds; two values
/// are equal exactly when their views are equal.
#[derive(Clone, Copy, Debug, PartialEq, Eq, Structural)]
pub struct Duration {
    secs: u64,
    nanos: u32,
}

impl View for Duration {
    type V = nat;

    closed spec fn view(&self) -> nat {
        self.secs as nat * 1_000_000_000 + self.nanos as nat
    }
}

impl Duration {
    #[verifier::type_invariant]
    spec fn well_formed(self) -> bool {
        self.nanos < NANOS_PER_SEC
    }

    proof fn lemma_view_bounds(self)
        requires
            self.well_formed(),
        ensures
            self@ <= max_nanos(),
            self@ / 1_000_000_000 == self.secs,
            self@ % 1_000_000_000 == self.nanos,
    {
        lemma_fundamental_div_mod_converse(
            self@ as int,
            1_000_000_000,
            self.secs as int,
            self.nanos as int,
        );
        assert(self.secs as nat * 1_000_000_000 <= u64::MAX as nat * 1_000_000_000)
            by (nonlinear_arith)
            requires
                self.secs <= u64::MAX,
        ;
    }

    /// Builds the span of exactly `total` nanoseconds.
    fn from_total(total: u128) -> (r: Duration)
        requires
            total <= max_nanos(),
        ensures
            r@ == total,
    {
        let secs128: u128 = total / 1_000_000_000;
        let nanos128: u128 = total % 1_000_000_000;
        proof {
            lemma_fundamental_div_mod(total as int, 1_000_000_000);
            assert(secs128 <= u64::MAX) by (nonlinear_arith)
                requires
                    total <= u64::MAX as nat * 1_000_000_000 + 999_999_999,
                    secs128 == total / 1_000_000_000,
            ;
        }
        let r = Duration { secs: secs128 as u64, nanos: nanos128 as u32 };
        proof {
            assert(r@ == secs128 * 1_000_000_000 + nanos128);
        }
        r
    }

    /// Total length in nanoseconds.
    pub fn as_nanos(&self) -> (r: u128)
        ensures
            r == self@,
            r <= max_nanos(),
    {
        proof {
            use_type_invariant(self);
            self.lemma_view_bounds();
        }
        (self.secs as u128) * 1_000_000_000 + (self.nanos as u128)
    }

    /// The empty span.
    pub fn zero() -> (r: Duration)
        ensures
            r@ == 0,
    {
        Duration { secs: 0, nanos: 0 }
    }

    /// The longest representable span.
    pub fn max_value() -> (r: Duration)
        ensures
            r@ == max_nanos(),
    {
        Duration { secs: u64::MAX, nanos: 999_999_999 }
    }

    /// `secs` seconds plus `nanos` nanoseconds; nanoseconds past a whole
    /// second carry into the seconds.
    pub fn new(secs: u64, nanos: u32) -> (r: Duration)
        requires
            secs + nanos / 1_000_000_000 <= u64::MAX,
        ensures
            r@ == secs * 1_000_000_000 + nanos,
    {
        let total: u128 = (secs as u128) * 1_000_000_000 + (nanos as u128);
        proof {
            assert(total <= max_nanos()) by (nonlinear_arith)
                requires
                    secs + nanos / 1_000_000_000 <= u64::MAX,
                    total == secs * 1_000_000_000 + nanos,
                    nanos < 4_294_967_296,
            ;
        }
        Self::from_total(total)
    }

    /// A span of `secs` whole seconds.
    pub fn from_secs(secs: u64) -> (r: Duration)
        ensures
            r@ == secs * 1_000_000_000,
    {
        Duration { secs, nanos: 0 }
    }

    /// A span of `millis` milliseconds.
    pub fn from_millis(millis: u64) -> (r: Duration)
        ensures
            r@ == millis * 1_000_000,
    {
        let total: u128 = (millis as u128) * 1_000_000;
        proof {
            assert(total <= max_nanos()) by (nonlinear_arith)
                requires
                    millis <= u64::MAX,
                    total == millis * 1_000_000,
            ;
        }
        Self::from_total(total)
    }

    /// A span of `micros` microseconds.
    pub fn from_micros(micros: u64) -> (r: Duration)
        ensures
            r@ == micros * 1_000,
    {
        let total: u128 = (micros as u128) * 1_000;
        proof {
            assert(total <= max_nanos()) by (nonlinear_arith)
                requires
                    micros <= u64::MAX,
                    total == micros * 1_000,
            ;
        }
        Self::from_total(total)
    }

    /// A span of `nanos` nanoseconds.
    pub fn from_nanos(nanos: u64) -> (r: Duration)
        ensures
            r@ == nanos,
    {
        Self::from_total(nanos as u128)
    }

    /// Whole seconds in the span.
    pub fn as_secs(&self) -> (r: u64)
        ensures
            r == self@ / 1_000_000_000,
    {
        proof {
            use_type_invariant(self);
            self.lemma_view_bounds();
        }
        self.secs
    }

    /// The sub-second part of the span, in nanoseconds.
    pub fn subsec_nanos(&self) -> (r: u32)
        ensures
            r == self@ % 1_000_000_000,
    {
        proof {
            use_type_invariant(self);
            self.lemma_view_bounds();
        }
        self.nanos
    }

    /// Total length in whole milliseconds.
    pub fn as_millis(&self) -> (r: u128)
        ensures
            r == self@ / 1_000_000,
    {
        self.as_nanos() / 1_000_000
    }

    /// Whether the span is empty.
    pub fn is_zero(&self) -> (r: bool)
        ensures
            r == (self@ == 0),
    {
        proof {
            use_type_invariant(self);
        }
        self.secs == 0 && self.nanos == 0
    }

    /// Whether `self` is at most as long as `other`.
    pub fn le(&self, other: &Duration) -> (r: bool)
        ensures
            r == (self@ <= other@),
    {
        self.as_nanos() <= other.as_nanos()
    }

    /// Whether `self` is strictly shorter than `other`.
    pub fn lt(&self, other: &Duration) -> (r: bool)
        ensures
            r == (self@ < other@),
    {
        self.as_nanos() < other.as_nanos()
    }

    /// The shorter of the two spans.
    pub fn min(self, other: Duration) -> (r: Duration)
        ensures
            r@ == min_nat(self@, other@),
    {
        if other.lt(&self) {
            other
        } else {
            self
        }
    }

    /// `self * rhs`, or the longest representable span where the product
    /// does not fit.
    pub fn saturating_mul(self, rhs: u32) -> (r: Duration)
        ensures
            r@ == min_nat(self@ * (rhs as nat), max_nanos()),
    {
        let total = self.as_nanos();
        proof {
            assert(total * rhs <= max_nanos() * 4_294_967_295) by (nonlinear_arith)
                requires
                    total <= max_nanos(),
                    rhs <= 4_294_967_295,
            ;
        }
        let product: u128 = total * (rhs as u128);
        if product > 18_446_744_073_709_551_615_999_999_999u128 {
            Self::max_value()
        } else {
            Self::from_total(product)
        }
    }

    /// `self + rhs`, or the longest representable span where the sum does
    /// not fit.
    pub fn saturating_add(self, rhs: Duration) -> (r: Duration)
        ensures
            r@ == min_nat(self@ + rhs@, max_nanos()),
    {
        let sum: u128 = self.as_nanos() + rhs.as_nanos();
        if sum > 18_446_744_073_709_551_615_999_999_999u128 {
            Self::max_value()
        } else {
            Self::from_total(sum)
        }
    }

    /// `self - rhs`, or the empty span where `rhs` is the longer one.
    pub fn saturating_sub(self, rhs: Duration) -> (r: Duration)
        ensures
            r@ == (if self@ >= rhs@ { (self@ - rhs@) as nat } else { 0 }),
    {
        let a = self.as_nanos();
        let b = rhs.as_nanos();
        if a >= b {
            Self::from_total(a - b)
        } else {
            Self::zero()
        }
    }
}

} // verus!
