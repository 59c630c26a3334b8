//! Numeric kinds an accumulator can be instantiated at, with their value
//! ranges and native (wrapping) addition.
use vstd::arithmetic::div_mod::{
    lemma_mod_add_multiples_vanish, lemma_mod_sub_multiples_vanish, lemma_small_mod,
};
use vstd::prelude::*;

verus! {

/// The primitive integer representation an accumulator sums in.
#[derive(Clone, Copy, Debug, PartialEq, Eq, Structural)]
pub enum NumericKind {
    Int16,
    UInt16,
    Int32,
    Int64,
    UInt32,
    UInt64,
}

impl NumericKind {
    /// Smallest value of the kind.
    pub open spec fn lo(self) -> int {
        match self {
            NumericKind::Int16 => i16::MIN as int,
            NumericKind::UInt16 => 0,
            NumericKind::Int32 => i32::MIN as int,
            NumericKind::Int64 => i64::MIN as int,
            NumericKind::UInt32 => 0,
            NumericKind::UInt64 => 0,
        }
    }

    /// Largest value of the kind.
    pub open spec fn hi(self) -> int {
        match self {
            NumericKind::Int16 => i16::MAX as int,
            NumericKind::UInt16 => u16::MAX as int,
            NumericKind::Int32 => i32::MAX as int,
            NumericKind::Int64 => i64::MAX as int,
            NumericKind::UInt32 => u32::MAX as int,
            NumericKind::UInt64 => u64::MAX as int,
        }
    }

    /// Number of distinct values of the kind.
    pub open spec fn modulus(self) -> int {
        self.hi() - self.lo() + 1
    }

    /// `v` is a value of the kind.
    pub open spec fn holds(self, v: int) -> bool {
        self.lo() <= v <= self.hi()
    }

    /// The value of the kind that native wraparound arithmetic gives for the
    /// mathematical result `x`: `x` itself when it fits, else `x` reduced
    /// modulo the number of values of the kind into its range.
    pub open spec fn wrap(self, x: int) -> int {
        if self.holds(x) {
            x
        } else {
            self.lo() + (x - self.lo()) % self.modulus()
        }
    }

    /// What a numeric cast into the kind gives: the value itself when it fits.
    pub open spec fn cast_spec(self, v: int) -> Option<int> {
        if self.holds(v) {
            Some(v)
        } else {
            None
        }
    }

    pub fn min_value(self) -> (r: i128)
        ensures
            r == self.lo(),
    {
        match self {
            NumericKind::Int16 => i16::MIN as i128,
            NumericKind::UInt16 => 0,
            NumericKind::Int32 => i32::MIN as i128,
            NumericKind::Int64 => i64::MIN as i128,
            NumericKind::UInt32 => 0,
            NumericKind::UInt64 => 0,
        }
    }

    pub fn max_value(self) -> (r: i128)
        ensures
            r == self.hi(),
    {
        match self {
            NumericKind::Int16 => i16::MAX as i128,
            NumericKind::UInt16 => u16::MAX as i128,
            NumericKind::Int32 => i32::MAX as i128,
            NumericKind::Int64 => i64::MAX as i128,
            NumericKind::UInt32 => u32::MAX as i128,
            NumericKind::UInt64 => u64::MAX as i128,
        }
    }

    /// Converts `v` into the kind, or `None` where it does not fit.
    pub fn cast(self, v: i128) -> (r: Option<i128>)
        ensures
            r == (match self.cast_spec(v as int) {
                Some(x) => Some(x as i128),
                None => None,
            }),
    {
        if self.min_value() <= v && v <= self.max_value() {
            Some(v)
        } else {
            None
        }
    }

    /// Native wraparound addition of two values of the kind.
    pub fn wrapping_add(self, a: i128, b: i128) -> (r: i128)
        requires
            self.holds(a as int),
            self.holds(b as int),
        ensures
            r == self.wrap(a + b),
            self.holds(r as int),
            self.holds(a + b) ==> r == a + b,
    {
        let lo = self.min_value();
        let hi = self.max_value();
        let m = hi - lo + 1;
        let s = a + b;
        proof {
            lemma_mod_window(s - lo, m as int);
            lemma_wrap_reduces(self, s as int);
        }
        if s > hi {
            s - m
        } else if s < lo {
            s + m
        } else {
            s
        }
    }
}

/// Wrapping is reduction modulo the number of values of the kind.
pub proof fn lemma_wrap_reduces(k: NumericKind, x: int)
    ensures
        k.wrap(x) == k.lo() + (x - k.lo()) % k.modulus(),
{
    if k.holds(x) {
        lemma_small_mod((x - k.lo()) as nat, k.modulus() as nat);
    }
}

/// `x % m` for `x` within one modulus of `[0, m)`.
pub proof fn lemma_mod_window(x: int, m: int)
    requires
        0 < m,
        -m <= x < 2 * m,
    ensures
        x % m == (if x < 0 {
            x + m
        } else if x < m {
            x
        } else {
            x - m
        }),
{
    if x < 0 {
        lemma_mod_add_multiples_vanish(x, m);
        lemma_small_mod((m + x) as nat, m as nat);
    } else if x < m {
        lemma_small_mod(x as nat, m as nat);
    } else {
        lemma_mod_sub_multiples_vanish(x, m);
        lemma_small_mod((-m + x) as nat, m as nat);
    }
}

} // verus!
