//! Stencil values, stencil tests and stencil operations.
//!
//! A stencil value stands for a number in a fixed range (the range of the
//! primitive integer type, or the single number zero for `()`); every
//! operation is stated over that number.

use vstd::prelude::*;
use vstd::arithmetic::div_mod::lemma_fundamental_div_mod_converse;

verus! {

/// The number `x` brought into `[lo, hi]` by adding or removing whole
/// multiples of the range's size, as two's complement arithmetic does.
pub open spec fn wrap_into(x: int, lo: int, hi: int) -> int {
    lo + (x - lo) % (hi - lo + 1)
}

/// The number `x` limited to `[lo, hi]`.
pub open spec fn saturate_into(x: int, lo: int, hi: int) -> int {
    if x < lo {
        lo
    } else if x > hi {
        hi
    } else {
        x
    }
}

/// Wrapping moves a number by at most one range size when it is at most
/// one range size outside of the range.
pub proof fn lemma_wrap_once(x: int, lo: int, hi: int)
    requires
        lo <= hi,
        lo - (hi - lo + 1) <= x < hi + 1 + (hi - lo + 1),
    ensures
        wrap_into(x, lo, hi) == if x > hi {
            x - (hi - lo + 1)
        } else if x < lo {
            x + (hi - lo + 1)
        } else {
            x
        },
{
    let size = hi - lo + 1;
    if x > hi {
        lemma_fundamental_div_mod_converse(x - lo, size, 1, x - lo - size);
    } else if x < lo {
        lemma_fundamental_div_mod_converse(x - lo, size, -1, x - lo + size);
    } else {
        lemma_fundamental_div_mod_converse(x - lo, size, 0, x - lo);
    }
}

/// Defines a type that can be used in a stencil buffer.
///
/// This is different from `num_traits` `PrimInt` and so forth, because a no-op implementation exists for `()`
///
/// Each value stands for a number (`value`) in the range `[lowest(), highest()]`;
/// the operations are stated over those numbers.
pub trait Stencil: Sized {
    /// The number that this stencil value stands for.
    spec fn value(self) -> int;

    /// The least number that a value of this type stands for.
    spec fn lowest() -> int;

    /// The greatest number that a value of this type stands for.
    spec fn highest() -> int;

    /// The type's range holds zero.
    proof fn lemma_range()
        ensures
            Self::lowest() <= 0 <= Self::highest(),
    ;

    /// Every value lies in the type's range.
    proof fn lemma_value_in_range(s: Self)
        ensures
            Self::lowest() <= s.value() <= Self::highest(),
    ;

    /// Two values that stand for the same number are the same value.
    proof fn lemma_value_determines(a: Self, b: Self)
        ensures
            a.value() == b.value() ==> a == b,
    ;

    /// Equivalent to `Zero::zero()`
    fn zero() -> (r: Self)
        ensures
            r.value() == 0,
    ;

    /// Equivalent to `One::one()`
    fn one() -> (r: Self)
        ensures
            r.value() == if Self::highest() >= 1 {
                1int
            } else {
                0int
            },
    ;

    /// Equivalent to `Not::not`
    fn not(self) -> (r: Self)
        ensures
            r.value() == Self::lowest() + Self::highest() - self.value(),
    ;

    /// Equivalent to `wrapping_add` on primitive integers
    fn wrapping_add(self, rhs: Self) -> (r: Self)
        ensures
            r.value() == wrap_into(self.value() + rhs.value(), Self::lowest(), Self::highest()),
    ;

    /// Equivalent to `wrapping_sub` on primitive integers
    fn wrapping_sub(self, rhs: Self) -> (r: Self)
        ensures
            r.value() == wrap_into(self.value() - rhs.value(), Self::lowest(), Self::highest()),
    ;

    /// Equivalent to `saturating_add` on primitive integers
    fn saturating_add(self, rhs: Self) -> (r: Self)
        ensures
            r.value() == saturate_into(self.value() + rhs.value(), Self::lowest(), Self::highest()),
    ;

    /// Equivalent to `saturating_sub` on primitive integers
    fn saturating_sub(self, rhs: Self) -> (r: Self)
        ensures
            r.value() == saturate_into(self.value() - rhs.value(), Self::lowest(), Self::highest()),
    ;

    /// Equivalent to `<` on primitive integers
    fn less_than(&self, other: &Self) -> (r: bool)
        ensures
            r == (self.value() < other.value()),
    ;

    /// Equivalent to `==` on primitive integers
    fn equals(&self, other: &Self) -> (r: bool)
        ensures
            r == (self.value() == other.value()),
    ;
}

/// The number that `Stencil::one` stands for: one, or zero where the range
/// holds nothing above zero.
pub open spec fn one_of<T: Stencil>() -> int {
    if T::highest() >= 1 {
        1
    } else {
        0
    }
}

impl Stencil for u8 {
    open spec fn value(self) -> int {
        self as int
    }

    open spec fn lowest() -> int {
        0
    }

    open spec fn highest() -> int {
        u8::MAX as int
    }

    proof fn lemma_range() {
    }

    proof fn lemma_value_in_range(s: Self) {
    }

    proof fn lemma_value_determines(a: Self, b: Self) {
    }

    #[inline(always)]
    fn zero() -> (r: u8) {
        0
    }

    #[inline(always)]
    fn one() -> (r: u8) {
        1
    }

    #[inline(always)]
    fn not(self) -> (r: u8) {
        let r = !self;
        proof {
            assert(r == u8::MAX - self) by (bit_vector)
                requires r == !self;
        }
        r
    }

    #[inline(always)]
    fn wrapping_add(self, rhs: u8) -> (r: u8) {
        proof {
            lemma_wrap_once(self + rhs, Self::lowest(), Self::highest());
        }
        <u8>::wrapping_add(self, rhs)
    }

    #[inline(always)]
    fn wrapping_sub(self, rhs: u8) -> (r: u8) {
        proof {
            lemma_wrap_once(self - rhs, Self::lowest(), Self::highest());
        }
        <u8>::wrapping_sub(self, rhs)
    }

    #[inline(always)]
    fn saturating_add(self, rhs: u8) -> (r: u8) {
        <u8>::saturating_add(self, rhs)
    }

    #[inline(always)]
    fn saturating_sub(self, rhs: u8) -> (r: u8) {
        <u8>::saturating_sub(self, rhs)
    }

    #[inline(always)]
    fn less_than(&self, other: &u8) -> (r: bool) {
        *self < *other
    }

    #[inline(always)]
    fn equals(&self, other: &u8) -> (r: bool) {
        *self == *other
    }
}

impl Stencil for u16 {
    open spec fn value(self) -> int {
        self as int
    }

    open spec fn lowest() -> int {
        0
    }

    open spec fn highest() -> int {
        u16::MAX as int
    }

    proof fn lemma_range() {
    }

    proof fn lemma_value_in_range(s: Self) {
    }

    proof fn lemma_value_determines(a: Self, b: Self) {
    }

    #[inline(always)]
    fn zero() -> (r: u16) {
        0
    }

    #[inline(always)]
    fn one() -> (r: u16) {
        1
    }

    #[inline(always)]
    fn not(self) -> (r: u16) {
        let r = !self;
        proof {
            assert(r == u16::MAX - self) by (bit_vector)
                requires r == !self;
        }
        r
    }

    #[inline(always)]
    fn wrapping_add(self, rhs: u16) -> (r: u16) {
        proof {
            lemma_wrap_once(self + rhs, Self::lowest(), Self::highest());
        }
        <u16>::wrapping_add(self, rhs)
    }

    #[inline(always)]
    fn wrapping_sub(self, rhs: u16) -> (r: u16) {
        proof {
            lemma_wrap_once(self - rhs, Self::lowest(), Self::highest());
        }
        <u16>::wrapping_sub(self, rhs)
    }

    #[inline(always)]
    fn saturating_add(self, rhs: u16) -> (r: u16) {
        <u16>::saturating_add(self, rhs)
    }

    #[inline(always)]
    fn saturating_sub(self, rhs: u16) -> (r: u16) {
        <u16>::saturating_sub(self, rhs)
    }

    #[inline(always)]
    fn less_than(&self, other: &u16) -> (r: bool) {
        *self < *other
    }

    #[inline(always)]
    fn equals(&self, other: &u16) -> (r: bool) {
        *self == *other
    }
}

impl Stencil for u32 {
    open spec fn value(self) -> int {
        self as int
    }

    open spec fn lowest() -> int {
        0
    }

    open spec fn highest() -> int {
        u32::MAX as int
    }

    proof fn lemma_range() {
    }

    proof fn lemma_value_in_range(s: Self) {
    }

    proof fn lemma_value_determines(a: Self, b: Self) {
    }

    #[inline(always)]
    fn zero() -> (r: u32) {
        0
    }

    #[inline(always)]
    fn one() -> (r: u32) {
        1
    }

    #[inline(always)]
    fn not(self) -> (r: u32) {
        let r = !self;
        proof {
            assert(r == u32::MAX - self) by (bit_vector)
                requires r == !self;
        }
        r
    }

    #[inline(always)]
    fn wrapping_add(self, rhs: u32) -> (r: u32) {
        proof {
            lemma_wrap_once(self + rhs, Self::lowest(), Self::highest());
        }
        <u32>::wrapping_add(self, rhs)
    }

    #[inline(always)]
    fn wrapping_sub(self, rhs: u32) -> (r: u32) {
        proof {
            lemma_wrap_once(self - rhs, Self::lowest(), Self::highest());
        }
        <u32>::wrapping_sub(self, rhs)
    }

    #[inline(always)]
    fn saturating_add(self, rhs: u32) -> (r: u32) {
        <u32>::saturating_add(self, rhs)
    }

    #[inline(always)]
    fn saturating_sub(self, rhs: u32) -> (r: u32) {
        <u32>::saturating_sub(self, rhs)
    }

    #[inline(always)]
    fn less_than(&self, other: &u32) -> (r: bool) {
        *self < *other
    }

    #[inline(always)]
    fn equals(&self, other: &u32) -> (r: bool) {
        *self == *other
    }
}

impl Stencil for u64 {
    open spec fn value(self) -> int {
        self as int
    }

    open spec fn lowest() -> int {
        0
    }

    open spec fn highest() -> int {
        u64::MAX as int
    }

    proof fn lemma_range() {
    }

    proof fn lemma_value_in_range(s: Self) {
    }

    proof fn lemma_value_determines(a: Self, b: Self) {
    }

    #[inline(always)]
    fn zero() -> (r: u64) {
        0
    }

    #[inline(always)]
    fn one() -> (r: u64) {
        1
    }

    #[inline(always)]
    fn not(self) -> (r: u64) {
        let r = !self;
        proof {
            assert(r == u64::MAX - self) by (bit_vector)
                requires r == !self;
        }
        r
    }

    #[inline(always)]
    fn wrapping_add(self, rhs: u64) -> (r: u64) {
        proof {
            lemma_wrap_once(self + rhs, Self::lowest(), Self::highest());
        }
        <u64>::wrapping_add(self, rhs)
    }

    #[inline(always)]
    fn wrapping_sub(self, rhs: u64) -> (r: u64) {
        proof {
            lemma_wrap_once(self - rhs, Self::lowest(), Self::highest());
        }
        <u64>::wrapping_sub(self, rhs)
    }

    #[inline(always)]
    fn saturating_add(self, rhs: u64) -> (r: u64) {
        <u64>::saturating_add(self, rhs)
    }

    #[inline(always)]
    fn saturating_sub(self, rhs: u64) -> (r: u64) {
        <u64>::saturating_sub(self, rhs)
    }

    #[inline(always)]
    fn less_than(&self, other: &u64) -> (r: bool) {
        *self < *other
    }

    #[inline(always)]
    fn equals(&self, other: &u64) -> (r: bool) {
        *self == *other
    }
}

impl Stencil for i8 {
    open spec fn value(self) -> int {
        self as int
    }

    open spec fn lowest() -> int {
        i8::MIN as int
    }

    open spec fn highest() -> int {
        i8::MAX as int
    }

    proof fn lemma_range() {
    }

    proof fn lemma_value_in_range(s: Self) {
    }

    proof fn lemma_value_determines(a: Self, b: Self) {
    }

    #[inline(always)]
    fn zero() -> (r: i8) {
        0
    }

    #[inline(always)]
    fn one() -> (r: i8) {
        1
    }

    #[inline(always)]
    fn not(self) -> (r: i8) {
        let r = !self;
        proof {
            assert(r as int == -1 - (self as int)) by (bit_vector)
                requires r == !self;
        }
        r
    }

    #[inline(always)]
    fn wrapping_add(self, rhs: i8) -> (r: i8) {
        proof {
            lemma_wrap_once(self + rhs, Self::lowest(), Self::highest());
        }
        <i8>::wrapping_add(self, rhs)
    }

    #[inline(always)]
    fn wrapping_sub(self, rhs: i8) -> (r: i8) {
        proof {
            lemma_wrap_once(self - rhs, Self::lowest(), Self::highest());
        }
        <i8>::wrapping_sub(self, rhs)
    }

    #[inline(always)]
    fn saturating_add(self, rhs: i8) -> (r: i8) {
        match self.checked_add(rhs) {
            Some(sum) => sum,
            None => if rhs > 0 {
                i8::MAX
            } else {
                i8::MIN
            },
        }
    }

    #[inline(always)]
    fn saturating_sub(self, rhs: i8) -> (r: i8) {
        match self.checked_sub(rhs) {
            Some(difference) => difference,
            None => if rhs < 0 {
                i8::MAX
            } else {
                i8::MIN
            },
        }
    }

    #[inline(always)]
    fn less_than(&self, other: &i8) -> (r: bool) {
        *self < *other
    }

    #[inline(always)]
    fn equals(&self, other: &i8) -> (r: bool) {
        *self == *other
    }
}

impl Stencil for i16 {
    open spec fn value(self) -> int {
        self as int
    }

    open spec fn lowest() -> int {
        i16::MIN as int
    }

    open spec fn highest() -> int {
        i16::MAX as int
    }

    proof fn lemma_range() {
    }

    proof fn lemma_value_in_range(s: Self) {
    }

    proof fn lemma_value_determines(a: Self, b: Self) {
    }

    #[inline(always)]
    fn zero() -> (r: i16) {
        0
    }

    #[inline(always)]
    fn one() -> (r: i16) {
        1
    }

    #[inline(always)]
    fn not(self) -> (r: i16) {
        let r = !self;
        proof {
            assert(r as int == -1 - (self as int)) by (bit_vector)
                requires r == !self;
        }
        r
    }

    #[inline(always)]
    fn wrapping_add(self, rhs: i16) -> (r: i16) {
        proof {
            lemma_wrap_once(self + rhs, Self::lowest(), Self::highest());
        }
        <i16>::wrapping_add(self, rhs)
    }

    #[inline(always)]
    fn wrapping_sub(self, rhs: i16) -> (r: i16) {
        proof {
            lemma_wrap_once(self - rhs, Self::lowest(), Self::highest());
        }
        <i16>::wrapping_sub(self, rhs)
    }

    #[inline(always)]
    fn saturating_add(self, rhs: i16) -> (r: i16) {
        match self.checked_add(rhs) {
            Some(sum) => sum,
            None => if rhs > 0 {
                i16::MAX
            } else {
                i16::MIN
            },
        }
    }

    #[inline(always)]
    fn saturating_sub(self, rhs: i16) -> (r: i16) {
        match self.checked_sub(rhs) {
            Some(difference) => difference,
            None => if rhs < 0 {
                i16::MAX
            } else {
                i16::MIN
            },
        }
    }

    #[inline(always)]
    fn less_than(&self, other: &i16) -> (r: bool) {
        *self < *other
    }

    #[inline(always)]
    fn equals(&self, other: &i16) -> (r: bool) {
        *self == *other
    }
}

impl Stencil for i32 {
    open spec fn value(self) -> int {
        self as int
    }

    open spec fn lowest() -> int {
        i32::MIN as int
    }

    open spec fn highest() -> int {
        i32::MAX as int
    }

    proof fn lemma_range() {
    }

    proof fn lemma_value_in_range(s: Self) {
    }

    proof fn lemma_value_determines(a: Self, b: Self) {
    }

    #[inline(always)]
    fn zero() -> (r: i32) {
        0
    }

    #[inline(always)]
    fn one() -> (r: i32) {
        1
    }

    #[inline(always)]
    fn not(self) -> (r: i32) {
        let r = !self;
        proof {
            assert(r as int == -1 - (self as int)) by (bit_vector)
                requires r == !self;
        }
        r
    }

    #[inline(always)]
    fn wrapping_add(self, rhs: i32) -> (r: i32) {
        proof {
            lemma_wrap_once(self + rhs, Self::lowest(), Self::highest());
        }
        <i32>::wrapping_add(self, rhs)
    }

    #[inline(always)]
    fn wrapping_sub(self, rhs: i32) -> (r: i32) {
        proof {
            lemma_wrap_once(self - rhs, Self::lowest(), Self::highest());
        }
        <i32>::wrapping_sub(self, rhs)
    }

    #[inline(always)]
    fn saturating_add(self, rhs: i32) -> (r: i32) {
        match self.checked_add(rhs) {
            Some(sum) => sum,
            None => if rhs > 0 {
                i32::MAX
            } else {
                i32::MIN
            },
        }
    }

    #[inline(always)]
    fn saturating_sub(self, rhs: i32) -> (r: i32) {
        match self.checked_sub(rhs) {
            Some(difference) => difference,
            None => if rhs < 0 {
                i32::MAX
            } else {
                i32::MIN
            },
        }
    }

    #[inline(always)]
    fn less_than(&self, other: &i32) -> (r: bool) {
        *self < *other
    }

    #[inline(always)]
    fn equals(&self, other: &i32) -> (r: bool) {
        *self == *other
    }
}

impl Stencil for i64 {
    open spec fn value(self) -> int {
        self as int
    }

    open spec fn lowest() -> int {
        i64::MIN as int
    }

    open spec fn highest() -> int {
        i64::MAX as int
    }

    proof fn lemma_range() {
    }

    proof fn lemma_value_in_range(s: Self) {
    }

    proof fn lemma_value_determines(a: Self, b: Self) {
    }

    #[inline(always)]
    fn zero() -> (r: i64) {
        0
    }

    #[inline(always)]
    fn one() -> (r: i64) {
        1
    }

    #[inline(always)]
    fn not(self) -> (r: i64) {
        let r = !self;
        proof {
            assert(r as int == -1 - (self as int)) by (bit_vector)
                requires r == !self;
        }
        r
    }

    #[inline(always)]
    fn wrapping_add(self, rhs: i64) -> (r: i64) {
        proof {
            lemma_wrap_once(self + rhs, Self::lowest(), Self::highest());
        }
        <i64>::wrapping_add(self, rhs)
    }

    #[inline(always)]
    fn wrapping_sub(self, rhs: i64) -> (r: i64) {
        proof {
            lemma_wrap_once(self - rhs, Self::lowest(), Self::highest());
        }
        <i64>::wrapping_sub(self, rhs)
    }

    #[inline(always)]
    fn saturating_add(self, rhs: i64) -> (r: i64) {
        match self.checked_add(rhs) {
            Some(sum) => sum,
            None => if rhs > 0 {
                i64::MAX
            } else {
                i64::MIN
            },
        }
    }

    #[inline(always)]
    fn saturating_sub(self, rhs: i64) -> (r: i64) {
        match self.checked_sub(rhs) {
            Some(difference) => difference,
            None => if rhs < 0 {
                i64::MAX
            } else {
                i64::MIN
            },
        }
    }

    #[inline(always)]
    fn less_than(&self, other: &i64) -> (r: bool) {
        *self < *other
    }

    #[inline(always)]
    fn equals(&self, other: &i64) -> (r: bool) {
        *self == *other
    }
}

impl Stencil for usize {
    open spec fn value(self) -> int {
        self as int
    }

    open spec fn lowest() -> int {
        0
    }

    open spec fn highest() -> int {
        usize::MAX as int
    }

    proof fn lemma_range() {
    }

    proof fn lemma_value_in_range(s: Self) {
    }

    proof fn lemma_value_determines(a: Self, b: Self) {
    }

    #[inline(always)]
    fn zero() -> (r: usize) {
        0
    }

    #[inline(always)]
    fn one() -> (r: usize) {
        1
    }

    #[inline(always)]
    fn not(self) -> (r: usize) {
        let r = !self;
        proof {
            assert(usize::BITS == 32 || usize::BITS == 64);
            if usize::BITS == 64 {
                assert(r as u64 == 0xffff_ffff_ffff_ffffu64 - self as u64) by (bit_vector)
                    requires
                        r == !self,
                        usize::BITS == 64,
                ;
            } else {
                assert(r as u32 == 0xffff_ffffu32 - self as u32) by (bit_vector)
                    requires
                        r == !self,
                        usize::BITS == 32,
                ;
            }
        }
        r
    }

    #[inline(always)]
    fn wrapping_add(self, rhs: usize) -> (r: usize) {
        proof {
            lemma_wrap_once(self + rhs, Self::lowest(), Self::highest());
        }
        <usize>::wrapping_add(self, rhs)
    }

    #[inline(always)]
    fn wrapping_sub(self, rhs: usize) -> (r: usize) {
        proof {
            lemma_wrap_once(self - rhs, Self::lowest(), Self::highest());
        }
        <usize>::wrapping_sub(self, rhs)
    }

    #[inline(always)]
    fn saturating_add(self, rhs: usize) -> (r: usize) {
        <usize>::saturating_add(self, rhs)
    }

    #[inline(always)]
    fn saturating_sub(self, rhs: usize) -> (r: usize) {
        <usize>::saturating_sub(self, rhs)
    }

    #[inline(always)]
    fn less_than(&self, other: &usize) -> (r: bool) {
        *self < *other
    }

    #[inline(always)]
    fn equals(&self, other: &usize) -> (r: bool) {
        *self == *other
    }
}

impl Stencil for isize {
    open spec fn value(self) -> int {
        self as int
    }

    open spec fn lowest() -> int {
        isize::MIN as int
    }

    open spec fn highest() -> int {
        isize::MAX as int
    }

    proof fn lemma_range() {
    }

    proof fn lemma_value_in_range(s: Self) {
    }

    proof fn lemma_value_determines(a: Self, b: Self) {
    }

    #[inline(always)]
    fn zero() -> (r: isize) {
        0
    }

    #[inline(always)]
    fn one() -> (r: isize) {
        1
    }

    #[inline(always)]
    fn not(self) -> (r: isize) {
        let r = !self;
        proof {
            assert(r as int == -1 - (self as int)) by (bit_vector)
                requires r == !self;
        }
        r
    }

    #[inline(always)]
    fn wrapping_add(self, rhs: isize) -> (r: isize) {
        proof {
            lemma_wrap_once(self + rhs, Self::lowest(), Self::highest());
        }
        <isize>::wrapping_add(self, rhs)
    }

    #[inline(always)]
    fn wrapping_sub(self, rhs: isize) -> (r: isize) {
        proof {
            lemma_wrap_once(self - rhs, Self::lowest(), Self::highest());
        }
        <isize>::wrapping_sub(self, rhs)
    }

    #[inline(always)]
    fn saturating_add(self, rhs: isize) -> (r: isize) {
        match self.checked_add(rhs) {
            Some(sum) => sum,
            None => if rhs > 0 {
                isize::MAX
            } else {
                isize::MIN
            },
        }
    }

    #[inline(always)]
    fn saturating_sub(self, rhs: isize) -> (r: isize) {
        match self.checked_sub(rhs) {
            Some(difference) => difference,
            None => if rhs < 0 {
                isize::MAX
            } else {
                isize::MIN
            },
        }
    }

    #[inline(always)]
    fn less_than(&self, other: &isize) -> (r: bool) {
        *self < *other
    }

    #[inline(always)]
    fn equals(&self, other: &isize) -> (r: bool) {
        *self == *other
    }
}
impl Stencil for () {
    open spec fn value(self) -> int {
        0
    }

    open spec fn lowest() -> int {
        0
    }

    open spec fn highest() -> int {
        0
    }

    proof fn lemma_range() {
    }

    proof fn lemma_value_in_range(s: Self) {
    }

    proof fn lemma_value_determines(a: Self, b: Self) {
    }

    #[inline(always)]
    fn zero() -> (r: Self) {
        ()
    }

    #[inline(always)]
    fn one() -> (r: Self) {
        ()
    }

    #[inline(always)]
    fn not(self) -> (r: Self) {
        ()
    }

    #[inline(always)]
    fn wrapping_add(self, rhs: Self) -> (r: Self) {
        ()
    }

    #[inline(always)]
    fn wrapping_sub(self, rhs: Self) -> (r: Self) {
        ()
    }

    #[inline(always)]
    fn saturating_add(self, rhs: Self) -> (r: Self) {
        ()
    }

    #[inline(always)]
    fn saturating_sub(self, rhs: Self) -> (r: Self) {
        ()
    }

    #[inline(always)]
    fn less_than(&self, other: &Self) -> (r: bool) {
        false
    }

    #[inline(always)]
    fn equals(&self, other: &Self) -> (r: bool) {
        true
    }
}


/// Defines tests which can be performed on stencil buffers
#[derive(Debug, Clone, Copy, Hash, PartialEq, Eq)]
pub enum StencilTest {
    /// Always pass
    Always,
    /// Never pass
    Never,
    /// Pass if the new value is less than the previous
    LessThan,
    /// Pass if the new value is greater than the previous
    GreaterThan,
    /// Pass if the new value is less than or equal to the previous
    LessThanEq,
    /// Pass if the new value is greater than or equal to the previous
    GreaterThanEq,
    /// Pass only if the new value is equal to the previous
    Equal,
    /// Pass only if the new value is NOT equal to the previous
    NotEqual,
}

impl StencilTest {
    /// Whether the test passes for the new number `value` over the present number `present`.
    pub open spec fn passes(self, present: int, value: int) -> bool {
        match self {
            StencilTest::Always => true,
            StencilTest::Never => false,
            StencilTest::LessThan => value < present,
            StencilTest::LessThanEq => value <= present,
            StencilTest::GreaterThan => value > present,
            StencilTest::GreaterThanEq => value >= present,
            StencilTest::Equal => value == present,
            StencilTest::NotEqual => value != present,
        }
    }

    /// Performs the stencil test on any `StencilType` type
    #[inline]
    pub fn test<T>(&self, present: T, value: T) -> (r: bool) where T: Stencil
        ensures
            r == self.passes(present.value(), value.value()),
    {
        match *self {
            StencilTest::Always => true,
            StencilTest::Never => false,
            StencilTest::LessThan => value.less_than(&present),
            StencilTest::LessThanEq => !present.less_than(&value),
            StencilTest::GreaterThan => present.less_than(&value),
            StencilTest::GreaterThanEq => !value.less_than(&present),
            StencilTest::Equal => value.equals(&present),
            StencilTest::NotEqual => !value.equals(&present),
        }
    }
}

/// Defines the operation to be performed upon a passing stencil test
#[derive(Debug, Clone, Copy, Hash, PartialEq, Eq)]
pub enum StencilOp<T: Stencil> {
    /// Keep the previous stencil value
    Keep,
    /// Perform a bitwise negation on the previous value
    Invert,
    /// Replace the previous value with zero
    Zero,
    /// Replace the previous value with the given value
    Replace(T),
    /// Increment the previous value by one, wrapping as desired.
    Increment { wrap: bool },
    /// Decrement the previous value by one, wrapping as desired.
    Decrement { wrap: bool },
}

impl<T> StencilOp<T> where T: Stencil + Copy {
    /// The number that the operation makes of the number `v`.
    pub open spec fn outcome(self, v: int) -> int {
        let lo = T::lowest();
        let hi = T::highest();
        match self {
            StencilOp::Keep => v,
            StencilOp::Invert => lo + hi - v,
            StencilOp::Zero => 0,
            StencilOp::Replace(replacement) => replacement.value(),
            StencilOp::Increment { wrap } => if wrap {
                wrap_into(v + one_of::<T>(), lo, hi)
            } else {
                saturate_into(v + one_of::<T>(), lo, hi)
            },
            StencilOp::Decrement { wrap } => if wrap {
                wrap_into(v - one_of::<T>(), lo, hi)
            } else {
                saturate_into(v - one_of::<T>(), lo, hi)
            },
        }
    }

    /// Performs the operation on the value, returning the new value
    #[inline]
    pub fn op(&self, value: T) -> (r: T)
        ensures
            r.value() == self.outcome(value.value()),
            *self is Keep ==> r == value,
            *self matches StencilOp::Replace(replacement) ==> r == replacement,
    {
        match *self {
            StencilOp::Keep => value,
            StencilOp::Invert => Stencil::not(value),
            StencilOp::Zero => T::zero(),
            StencilOp::Replace(replacement) => replacement,
            StencilOp::Increment { wrap: true } => Stencil::wrapping_add(value, T::one()),
            StencilOp::Decrement { wrap: true } => Stencil::wrapping_sub(value, T::one()),
            StencilOp::Increment { wrap: false } => Stencil::saturating_add(value, T::one()),
            StencilOp::Decrement { wrap: false } => Stencil::saturating_sub(value, T::one()),
        }
    }
}

/// Defines a stateful configuration for a stencil buffer
pub trait StencilConfig<T: Stencil>: Sized {
    /// Return the operation to be performed
    fn op(&self) -> StencilOp<T>;

    /// Return the test to be performed
    fn test(&self) -> StencilTest;
}

impl StencilConfig<()> for () {
    #[inline(always)]
    fn op(&self) -> (r: StencilOp<()>)
        ensures
            r is Keep,
    {
        StencilOp::Keep
    }

    #[inline(always)]
    fn test(&self) -> (r: StencilTest)
        ensures
            r is Always,
    {
        StencilTest::Always
    }
}

/// Generic stencil config that just stores the `StencilOp` and `StencilTest` structures.
#[derive(Debug, Clone, Copy, PartialEq)]
pub struct GenericStencilConfig<T: Stencil = ()> {
    pub op: StencilOp<T>,
    pub test: StencilTest,
}

impl<T> StencilConfig<T> for GenericStencilConfig<T> where T: Stencil + Copy {
    #[inline(always)]
    fn op(&self) -> (r: StencilOp<T>)
        ensures
            r == self.op,
    {
        self.op
    }

    #[inline(always)]
    fn test(&self) -> (r: StencilTest)
        ensures
            r == self.test,
    {
        self.test
    }
}

impl<T> Default for GenericStencilConfig<T> where T: Stencil {
    fn default() -> (r: GenericStencilConfig<T>)
        ensures
            r.op is Keep,
            r.test is Always,
    {
        GenericStencilConfig { op: StencilOp::Keep, test: StencilTest::Always }
    }
}

/// Every operation leaves a number of the stencil type's range: the result of
/// an operation is again a valid stencil value.
pub proof fn law_outcome_in_range<T: Stencil + Copy>(op: StencilOp<T>, v: T)
    ensures
        T::lowest() <= op.outcome(v.value()) <= T::highest(),
{
    T::lemma_range();
    T::lemma_value_in_range(v);
    let lo = T::lowest();
    let hi = T::highest();
    let one = one_of::<T>();
    match op {
        StencilOp::Replace(replacement) => {
            T::lemma_value_in_range(replacement);
        },
        StencilOp::Increment { wrap } => {
            lemma_wrap_once(v.value() + one, lo, hi);
        },
        StencilOp::Decrement { wrap } => {
            lemma_wrap_once(v.value() - one, lo, hi);
        },
        _ => {},
    }
}

/// Inverting a value twice gives back the value: the number, and so the
/// value itself, since a value is determined by its number.
pub proof fn law_invert_twice<T: Stencil + Copy>(v: T)
    ensures
        StencilOp::<T>::Invert.outcome(StencilOp::<T>::Invert.outcome(v.value())) == v.value(),
        forall|w: T|
            #[trigger] w.value() == StencilOp::<T>::Invert.outcome(
                StencilOp::<T>::Invert.outcome(v.value()),
            ) ==> w == v,
{
    assert forall|w: T|
        #[trigger] w.value() == StencilOp::<T>::Invert.outcome(
            StencilOp::<T>::Invert.outcome(v.value()),
        ) implies w == v by {
        T::lemma_value_determines(w, v);
    }
}

/// A wrapping increment is undone by a wrapping decrement, and the other way
/// round, for every value, including the ends of the range; a value whose
/// number is the number given back is the value itself.
pub proof fn law_wrapping_steps_undo<T: Stencil + Copy>(v: T)
    ensures
        (StencilOp::<T>::Decrement { wrap: true }).outcome(
            (StencilOp::<T>::Increment { wrap: true }).outcome(v.value()),
        ) == v.value(),
        (StencilOp::<T>::Increment { wrap: true }).outcome(
            (StencilOp::<T>::Decrement { wrap: true }).outcome(v.value()),
        ) == v.value(),
        forall|w: T| #[trigger] w.value() == v.value() ==> w == v,
{
    assert forall|w: T| #[trigger] w.value() == v.value() implies w == v by {
        T::lemma_value_determines(w, v);
    }
    T::lemma_range();
    T::lemma_value_in_range(v);
    let lo = T::lowest();
    let hi = T::highest();
    let one = one_of::<T>();
    let x = v.value();
    lemma_wrap_once(x + one, lo, hi);
    lemma_wrap_once(wrap_into(x + one, lo, hi) - one, lo, hi);
    lemma_wrap_once(x - one, lo, hi);
    lemma_wrap_once(wrap_into(x - one, lo, hi) + one, lo, hi);
}

/// A saturating increment steps up by one below the top of the range and
/// stays at the top there; a saturating decrement does the same at the bottom.
pub proof fn law_saturating_steps<T: Stencil + Copy>(v: T)
    requires
        T::highest() >= 1,
    ensures
        v.value() < T::highest() ==> (StencilOp::<T>::Increment { wrap: false }).outcome(v.value())
            == v.value() + 1,
        v.value() == T::highest() ==> (StencilOp::<T>::Increment { wrap: false }).outcome(v.value())
            == v.value(),
        v.value() > T::lowest() ==> (StencilOp::<T>::Decrement { wrap: false }).outcome(v.value())
            == v.value() - 1,
        v.value() == T::lowest() ==> (StencilOp::<T>::Decrement { wrap: false }).outcome(v.value())
            == v.value(),
{
    T::lemma_value_in_range(v);
}

/// A wrapping increment of the greatest value gives the least value, and a
/// wrapping decrement of the least value gives the greatest.
pub proof fn law_wrapping_ends<T: Stencil + Copy>()
    requires
        T::highest() >= 1,
    ensures
        (StencilOp::<T>::Increment { wrap: true }).outcome(T::highest()) == T::lowest(),
        (StencilOp::<T>::Decrement { wrap: true }).outcome(T::lowest()) == T::highest(),
{
    let lo = T::lowest();
    let hi = T::highest();
    T::lemma_range();
    lemma_wrap_once(hi + 1, lo, hi);
    lemma_wrap_once(lo - 1, lo, hi);
}

/// The tests come in complementary pairs, and swapping the two values turns
/// "less than" into "greater than".
pub proof fn law_test_relations(present: int, value: int)
    ensures
        StencilTest::Always.passes(present, value),
        !StencilTest::Never.passes(present, value),
        StencilTest::NotEqual.passes(present, value) == !StencilTest::Equal.passes(present, value),
        StencilTest::LessThanEq.passes(present, value) == !StencilTest::GreaterThan.passes(
            present,
            value,
        ),
        StencilTest::GreaterThanEq.passes(present, value) == !StencilTest::LessThan.passes(
            present,
            value,
        ),
        StencilTest::LessThanEq.passes(present, value) == (StencilTest::LessThan.passes(
            present,
            value,
        ) || StencilTest::Equal.passes(present, value)),
        StencilTest::LessThan.passes(present, value) == StencilTest::GreaterThan.passes(
            value,
            present,
        ),
{
}

/// What the operations that do not count make of a value: `Keep` gives the
/// value back, `Zero` gives zero whatever the value, and `Replace` gives the
/// replacement whatever the value; the result of `Zero` is the value `zero()`
/// stands for.
pub proof fn law_op_fixed_results<T: Stencil + Copy>(v: T, replacement: T, zero: T)
    requires
        zero.value() == 0,
    ensures
        StencilOp::<T>::Keep.outcome(v.value()) == v.value(),
        StencilOp::<T>::Zero.outcome(v.value()) == 0,
        StencilOp::<T>::Zero.outcome(v.value()) == zero.value(),
        StencilOp::<T>::Replace(replacement).outcome(v.value()) == replacement.value(),
        forall|w: T| #[trigger] w.value() == StencilOp::<T>::Zero.outcome(v.value()) ==> w == zero,
{
    assert forall|w: T| #[trigger] w.value() == StencilOp::<T>::Zero.outcome(v.value()) implies w
        == zero by {
        T::lemma_value_determines(w, zero);
    }
}

/// Inverting reverses the range: the least value becomes the greatest and
/// the greatest the least, and a smaller value inverts to a larger one.
pub proof fn law_invert_reverses<T: Stencil + Copy>(v: T, w: T)
    ensures
        StencilOp::<T>::Invert.outcome(T::lowest()) == T::highest(),
        StencilOp::<T>::Invert.outcome(T::highest()) == T::lowest(),
        v.value() < w.value() ==> StencilOp::<T>::Invert.outcome(v.value())
            > StencilOp::<T>::Invert.outcome(w.value()),
{
}

/// Away from the ends of the range, a wrapping increment steps up by one and
/// a wrapping decrement steps down by one, as the saturating ones do.
pub proof fn law_wrapping_steps_inside<T: Stencil + Copy>(v: T)
    requires
        T::highest() >= 1,
    ensures
        v.value() < T::highest() ==> (StencilOp::<T>::Increment { wrap: true }).outcome(v.value())
            == v.value() + 1,
        v.value() > T::lowest() ==> (StencilOp::<T>::Decrement { wrap: true }).outcome(v.value())
            == v.value() - 1,
{
    T::lemma_range();
    T::lemma_value_in_range(v);
    lemma_wrap_once(v.value() + 1, T::lowest(), T::highest());
    lemma_wrap_once(v.value() - 1, T::lowest(), T::highest());
}

} // verus!
