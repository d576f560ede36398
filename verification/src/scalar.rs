//! The arithmetic a matrix needs from its elements.

use crate::decimal::{decimal, push_decimal};
use vstd::prelude::*;

verus! {

/// An element type: a zero, a one, addition, multiplication, negation, and
/// a way to write an element down.
///
/// Each operation is a function of its arguments, named by a spec function, so
/// that contracts can say which element a computation yields. No algebraic law
/// is demanded here; the laws that a proof needs are stated where it needs
/// them (see [`unital`]).
///
/// An implementation that Verus does not see, such as one for floating-point
/// numbers, writes each spec function as the operation that it names, and
/// owes that the operation depends on its arguments alone. That is why
/// [`Scalar::text`] is a `String`: plain Rust can write it down.
pub trait Scalar: Copy {
    /// The additive unit.
    spec fn zero_value() -> Self;

    /// The multiplicative unit.
    spec fn one_value() -> Self;

    /// `self + rhs`.
    spec fn sum(self, rhs: Self) -> Self;

    /// `self * rhs`.
    spec fn product(self, rhs: Self) -> Self;

    /// `-self`.
    spec fn negation(self) -> Self;

    /// The element written with two decimal places.
    spec fn text(self) -> String;

    fn zero() -> (r: Self)
        ensures
            r == Self::zero_value(),
    ;

    fn one() -> (r: Self)
        ensures
            r == Self::one_value(),
    ;

    fn plus(self, rhs: Self) -> (r: Self)
        ensures
            r == self.sum(rhs),
    ;

    fn times(self, rhs: Self) -> (r: Self)
        ensures
            r == self.product(rhs),
    ;

    fn neg(self) -> (r: Self)
        ensures
            r == self.negation(),
    ;

    fn render(&self) -> (s: String)
        ensures
            s@ == self.text()@,
    ;
}

/// The unit laws: zero is neutral for addition and absorbing for
/// multiplication, one is neutral for multiplication.
pub open spec fn unital<T: Scalar>() -> bool {
    &&& forall|x: T| #[trigger] T::zero_value().sum(x) == x
    &&& forall|x: T| #[trigger] x.sum(T::zero_value()) == x
    &&& forall|x: T| #[trigger] T::zero_value().product(x) == T::zero_value()
    &&& forall|x: T| #[trigger] x.product(T::zero_value()) == T::zero_value()
    &&& forall|x: T| #[trigger] T::one_value().product(x) == x
    &&& forall|x: T| #[trigger] x.product(T::one_value()) == x
}

/// An integer with two zeros behind the point: `-7.00`.
pub open spec fn integer_text(x: int) -> Seq<char> {
    if x < 0 {
        "-"@ + decimal((-x) as nat) + ".00"@
    } else {
        decimal(x as nat) + ".00"@
    }
}

/// Integers modulo 2^64, in two's complement.
impl Scalar for i64 {
    open spec fn zero_value() -> Self {
        0
    }

    open spec fn one_value() -> Self {
        1
    }

    open spec fn sum(self, rhs: Self) -> Self {
        self.wrapping_add(rhs)
    }

    open spec fn product(self, rhs: Self) -> Self {
        self.wrapping_mul(rhs)
    }

    open spec fn negation(self) -> Self {
        0i64.wrapping_sub(self)
    }

    open spec fn text(self) -> String {
        choose|s: String| s@ == integer_text(self as int)
    }

    fn zero() -> (r: Self) {
        0
    }

    fn one() -> (r: Self) {
        1
    }

    fn plus(self, rhs: Self) -> (r: Self) {
        self.wrapping_add(rhs)
    }

    fn times(self, rhs: Self) -> (r: Self) {
        self.wrapping_mul(rhs)
    }

    fn neg(self) -> (r: Self) {
        0i64.wrapping_sub(self)
    }

    fn render(&self) -> (s: String)
        ensures
            s@ == integer_text(*self as int),
    {
        let x: i64 = *self;
        let mut s: String = String::new();
        if x < 0 {
            s.append("-");
            let below: u64 = (-(x + 1)) as u64;
            push_decimal(&mut s, below + 1);
        } else {
            push_decimal(&mut s, x as u64);
        }
        s.append(".00");
        s
    }
}

/// Wrapping integer arithmetic obeys the unit laws.
pub proof fn lemma_i64_unital()
    ensures
        unital::<i64>(),
{
    assert forall|x: i64| #[trigger] 0i64.wrapping_mul(x) == 0i64 by {
        assert(0 * x == 0);
    }
    assert forall|x: i64| #[trigger] x.wrapping_mul(0i64) == 0i64 by {
        assert(x * 0 == 0);
    }
    assert forall|x: i64| #[trigger] 1i64.wrapping_mul(x) == x by {
        assert(1 * x == x);
    }
    assert forall|x: i64| #[trigger] x.wrapping_mul(1i64) == x by {
        assert(x * 1 == x);
    }
}

} // verus!
