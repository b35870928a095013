use vstd::prelude::*;

verus! {

/// Bit that carries the sign of a binary64 pattern.
pub const SIGN_BIT: u64 = 0x8000_0000_0000_0000;

/// Pattern of positive infinity; every larger magnitude is a NaN.
pub const INFINITY_BITS: u64 = 0x7ff0_0000_0000_0000;

/// Pattern of the machine epsilon of binary64, two to the power of -52.
pub const EPSILON_BITS: u64 = 0x3cb0_0000_0000_0000;

/// A double-precision number, held as its IEEE 754 binary64 bit pattern.
///
/// Ordering, negation and the size of a magnitude are read off the pattern
/// with integer operations. The four rounding operations are not computed
/// here: the interpreter asks a calculator for them (see [`is_calculator`]).
#[derive(Clone, Copy, Debug, PartialEq, Eq, Structural)]
pub struct Number {
    pub bits: u64,
}

/// The operations on two numbers whose results need rounding.
#[derive(Clone, Copy, Debug, PartialEq, Eq, Structural)]
pub enum Arithmetic {
    Add,
    Subtract,
    Multiply,
    Divide,
}

impl Number {
    /// The pattern with its sign bit cleared.
    pub open spec fn magnitude(self) -> u64 {
        if self.bits >= SIGN_BIT {
            (self.bits - SIGN_BIT) as u64
        } else {
            self.bits
        }
    }

    /// Whether the sign bit is set.
    pub open spec fn negative(self) -> bool {
        self.bits >= SIGN_BIT
    }

    /// Whether the pattern is a NaN.
    pub open spec fn nan(self) -> bool {
        self.magnitude() > INFINITY_BITS
    }

    /// Position on the number line of a pattern that is no NaN: patterns of
    /// one sign are ordered as their magnitudes, and both zeros stand at 0.
    pub open spec fn rank(self) -> int {
        if self.negative() {
            -(self.magnitude() as int)
        } else {
            self.magnitude() as int
        }
    }

    /// `self < other` as IEEE 754 orders numbers: false when either is a NaN.
    pub open spec fn precedes(self, other: Number) -> bool {
        !self.nan() && !other.nan() && self.rank() < other.rank()
    }

    /// `self <= other` as IEEE 754 orders numbers: false when either is a NaN.
    pub open spec fn precedes_or_meets(self, other: Number) -> bool {
        !self.nan() && !other.nan() && self.rank() <= other.rank()
    }

    /// The number with the opposite sign.
    pub open spec fn opposite(self) -> Number {
        if self.bits >= SIGN_BIT {
            Number { bits: (self.bits - SIGN_BIT) as u64 }
        } else {
            Number { bits: (self.bits + SIGN_BIT) as u64 }
        }
    }

    /// Whether the absolute value lies below the machine epsilon.
    pub open spec fn negligible(self) -> bool {
        self.magnitude() < EPSILON_BITS
    }

    /// The number with the given pattern.
    pub fn from_bits(bits: u64) -> (r: Number)
        ensures
            r.bits == bits,
    {
        Number { bits }
    }

    /// The pattern of the number.
    pub fn to_bits(self) -> (r: u64)
        ensures
            r == self.bits,
    {
        self.bits
    }

    fn abs_bits(self) -> (r: u64)
        ensures
            r == self.magnitude(),
    {
        if self.bits >= SIGN_BIT {
            self.bits - SIGN_BIT
        } else {
            self.bits
        }
    }

    /// Whether the number is a NaN.
    pub fn is_nan(self) -> (r: bool)
        ensures
            r == self.nan(),
    {
        self.abs_bits() > INFINITY_BITS
    }

    /// The number with the opposite sign: the sign bit is flipped, also that
    /// of a zero, an infinity or a NaN.
    pub fn negate(self) -> (r: Number)
        ensures
            r == self.opposite(),
            r.magnitude() == self.magnitude(),
            r.negative() != self.negative(),
    {
        if self.bits >= SIGN_BIT {
            Number { bits: self.bits - SIGN_BIT }
        } else {
            Number { bits: self.bits + SIGN_BIT }
        }
    }

    /// `self < other`.
    pub fn less_than(self, other: Number) -> (r: bool)
        ensures
            r == self.precedes(other),
    {
        if self.is_nan() || other.is_nan() {
            return false;
        }
        let a: u64 = self.abs_bits();
        let b: u64 = other.abs_bits();
        if self.bits >= SIGN_BIT {
            if other.bits >= SIGN_BIT {
                b < a
            } else {
                a > 0 || b > 0
            }
        } else {
            if other.bits >= SIGN_BIT {
                false
            } else {
                a < b
            }
        }
    }

    /// `self <= other`.
    pub fn at_most(self, other: Number) -> (r: bool)
        ensures
            r == self.precedes_or_meets(other),
    {
        if self.is_nan() || other.is_nan() {
            return false;
        }
        let a: u64 = self.abs_bits();
        let b: u64 = other.abs_bits();
        if self.bits >= SIGN_BIT {
            if other.bits >= SIGN_BIT {
                b <= a
            } else {
                true
            }
        } else {
            if other.bits >= SIGN_BIT {
                a == 0 && b == 0
            } else {
                a <= b
            }
        }
    }

    /// Whether the absolute value lies below the machine epsilon.
    pub fn is_negligible(self) -> (r: bool)
        ensures
            r == self.negligible(),
    {
        self.abs_bits() < EPSILON_BITS
    }
}

/// Whether `calc` can stand for arithmetic: it accepts every pair of
/// operands, and what it promises of its result leaves one result only.
pub open spec fn is_calculator<F: Fn(Arithmetic, Number, Number) -> Number>(calc: &F) -> bool {
    &&& forall|op: Arithmetic, a: Number, b: Number| calc.requires((op, a, b))
    &&& forall|op: Arithmetic, a: Number, b: Number, r1: Number, r2: Number|
        calc.ensures((op, a, b), r1) && calc.ensures((op, a, b), r2) ==> r1 == r2
}

/// The function that a calculator computes.
pub open spec fn calculation<F: Fn(Arithmetic, Number, Number) -> Number>(
    calc: &F,
) -> spec_fn(Arithmetic, Number, Number) -> Number {
    |op: Arithmetic, a: Number, b: Number| choose|r: Number| calc.ensures((op, a, b), r)
}

/// Asks the calculator for one operation.
pub fn calculate<F: Fn(Arithmetic, Number, Number) -> Number>(
    calc: &F,
    op: Arithmetic,
    a: Number,
    b: Number,
) -> (r: Number)
    requires
        is_calculator(calc),
    ensures
        r == calculation(calc)(op, a, b),
{
    calc(op, a, b)
}

} // verus!

verus! {

/// Whether `show` can stand for the decimal notation of numbers: it accepts
/// every number, and what it promises of its result leaves one text only.
pub open spec fn is_notation<S: Fn(Number) -> String>(show: &S) -> bool {
    &&& forall|n: Number| show.requires((n,))
    &&& forall|n: Number, a: String, b: String|
        show.ensures((n,), a) && show.ensures((n,), b) ==> a@ == b@
}

/// The function from numbers to texts that a notation computes.
pub open spec fn notation<S: Fn(Number) -> String>(show: &S) -> spec_fn(Number) -> Seq<char> {
    |n: Number| (choose|r: String| show.ensures((n,), r))@
}

/// Asks the notation for the text of one number.
pub fn write_number<S: Fn(Number) -> String>(show: &S, n: Number) -> (r: String)
    requires
        is_notation(show),
    ensures
        r@ == notation(show)(n),
{
    show(n)
}

} // verus!

verus! {

/// Negation is its own inverse, and keeps a NaN a NaN.
pub proof fn opposite_is_an_involution(n: Number)
    ensures
        n.opposite().opposite() == n,
        n.opposite().nan() == n.nan(),
        n.opposite().magnitude() == n.magnitude(),
{
}

/// `<` is a strict order on the numbers that are no NaN: nothing precedes
/// itself, and the order is transitive.
pub proof fn precedes_is_a_strict_order(a: Number, b: Number, c: Number)
    ensures
        !a.precedes(a),
        a.precedes(b) && b.precedes(c) ==> a.precedes(c),
        a.precedes(b) ==> !b.precedes(a),
{
}

/// Two numbers that are no NaN are ordered one way or the other, or stand
/// at the same place; `<=` holds exactly where `>` does not.
pub proof fn numbers_are_comparable(a: Number, b: Number)
    requires
        !a.nan(),
        !b.nan(),
    ensures
        a.precedes(b) || b.precedes(a) || a.rank() == b.rank(),
        a.precedes_or_meets(b) <==> !b.precedes(a),
        a.precedes_or_meets(b) <==> a.precedes(b) || a.rank() == b.rank(),
{
}

/// A NaN is ordered with nothing, itself included.
pub proof fn nan_is_unordered(a: Number, b: Number)
    requires
        a.nan() || b.nan(),
    ensures
        !a.precedes(b),
        !b.precedes(a),
        !a.precedes_or_meets(b),
        !b.precedes_or_meets(a),
{
}

/// Negation reverses the order.
pub proof fn opposite_reverses_order(a: Number, b: Number)
    ensures
        a.precedes(b) <==> b.opposite().precedes(a.opposite()),
        a.precedes_or_meets(b) <==> b.opposite().precedes_or_meets(a.opposite()),
{
}

} // verus!
