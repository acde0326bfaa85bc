//! Double-precision numbers, carried as their IEEE 754 bit patterns.
//!
//! The library compares such numbers itself. What takes floating-point
//! arithmetic is asked of a function that the caller supplies: it gets an
//! [`Operation`] and answers with the rounded result.

use vstd::prelude::*;

verus! {

/// A double-precision number by its bit pattern: the sign in the top bit, then
/// eleven bits of exponent, then fifty-two bits of fraction.
#[derive(Clone, Copy, Debug)]
pub struct Number {
    pub bits: u64,
}

/// The bit pattern of the sign alone, which is that of minus zero.
pub const SIGN_BITS: u64 = 0x8000_0000_0000_0000;

/// The bit pattern of positive infinity.
pub const INFINITY_BITS: u64 = 0x7ff0_0000_0000_0000;

/// The bit pattern of 1.
pub const ONE_BITS: u64 = 0x3ff0_0000_0000_0000;

/// The bit pattern of 2.
pub const TWO_BITS: u64 = 0x4000_0000_0000_0000;

/// The bit pattern of 100.
pub const HUNDRED_BITS: u64 = 0x4059_0000_0000_0000;

/// The bit pattern of the distance from 1 to the next larger number.
pub const EPSILON_BITS: u64 = 0x3cb0_0000_0000_0000;

/// The number with the given bit pattern.
pub open spec fn pattern(bits: u64) -> Number {
    Number { bits }
}

impl Number {
    /// Whether the sign bit is set.
    pub open spec fn negative(self) -> bool {
        self.bits >= SIGN_BITS
    }

    /// Exponent and fraction as one integer: it grows with the absolute value.
    pub open spec fn magnitude(self) -> int {
        if self.negative() {
            self.bits - SIGN_BITS
        } else {
            self.bits as int
        }
    }

    /// Whether this is not a number.
    pub open spec fn nan(self) -> bool {
        self.magnitude() > INFINITY_BITS
    }

    /// Whether this is neither infinite nor "not a number".
    pub open spec fn finite(self) -> bool {
        self.magnitude() < INFINITY_BITS
    }

    /// The place in the numeric order; both zeros have the same one.
    pub open spec fn rank(self) -> int {
        if self.negative() {
            -self.magnitude()
        } else {
            self.magnitude()
        }
    }

    /// The place in the total order, in which minus zero stands before zero and
    /// every bit pattern has a place of its own.
    pub open spec fn total_rank(self) -> int {
        if self.negative() {
            -1 - self.magnitude()
        } else {
            self.magnitude()
        }
    }

    /// Numeric "at most", which never holds of "not a number".
    pub open spec fn at_most(self, other: Number) -> bool {
        !self.nan() && !other.nan() && self.rank() <= other.rank()
    }

    /// Numeric "below", which never holds of "not a number".
    pub open spec fn below(self, other: Number) -> bool {
        !self.nan() && !other.nan() && self.rank() < other.rank()
    }

    /// Numeric equality, which never holds of "not a number".
    pub open spec fn equals(self, other: Number) -> bool {
        !self.nan() && !other.nan() && self.rank() == other.rank()
    }

    /// The number with the given bit pattern.
    pub fn from_bits(bits: u64) -> (result: Number)
        ensures
            result == pattern(bits),
    {
        Number { bits }
    }

    /// Exponent and fraction of the pattern.
    fn unsigned(self) -> (result: u64)
        ensures
            result == self.magnitude(),
    {
        if self.bits >= SIGN_BITS {
            self.bits - SIGN_BITS
        } else {
            self.bits
        }
    }

    /// The place in the numeric order.
    fn place(self) -> (result: i128)
        ensures
            result == self.rank(),
    {
        if self.bits >= SIGN_BITS {
            -(self.unsigned() as i128)
        } else {
            self.bits as i128
        }
    }

    /// Whether this is not a number.
    pub fn is_nan(self) -> (result: bool)
        ensures
            result == self.nan(),
    {
        self.unsigned() > INFINITY_BITS
    }

    /// Whether this is neither infinite nor "not a number".
    pub fn is_finite(self) -> (result: bool)
        ensures
            result == self.finite(),
    {
        self.unsigned() < INFINITY_BITS
    }

    /// Numeric "at most".
    pub fn is_at_most(self, other: Number) -> (result: bool)
        ensures
            result == self.at_most(other),
    {
        !self.is_nan() && !other.is_nan() && self.place() <= other.place()
    }

    /// Numeric "below".
    pub fn is_below(self, other: Number) -> (result: bool)
        ensures
            result == self.below(other),
    {
        !self.is_nan() && !other.is_nan() && self.place() < other.place()
    }

    /// Numeric equality.
    pub fn is_equal(self, other: Number) -> (result: bool)
        ensures
            result == self.equals(other),
    {
        !self.is_nan() && !other.is_nan() && self.place() == other.place()
    }

    /// Whether this number stands at or before the other one in the total order.
    pub fn is_ordered_before(self, other: Number) -> (result: bool)
        ensures
            result == (self.total_rank() <= other.total_rank()),
    {
        let left: i128 = if self.bits >= SIGN_BITS {
            -1 - self.unsigned() as i128
        } else {
            self.bits as i128
        };
        let right: i128 = if other.bits >= SIGN_BITS {
            -1 - other.unsigned() as i128
        } else {
            other.bits as i128
        };
        left <= right
    }
}

impl PartialEq for Number {
    fn eq(&self, other: &Self) -> (result: bool) {
        self.is_equal(*other)
    }
}

/// `==` is numeric equality.
impl vstd::std_specs::cmp::PartialEqSpecImpl for Number {
    open spec fn obeys_eq_spec() -> bool {
        true
    }

    open spec fn eq_spec(&self, other: &Self) -> bool {
        self.equals(*other)
    }
}

impl View for Number {
    type V = Number;

    open spec fn view(&self) -> Number {
        *self
    }
}

/// What the library asks of floating-point arithmetic. Each answer is the exact
/// result rounded to the nearest double-precision number.
#[derive(Clone, Copy, PartialEq, Debug)]
pub enum Operation {
    Sum(Number, Number),
    Difference(Number, Number),
    Product(Number, Number),
    Quotient(Number, Number),
    /// A number of items.
    Count(usize),
    /// A number of milliseconds.
    Millis(i64),
}

/// Whether `calc` can be asked for every operation and has one answer to each.
pub open spec fn calculates<C: Fn(Operation) -> Number>(calc: C) -> bool {
    &&& forall|op: Operation| #[trigger] call_requires(calc, (op,))
    &&& forall|op: Operation, a: Number, b: Number| #[trigger]
        call_ensures(calc, (op,), a) && #[trigger] call_ensures(calc, (op,), b) ==> a == b
}

/// The answers of `calc` as a function of the operation.
pub open spec fn answers<C: Fn(Operation) -> Number>(calc: C) -> spec_fn(Operation) -> Number {
    |op: Operation| choose|result: Number| call_ensures(calc, (op,), result)
}

/// Asks for one operation.
pub fn compute<C: Fn(Operation) -> Number>(calc: &C, op: Operation) -> (result: Number)
    requires
        calculates(*calc),
    ensures
        result == answers(*calc)(op),
{
    calc(op)
}

/// Whether `read` can be asked for every text and reads equal texts alike.
pub open spec fn reads<R: Fn(&str) -> Option<Number>>(read: R) -> bool {
    &&& forall|text: &str| #[trigger] call_requires(read, (text,))
    &&& forall|s: &str, t: &str, a: Option<Number>, b: Option<Number>|
        #![trigger call_ensures(read, (s,), a), call_ensures(read, (t,), b)]
        s@ == t@ && call_ensures(read, (s,), a) && call_ensures(read, (t,), b) ==> a == b
}

/// Whether `read` may answer `result` to a text with these characters.
pub open spec fn reads_as<R: Fn(&str) -> Option<Number>>(
    read: R,
    chars: Seq<char>,
    result: Option<Number>,
) -> bool {
    exists|text: &str| text@ == chars && #[trigger] call_ensures(read, (text,), result)
}

/// What `read` makes of a text, as a function of the text's characters.
pub open spec fn readings<R: Fn(&str) -> Option<Number>>(read: R) -> spec_fn(Seq<char>) -> Option<
    Number,
> {
    |chars: Seq<char>| choose|result: Option<Number>| reads_as(read, chars, result)
}

/// Asks for the number that a text stands for.
pub fn read_number<R: Fn(&str) -> Option<Number>>(read: &R, text: &str) -> (result: Option<Number>)
    requires
        reads(*read),
    ensures
        result == readings(*read)(text@),
{
    let result = read(text);
    assert(reads_as(*read, text@, result));
    result
}

/// Whether `show` can be asked for every number and every count of decimals, and
/// has one text for each.
pub open spec fn shows<S: Fn(Number, usize) -> String>(show: S) -> bool {
    &&& forall|n: Number, decimals: usize| #[trigger] call_requires(show, (n, decimals))
    &&& forall|n: Number, decimals: usize, a: String, b: String| #[trigger]
        call_ensures(show, (n, decimals), a) && #[trigger] call_ensures(show, (n, decimals), b)
            ==> a@ == b@
}

/// Whether `show` may answer with a text of these characters.
pub open spec fn shows_as<S: Fn(Number, usize) -> String>(
    show: S,
    n: Number,
    decimals: usize,
    chars: Seq<char>,
) -> bool {
    exists|text: String| text@ == chars && #[trigger] call_ensures(show, (n, decimals), text)
}

/// The characters of the text that `show` makes of a number with a count of
/// decimals.
pub open spec fn showings<S: Fn(Number, usize) -> String>(show: S) -> spec_fn(
    Number,
    usize,
) -> Seq<char> {
    |n: Number, decimals: usize| choose|chars: Seq<char>| shows_as(show, n, decimals, chars)
}

/// Asks for the text of a number with a count of decimals.
pub fn show_number<S: Fn(Number, usize) -> String>(show: &S, n: Number, decimals: usize) -> (result:
    String)
    requires
        shows(*show),
    ensures
        result@ == showings(*show)(n, decimals),
{
    let result = show(n, decimals);
    assert(shows_as(*show, n, decimals, result@));
    result
}

} // verus!
