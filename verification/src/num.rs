//! Numbers of the engine: seconds, rates, gains and the like.
//!
//! A [`Num`] counts quadrillionths of its unit.  Beside the counted values there are
//! the two infinities and "not a number", which behave as they do in IEEE
//! arithmetic: a result too large to count becomes infinite, and every
//! comparison with "not a number" is false.
use vstd::prelude::*;

verus! {

/// A number, counted in quadrillionths of its unit.
#[derive(Clone, Copy, Debug, PartialEq, Eq, Structural)]
pub enum Num {
    /// Not a number.
    Nan,
    /// Below every counted value.
    NegInf,
    /// So many quadrillionths.
    Fin(i128),
    /// Above every counted value.
    PosInf,
}

/// Quadrillionths in one unit.
pub const UNIT: i128 = 1_000_000_000_000_000;

/// Zero.
#[verifier::allow_in_spec]
pub fn zero() -> Num
    returns
        Num::Fin(0),
{
    Num::Fin(0)
}

/// One.
#[verifier::allow_in_spec]
pub fn one() -> Num
    returns
        Num::Fin(1_000_000_000_000_000),
{
    Num::Fin(1_000_000_000_000_000)
}

/// One millionth: what two source times may differ by and still count as the same.
#[verifier::allow_in_spec]
pub fn micro() -> Num
    returns
        Num::Fin(1_000_000_000),
{
    Num::Fin(1_000_000_000)
}

/// One thousandth: what two track times may differ by and still count as the same.
#[verifier::allow_in_spec]
pub fn milli() -> Num
    returns
        Num::Fin(1_000_000_000_000),
{
    Num::Fin(1_000_000_000_000)
}

/// One hundredth.
#[verifier::allow_in_spec]
pub fn centi() -> Num
    returns
        Num::Fin(10_000_000_000_000),
{
    Num::Fin(10_000_000_000_000)
}

/// The frame rate of material that declares none.
#[verifier::allow_in_spec]
pub fn rate24() -> Num
    returns
        Num::Fin(24_000_000_000_000_000),
{
    Num::Fin(24_000_000_000_000_000)
}

/// The number of `n` quadrillionths, or the infinity on the side where `n` no longer fits.
pub open spec fn counted(n: int) -> Num {
    if n > i128::MAX {
        Num::PosInf
    } else if n < i128::MIN {
        Num::NegInf
    } else {
        Num::Fin(n as i128)
    }
}

/// The sum of two counts.
fn count_up(x: i128, y: i128) -> (r: Num)
    ensures
        r == counted(x + y),
{
    match x.checked_add(y) {
        Some(n) => Num::Fin(n),
        None => if x > 0 {
            Num::PosInf
        } else {
            Num::NegInf
        },
    }
}

/// The difference of two counts.
fn count_down(x: i128, y: i128) -> (r: Num)
    ensures
        r == counted(x - y),
{
    match x.checked_sub(y) {
        Some(n) => Num::Fin(n),
        None => if y < 0 {
            Num::PosInf
        } else {
            Num::NegInf
        },
    }
}

/// The number of so many ones.
pub open spec fn ones(n: nat) -> Num {
    counted(n * UNIT)
}

/// The number of so many ones.
pub fn whole(n: usize) -> (r: Num)
    ensures
        r == ones(n as nat),
{
    Num::Fin((n as u64) as i128 * 1_000_000_000_000_000)
}

impl Num {
    /// Whether this is a counted value.
    #[verifier::allow_in_spec]
    pub fn is_finite(self) -> bool
        returns
            self is Fin,
    {
        match self {
            Num::Fin(_) => true,
            _ => false,
        }
    }

    /// What [`Num::less`] decides.
    pub open spec fn spec_less(self, o: Num) -> bool {
        match (self, o) {
            (Num::Nan, _) => false,
            (_, Num::Nan) => false,
            (Num::NegInf, y) => y !is NegInf,
            (Num::PosInf, _) => false,
            (Num::Fin(_), Num::NegInf) => false,
            (Num::Fin(_), Num::PosInf) => true,
            (Num::Fin(x), Num::Fin(y)) => x < y,
        }
    }

    /// Whether `self` is strictly below `o`.
    #[verifier::when_used_as_spec(spec_less)]
    pub fn less(self, o: Num) -> (r: bool)
        ensures
            r == self.spec_less(o),
    {
        match (self, o) {
            (Num::Nan, _) => false,
            (_, Num::Nan) => false,
            (Num::NegInf, Num::NegInf) => false,
            (Num::NegInf, _) => true,
            (Num::PosInf, _) => false,
            (Num::Fin(_), Num::NegInf) => false,
            (Num::Fin(_), Num::PosInf) => true,
            (Num::Fin(x), Num::Fin(y)) => x < y,
        }
    }

    /// What [`Num::at_most`] decides.
    pub open spec fn spec_at_most(self, o: Num) -> bool {
        self.spec_less(o) || (self == o && self !is Nan)
    }

    /// Whether `self` is below or equal to `o`.
    #[verifier::when_used_as_spec(spec_at_most)]
    pub fn at_most(self, o: Num) -> (r: bool)
        ensures
            r == self.spec_at_most(o),
    {
        match self {
            Num::Nan => false,
            _ => self.less(o) || self == o,
        }
    }

    /// What [`Num::plus`] computes.
    pub open spec fn spec_plus(self, o: Num) -> Num {
        match (self, o) {
            (Num::Fin(x), Num::Fin(y)) => counted(x + y),
            (Num::Nan, _) => Num::Nan,
            (_, Num::Nan) => Num::Nan,
            (Num::PosInf, Num::NegInf) => Num::Nan,
            (Num::NegInf, Num::PosInf) => Num::Nan,
            (Num::Fin(_), y) => y,
            (x, _) => x,
        }
    }

    /// The sum.
    #[verifier::when_used_as_spec(spec_plus)]
    pub fn plus(self, o: Num) -> (r: Num)
        ensures
            r == self.spec_plus(o),
    {
        match (self, o) {
            (Num::Fin(x), Num::Fin(y)) => count_up(x, y),
            (Num::Nan, _) => Num::Nan,
            (_, Num::Nan) => Num::Nan,
            (Num::PosInf, Num::NegInf) => Num::Nan,
            (Num::NegInf, Num::PosInf) => Num::Nan,
            (Num::Fin(_), y) => y,
            (x, _) => x,
        }
    }

    /// What [`Num::negated`] computes.
    pub open spec fn spec_negated(self) -> Num {
        match self {
            Num::Fin(x) => counted(-x),
            Num::Nan => Num::Nan,
            Num::PosInf => Num::NegInf,
            Num::NegInf => Num::PosInf,
        }
    }

    /// The number of the same size on the other side of zero.
    #[verifier::when_used_as_spec(spec_negated)]
    pub fn negated(self) -> (r: Num)
        ensures
            r == self.spec_negated(),
    {
        match self {
            Num::Fin(x) => count_down(0, x),
            Num::Nan => Num::Nan,
            Num::PosInf => Num::NegInf,
            Num::NegInf => Num::PosInf,
        }
    }

    /// What [`Num::minus`] computes.
    pub open spec fn spec_minus(self, o: Num) -> Num {
        match (self, o) {
            (Num::Fin(x), Num::Fin(y)) => counted(x - y),
            (Num::Nan, _) => Num::Nan,
            (_, Num::Nan) => Num::Nan,
            (Num::PosInf, Num::PosInf) => Num::Nan,
            (Num::NegInf, Num::NegInf) => Num::Nan,
            (Num::Fin(_), Num::PosInf) => Num::NegInf,
            (Num::Fin(_), Num::NegInf) => Num::PosInf,
            (x, _) => x,
        }
    }

    /// The difference.
    #[verifier::when_used_as_spec(spec_minus)]
    pub fn minus(self, o: Num) -> (r: Num)
        ensures
            r == self.spec_minus(o),
    {
        match (self, o) {
            (Num::Fin(x), Num::Fin(y)) => count_down(x, y),
            (Num::Nan, _) => Num::Nan,
            (_, Num::Nan) => Num::Nan,
            (Num::PosInf, Num::PosInf) => Num::Nan,
            (Num::NegInf, Num::NegInf) => Num::Nan,
            (Num::Fin(_), Num::PosInf) => Num::NegInf,
            (Num::Fin(_), Num::NegInf) => Num::PosInf,
            (x, _) => x,
        }
    }

    /// What [`Num::size`] computes.
    pub open spec fn spec_size(self) -> Num {
        if self.spec_less(zero()) {
            self.spec_negated()
        } else {
            self
        }
    }

    /// The distance from zero.
    #[verifier::when_used_as_spec(spec_size)]
    pub fn size(self) -> (r: Num)
        ensures
            r == self.spec_size(),
    {
        if self.less(zero()) {
            self.negated()
        } else {
            self
        }
    }

    /// What [`Num::larger`] computes.
    pub open spec fn spec_larger(self, o: Num) -> Num {
        if self is Nan || self.spec_less(o) {
            o
        } else {
            self
        }
    }

    /// The larger of the two; where one is not a number, the other.
    #[verifier::when_used_as_spec(spec_larger)]
    pub fn larger(self, o: Num) -> (r: Num)
        ensures
            r == self.spec_larger(o),
    {
        match self {
            Num::Nan => o,
            _ => if self.less(o) {
                o
            } else {
                self
            },
        }
    }

    /// What [`Num::smaller`] computes.
    pub open spec fn spec_smaller(self, o: Num) -> Num {
        if self is Nan || o.spec_less(self) {
            o
        } else {
            self
        }
    }

    /// The smaller of the two; where one is not a number, the other.
    #[verifier::when_used_as_spec(spec_smaller)]
    pub fn smaller(self, o: Num) -> (r: Num)
        ensures
            r == self.spec_smaller(o),
    {
        match self {
            Num::Nan => o,
            _ => if o.less(self) {
                o
            } else {
                self
            },
        }
    }

    /// What [`Num::half`] computes.
    pub open spec fn spec_half(self) -> Num {
        match self {
            Num::Fin(x) => Num::Fin((x as int / 2) as i128),
            _ => self,
        }
    }

    /// One half, rounded down to a whole quadrillionth.
    #[verifier::when_used_as_spec(spec_half)]
    pub fn half(self) -> (r: Num)
        ensures
            r == self.spec_half(),
    {
        match self {
            Num::Fin(x) => if x >= 0 {
                Num::Fin(x / 2)
            } else {
                let above: i128 = -(x + 1);
                Num::Fin(-(above / 2) - 1)
            },
            _ => self,
        }
    }

    /// Whether the two numbers lie within `tolerance` of one another.
    pub open spec fn spec_near(self, o: Num, tolerance: Num) -> bool {
        self.spec_minus(o).spec_size().spec_less(tolerance)
    }

    /// Whether the two numbers lie closer together than `tolerance`.
    #[verifier::when_used_as_spec(spec_near)]
    pub fn near(self, o: Num, tolerance: Num) -> (r: bool)
        ensures
            r == self.spec_near(o, tolerance),
    {
        self.minus(o).size().less(tolerance)
    }

    /// What [`Num::in_unit_interval`] decides.
    pub open spec fn spec_in_unit_interval(self) -> bool {
        self is Fin && !self.spec_less(zero()) && !one().spec_less(self)
    }

    /// Whether this lies between zero and one, both included.
    #[verifier::when_used_as_spec(spec_in_unit_interval)]
    pub fn in_unit_interval(self) -> (r: bool)
        ensures
            r == self.spec_in_unit_interval(),
    {
        self.is_finite() && !self.less(zero()) && !one().less(self)
    }
}

} // verus!
