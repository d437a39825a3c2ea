//! The rounding policy: a pure decision, for every finite double and every
//! tie-breaking rule, between the floor and the ceiling of the value.
//!
//! A double enters the policy abstracted to the two things the policy reads:
//! the mathematical floor of the value (an integer) and the class of its
//! fractional part `value - floor(value)`, which always lies in `[0, 1)`.

use vstd::prelude::*;

verus! {

/// The four half-way tie-breaking rules. Values whose fractional part is not
/// exactly one half round to the nearest integer under every rule; the rule
/// only decides exact halves.
#[derive(Clone, Copy, PartialEq, Eq, Structural, Debug)]
pub enum RoundingMode {
    /// Ties go to the even neighbour ("banker's rounding").
    TiesToEven,
    /// Ties go to the odd neighbour.
    TiesToOdd,
    /// Ties go toward positive infinity.
    TiesToPositive,
    /// Ties go toward negative infinity.
    TiesToNegative,
}

/// Where the fractional part `value - floor(value)` of a finite double falls
/// within `[0, 1)`. Only the position relative to one half matters to the
/// policy, never the magnitude itself.
#[derive(Clone, Copy, PartialEq, Eq, Structural, Debug)]
pub enum Fract {
    /// The value is already an integer.
    Zero,
    /// Strictly between zero and one half.
    BelowHalf,
    /// Exactly one half, bit-exact: the tie case.
    Half,
    /// Strictly between one half and one.
    AboveHalf,
}

/// Doubles are spaced at least one apart from `2^52` upward, so a double with
/// a nonzero fractional part has its floor strictly inside `(-2^52, 2^52)`.
pub const WHOLE_BOUND: i64 = 0x10_0000_0000_0000;

/// A finite double, abstracted to what rounding reads: `whole` is the
/// mathematical floor of the value (the largest integer at or below it, also
/// for negative values) and `fract` classifies the fractional part.
#[derive(Clone, Copy, PartialEq, Eq, Structural, Debug)]
pub struct Value {
    pub whole: i64,
    pub fract: Fract,
}

/// Whether an integer is divisible by two. Parity is decided on the integral
/// floor alone; no fractional comparison takes part in it.
pub open spec fn is_even(w: int) -> bool {
    w % 2 == 0
}

impl Value {
    /// A faithful abstraction of a finite double: whenever the fractional
    /// part is nonzero, the floor fits well inside the integer range, because
    /// doubles that far out are all integers.
    pub open spec fn wf(self) -> bool {
        self.fract !is Zero ==> -WHOLE_BOUND <= self.whole < WHOLE_BOUND
    }

    /// The floor of the value: the largest integer at or below it.
    pub open spec fn floor_spec(self) -> Value {
        Value { whole: self.whole, fract: Fract::Zero }
    }

    /// The ceiling of the value: the smallest integer at or above it. It
    /// equals the value itself when that is already an integer, and the
    /// floor plus one otherwise.
    pub open spec fn ceil_spec(self) -> Value {
        if self.fract is Zero {
            self
        } else {
            Value { whole: (self.whole + 1) as i64, fract: Fract::Zero }
        }
    }

    /// What rounding returns: fractional parts below one half fall to the
    /// floor, above one half rise to the ceiling, and an exact half goes
    /// where the tie-breaking rule sends it, the even or odd choice being
    /// decided by the parity of the floor.
    pub open spec fn round_spec(self, mode: RoundingMode) -> Value {
        match self.fract {
            Fract::Zero => self,
            Fract::BelowHalf => self.floor_spec(),
            Fract::AboveHalf => self.ceil_spec(),
            Fract::Half => match mode {
                RoundingMode::TiesToEven => if is_even(self.whole as int) {
                    self.floor_spec()
                } else {
                    self.ceil_spec()
                },
                RoundingMode::TiesToOdd => if is_even(self.whole as int) {
                    self.ceil_spec()
                } else {
                    self.floor_spec()
                },
                RoundingMode::TiesToPositive => self.ceil_spec(),
                RoundingMode::TiesToNegative => self.floor_spec(),
            },
        }
    }

    /// The floor of the value.
    pub fn floor(&self) -> (r: Value)
        ensures
            r == self.floor_spec(),
    {
        Value { whole: self.whole, fract: Fract::Zero }
    }

    /// The ceiling of the value.
    pub fn ceil(&self) -> (r: Value)
        requires
            self.wf(),
        ensures
            r == self.ceil_spec(),
    {
        match self.fract {
            Fract::Zero => *self,
            _ => Value { whole: self.whole + 1, fract: Fract::Zero },
        }
    }

    /// Whether the floor of the value is even.
    fn whole_is_even(&self) -> (r: bool)
        ensures
            r == is_even(self.whole as int),
    {
        self.whole % 2 == 0
    }

    /// Round to the nearest integer-valued double, breaking exact half-way
    /// ties by the given rule.
    pub fn round(&self, mode: RoundingMode) -> (r: Value)
        requires
            self.wf(),
        ensures
            r == self.round_spec(mode),
    {
        match self.fract {
            Fract::Zero | Fract::BelowHalf => self.floor(),
            Fract::AboveHalf => self.ceil(),
            Fract::Half => match mode {
                RoundingMode::TiesToEven => if self.whole_is_even() {
                    self.floor()
                } else {
                    self.ceil()
                },
                RoundingMode::TiesToOdd => if self.whole_is_even() {
                    self.ceil()
                } else {
                    self.floor()
                },
                RoundingMode::TiesToPositive => self.ceil(),
                RoundingMode::TiesToNegative => self.floor(),
            },
        }
    }

    /// Round with ties to the even neighbour.
    pub fn ties_to_even(&self) -> (r: Value)
        requires
            self.wf(),
        ensures
            r == self.round_spec(RoundingMode::TiesToEven),
    {
        self.round(RoundingMode::TiesToEven)
    }

    /// Round with ties to the odd neighbour.
    pub fn ties_to_odd(&self) -> (r: Value)
        requires
            self.wf(),
        ensures
            r == self.round_spec(RoundingMode::TiesToOdd),
    {
        self.round(RoundingMode::TiesToOdd)
    }

    /// Round with ties toward positive infinity.
    pub fn ties_to_positive(&self) -> (r: Value)
        requires
            self.wf(),
        ensures
            r == self.round_spec(RoundingMode::TiesToPositive),
    {
        self.round(RoundingMode::TiesToPositive)
    }

    /// Round with ties toward negative infinity: ties and everything below
    /// them fall to the floor.
    pub fn ties_to_negative(&self) -> (r: Value)
        requires
            self.wf(),
        ensures
            r == self.round_spec(RoundingMode::TiesToNegative),
    {
        self.round(RoundingMode::TiesToNegative)
    }

    /// Which neighbour rounding picks: `Down` for the floor, `Up` for the
    /// ceiling. A caller that still holds the double itself can turn this
    /// into the rounded double without re-deriving the tie-break.
    pub fn direction(&self, mode: RoundingMode) -> (d: Direction)
        requires
            self.wf(),
        ensures
            d == self.direction_spec(mode),
    {
        let r = self.round(mode);
        if r.whole == self.whole {
            Direction::Down
        } else {
            Direction::Up
        }
    }

    /// The direction as a spec value: `Down` exactly when rounding returns
    /// the floor. An integral value counts as going down, to its own floor.
    pub open spec fn direction_spec(self, mode: RoundingMode) -> Direction {
        if self.round_spec(mode) == self.floor_spec() {
            Direction::Down
        } else {
            Direction::Up
        }
    }
}

/// Which of the two neighbouring integers a value is sent to.
#[derive(Clone, Copy, PartialEq, Eq, Structural, Debug)]
pub enum Direction {
    /// The floor of the value.
    Down,
    /// The ceiling of the value.
    Up,
}

/// Every rounding lands on the floor or the ceiling of its input, whatever
/// the tie-breaking rule; so it never moves the value by one or more, and
/// not at all when the value is already an integer.
pub proof fn lemma_round_is_floor_or_ceil(v: Value, mode: RoundingMode)
    ensures
        v.round_spec(mode) == v.floor_spec() || v.round_spec(mode) == v.ceil_spec(),
        v.fract is Zero ==> v.round_spec(mode) == v,
{
}

/// Away from an exact half the tie-breaking rule never matters: all four
/// modes agree on every value whose fractional part is not one half.
pub proof fn lemma_modes_agree_off_half(v: Value, m1: RoundingMode, m2: RoundingMode)
    requires
        v.fract !is Half,
    ensures
        v.round_spec(m1) == v.round_spec(m2),
{
}

/// On an exact half the directed rules are unconditional: ties toward
/// positive infinity always take the ceiling and ties toward negative
/// infinity always take the floor.
pub proof fn lemma_half_directed(v: Value)
    requires
        v.fract is Half,
    ensures
        v.round_spec(RoundingMode::TiesToPositive) == v.ceil_spec(),
        v.round_spec(RoundingMode::TiesToNegative) == v.floor_spec(),
{
}

/// On an exact half the even and odd rules are complementary: exactly one of
/// them takes the floor and the other the ceiling, decided by the parity of
/// the floor.
pub proof fn lemma_half_even_odd_complementary(v: Value)
    requires
        v.fract is Half,
        v.wf(),
    ensures
        v.round_spec(RoundingMode::TiesToEven) != v.round_spec(RoundingMode::TiesToOdd),
        v.round_spec(RoundingMode::TiesToEven) == v.floor_spec() <==> is_even(v.whole as int),
        v.round_spec(RoundingMode::TiesToOdd) == v.floor_spec() <==> !is_even(v.whole as int),
        v.round_spec(RoundingMode::TiesToEven) == v.floor_spec() <==> v.round_spec(
            RoundingMode::TiesToOdd,
        ) == v.ceil_spec(),
{
}

/// Rounding is idempotent: the result is a well-formed integral value, and
/// rounding it again under the same rule returns it unchanged.
pub proof fn lemma_round_idempotent(v: Value, mode: RoundingMode)
    requires
        v.wf(),
    ensures
        v.round_spec(mode).wf(),
        v.round_spec(mode).fract is Zero,
        v.round_spec(mode).round_spec(mode) == v.round_spec(mode),
{
}

} // verus!
