//! Economy value types: food, production and science quantities.
//!
//! A `YieldValue` is a fixed-point quantity counted in tenths of a yield
//! point, so a granary's 1.2x food multiplier is representable exactly.
//! All arithmetic saturates into `[0, YIELD_VALUE_MAX]`, which keeps every
//! operation total and deterministic.

use vstd::prelude::*;

verus! {

/// Largest representable quantity, in tenths of a yield point.
pub const YIELD_VALUE_MAX: u64 = 1_000_000_000_000;

/// A yield quantity in tenths of a point.
#[derive(Clone, Copy, Debug, PartialEq, Eq, Structural)]
pub struct YieldValue(pub u64);

/// Saturate an unbounded quantity into the representable range.
pub open spec fn yv_clamp(x: int) -> u64 {
    if x > YIELD_VALUE_MAX { YIELD_VALUE_MAX } else if x < 0 { 0u64 } else { x as u64 }
}

/// Saturating sum of two quantities, in tenths.
pub open spec fn yv_add(a: u64, b: u64) -> u64 {
    yv_clamp(a + b)
}

/// Saturating difference of two quantities, in tenths.
pub open spec fn yv_sub(a: u64, b: u64) -> u64 {
    yv_clamp(a - b)
}

/// Saturating fixed-point product of two quantities, in tenths.
pub open spec fn yv_mul(a: u64, b: u64) -> u64 {
    yv_clamp((a * b) / 10)
}

impl YieldValue {
    /// The quantity is within the representable range.
    pub open spec fn wf(self) -> bool {
        self.0 <= YIELD_VALUE_MAX
    }

    pub fn zero() -> (r: Self)
        ensures
            r.0 == 0,
    {
        YieldValue(0)
    }

    /// A quantity of `n` whole yield points.
    pub fn from_whole(n: u64) -> (r: Self)
        requires
            10 * n <= YIELD_VALUE_MAX,
        ensures
            r.0 == 10 * n,
            r.wf(),
    {
        YieldValue(10 * n)
    }

    /// A quantity of `n` tenths of a yield point.
    pub fn from_tenths(n: u64) -> (r: Self)
        requires
            n <= YIELD_VALUE_MAX,
        ensures
            r.0 == n,
            r.wf(),
    {
        YieldValue(n)
    }

    pub fn add(self, rhs: Self) -> (r: Self)
        ensures
            r.0 == yv_add(self.0, rhs.0),
            r.wf(),
    {
        let s: u128 = self.0 as u128 + rhs.0 as u128;
        if s > YIELD_VALUE_MAX as u128 {
            YieldValue(YIELD_VALUE_MAX)
        } else {
            YieldValue(s as u64)
        }
    }

    pub fn sub(self, rhs: Self) -> (r: Self)
        ensures
            r.0 == yv_sub(self.0, rhs.0),
            r.wf(),
    {
        if self.0 >= rhs.0 {
            let d = self.0 - rhs.0;
            if d > YIELD_VALUE_MAX {
                YieldValue(YIELD_VALUE_MAX)
            } else {
                YieldValue(d)
            }
        } else {
            YieldValue(0)
        }
    }

    pub fn mul(self, rhs: Self) -> (r: Self)
        ensures
            r.0 == yv_mul(self.0, rhs.0),
            r.wf(),
    {
        proof {
            assert((self.0 as int) * (rhs.0 as int) <= (0xffffffffffffffffint) * (
            0xffffffffffffffffint)) by (nonlinear_arith)
                requires
                    self.0 <= 0xffffffffffffffff,
                    rhs.0 <= 0xffffffffffffffff,
            ;
        }
        let p: u128 = (self.0 as u128) * (rhs.0 as u128) / 10;
        if p > YIELD_VALUE_MAX as u128 {
            YieldValue(YIELD_VALUE_MAX)
        } else {
            YieldValue(p as u64)
        }
    }

    pub fn lt(self, rhs: Self) -> (r: bool)
        ensures
            r == (self.0 < rhs.0),
    {
        self.0 < rhs.0
    }

    pub fn le(self, rhs: Self) -> (r: bool)
        ensures
            r == (self.0 <= rhs.0),
    {
        self.0 <= rhs.0
    }

    /// Nearest whole number of yield points, halves rounding up.
    pub open spec fn spec_round(self) -> int {
        (self.0 + 5) / 10
    }

    pub fn round(self) -> (r: u64)
        requires
            self.wf(),
        ensures
            r == self.spec_round(),
    {
        (self.0 + 5) / 10
    }

    /// Turns needed to accumulate `self` at a rate of `rhs` per turn;
    /// a rate of zero means the goal is never reached.
    pub open spec fn spec_turn_count(self, rhs: Self) -> u64 {
        if rhs.0 == 0 {
            u64::MAX
        } else {
            ((self.0 + rhs.0 - 1) / (rhs.0 as int)) as u64
        }
    }

    pub fn div_to_get_turn_count(self, rhs: Self) -> (r: u64)
        ensures
            r == self.spec_turn_count(rhs),
    {
        if rhs.0 == 0 {
            u64::MAX
        } else {
            let n: u128 = (self.0 as u128 + rhs.0 as u128 - 1) / (rhs.0 as u128);
            n as u64
        }
    }
}

/// Which of the three economy resources a quantity is of.
#[derive(Clone, Copy, Debug, PartialEq, Eq, Structural)]
pub enum YieldType {
    Food,
    Production,
    Science,
}

/// A typed additive yield bonus.
#[derive(Clone, Copy, Debug, PartialEq, Eq, Structural)]
pub struct Yield {
    pub value: YieldValue,
    pub yield_type: YieldType,
}

/// A typed multiplicative yield bonus, in tenths (12 means 1.2x).
#[derive(Clone, Copy, Debug, PartialEq, Eq, Structural)]
pub struct YieldMultiplier {
    pub multiplier: YieldValue,
    pub yield_type: YieldType,
}

/// A bundle of food, production and science quantities.
#[derive(Clone, Copy, Debug, PartialEq, Eq, Structural)]
pub struct Yields {
    pub food: YieldValue,
    pub production: YieldValue,
    pub science: YieldValue,
}

/// Componentwise saturating sum of two bundles.
pub open spec fn spec_yields_add(a: Yields, b: Yields) -> Yields {
    Yields {
        food: YieldValue(yv_add(a.food.0, b.food.0)),
        production: YieldValue(yv_add(a.production.0, b.production.0)),
        science: YieldValue(yv_add(a.science.0, b.science.0)),
    }
}

/// The bundle with one typed bonus added to its component.
pub open spec fn spec_yields_add_yield(a: Yields, y: Yield) -> Yields {
    match y.yield_type {
        YieldType::Food => Yields { food: YieldValue(yv_add(a.food.0, y.value.0)), ..a },
        YieldType::Production => Yields {
            production: YieldValue(yv_add(a.production.0, y.value.0)),
            ..a
        },
        YieldType::Science => Yields { science: YieldValue(yv_add(a.science.0, y.value.0)), ..a },
    }
}

/// The bundle with one component scaled by a typed multiplier.
pub open spec fn spec_yields_mul_multiplier(a: Yields, m: YieldMultiplier) -> Yields {
    match m.yield_type {
        YieldType::Food => Yields { food: YieldValue(yv_mul(a.food.0, m.multiplier.0)), ..a },
        YieldType::Production => Yields {
            production: YieldValue(yv_mul(a.production.0, m.multiplier.0)),
            ..a
        },
        YieldType::Science => Yields {
            science: YieldValue(yv_mul(a.science.0, m.multiplier.0)),
            ..a
        },
    }
}

impl Yields {
    /// Every component is within the representable range.
    pub open spec fn wf(self) -> bool {
        self.food.wf() && self.production.wf() && self.science.wf()
    }

    pub fn zero() -> (r: Self)
        ensures
            r == (Yields { food: YieldValue(0), production: YieldValue(0), science: YieldValue(0) }),
    {
        Yields { food: YieldValue(0), production: YieldValue(0), science: YieldValue(0) }
    }

    pub fn add(self, rhs: Self) -> (r: Self)
        ensures
            r == spec_yields_add(self, rhs),
            r.wf(),
    {
        Yields {
            food: self.food.add(rhs.food),
            production: self.production.add(rhs.production),
            science: self.science.add(rhs.science),
        }
    }

    pub fn add_yield(self, y: Yield) -> (r: Self)
        ensures
            r == spec_yields_add_yield(self, y),
    {
        match y.yield_type {
            YieldType::Food => Yields { food: self.food.add(y.value), ..self },
            YieldType::Production => Yields { production: self.production.add(y.value), ..self },
            YieldType::Science => Yields { science: self.science.add(y.value), ..self },
        }
    }

    pub fn mul_multiplier(self, m: YieldMultiplier) -> (r: Self)
        ensures
            r == spec_yields_mul_multiplier(self, m),
    {
        match m.yield_type {
            YieldType::Food => Yields { food: self.food.mul(m.multiplier), ..self },
            YieldType::Production => Yields { production: self.production.mul(m.multiplier), ..self },
            YieldType::Science => Yields { science: self.science.mul(m.multiplier), ..self },
        }
    }

    pub fn get(self, yield_type: YieldType) -> (r: YieldValue)
        ensures
            r == match yield_type {
                YieldType::Food => self.food,
                YieldType::Production => self.production,
                YieldType::Science => self.science,
            },
    {
        match yield_type {
            YieldType::Food => self.food,
            YieldType::Production => self.production,
            YieldType::Science => self.science,
        }
    }

    pub fn with_food(self, food: YieldValue) -> (r: Self)
        ensures
            r == (Yields { food, ..self }),
    {
        Yields { food, ..self }
    }

    pub fn with_production(self, production: YieldValue) -> (r: Self)
        ensures
            r == (Yields { production, ..self }),
    {
        Yields { production, ..self }
    }

    pub fn with_science(self, science: YieldValue) -> (r: Self)
        ensures
            r == (Yields { science, ..self }),
    {
        Yields { science, ..self }
    }

    /// Saturating total of the three components.
    pub open spec fn spec_total(self) -> u64 {
        yv_add(yv_add(self.food.0, self.production.0), self.science.0)
    }

    pub fn total(self) -> (r: YieldValue)
        ensures
            r.0 == self.spec_total(),
            r.wf(),
    {
        self.food.add(self.production).add(self.science)
    }
}

} // verus!
