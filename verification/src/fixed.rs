use vstd::prelude::*;

verus! {

/// A non-negative decimal quantity with three decimal places, held as an
/// exact count of thousandths (`Milli(1500)` is 1.5).
#[derive(Clone, Copy, Debug, PartialEq, Eq, Structural)]
pub struct Milli(pub u32);

impl Milli {
    /// The quantity as a rational number of thousandths.
    pub open spec fn thousandths(self) -> int {
        self.0 as int
    }

    /// A whole number of units.
    pub fn from_units(units: u32) -> (m: Milli)
        requires
            units * 1000 <= u32::MAX,
        ensures
            m.thousandths() == units * 1000,
    {
        Milli(units * 1000)
    }

    /// The smallest whole number not below the quantity.
    pub fn ceil_units(self) -> (n: u32)
        ensures
            n == ceil_div(self.0 as int, 1000),
    {
        if self.0 % 1000 == 0 {
            self.0 / 1000
        } else {
            self.0 / 1000 + 1
        }
    }
}

/// A non-negative decimal amount with three decimal places and a wide range,
/// held as an exact count of thousandths (`Milli64(2500)` is 2.5).
#[derive(Clone, Copy, Debug, PartialEq, Eq, Structural)]
pub struct Milli64(pub u64);

impl Milli64 {
    /// A whole number of units.
    pub fn from_units(units: u64) -> (m: Milli64)
        requires
            units * 1000 <= u64::MAX,
        ensures
            m.0 == units * 1000,
    {
        Milli64(units * 1000)
    }

    /// The smallest whole number not below the amount.
    pub fn ceil_units(self) -> (n: u64)
        ensures
            n == ceil_div(self.0 as int, 1000),
    {
        if self.0 % 1000 == 0 {
            self.0 / 1000
        } else {
            self.0 / 1000 + 1
        }
    }
}

/// Ceiling of `a / b` for a non-negative `a` and a positive `b`.
pub open spec fn ceil_div(a: int, b: int) -> int {
    if a % b == 0 { a / b } else { a / b + 1 }
}

} // verus!
