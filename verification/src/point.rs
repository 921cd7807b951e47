//! Grid coordinates.
use core::convert::TryFrom;
use core::num::TryFromIntError;
use vstd::prelude::*;
use vstd::std_specs::convert::FromSpecImpl;
use vstd::std_specs::convert::TryFromSpecImpl;

verus! {

/// A position on the board: column `x`, row `y`.
#[derive(Debug, Copy, Clone)]
pub struct Point {
    pub x: usize,
    pub y: usize,
}

impl Point {
    /// The point with the given column and row.
    pub fn new(x: usize, y: usize) -> (p: Self)
        ensures
            p.x == x,
            p.y == y,
    {
        Self { x, y }
    }
}

/// A signed pair names a point exactly when neither component is negative.
pub open spec fn is_non_negative(value: (isize, isize)) -> bool {
    value.0 >= 0 && value.1 >= 0
}

impl TryFrom<(isize, isize)> for Point {
    type Error = TryFromIntError;

    /// Converts a signed pair, as produced by adding an offset to a point,
    /// back to a point.  The conversion fails exactly when a component is
    /// negative, that is when the offset led off the top or left border.
    fn try_from(value: (isize, isize)) -> (r: Result<Self, Self::Error>)
        ensures
            r is Ok <==> is_non_negative(value),
            r matches Ok(p) ==> p.x == value.0 && p.y == value.1,
    {
        let x = match usize::try_from(value.0) {
            Ok(x) => x,
            Err(e) => {
                return Err(e);
            },
        };
        let y = match usize::try_from(value.1) {
            Ok(y) => y,
            Err(e) => {
                return Err(e);
            },
        };
        Ok(Self { x, y })
    }
}

impl TryFromSpecImpl<(isize, isize)> for Point {
    open spec fn obeys_try_from_spec() -> bool {
        true
    }

    open spec fn try_from_spec(value: (isize, isize)) -> Result<Self, Self::Error> {
        if is_non_negative(value) {
            Ok(Point { x: value.0 as usize, y: value.1 as usize })
        } else {
            Err(arbitrary())
        }
    }
}

impl From<(usize, usize)> for Point {
    fn from(value: (usize, usize)) -> (p: Self) {
        Self { x: value.0, y: value.1 }
    }
}

impl FromSpecImpl<(usize, usize)> for Point {
    open spec fn obeys_from_spec() -> bool {
        true
    }

    open spec fn from_spec(value: (usize, usize)) -> Self {
        Point { x: value.0, y: value.1 }
    }
}

} // verus!
