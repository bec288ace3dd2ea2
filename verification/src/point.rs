//! A signed 2-D grid coordinate with component-wise arithmetic.

use vstd::prelude::*;

verus! {

/// A position or displacement on the tile grid, as `(x, y)`.
#[derive(Copy, Clone, Debug, PartialEq, Eq, Structural)]
pub struct Point(pub i32, pub i32);

impl Point {
    /// Component-wise sum.
    pub fn add(self, other: Point) -> (r: Point)
        requires
            i32::MIN <= self.0 + other.0 <= i32::MAX,
            i32::MIN <= self.1 + other.1 <= i32::MAX,
        ensures
            r.0 == self.0 + other.0,
            r.1 == self.1 + other.1,
    {
        Point(self.0 + other.0, self.1 + other.1)
    }

    /// Component-wise difference.
    pub fn sub(self, other: Point) -> (r: Point)
        requires
            i32::MIN <= self.0 - other.0 <= i32::MAX,
            i32::MIN <= self.1 - other.1 <= i32::MAX,
        ensures
            r.0 == self.0 - other.0,
            r.1 == self.1 - other.1,
    {
        Point(self.0 - other.0, self.1 - other.1)
    }

    /// Both components scaled by `k`.
    pub fn mul(self, k: i32) -> (r: Point)
        requires
            i32::MIN <= self.0 * k <= i32::MAX,
            i32::MIN <= self.1 * k <= i32::MAX,
        ensures
            r.0 == self.0 * k,
            r.1 == self.1 * k,
    {
        Point(self.0 * k, self.1 * k)
    }

    /// Both components divided by `k`.
    pub fn div(self, k: i32) -> (r: Point)
        requires
            k > 0,
            self.0 >= 0,
            self.1 >= 0,
        ensures
            r.0 == self.0 / k,
            r.1 == self.1 / k,
    {
        Point(self.0 / k, self.1 / k)
    }
}

} // verus!
