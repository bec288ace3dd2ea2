//! Discrete line-of-sight geometry for the visibility engine.
//!
//! A sight line between two cells steps one cell at a time, diagonally while
//! both coordinates differ and straight once one is aligned. A cell is
//! visible from an origin iff it lies within the radius and no opaque cell
//! stands strictly between the two along this line.

use vstd::prelude::*;

verus! {

/// The sign of `a`: -1, 0 or 1.
pub open spec fn sgn(a: int) -> int {
    if a > 0 {
        1
    } else if a < 0 {
        -1
    } else {
        0
    }
}

/// Absolute value.
pub open spec fn iabs(a: int) -> int {
    if a < 0 {
        -a
    } else {
        a
    }
}

/// The larger of two values.
pub open spec fn imax(a: int, b: int) -> int {
    if a >= b {
        a
    } else {
        b
    }
}

/// Chebyshev distance between two cells: the number of king-move steps from
/// one to the other.
pub open spec fn cheb(ax: int, ay: int, bx: int, by: int) -> int {
    imax(iabs(ax - bx), iabs(ay - by))
}

/// The cells of the sight line from `(ax, ay)` to `(bx, by)`, endpoints
/// included: each step moves one cell toward the target on every axis that
/// still differs.
pub open spec fn line_seq(ax: int, ay: int, bx: int, by: int) -> Seq<(int, int)>
    decreases cheb(ax, ay, bx, by)
{
    if ax == bx && ay == by {
        seq![(ax, ay)]
    } else {
        seq![(ax, ay)] + line_seq(ax + sgn(bx - ax), ay + sgn(by - ay), bx, by)
    }
}

/// A sight line has one more cell than the Chebyshev distance it covers.
pub proof fn lemma_line_len(ax: int, ay: int, bx: int, by: int)
    ensures
        line_seq(ax, ay, bx, by).len() == cheb(ax, ay, bx, by) + 1,
    decreases cheb(ax, ay, bx, by)
{
    if ax == bx && ay == by {
    } else {
        lemma_line_len(ax + sgn(bx - ax), ay + sgn(by - ay), bx, by);
    }
}

/// A sight line starts at its origin and ends at its target.
pub proof fn lemma_line_ends(ax: int, ay: int, bx: int, by: int)
    ensures
        line_seq(ax, ay, bx, by).len() >= 1,
        line_seq(ax, ay, bx, by)[0] == (ax, ay),
        line_seq(ax, ay, bx, by).last() == (bx, by),
    decreases cheb(ax, ay, bx, by)
{
    if ax == bx && ay == by {
    } else {
        lemma_line_ends(ax + sgn(bx - ax), ay + sgn(by - ay), bx, by);
    }
}

} // verus!
