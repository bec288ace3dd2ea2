//! Small shared helpers: front insertion into a vector, and a fixed-size
//! two-dimensional grid stored row-major in a single vector.

use vstd::prelude::*;

verus! {

/// Pushes `val` to the front of `vec` in O(1): the value lands at index 0 and
/// the previous front moves to the back; everything in between stays put.
pub fn insert_at_zero<T>(vec: &mut Vec<T>, val: T)
    ensures
        final(vec)@.len() == old(vec)@.len() + 1,
        final(vec)@[0] == val,
        forall|i: int| 1 <= i < old(vec)@.len() ==> final(vec)@[i] == old(vec)@[i],
        old(vec)@.len() > 0 ==> final(vec)@[old(vec)@.len() as int] == old(vec)@[0],
{
    vec.push(val);
    let first = vec.swap_remove(0);
    vec.push(first);
}

/// A `width` x `height` grid of values, stored row-major: the cell `(x, y)`
/// lives at index `x + y * width`.
pub struct Grid<T> {
    width: usize,
    height: usize,
    elems: Vec<T>,
}

impl<T: Copy> Grid<T> {
    /// All cells of the grid as one sequence, row-major.
    pub closed spec fn view(&self) -> Seq<T> {
        self.elems@
    }

    /// The grid's storage matches its dimensions.
    pub closed spec fn wf(&self) -> bool {
        self.elems@.len() == self.width * self.height
            && self.width * self.height <= usize::MAX
    }

    pub closed spec fn spec_width(&self) -> usize {
        self.width
    }

    pub closed spec fn spec_height(&self) -> usize {
        self.height
    }

    /// The value at cell `(x, y)`.
    pub open spec fn at(&self, x: int, y: int) -> T {
        self@[x + y * self.spec_width()]
    }

    /// A fresh grid with every cell set to `val`.
    pub fn new(val: T, width: usize, height: usize) -> (g: Grid<T>)
        requires
            width * height <= usize::MAX,
        ensures
            g.wf(),
            g.spec_width() == width,
            g.spec_height() == height,
            forall|x: int, y: int|
                0 <= x < width && 0 <= y < height ==> #[trigger] g.at(x, y) == val,
    {
        let n = width * height;
        let mut elems: Vec<T> = Vec::new();
        let mut i: usize = 0;
        while i < n
            invariant
                i <= n,
                elems@.len() == i,
                forall|j: int| 0 <= j < i ==> elems@[j] == val,
            decreases n - i,
        {
            elems.push(val);
            i += 1;
        }
        let g = Grid { width, height, elems };
        proof {
            assert forall|x: int, y: int|
                0 <= x < width && 0 <= y < height implies #[trigger] g.at(x, y) == val by {
                grid_index_bound(x, y, width as int, height as int);
            }
        }
        g
    }

    /// Reads the cell `(x, y)`.
    pub fn get(&self, x: usize, y: usize) -> (r: T)
        requires
            self.wf(),
            x < self.spec_width(),
            y < self.spec_height(),
        ensures
            r == self.at(x as int, y as int),
    {
        proof {
            grid_index_bound(x as int, y as int, self.width as int, self.height as int);
        }
        self.elems[x + y * self.width]
    }

    /// Replaces the cell `(x, y)`; every other cell keeps its value.
    pub fn set(&mut self, x: usize, y: usize, val: T)
        requires
            old(self).wf(),
            x < old(self).spec_width(),
            y < old(self).spec_height(),
        ensures
            final(self).wf(),
            final(self).spec_width() == old(self).spec_width(),
            final(self).spec_height() == old(self).spec_height(),
            final(self)@ == old(self)@.update(x + y * old(self).spec_width(), val),
            final(self).at(x as int, y as int) == val,
            forall|i: int, j: int|
                0 <= i < old(self).spec_width() && 0 <= j < old(self).spec_height()
                    && !(i == x && j == y) ==> #[trigger] final(self).at(i, j) == old(self).at(i, j),
    {
        proof {
            grid_index_bound(x as int, y as int, self.width as int, self.height as int);
        }
        self.elems.set(x + y * self.width, val);
        proof {
            assert forall|i: int, j: int|
                0 <= i < old(self).spec_width() && 0 <= j < old(self).spec_height()
                    && !(i == x && j == y) implies #[trigger] self.at(i, j) == old(self).at(i, j) by {
                grid_index_bound(i, j, self.width as int, self.height as int);
                grid_index_distinct(i, j, x as int, y as int, self.width as int);
            }
        }
    }
}

/// Row-major index of an in-range cell is in range.
proof fn grid_index_bound(x: int, y: int, width: int, height: int)
    requires
        0 <= x < width,
        0 <= y < height,
    ensures
        0 <= x + y * width < width * height,
{
    assert(x + y * width < width * height) by (nonlinear_arith)
        requires
            0 <= x < width,
            0 <= y < height,
    ;
}

/// Distinct in-range cells have distinct row-major indices.
proof fn grid_index_distinct(x1: int, y1: int, x2: int, y2: int, width: int)
    requires
        0 <= x1 < width,
        0 <= x2 < width,
        0 <= y1,
        0 <= y2,
        !(x1 == x2 && y1 == y2),
    ensures
        x1 + y1 * width != x2 + y2 * width,
{
    if y1 == y2 {
    } else {
        assert(x1 + y1 * width != x2 + y2 * width) by (nonlinear_arith)
            requires
                0 <= x1 < width,
                0 <= x2 < width,
                y1 != y2,
        ;
    }
}

} // verus!
