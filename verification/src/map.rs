//! The level: a fixed-size grid of tile templates, a memory of what has been
//! seen, the monsters living on it, and the visibility engine.
//!
//! `Tiles` keeps a transparency bitmap in lockstep with the tile grid: every
//! `set` updates both, so the visibility engine always sees the current
//! occlusion. Visibility itself is the exact line-of-sight contract: a cell
//! is visible from an origin iff it is within the radius and no opaque cell
//! lies strictly between the two along the sight line.

use vstd::prelude::*;

use crate::fov::cheb;
use crate::fov::lemma_line_ends;
use crate::fov::lemma_line_len;
use crate::fov::line_seq;
use crate::fov::sgn;
use crate::monster::Monster;
use crate::tile::MapInfo;
use crate::util::Grid;

verus! {

/// The tile grid of a level together with the transparency bitmap that
/// mirrors it and the most recent field-of-view computation.
pub struct Tiles {
    width: usize,
    height: usize,
    tiles: Grid<usize>,
    transparent: Grid<bool>,
    fov: Grid<bool>,
}

impl Tiles {
    pub closed spec fn spec_width(&self) -> usize {
        self.width
    }

    pub closed spec fn spec_height(&self) -> usize {
        self.height
    }

    /// The template index stored at cell `(x, y)`.
    pub closed spec fn id_at(&self, x: int, y: int) -> usize {
        self.tiles.at(x, y)
    }

    /// The transparency bit of cell `(x, y)`.
    pub closed spec fn transp_at(&self, x: int, y: int) -> bool {
        self.transparent.at(x, y)
    }

    /// The visibility bit of cell `(x, y)` from the last `compute_fov`.
    pub closed spec fn fov_at(&self, x: int, y: int) -> bool {
        self.fov.at(x, y)
    }

    /// All three grids share the level's dimensions, which are positive and
    /// fit a signed 32-bit coordinate.
    pub closed spec fn dims_ok(&self) -> bool {
        &&& self.tiles.wf() && self.tiles.spec_width() == self.width && self.tiles.spec_height()
            == self.height
        &&& self.transparent.wf() && self.transparent.spec_width() == self.width
            && self.transparent.spec_height() == self.height
        &&& self.fov.wf() && self.fov.spec_width() == self.width && self.fov.spec_height()
            == self.height
        &&& 1 <= self.width <= i32::MAX
        &&& 1 <= self.height <= i32::MAX
    }

    /// Every cell holds a template of the catalog, and the transparency
    /// bitmap agrees with the catalog about it.
    pub open spec fn wf(&self, cat: &MapInfo) -> bool {
        &&& self.dims_ok()
        &&& 1 <= self.spec_width() <= i32::MAX
        &&& 1 <= self.spec_height() <= i32::MAX
        &&& forall|x: int, y: int|
            0 <= x < self.spec_width() && 0 <= y < self.spec_height() ==> {
                &&& (#[trigger] self.id_at(x, y)) < cat.tiles@.len()
                &&& self.transp_at(x, y) == cat.tiles@[self.id_at(x, y) as int].transparent
            }
    }

    /// A fresh grid filled with the template `fill`, nothing yet visible.
    pub fn new(width: usize, height: usize, fill: usize, cat: &MapInfo) -> (t: Tiles)
        requires
            1 <= width <= i32::MAX,
            1 <= height <= i32::MAX,
            width * height <= usize::MAX,
            fill < cat.tiles@.len(),
        ensures
            t.wf(cat),
            t.spec_width() == width,
            t.spec_height() == height,
            forall|x: int, y: int|
                0 <= x < width && 0 <= y < height ==> #[trigger] t.id_at(x, y) == fill,
            forall|x: int, y: int|
                0 <= x < width && 0 <= y < height ==> !(#[trigger] t.fov_at(x, y)),
    {
        let transp = cat.tiles[fill].transparent;
        Tiles {
            width,
            height,
            tiles: Grid::new(fill, width, height),
            transparent: Grid::new(transp, width, height),
            fov: Grid::new(false, width, height),
        }
    }

    /// The template index at `(x, y)`; the caller validates the bounds.
    pub fn get(&self, x: usize, y: usize) -> (id: usize)
        requires
            self.dims_ok(),
            x < self.spec_width(),
            y < self.spec_height(),
        ensures
            id == self.id_at(x as int, y as int),
    {
        self.tiles.get(x, y)
    }

    /// Replaces the template at `(x, y)` and updates the transparency bitmap
    /// in the same step, so grid and visibility cache never drift apart.
    pub fn set(&mut self, x: usize, y: usize, id: usize, cat: &MapInfo)
        requires
            old(self).wf(cat),
            x < old(self).spec_width(),
            y < old(self).spec_height(),
            id < cat.tiles@.len(),
        ensures
            final(self).wf(cat),
            final(self).spec_width() == old(self).spec_width(),
            final(self).spec_height() == old(self).spec_height(),
            final(self).id_at(x as int, y as int) == id,
            forall|i: int, j: int|
                0 <= i < old(self).spec_width() && 0 <= j < old(self).spec_height() && !(i == x && j
                    == y) ==> #[trigger] final(self).id_at(i, j) == old(self).id_at(i, j),
            forall|i: int, j: int|
                0 <= i < old(self).spec_width() && 0 <= j < old(self).spec_height()
                    ==> #[trigger] final(self).fov_at(i, j) == old(self).fov_at(i, j),
    {
        let transp = cat.tiles[id].transparent;
        self.tiles.set(x, y, id);
        self.transparent.set(x, y, transp);
        proof {
            assert forall|i: int, j: int|
                0 <= i < self.spec_width() && 0 <= j < self.spec_height() implies {
                &&& (#[trigger] self.id_at(i, j)) < cat.tiles@.len()
                &&& self.transp_at(i, j) == cat.tiles@[self.id_at(i, j) as int].transparent
            } by {
                if i == x && j == y {
                } else {
                    assert(self.id_at(i, j) == old(self).id_at(i, j));
                    assert(self.transp_at(i, j) == old(self).transp_at(i, j));
                }
            }
        }
    }

    /// Whether `(x, y)` was visible at the last `compute_fov`.
    pub fn is_in_fov(&self, x: usize, y: usize) -> (r: bool)
        requires
            self.dims_ok(),
            x < self.spec_width(),
            y < self.spec_height(),
        ensures
            r == self.fov_at(x as int, y as int),
    {
        self.fov.get(x, y)
    }

    /// The visibility contract: `(x, y)` is visible from `(ox, oy)` within
    /// `radius` iff it is a cell of the grid, at Chebyshev distance at most
    /// `radius`, and every cell strictly between the two along the sight
    /// line is transparent.
    pub open spec fn visible(&self, ox: int, oy: int, radius: int, x: int, y: int) -> bool {
        &&& 0 <= x < self.spec_width()
        &&& 0 <= y < self.spec_height()
        &&& cheb(ox, oy, x, y) <= radius
        &&& forall|i: int|
            1 <= i < line_seq(ox, oy, x, y).len() - 1 ==> {
                let p = #[trigger] line_seq(ox, oy, x, y)[i];
                self.transp_at(p.0, p.1)
            }
    }

    /// Decides visibility of one cell by walking the sight line.
    fn cell_visible(&self, ox: usize, oy: usize, radius: usize, x: usize, y: usize) -> (r: bool)
        requires
            self.dims_ok(),
            ox < self.spec_width(),
            oy < self.spec_height(),
            x < self.spec_width(),
            y < self.spec_height(),
        ensures
            r == self.visible(ox as int, oy as int, radius as int, x as int, y as int),
    {
        let dx = if ox >= x {
            ox - x
        } else {
            x - ox
        };
        let dy = if oy >= y {
            oy - y
        } else {
            y - oy
        };
        let dmax = if dx >= dy {
            dx
        } else {
            dy
        };
        proof {
            assert(cheb(ox as int, oy as int, x as int, y as int) == dmax);
        }
        if dmax > radius {
            return false;
        }
        let ghost gl = line_seq(ox as int, oy as int, x as int, y as int);
        proof {
            lemma_line_len(ox as int, oy as int, x as int, y as int);
        }
        let mut cx = ox;
        let mut cy = oy;
        let ghost mut j: int = 0;
        while cx != x || cy != y
            invariant
                self.dims_ok(),
                ox < self.spec_width(),
                oy < self.spec_height(),
                x < self.spec_width(),
                y < self.spec_height(),
                cx < self.spec_width(),
                cy < self.spec_height(),
                cheb(ox as int, oy as int, x as int, y as int) <= radius,
                gl == line_seq(ox as int, oy as int, x as int, y as int),
                gl.len() == cheb(ox as int, oy as int, x as int, y as int) + 1,
                0 <= j < gl.len(),
                gl[j] == (cx as int, cy as int),
                gl.subrange(j, gl.len() as int) == line_seq(
                    cx as int,
                    cy as int,
                    x as int,
                    y as int,
                ),
                forall|i: int|
                    1 <= i <= j ==> {
                        let p = #[trigger] gl[i];
                        self.transp_at(p.0, p.1)
                    },
            decreases gl.len() - j,
        {
            let nx = if cx < x {
                cx + 1
            } else if cx > x {
                cx - 1
            } else {
                cx
            };
            let ny = if cy < y {
                cy + 1
            } else if cy > y {
                cy - 1
            } else {
                cy
            };
            proof {
                let suffix = line_seq(cx as int, cy as int, x as int, y as int);
                let tail = line_seq(nx as int, ny as int, x as int, y as int);
                lemma_line_len(cx as int, cy as int, x as int, y as int);
                lemma_line_len(nx as int, ny as int, x as int, y as int);
                lemma_line_ends(nx as int, ny as int, x as int, y as int);
                assert(nx as int == cx as int + sgn(x as int - cx as int));
                assert(ny as int == cy as int + sgn(y as int - cy as int));
                assert(suffix == seq![(cx as int, cy as int)] + tail);
                assert(gl.subrange(j + 1, gl.len() as int) =~= tail) by {
                    assert(suffix.len() == tail.len() + 1);
                    assert forall|i: int| 0 <= i < tail.len() implies gl.subrange(
                        j + 1,
                        gl.len() as int,
                    )[i] == tail[i] by {
                        assert(gl.subrange(j + 1, gl.len() as int)[i] == gl[j + 1 + i]);
                        assert(gl.subrange(j, gl.len() as int)[i + 1] == gl[j + 1 + i]);
                        assert(suffix[i + 1] == (seq![(cx as int, cy as int)] + tail)[i + 1]);
                        assert((seq![(cx as int, cy as int)] + tail)[i + 1] == tail[i]);
                    }
                }
                assert(gl[j + 1] == tail[0]);
                assert(gl[j + 1] == (nx as int, ny as int));
                j = j + 1;
            }
            cx = nx;
            cy = ny;
            if cx == x && cy == y {
                proof {
                    lemma_line_len(cx as int, cy as int, x as int, y as int);
                    assert(j == gl.len() - 1);
                }
                return true;
            }
            proof {
                lemma_line_len(cx as int, cy as int, x as int, y as int);
                assert(j < gl.len() - 1);
            }
            if !self.transparent.get(cx, cy) {
                proof {
                    assert(1 <= j < gl.len() - 1);
                    assert(gl[j] == (cx as int, cy as int));
                    assert(!self.transp_at(cx as int, cy as int));
                }
                return false;
            }
        }
        proof {
            lemma_line_len(cx as int, cy as int, x as int, y as int);
            assert(j == gl.len() - 1);
        }
        true
    }

    /// Recomputes the field of view from scratch: after the call, the
    /// visibility bit of every cell says exactly whether it is visible from
    /// `(ox, oy)` within `radius`. Tiles and transparency are untouched.
    pub fn compute_fov(&mut self, ox: usize, oy: usize, radius: usize)
        requires
            old(self).dims_ok(),
            ox < old(self).spec_width(),
            oy < old(self).spec_height(),
        ensures
            final(self).dims_ok(),
            final(self).spec_width() == old(self).spec_width(),
            final(self).spec_height() == old(self).spec_height(),
            forall|x: int, y: int|
                0 <= x < old(self).spec_width() && 0 <= y < old(self).spec_height()
                    ==> #[trigger] final(self).id_at(x, y) == old(self).id_at(x, y),
            forall|x: int, y: int| #[trigger] final(self).transp_at(x, y) == old(self).transp_at(x, y),
            forall|x: int, y: int|
                0 <= x < old(self).spec_width() && 0 <= y < old(self).spec_height()
                    ==> #[trigger] final(self).fov_at(x, y) == final(self).visible(
                    ox as int,
                    oy as int,
                    radius as int,
                    x as int,
                    y as int,
                ),
    {
        let w = self.width;
        let h = self.height;
        let mut y: usize = 0;
        while y < h
            invariant
                self.dims_ok(),
                w == self.spec_width(),
                h == self.spec_height(),
                ox < w,
                oy < h,
                y <= h,
                self.tiles == old(self).tiles,
                self.transparent == old(self).transparent,
                self.width == old(self).spec_width(),
                self.height == old(self).spec_height(),
                forall|i: int, k: int|
                    0 <= i < w && 0 <= k < y ==> #[trigger] self.fov_at(i, k) == old(self).visible(
                        ox as int,
                        oy as int,
                        radius as int,
                        i,
                        k,
                    ),
            decreases h - y,
        {
            let mut x: usize = 0;
            while x < w
                invariant
                    self.dims_ok(),
                    w == self.spec_width(),
                    h == self.spec_height(),
                    ox < w,
                    oy < h,
                    y < h,
                    x <= w,
                    self.tiles == old(self).tiles,
                    self.transparent == old(self).transparent,
                    self.width == old(self).spec_width(),
                    self.height == old(self).spec_height(),
                    forall|i: int, k: int|
                        0 <= i < w && 0 <= k < y ==> #[trigger] self.fov_at(i, k) == old(
                            self,
                        ).visible(ox as int, oy as int, radius as int, i, k),
                    forall|i: int|
                        0 <= i < x ==> #[trigger] self.fov_at(i, y as int) == old(self).visible(
                            ox as int,
                            oy as int,
                            radius as int,
                            i,
                            y as int,
                        ),
                decreases w - x,
            {
                let ghost pre = *self;
                let v = self.cell_visible(ox, oy, radius, x, y);
                proof {
                    assert(pre.visible(ox as int, oy as int, radius as int, x as int, y as int)
                        == old(self).visible(
                        ox as int,
                        oy as int,
                        radius as int,
                        x as int,
                        y as int,
                    ));
                }
                self.fov.set(x, y, v);
                proof {
                    assert forall|i: int, k: int| 0 <= i < w && 0 <= k < y implies
                        #[trigger] self.fov_at(i, k) == old(self).visible(
                        ox as int,
                        oy as int,
                        radius as int,
                        i,
                        k,
                    ) by {
                        assert(self.fov_at(i, k) == pre.fov_at(i, k));
                    }
                    assert forall|i: int| 0 <= i < x + 1 implies #[trigger] self.fov_at(i, y as int)
                        == old(self).visible(ox as int, oy as int, radius as int, i, y as int) by {
                        if i < x {
                            assert(self.fov_at(i, y as int) == pre.fov_at(i, y as int));
                        } else {
                            assert(self.fov_at(i, y as int) == v);
                        }
                    }
                }
                x += 1;
            }
            y += 1;
        }
        proof {
            assert forall|x: int, y: int|
                0 <= x < old(self).spec_width() && 0 <= y < old(self).spec_height() implies
                #[trigger] self.fov_at(x, y) == self.visible(
                ox as int,
                oy as int,
                radius as int,
                x as int,
                y as int,
            ) by {
                assert(self.visible(ox as int, oy as int, radius as int, x, y) == old(
                    self,
                ).visible(ox as int, oy as int, radius as int, x, y));
            }
        }
    }

    /// The origin always sees itself, at any radius.
    pub proof fn lemma_origin_visible(&self, ox: int, oy: int, radius: int)
        requires
            0 <= ox < self.spec_width(),
            0 <= oy < self.spec_height(),
            radius >= 0,
        ensures
            self.visible(ox, oy, radius, ox, oy),
    {
        lemma_line_len(ox, oy, ox, oy);
    }

    /// Visibility is monotonic in the radius: widening the radius never
    /// hides a cell that was visible, as long as occlusion is unchanged.
    pub proof fn lemma_visible_monotonic(
        &self,
        ox: int,
        oy: int,
        r1: int,
        r2: int,
        x: int,
        y: int,
    )
        requires
            r1 <= r2,
            self.visible(ox, oy, r1, x, y),
        ensures
            self.visible(ox, oy, r2, x, y),
    {
    }
}

/// A playable level: the tile grid, the glyphs last seen per cell, and the
/// monsters on it. By convention `monsters[0]`, when present, is the
/// player-controlled actor.
pub struct Level {
    pub width: usize,
    pub height: usize,
    pub tiles: Tiles,
    pub seen: Grid<Option<u16>>,
    pub monsters: Vec<Monster>,
}

impl Level {
    /// The tile grids are sized to the level and consistent with the
    /// catalog `cat`.
    pub open spec fn map_wf(&self, cat: &MapInfo) -> bool {
        &&& self.tiles.wf(cat)
        &&& self.tiles.spec_width() == self.width
        &&& self.tiles.spec_height() == self.height
        &&& self.seen.wf() && self.seen.spec_width() == self.width && self.seen.spec_height()
            == self.height
    }

    /// Every monster stands on a cell of the grid.
    pub open spec fn monsters_in_bounds(&self) -> bool {
        forall|i: int|
            0 <= i < self.monsters@.len() ==> {
                let m = #[trigger] self.monsters@[i];
                &&& 0 <= m.pos.0 < self.width
                &&& 0 <= m.pos.1 < self.height
            }
    }

    /// A fresh level uniformly filled with the template `fill`: no monsters,
    /// nothing seen, nothing visible.
    pub fn new(width: usize, height: usize, fill: usize, cat: &MapInfo) -> (l: Level)
        requires
            1 <= width <= i32::MAX,
            1 <= height <= i32::MAX,
            width * height <= usize::MAX,
            fill < cat.tiles@.len(),
        ensures
            l.map_wf(cat),
            l.width == width,
            l.height == height,
            l.monsters@.len() == 0,
            forall|x: int, y: int|
                0 <= x < width && 0 <= y < height ==> #[trigger] l.tiles.id_at(x, y) == fill,
            forall|x: int, y: int|
                0 <= x < width && 0 <= y < height ==> !(#[trigger] l.tiles.fov_at(x, y)),
            forall|x: int, y: int|
                0 <= x < width && 0 <= y < height ==> #[trigger] l.seen.at(x, y) is None,
    {
        Level {
            width,
            height,
            tiles: Tiles::new(width, height, fill, cat),
            seen: Grid::new(None, width, height),
            monsters: Vec::new(),
        }
    }
}

} // verus!
