//! Level generation: the recursive corridor partition and room carving.
//!
//! `create` splits a region along alternating axes, carving a center-biased
//! corridor with randomly chosen door-or-floor ends, and recurses into the
//! two remaining halves; at recursion depth zero it lines rooms up against
//! three or four sides of the leaf region. Every write of a generation pass
//! stays inside the region's closed box, writes only floor or door tiles,
//! and never replaces a cell that already holds a door.

use vstd::prelude::*;

use crate::game::weight_seq;
use crate::game::Game;
use crate::game::GameInfo;
use crate::map::Level;
use crate::map::Tiles;
use crate::monster::Monster;
use crate::point::Point;
use crate::rng::GameRng;
use crate::tile::MapInfo;
use crate::tile::MissingTileError;

verus! {

/// No cell of the level carries a template named "door": the canvas a
/// generation pass expects, so that its own doors are the only ones around.
pub open spec fn door_free(level: &Level, cat: &MapInfo) -> bool {
    forall|cx: int, cy: int|
        0 <= cx < level.width && 0 <= cy < level.height ==> (#[trigger] cat.tiles@[level.tiles.id_at(
            cx,
            cy,
        ) as int]).name@ != "door"@
}

/// A strategy for carving a fresh level. Implementations may add monsters
/// but never disturb the ones already present, and leave the level
/// untouched when a template they need is missing.
pub trait Generator {
    fn generate(&self, game: &mut Game, level: &mut Level) -> (r: Result<(), MissingTileError>)
        requires
            old(game).info.wf(),
            old(level).map_wf(&old(game).info.map),
            old(level).monsters_in_bounds(),
            door_free(old(level), &old(game).info.map),
        ensures
            final(game).info == old(game).info,
            final(game).messages == old(game).messages,
            final(game).levels == old(game).levels,
            final(game).play_rng == old(game).play_rng,
            final(level).map_wf(&old(game).info.map),
            final(level).width == old(level).width,
            final(level).height == old(level).height,
            final(level).seen == old(level).seen,
            final(level).monsters_in_bounds(),
            final(level).monsters@.len() >= old(level).monsters@.len(),
            forall|i: int|
                0 <= i < old(level).monsters@.len() ==> #[trigger] final(level).monsters@[i]
                    == old(level).monsters@[i],
            forall|i: int|
                old(level).monsters@.len() <= i < final(level).monsters@.len() ==> {
                    let m = #[trigger] final(level).monsters@[i];
                    &&& m.info < old(game).info.monster@.len()
                    &&& m.hp == old(game).info.monster@[m.info as int].health
                },
            r matches Err(_) ==> *final(level) == *old(level),
            r matches Err(e) ==> !old(game).info.map.has_name(e.name@) && (e.name@ == "floor"@
                || e.name@ == "door"@),
            forall|cx: int, cy: int|
                0 <= cx < old(level).width && 0 <= cy < old(level).height
                    ==> #[trigger] final(level).tiles.id_at(cx, cy) == old(level).tiles.id_at(
                    cx,
                    cy,
                ) || old(game).info.map.tiles@[final(level).tiles.id_at(cx, cy) as int].name@
                    == "floor"@ || old(game).info.map.tiles@[final(level).tiles.id_at(
                    cx,
                    cy,
                ) as int].name@ == "door"@,
        ;
}

/// The side of a leaf region that a run of rooms is carved against.
#[derive(Copy, Clone, Debug, PartialEq, Eq, Structural)]
pub enum Side {
    Top,
    Bottom,
    Left,
    Right,
}

/// The cells of a room of extent `w` along the side and `h` away from it,
/// anchored at `(ox, oy)` and growing into the region according to `side`.
pub open spec fn room_contains(side: Side, ox: int, oy: int, w: int, h: int, cx: int, cy: int) -> bool {
    match side {
        Side::Top => ox <= cx < ox + w && oy <= cy < oy + h,
        Side::Bottom => ox <= cx < ox + w && oy - h < cy <= oy,
        Side::Left => ox <= cx < ox + h && oy <= cy < oy + w,
        Side::Right => ox - h < cx <= ox && oy <= cy < oy + w,
    }
}

/// The wall cell that receives the door of a room anchored at `(ox, oy)`:
/// one step outward from the room's anchor row, `dx` cells along the side.
pub open spec fn door_cell(side: Side, ox: int, oy: int, dx: int) -> (int, int) {
    match side {
        Side::Top => (ox + dx, oy - 1),
        Side::Bottom => (ox + dx, oy + 1),
        Side::Left => (ox - 1, oy + dx),
        Side::Right => (ox + 1, oy + dx),
    }
}

/// Carves one rectangular room against a side: floors over a rectangle whose
/// extent along the side is sampled within `[minr, wmax]`, and exactly one
/// door in the wall behind the room, at one of the room's two corners. The
/// room's cells and its door line must be door-free beforehand, so no door
/// is ever overwritten.
pub(crate) fn create_room(
    level: &mut Level,
    cat: &MapInfo,
    rng: &mut GameRng,
    side: Side,
    ox: usize,
    oy: usize,
    minr: usize,
    wmax: usize,
    hmax: usize,
    floor_id: usize,
    door_id: usize,
) -> (whd: (usize, usize, usize))
    requires
        old(level).map_wf(cat),
        floor_id < cat.tiles@.len(),
        door_id < cat.tiles@.len(),
        1 <= minr <= wmax,
        minr <= hmax,
        match side {
            Side::Top => 1 <= oy && ox + wmax <= old(level).width && oy + hmax <= old(
                level,
            ).height,
            Side::Bottom => oy + 1 < old(level).height && hmax <= oy + 1 && ox + wmax <= old(
                level,
            ).width,
            Side::Left => 1 <= ox && ox + hmax <= old(level).width && oy + wmax <= old(
                level,
            ).height,
            Side::Right => ox + 1 < old(level).width && hmax <= ox + 1 && oy + wmax <= old(
                level,
            ).height,
        },
        forall|cx: int, cy: int|
            room_contains(side, ox as int, oy as int, wmax as int, hmax as int, cx, cy)
                ==> #[trigger] old(level).tiles.id_at(cx, cy) != door_id,
        forall|dx: int|
            0 <= dx < wmax ==> old(level).tiles.id_at(
                door_cell(side, ox as int, oy as int, dx).0,
                #[trigger] door_cell(side, ox as int, oy as int, dx).1,
            ) != door_id,
    ensures
        final(level).map_wf(cat),
        final(level).width == old(level).width,
        final(level).height == old(level).height,
        final(level).seen == old(level).seen,
        final(level).monsters == old(level).monsters,
        forall|cx: int, cy: int|
            0 <= cx < old(level).width && 0 <= cy < old(level).height
                ==> #[trigger] final(level).tiles.fov_at(cx, cy) == old(level).tiles.fov_at(cx, cy),
        1 <= whd.0 <= wmax,
        minr > wmax / 2 ==> whd.0 == wmax,
        minr <= wmax / 2 ==> minr <= whd.0,
        whd.1 == if minr > hmax / 2 {
            hmax as int
        } else {
            minr as int
        },
        1 <= whd.1 <= hmax,
        whd.2 == 0 || whd.2 == whd.0 - 1,
        forall|cx: int, cy: int|
            0 <= cx < old(level).width && 0 <= cy < old(level).height
                ==> #[trigger] final(level).tiles.id_at(cx, cy) == {
                if (cx, cy) == door_cell(side, ox as int, oy as int, whd.2 as int) {
                    door_id
                } else if room_contains(
                    side,
                    ox as int,
                    oy as int,
                    whd.0 as int,
                    whd.1 as int,
                    cx,
                    cy,
                ) {
                    floor_id
                } else {
                    old(level).tiles.id_at(cx, cy)
                }
            },
{
    let w = if minr > wmax / 2 {
        wmax
    } else {
        rng.range(minr, wmax)
    };
    let h = if minr > hmax / 2 {
        hmax
    } else {
        minr
    };
    let mut rx: usize = 0;
    while rx < w
        invariant
            level.map_wf(cat),
            level.width == old(level).width,
            level.height == old(level).height,
            level.seen == old(level).seen,
            level.monsters == old(level).monsters,
            forall|cx: int, cy: int|
                0 <= cx < old(level).width && 0 <= cy < old(level).height
                    ==> #[trigger] level.tiles.fov_at(cx, cy) == old(level).tiles.fov_at(cx, cy),
            rx <= w,
            floor_id < cat.tiles@.len(),
            door_id < cat.tiles@.len(),
            1 <= w <= wmax,
            1 <= h <= hmax,
            match side {
                Side::Top => 1 <= oy && ox + wmax <= old(level).width && oy + hmax <= old(
                    level,
                ).height,
                Side::Bottom => oy + 1 < old(level).height && hmax <= oy + 1 && ox + wmax <= old(
                    level,
                ).width,
                Side::Left => 1 <= ox && ox + hmax <= old(level).width && oy + wmax <= old(
                    level,
                ).height,
                Side::Right => ox + 1 < old(level).width && hmax <= ox + 1 && oy + wmax <= old(
                    level,
                ).height,
            },
            forall|cx: int, cy: int|
                0 <= cx < old(level).width && 0 <= cy < old(level).height
                    ==> #[trigger] level.tiles.id_at(cx, cy) == {
                    if room_contains(side, ox as int, oy as int, rx as int, h as int, cx, cy) {
                        floor_id
                    } else {
                        old(level).tiles.id_at(cx, cy)
                    }
                },
        decreases w - rx,
    {
        let mut ry: usize = 0;
        while ry < h
            invariant
                level.map_wf(cat),
                level.width == old(level).width,
                level.height == old(level).height,
                level.seen == old(level).seen,
                level.monsters == old(level).monsters,
                forall|cx: int, cy: int|
                    0 <= cx < old(level).width && 0 <= cy < old(level).height
                        ==> #[trigger] level.tiles.fov_at(cx, cy) == old(level).tiles.fov_at(
                        cx,
                        cy,
                    ),
                rx < w,
                ry <= h,
                floor_id < cat.tiles@.len(),
                door_id < cat.tiles@.len(),
                1 <= w <= wmax,
                1 <= h <= hmax,
                match side {
                    Side::Top => 1 <= oy && ox + wmax <= old(level).width && oy + hmax <= old(
                        level,
                    ).height,
                    Side::Bottom => oy + 1 < old(level).height && hmax <= oy + 1 && ox + wmax
                        <= old(level).width,
                    Side::Left => 1 <= ox && ox + hmax <= old(level).width && oy + wmax <= old(
                        level,
                    ).height,
                    Side::Right => ox + 1 < old(level).width && hmax <= ox + 1 && oy + wmax <= old(
                        level,
                    ).height,
                },
                forall|cx: int, cy: int|
                    0 <= cx < old(level).width && 0 <= cy < old(level).height
                        ==> #[trigger] level.tiles.id_at(cx, cy) == {
                        if room_contains(side, ox as int, oy as int, rx as int, h as int, cx, cy) {
                            floor_id
                        } else if room_contains(
                            side,
                            partial_anchor(side, ox as int, oy as int, rx as int).0,
                            partial_anchor(side, ox as int, oy as int, rx as int).1,
                            1,
                            ry as int,
                            cx,
                            cy,
                        ) {
                            floor_id
                        } else {
                            old(level).tiles.id_at(cx, cy)
                        }
                    },
            decreases h - ry,
        {
            let cx: usize;
            let cy: usize;
            match side {
                Side::Top => {
                    cx = ox + rx;
                    cy = oy + ry;
                },
                Side::Bottom => {
                    cx = ox + rx;
                    cy = oy - ry;
                },
                Side::Left => {
                    cx = ox + ry;
                    cy = oy + rx;
                },
                Side::Right => {
                    cx = ox - ry;
                    cy = oy + rx;
                },
            }
            level.tiles.set(cx, cy, floor_id, cat);
            ry += 1;
        }
        proof {
            assert forall|cx: int, cy: int|
                0 <= cx < old(level).width && 0 <= cy < old(level).height implies #[trigger] level.tiles.id_at(
                cx,
                cy,
            ) == {
                if room_contains(side, ox as int, oy as int, rx + 1, h as int, cx, cy) {
                    floor_id
                } else {
                    old(level).tiles.id_at(cx, cy)
                }
            } by {}
        }
        rx += 1;
    }
    let dx = if rng.coin() {
        0
    } else {
        w - 1
    };
    let dcx: usize;
    let dcy: usize;
    match side {
        Side::Top => {
            dcx = ox + dx;
            dcy = oy - 1;
        },
        Side::Bottom => {
            dcx = ox + dx;
            dcy = oy + 1;
        },
        Side::Left => {
            dcx = ox - 1;
            dcy = oy + dx;
        },
        Side::Right => {
            dcx = ox + 1;
            dcy = oy + dx;
        },
    }
    level.tiles.set(dcx, dcy, door_id, cat);
    (w, h, dx)
}

/// The anchor of the column currently being filled: `rx` cells along the
/// side from the room's anchor.
pub open spec fn partial_anchor(side: Side, ox: int, oy: int, rx: int) -> (int, int) {
    match side {
        Side::Top => (ox + rx, oy),
        Side::Bottom => (ox + rx, oy),
        Side::Left => (ox, oy + rx),
        Side::Right => (ox, oy + rx),
    }
}

/// The cells a rooms pass along one side of the region `[x0, x1) x [y0, y1)`
/// may write: the strip adjoining that side, plus the wall line one step
/// outside it that receives the doors.
pub open spec fn side_region(side: Side, x0: int, x1: int, y0: int, y1: int, cx: int, cy: int) -> bool {
    match side {
        Side::Top => x0 <= cx < x1 && y0 - 1 <= cy < y1,
        Side::Bottom => x0 <= cx < x1 && y0 <= cy <= y1,
        Side::Left => x0 - 1 <= cx < x1 && y0 <= cy < y1,
        Side::Right => x0 <= cx <= x1 && y0 <= cy < y1,
    }
}

/// Whether `(cx, cy)` lies on the wall line of the side, the only cells a
/// rooms pass writes doors to.
pub open spec fn side_line(side: Side, x0: int, x1: int, y0: int, y1: int, cx: int, cy: int) -> bool {
    match side {
        Side::Top => cy == y0 - 1,
        Side::Bottom => cy == y1,
        Side::Left => cx == x0 - 1,
        Side::Right => cx == x1,
    }
}

/// The coordinate of a cell along the side's scan direction.
pub open spec fn scan_coord(side: Side, cx: int, cy: int) -> int {
    match side {
        Side::Top => cx,
        Side::Bottom => cx,
        Side::Left => cy,
        Side::Right => cy,
    }
}

/// The extent of the region perpendicular to the side.
pub open spec fn cross_extent(side: Side, x0: int, x1: int, y0: int, y1: int) -> int {
    match side {
        Side::Top => y1 - y0,
        Side::Bottom => y1 - y0,
        Side::Left => x1 - x0,
        Side::Right => x1 - x0,
    }
}

/// Lines rooms up along one side of the leaf region `[x0, x1) x [y0, y1)`
/// until the remaining span is below `minr`, and returns how far the region
/// must shrink away from that side so later sides cannot overlap these
/// rooms. Writes stay in the side's strip, only floors and doors are
/// written, doors land only on the side's wall line, and no existing door is
/// ever replaced.
pub(crate) fn carve_side(
    level: &mut Level,
    cat: &MapInfo,
    rng: &mut GameRng,
    side: Side,
    x0: usize,
    x1: usize,
    y0: usize,
    y1: usize,
    minr: usize,
    floor_id: usize,
    door_id: usize,
) -> (shrink: usize)
    requires
        old(level).map_wf(cat),
        floor_id < cat.tiles@.len(),
        door_id < cat.tiles@.len(),
        floor_id != door_id,
        1 <= minr <= i32::MAX,
        minr <= cross_extent(side, x0 as int, x1 as int, y0 as int, y1 as int),
        match side {
            Side::Top => 1 <= y0 && y1 <= old(level).height && x1 <= old(level).width && x0 <= x1
                + 1,
            Side::Bottom => y1 < old(level).height && x1 <= old(level).width && x0 <= x1 + 1,
            Side::Left => 1 <= x0 && x1 <= old(level).width && y1 <= old(level).height && y0 <= y1
                + 1,
            Side::Right => x1 < old(level).width && y1 <= old(level).height && y0 <= y1 + 1,
        },
        forall|cx: int, cy: int|
            side_region(side, x0 as int, x1 as int, y0 as int, y1 as int, cx, cy)
                ==> #[trigger] old(level).tiles.id_at(cx, cy) != door_id,
    ensures
        final(level).map_wf(cat),
        final(level).width == old(level).width,
        final(level).height == old(level).height,
        final(level).seen == old(level).seen,
        final(level).monsters == old(level).monsters,
        forall|cx: int, cy: int|
            0 <= cx < old(level).width && 0 <= cy < old(level).height
                ==> #[trigger] final(level).tiles.fov_at(cx, cy) == old(level).tiles.fov_at(cx, cy),
        forall|cx: int, cy: int|
            0 <= cx < old(level).width && 0 <= cy < old(level).height && !side_region(
                side,
                x0 as int,
                x1 as int,
                y0 as int,
                y1 as int,
                cx,
                cy,
            ) ==> #[trigger] final(level).tiles.id_at(cx, cy) == old(level).tiles.id_at(cx, cy),
        forall|cx: int, cy: int|
            0 <= cx < old(level).width && 0 <= cy < old(level).height
                ==> #[trigger] final(level).tiles.id_at(cx, cy) == old(level).tiles.id_at(cx, cy)
                || final(level).tiles.id_at(cx, cy) == floor_id || (final(level).tiles.id_at(cx, cy)
                == door_id && side_line(side, x0 as int, x1 as int, y0 as int, y1 as int, cx, cy)),
        forall|cx: int, cy: int|
            0 <= cx < old(level).width && 0 <= cy < old(level).height && old(level).tiles.id_at(
                cx,
                cy,
            ) == door_id ==> #[trigger] final(level).tiles.id_at(cx, cy) == door_id,
        1 <= shrink <= cross_extent(side, x0 as int, x1 as int, y0 as int, y1 as int) + 1,
        (match side {
            Side::Top => x0 + minr <= x1,
            Side::Bottom => x0 + minr <= x1,
            Side::Left => y0 + minr <= y1,
            Side::Right => y0 + minr <= y1,
        }) ==> has_floor_cell(
            &final(level).tiles,
            floor_id,
            x0 as int,
            x1 as int,
            y0 as int,
            y1 as int,
        ),
{
    let s1 = match side {
        Side::Top => x1,
        Side::Bottom => x1,
        Side::Left => y1,
        Side::Right => y1,
    };
    let mut a = match side {
        Side::Top => x0,
        Side::Bottom => x0,
        Side::Left => y0,
        Side::Right => y0,
    };
    let mut maxh: usize = 0;
    while a + minr <= s1
        invariant
            level.map_wf(cat),
            level.width == old(level).width,
            level.height == old(level).height,
            level.seen == old(level).seen,
            level.monsters == old(level).monsters,
            floor_id < cat.tiles@.len(),
            door_id < cat.tiles@.len(),
            floor_id != door_id,
            1 <= minr <= i32::MAX,
            minr <= cross_extent(side, x0 as int, x1 as int, y0 as int, y1 as int),
            match side {
                Side::Top => 1 <= y0 && y1 <= old(level).height && x1 <= old(level).width && x0
                    <= x1 + 1,
                Side::Bottom => y1 < old(level).height && x1 <= old(level).width && x0 <= x1 + 1,
                Side::Left => 1 <= x0 && x1 <= old(level).width && y1 <= old(level).height && y0
                    <= y1 + 1,
                Side::Right => x1 < old(level).width && y1 <= old(level).height && y0 <= y1 + 1,
            },
            forall|cx: int, cy: int|
                side_region(side, x0 as int, x1 as int, y0 as int, y1 as int, cx, cy)
                    ==> #[trigger] old(level).tiles.id_at(cx, cy) != door_id,
            x1 <= i32::MAX,
            y1 <= i32::MAX,
            s1 == match side {
                Side::Top => x1,
                Side::Bottom => x1,
                Side::Left => y1,
                Side::Right => y1,
            },
            s1 <= i32::MAX,
            a >= match side {
                Side::Top => x0,
                Side::Bottom => x0,
                Side::Left => y0,
                Side::Right => y0,
            },
            a <= s1 + 1,
            maxh <= cross_extent(side, x0 as int, x1 as int, y0 as int, y1 as int),
            forall|cx: int, cy: int|
                0 <= cx < old(level).width && 0 <= cy < old(level).height
                    ==> #[trigger] level.tiles.fov_at(cx, cy) == old(level).tiles.fov_at(cx, cy),
            forall|cx: int, cy: int|
                0 <= cx < old(level).width && 0 <= cy < old(level).height && !side_region(
                    side,
                    x0 as int,
                    x1 as int,
                    y0 as int,
                    y1 as int,
                    cx,
                    cy,
                ) ==> #[trigger] level.tiles.id_at(cx, cy) == old(level).tiles.id_at(cx, cy),
            forall|cx: int, cy: int|
                0 <= cx < old(level).width && 0 <= cy < old(level).height
                    ==> #[trigger] level.tiles.id_at(cx, cy) == old(level).tiles.id_at(cx, cy)
                    || level.tiles.id_at(cx, cy) == floor_id || (level.tiles.id_at(cx, cy)
                    == door_id && side_line(side, x0 as int, x1 as int, y0 as int, y1 as int, cx, cy)
                    && scan_coord(side, cx, cy) < a),
            forall|cx: int, cy: int|
                0 <= cx < old(level).width && 0 <= cy < old(level).height && side_line(
                    side,
                    x0 as int,
                    x1 as int,
                    y0 as int,
                    y1 as int,
                    cx,
                    cy,
                ) && scan_coord(side, cx, cy) >= a ==> #[trigger] level.tiles.id_at(cx, cy) == old(
                    level,
                ).tiles.id_at(cx, cy),
            a == (match side {
                Side::Top => x0,
                Side::Bottom => x0,
                Side::Left => y0,
                Side::Right => y0,
            }) || has_floor_cell(&level.tiles, floor_id, x0 as int, x1 as int, y0 as int, y1 as int),
        decreases s1 + 1 - a,
    {
        let ghost pre = *level;
        let whd = match side {
            Side::Top => create_room(
                level,
                cat,
                rng,
                Side::Top,
                a,
                y0,
                minr,
                x1 - a,
                y1 - y0,
                floor_id,
                door_id,
            ),
            Side::Bottom => create_room(
                level,
                cat,
                rng,
                Side::Bottom,
                a,
                y1 - 1,
                minr,
                x1 - a,
                y1 - y0,
                floor_id,
                door_id,
            ),
            Side::Left => create_room(
                level,
                cat,
                rng,
                Side::Left,
                x0,
                a,
                minr,
                y1 - a,
                x1 - x0,
                floor_id,
                door_id,
            ),
            Side::Right => create_room(
                level,
                cat,
                rng,
                Side::Right,
                x1 - 1,
                a,
                minr,
                y1 - a,
                x1 - x0,
                floor_id,
                door_id,
            ),
        };
        proof {
            assert forall|cx: int, cy: int|
                0 <= cx < old(level).width && 0 <= cy < old(level).height && !side_region(
                    side,
                    x0 as int,
                    x1 as int,
                    y0 as int,
                    y1 as int,
                    cx,
                    cy,
                ) implies #[trigger] level.tiles.id_at(cx, cy) == old(level).tiles.id_at(
                cx,
                cy,
            ) by {
                assert(pre.tiles.id_at(cx, cy) == old(level).tiles.id_at(cx, cy));
            }
            assert forall|cx: int, cy: int|
                0 <= cx < old(level).width && 0 <= cy < old(level).height implies
                #[trigger] level.tiles.id_at(cx, cy) == old(level).tiles.id_at(cx, cy)
                    || level.tiles.id_at(cx, cy) == floor_id || (level.tiles.id_at(cx, cy)
                    == door_id && side_line(side, x0 as int, x1 as int, y0 as int, y1 as int, cx, cy)
                    && scan_coord(side, cx, cy) < a + whd.0 + 1) by {
                assert(pre.tiles.id_at(cx, cy) == old(level).tiles.id_at(cx, cy) || pre.tiles.id_at(
                    cx,
                    cy,
                ) == floor_id || (pre.tiles.id_at(cx, cy) == door_id && side_line(
                    side,
                    x0 as int,
                    x1 as int,
                    y0 as int,
                    y1 as int,
                    cx,
                    cy,
                ) && scan_coord(side, cx, cy) < a));
            }
            assert forall|cx: int, cy: int|
                0 <= cx < old(level).width && 0 <= cy < old(level).height && side_line(
                    side,
                    x0 as int,
                    x1 as int,
                    y0 as int,
                    y1 as int,
                    cx,
                    cy,
                ) && scan_coord(side, cx, cy) >= a + whd.0 + 1 implies #[trigger] level.tiles.id_at(
                cx,
                cy,
            ) == old(level).tiles.id_at(cx, cy) by {
                assert(pre.tiles.id_at(cx, cy) == old(level).tiles.id_at(cx, cy));
            }
        }
        proof {
            match side {
                Side::Top => {
                    assert(level.tiles.id_at(a as int, y0 as int) == floor_id);
                },
                Side::Bottom => {
                    assert(level.tiles.id_at(a as int, y1 - 1) == floor_id);
                },
                Side::Left => {
                    assert(level.tiles.id_at(x0 as int, a as int) == floor_id);
                },
                Side::Right => {
                    assert(level.tiles.id_at(x1 - 1, a as int) == floor_id);
                },
            }
            assert(has_floor_cell(&level.tiles, floor_id, x0 as int, x1 as int, y0 as int, y1 as int));
        }
        a += whd.0 + 1;
        if whd.1 > maxh {
            maxh = whd.1;
        }
    }
    maxh + 1
}

/// The region `[x0, x1) x [y0, y1)` cannot hold a corridor of half-width
/// `depth/2 + 1` plus two children: such a region is left untouched.
pub open spec fn region_too_small(depth: int, x0: int, x1: int, y0: int, y1: int) -> bool {
    let hw = depth / 2 + 1;
    x1 < hw || x0 + 1 > x1 - hw || y1 < hw || y0 + 1 > y1 - hw
}

/// Columns `[c, c + hw)` hold floor across all rows `[y0, y1)`.
pub open spec fn vertical_corridor_at(
    t: &Tiles,
    floor_id: usize,
    hw: int,
    c: int,
    y0: int,
    y1: int,
) -> bool {
    forall|j: int, yy: int|
        0 <= j < hw && y0 <= yy < y1 ==> #[trigger] t.id_at(c + j, yy) == floor_id
}

/// Some corridor of half-width `hw` crosses the region top to bottom.
pub open spec fn has_vertical_corridor(
    t: &Tiles,
    floor_id: usize,
    hw: int,
    x0: int,
    x1: int,
    y0: int,
    y1: int,
) -> bool {
    exists|c: int|
        x0 + 1 <= c && c + hw <= x1 && #[trigger] vertical_corridor_at(
            t,
            floor_id,
            hw,
            c,
            y0,
            y1,
        )
}

/// Rows `[c, c + hw)` hold floor across all columns `[x0, x1)`.
pub open spec fn horizontal_corridor_at(
    t: &Tiles,
    floor_id: usize,
    hw: int,
    c: int,
    x0: int,
    x1: int,
) -> bool {
    forall|j: int, xx: int|
        0 <= j < hw && x0 <= xx < x1 ==> #[trigger] t.id_at(xx, c + j) == floor_id
}

/// Some corridor of half-width `hw` crosses the region left to right.
pub open spec fn has_horizontal_corridor(
    t: &Tiles,
    floor_id: usize,
    hw: int,
    x0: int,
    x1: int,
    y0: int,
    y1: int,
) -> bool {
    exists|c: int|
        y0 + 1 <= c && c + hw <= y1 && #[trigger] horizontal_corridor_at(
            t,
            floor_id,
            hw,
            c,
            x0,
            x1,
        )
}

/// Some cell of the open region interior holds floor.
pub open spec fn has_floor_cell(
    t: &Tiles,
    floor_id: usize,
    x0: int,
    x1: int,
    y0: int,
    y1: int,
) -> bool {
    exists|cx: int, cy: int|
        x0 <= cx < x1 && y0 <= cy < y1 && #[trigger] t.id_at(cx, cy) == floor_id
}

/// A floor cell in the open interior of the leaf region survives a rooms
/// pass along any side: the pass writes doors only onto its wall line, which
/// lies outside the interior.
proof fn leaf_floor_preserved(
    pre: &Tiles,
    cur: &Tiles,
    side: Side,
    x0v: int,
    x1v: int,
    y0v: int,
    y1v: int,
    x0: int,
    x1: int,
    y0: int,
    y1: int,
    floor_id: usize,
    door_id: usize,
)
    requires
        has_floor_cell(pre, floor_id, x0, x1, y0, y1),
        0 <= x0,
        0 <= y0,
        x1 <= pre.spec_width(),
        y1 <= pre.spec_height(),
        x0 <= x0v,
        x1v <= x1,
        y0 <= y0v,
        y1v <= y1,
        match side {
            Side::Top => y0v == y0,
            Side::Bottom => y1v == y1,
            Side::Left => x0v == x0,
            Side::Right => x1v == x1,
        },
        forall|cx: int, cy: int|
            0 <= cx < pre.spec_width() && 0 <= cy < pre.spec_height() ==> #[trigger] cur.id_at(
                cx,
                cy,
            ) == pre.id_at(cx, cy) || cur.id_at(cx, cy) == floor_id || (cur.id_at(cx, cy)
                == door_id && side_line(
                side,
                x0v,
                x1v,
                y0v,
                y1v,
                cx,
                cy,
            )),
        floor_id != door_id,
    ensures
        has_floor_cell(cur, floor_id, x0, x1, y0, y1),
{
    let (wx, wy) = choose|wx: int, wy: int|
        x0 <= wx < x1 && y0 <= wy < y1 && #[trigger] pre.id_at(wx, wy) == floor_id;
    assert(!side_line(side, x0v, x1v, y0v, y1v, wx, wy));
    assert(cur.id_at(wx, wy) == floor_id);
}

/// Samples a coordinate from the inclusive range with a center-peaked
/// (triangular) distribution, biasing corridors toward the middle of their
/// region: the mean of two independent uniform draws.
fn triangular(rng: &mut GameRng, lo: usize, hi: usize) -> (r: usize)
    requires
        lo <= hi,
        hi <= i32::MAX,
    ensures
        lo <= r <= hi,
{
    let a = rng.range(lo, hi);
    let b = rng.range(lo, hi);
    (a + b) / 2
}

/// One step of the recursive partition over the region `[x0, x1) x [y0, y1)`
/// (in practice the region's closed write box is `[x0-1, x1] x [y0-1, y1]`).
/// While `depth > 0` it carves a corridor across the region at a sampled
/// coordinate, places door-or-floor caps at the corridor's two ends, and
/// recurses into the two halves with the axis flipped; at `depth == 0` it
/// lines rooms against three or four randomly chosen sides. A region too
/// small for a corridor plus two rooms is left untouched.
///
/// The contract carries the carve-order regression guarantee: the pass
/// writes only floor and door tiles, only inside the region's box, and a
/// cell that already holds a door is never overwritten — doors once carved
/// survive the whole recursion.
#[verifier::rlimit(100)]
pub fn create(
    level: &mut Level,
    cat: &MapInfo,
    rng: &mut GameRng,
    depth: usize,
    minr: i32,
    xaxis: bool,
    x0: usize,
    x1: usize,
    y0: usize,
    y1: usize,
    floor_id: usize,
    door_id: usize,
)
    requires
        old(level).map_wf(cat),
        1 <= x0,
        1 <= y0,
        x0 <= x1 + 1,
        y0 <= y1 + 1,
        x1 < old(level).width,
        y1 < old(level).height,
        floor_id < cat.tiles@.len(),
        door_id < cat.tiles@.len(),
        floor_id != door_id,
        minr >= 1,
        forall|cx: int, cy: int|
            x0 - 1 <= cx <= x1 && y0 - 1 <= cy <= y1 ==> #[trigger] old(level).tiles.id_at(cx, cy)
                != door_id,
    ensures
        final(level).map_wf(cat),
        final(level).width == old(level).width,
        final(level).height == old(level).height,
        final(level).seen == old(level).seen,
        final(level).monsters == old(level).monsters,
        forall|cx: int, cy: int|
            0 <= cx < old(level).width && 0 <= cy < old(level).height
                ==> #[trigger] final(level).tiles.fov_at(cx, cy) == old(level).tiles.fov_at(cx, cy),
        forall|cx: int, cy: int|
            0 <= cx < old(level).width && 0 <= cy < old(level).height && !(x0 - 1 <= cx <= x1 && y0
                - 1 <= cy <= y1) ==> #[trigger] final(level).tiles.id_at(cx, cy) == old(
                level,
            ).tiles.id_at(cx, cy),
        forall|cx: int, cy: int|
            0 <= cx < old(level).width && 0 <= cy < old(level).height
                ==> #[trigger] final(level).tiles.id_at(cx, cy) == old(level).tiles.id_at(cx, cy)
                || final(level).tiles.id_at(cx, cy) == floor_id || final(level).tiles.id_at(cx, cy)
                == door_id,
        forall|cx: int, cy: int|
            0 <= cx < old(level).width && 0 <= cy < old(level).height && old(level).tiles.id_at(
                cx,
                cy,
            ) == door_id ==> #[trigger] final(level).tiles.id_at(cx, cy) == door_id,
        region_too_small(depth as int, x0 as int, x1 as int, y0 as int, y1 as int)
            ==> *final(level) == *old(level),
        (!region_too_small(depth as int, x0 as int, x1 as int, y0 as int, y1 as int) && depth > 0
            && xaxis) ==> has_vertical_corridor(
            &final(level).tiles,
            floor_id,
            depth as int / 2 + 1,
            x0 as int,
            x1 as int,
            y0 as int,
            y1 as int,
        ),
        (!region_too_small(depth as int, x0 as int, x1 as int, y0 as int, y1 as int) && depth > 0
            && !xaxis) ==> has_horizontal_corridor(
            &final(level).tiles,
            floor_id,
            depth as int / 2 + 1,
            x0 as int,
            x1 as int,
            y0 as int,
            y1 as int,
        ),
        (!region_too_small(depth as int, x0 as int, x1 as int, y0 as int, y1 as int) && depth == 0
            && x0 + minr <= x1 && y0 + minr <= y1 && x0 != 1 && y0 != 1 && y0 != old(level).height
            - 2 && x0 != old(level).width - 2) ==> has_floor_cell(
            &final(level).tiles,
            floor_id,
            x0 as int,
            x1 as int,
            y0 as int,
            y1 as int,
        ),
    decreases depth,
{
    let hw = depth / 2 + 1;
    if x1 < hw || x0 + 1 > x1 - hw || y1 < hw || y0 + 1 > y1 - hw {
        return;
    }
    if depth > 0 {
        if xaxis {
            let x = triangular(rng, x0 + 1, x1 - hw);
            let d1 = if rng.coin() {
                door_id
            } else {
                floor_id
            };
            let d2 = if rng.coin() {
                door_id
            } else {
                floor_id
            };
            let mut i: usize = 0;
            while i < hw
                invariant
                    level.map_wf(cat),
                    level.width == old(level).width,
                    level.height == old(level).height,
                    level.seen == old(level).seen,
                    level.monsters == old(level).monsters,
                    floor_id < cat.tiles@.len(),
                    door_id < cat.tiles@.len(),
                    d1 == floor_id || d1 == door_id,
                    d2 == floor_id || d2 == door_id,
                    i <= hw,
                    1 <= x0,
                    1 <= y0,
                    y0 < y1,
                    x0 + 1 <= x && x + hw <= x1,
                    x1 < old(level).width,
                    y1 < old(level).height,
                    forall|cx: int, cy: int|
                        0 <= cx < old(level).width && 0 <= cy < old(level).height
                            ==> #[trigger] level.tiles.fov_at(cx, cy) == old(level).tiles.fov_at(
                            cx,
                            cy,
                        ),
                    forall|cx: int, cy: int|
                        0 <= cx < old(level).width && 0 <= cy < old(level).height
                            ==> #[trigger] level.tiles.id_at(cx, cy) == {
                            if cy == y0 - 1 && x <= cx < x + i {
                                d1 as int
                            } else if cy == y1 && x <= cx < x + i {
                                d2 as int
                            } else {
                                old(level).tiles.id_at(cx, cy) as int
                            }
                        },
                decreases hw - i,
            {
                level.tiles.set(x + i, y0 - 1, d1, cat);
                level.tiles.set(x + i, y1, d2, cat);
                i += 1;
            }
            let mut yy = y0;
            while yy < y1
                invariant
                    level.map_wf(cat),
                    level.width == old(level).width,
                    level.height == old(level).height,
                    level.seen == old(level).seen,
                    level.monsters == old(level).monsters,
                    floor_id < cat.tiles@.len(),
                    door_id < cat.tiles@.len(),
                    d1 == floor_id || d1 == door_id,
                    d2 == floor_id || d2 == door_id,
                    1 <= x0,
                    1 <= y0,
                    y0 <= yy <= y1,
                    y0 < y1,
                    x0 + 1 <= x && x + hw <= x1,
                    x1 < old(level).width,
                    y1 < old(level).height,
                    forall|cx: int, cy: int|
                        0 <= cx < old(level).width && 0 <= cy < old(level).height
                            ==> #[trigger] level.tiles.fov_at(cx, cy) == old(level).tiles.fov_at(
                            cx,
                            cy,
                        ),
                    forall|cx: int, cy: int|
                        0 <= cx < old(level).width && 0 <= cy < old(level).height
                            ==> #[trigger] level.tiles.id_at(cx, cy) == {
                            if cy == y0 - 1 && x <= cx < x + hw {
                                d1 as int
                            } else if cy == y1 && x <= cx < x + hw {
                                d2 as int
                            } else if x <= cx < x + hw && y0 <= cy < yy {
                                floor_id as int
                            } else {
                                old(level).tiles.id_at(cx, cy) as int
                            }
                        },
                decreases y1 - yy,
            {
                let mut j: usize = 0;
                while j < hw
                    invariant
                        level.map_wf(cat),
                        level.width == old(level).width,
                        level.height == old(level).height,
                        level.seen == old(level).seen,
                        level.monsters == old(level).monsters,
                        floor_id < cat.tiles@.len(),
                        door_id < cat.tiles@.len(),
                        d1 == floor_id || d1 == door_id,
                        d2 == floor_id || d2 == door_id,
                        1 <= x0,
                        1 <= y0,
                        j <= hw,
                        y0 <= yy < y1,
                        y0 < y1,
                        x0 + 1 <= x && x + hw <= x1,
                        x1 < old(level).width,
                        y1 < old(level).height,
                        forall|cx: int, cy: int|
                            0 <= cx < old(level).width && 0 <= cy < old(level).height
                                ==> #[trigger] level.tiles.fov_at(cx, cy) == old(
                                level,
                            ).tiles.fov_at(cx, cy),
                        forall|cx: int, cy: int|
                            0 <= cx < old(level).width && 0 <= cy < old(level).height
                                ==> #[trigger] level.tiles.id_at(cx, cy) == {
                                if cy == y0 - 1 && x <= cx < x + hw {
                                    d1 as int
                                } else if cy == y1 && x <= cx < x + hw {
                                    d2 as int
                                } else if x <= cx < x + hw && y0 <= cy < yy {
                                    floor_id as int
                                } else if cy == yy && x <= cx < x + j {
                                    floor_id as int
                                } else {
                                    old(level).tiles.id_at(cx, cy) as int
                                }
                            },
                    decreases hw - j,
                {
                    level.tiles.set(x + j, yy, floor_id, cat);
                    j += 1;
                }
                yy += 1;
            }
            let ghost mid = *level;
            create(
                level,
                cat,
                rng,
                depth - 1,
                minr,
                false,
                x0,
                x - 1,
                y0,
                y1,
                floor_id,
                door_id,
            );
            let ghost mid2 = *level;
            proof {
                assert forall|cx: int, cy: int|
                    x + hw + 1 - 1 <= cx <= x1 && y0 - 1 <= cy <= y1 implies #[trigger] level.tiles.id_at(
                    cx,
                    cy,
                ) != door_id by {
                    assert(mid2.tiles.id_at(cx, cy) == mid.tiles.id_at(cx, cy));
                    assert(mid.tiles.id_at(cx, cy) == old(level).tiles.id_at(cx, cy));
                }
            }
            create(
                level,
                cat,
                rng,
                depth - 1,
                minr,
                false,
                x + hw + 1,
                x1,
                y0,
                y1,
                floor_id,
                door_id,
            );
            proof {
                assert forall|cx: int, cy: int|
                    0 <= cx < old(level).width && 0 <= cy < old(level).height && !(x0 - 1 <= cx
                        <= x1 && y0 - 1 <= cy <= y1) implies #[trigger] level.tiles.id_at(cx, cy)
                    == old(level).tiles.id_at(cx, cy) by {
                    assert(mid2.tiles.id_at(cx, cy) == mid.tiles.id_at(cx, cy));
                    assert(mid.tiles.id_at(cx, cy) == old(level).tiles.id_at(cx, cy));
                }
                assert forall|cx: int, cy: int|
                    0 <= cx < old(level).width && 0 <= cy < old(level).height && old(
                        level,
                    ).tiles.id_at(cx, cy) == door_id implies #[trigger] level.tiles.id_at(cx, cy)
                    == door_id by {
                    assert(mid2.tiles.id_at(cx, cy) == mid.tiles.id_at(cx, cy));
                    assert(mid.tiles.id_at(cx, cy) == old(level).tiles.id_at(cx, cy));
                }
                assert forall|cx: int, cy: int|
                    0 <= cx < old(level).width && 0 <= cy < old(level).height implies
                    #[trigger] level.tiles.id_at(cx, cy) == old(level).tiles.id_at(cx, cy)
                        || level.tiles.id_at(cx, cy) == floor_id || level.tiles.id_at(cx, cy)
                        == door_id by {
                    assert(mid2.tiles.id_at(cx, cy) == mid.tiles.id_at(cx, cy)
                        || level.tiles.id_at(cx, cy) == mid2.tiles.id_at(cx, cy)
                        || level.tiles.id_at(cx, cy) == floor_id || level.tiles.id_at(cx, cy)
                        == door_id || mid2.tiles.id_at(cx, cy) == floor_id || mid2.tiles.id_at(
                        cx,
                        cy,
                    ) == door_id);
                }
                assert forall|j: int, yy: int| 0 <= j < hw && y0 <= yy < y1 implies
                    #[trigger] level.tiles.id_at(x + j, yy) == floor_id by {
                    assert(mid.tiles.id_at(x + j, yy) == floor_id);
                    assert(mid2.tiles.id_at(x + j, yy) == mid.tiles.id_at(x + j, yy));
                    assert(level.tiles.id_at(x + j, yy) == mid2.tiles.id_at(x + j, yy));
                }
                assert(vertical_corridor_at(
                    &level.tiles,
                    floor_id,
                    hw as int,
                    x as int,
                    y0 as int,
                    y1 as int,
                ));
                assert(has_vertical_corridor(
                    &level.tiles,
                    floor_id,
                    hw as int,
                    x0 as int,
                    x1 as int,
                    y0 as int,
                    y1 as int,
                ));
            }
        } else {
            let y = triangular(rng, y0 + 1, y1 - hw);
            let d1 = if rng.coin() {
                door_id
            } else {
                floor_id
            };
            let d2 = if rng.coin() {
                door_id
            } else {
                floor_id
            };
            let mut i: usize = 0;
            while i < hw
                invariant
                    level.map_wf(cat),
                    level.width == old(level).width,
                    level.height == old(level).height,
                    level.seen == old(level).seen,
                    level.monsters == old(level).monsters,
                    floor_id < cat.tiles@.len(),
                    door_id < cat.tiles@.len(),
                    d1 == floor_id || d1 == door_id,
                    d2 == floor_id || d2 == door_id,
                    i <= hw,
                    1 <= x0,
                    1 <= y0,
                    x0 < x1,
                    y0 + 1 <= y && y + hw <= y1,
                    x1 < old(level).width,
                    y1 < old(level).height,
                    forall|cx: int, cy: int|
                        0 <= cx < old(level).width && 0 <= cy < old(level).height
                            ==> #[trigger] level.tiles.fov_at(cx, cy) == old(level).tiles.fov_at(
                            cx,
                            cy,
                        ),
                    forall|cx: int, cy: int|
                        0 <= cx < old(level).width && 0 <= cy < old(level).height
                            ==> #[trigger] level.tiles.id_at(cx, cy) == {
                            if cx == x0 - 1 && y <= cy < y + i {
                                d1 as int
                            } else if cx == x1 && y <= cy < y + i {
                                d2 as int
                            } else {
                                old(level).tiles.id_at(cx, cy) as int
                            }
                        },
                decreases hw - i,
            {
                level.tiles.set(x0 - 1, y + i, d1, cat);
                level.tiles.set(x1, y + i, d2, cat);
                i += 1;
            }
            let mut xx = x0;
            while xx < x1
                invariant
                    level.map_wf(cat),
                    level.width == old(level).width,
                    level.height == old(level).height,
                    level.seen == old(level).seen,
                    level.monsters == old(level).monsters,
                    floor_id < cat.tiles@.len(),
                    door_id < cat.tiles@.len(),
                    d1 == floor_id || d1 == door_id,
                    d2 == floor_id || d2 == door_id,
                    1 <= x0,
                    1 <= y0,
                    x0 <= xx <= x1,
                    x0 < x1,
                    y0 + 1 <= y && y + hw <= y1,
                    x1 < old(level).width,
                    y1 < old(level).height,
                    forall|cx: int, cy: int|
                        0 <= cx < old(level).width && 0 <= cy < old(level).height
                            ==> #[trigger] level.tiles.fov_at(cx, cy) == old(level).tiles.fov_at(
                            cx,
                            cy,
                        ),
                    forall|cx: int, cy: int|
                        0 <= cx < old(level).width && 0 <= cy < old(level).height
                            ==> #[trigger] level.tiles.id_at(cx, cy) == {
                            if cx == x0 - 1 && y <= cy < y + hw {
                                d1 as int
                            } else if cx == x1 && y <= cy < y + hw {
                                d2 as int
                            } else if y <= cy < y + hw && x0 <= cx < xx {
                                floor_id as int
                            } else {
                                old(level).tiles.id_at(cx, cy) as int
                            }
                        },
                decreases x1 - xx,
            {
                let mut j: usize = 0;
                while j < hw
                    invariant
                        level.map_wf(cat),
                        level.width == old(level).width,
                        level.height == old(level).height,
                        level.seen == old(level).seen,
                        level.monsters == old(level).monsters,
                        floor_id < cat.tiles@.len(),
                        door_id < cat.tiles@.len(),
                        d1 == floor_id || d1 == door_id,
                        d2 == floor_id || d2 == door_id,
                        1 <= x0,
                        1 <= y0,
                        j <= hw,
                        x0 <= xx < x1,
                        x0 < x1,
                        y0 + 1 <= y && y + hw <= y1,
                        x1 < old(level).width,
                        y1 < old(level).height,
                        forall|cx: int, cy: int|
                            0 <= cx < old(level).width && 0 <= cy < old(level).height
                                ==> #[trigger] level.tiles.fov_at(cx, cy) == old(
                                level,
                            ).tiles.fov_at(cx, cy),
                        forall|cx: int, cy: int|
                            0 <= cx < old(level).width && 0 <= cy < old(level).height
                                ==> #[trigger] level.tiles.id_at(cx, cy) == {
                                if cx == x0 - 1 && y <= cy < y + hw {
                                    d1 as int
                                } else if cx == x1 && y <= cy < y + hw {
                                    d2 as int
                                } else if y <= cy < y + hw && x0 <= cx < xx {
                                    floor_id as int
                                } else if cx == xx && y <= cy < y + j {
                                    floor_id as int
                                } else {
                                    old(level).tiles.id_at(cx, cy) as int
                                }
                            },
                    decreases hw - j,
                {
                    level.tiles.set(xx, y + j, floor_id, cat);
                    j += 1;
                }
                xx += 1;
            }
            let ghost mid = *level;
            create(
                level,
                cat,
                rng,
                depth - 1,
                minr,
                true,
                x0,
                x1,
                y0,
                y - 1,
                floor_id,
                door_id,
            );
            let ghost mid2 = *level;
            proof {
                assert forall|cx: int, cy: int|
                    x0 - 1 <= cx <= x1 && y + hw + 1 - 1 <= cy <= y1 implies #[trigger] level.tiles.id_at(
                    cx,
                    cy,
                ) != door_id by {
                    assert(mid2.tiles.id_at(cx, cy) == mid.tiles.id_at(cx, cy));
                    assert(mid.tiles.id_at(cx, cy) == old(level).tiles.id_at(cx, cy));
                }
            }
            create(
                level,
                cat,
                rng,
                depth - 1,
                minr,
                true,
                x0,
                x1,
                y + hw + 1,
                y1,
                floor_id,
                door_id,
            );
            proof {
                assert forall|cx: int, cy: int|
                    0 <= cx < old(level).width && 0 <= cy < old(level).height && !(x0 - 1 <= cx
                        <= x1 && y0 - 1 <= cy <= y1) implies #[trigger] level.tiles.id_at(cx, cy)
                    == old(level).tiles.id_at(cx, cy) by {
                    assert(mid2.tiles.id_at(cx, cy) == mid.tiles.id_at(cx, cy));
                    assert(mid.tiles.id_at(cx, cy) == old(level).tiles.id_at(cx, cy));
                }
                assert forall|cx: int, cy: int|
                    0 <= cx < old(level).width && 0 <= cy < old(level).height && old(
                        level,
                    ).tiles.id_at(cx, cy) == door_id implies #[trigger] level.tiles.id_at(cx, cy)
                    == door_id by {
                    assert(mid2.tiles.id_at(cx, cy) == mid.tiles.id_at(cx, cy));
                    assert(mid.tiles.id_at(cx, cy) == old(level).tiles.id_at(cx, cy));
                }
                assert forall|cx: int, cy: int|
                    0 <= cx < old(level).width && 0 <= cy < old(level).height implies
                    #[trigger] level.tiles.id_at(cx, cy) == old(level).tiles.id_at(cx, cy)
                        || level.tiles.id_at(cx, cy) == floor_id || level.tiles.id_at(cx, cy)
                        == door_id by {
                    assert(mid2.tiles.id_at(cx, cy) == mid.tiles.id_at(cx, cy)
                        || level.tiles.id_at(cx, cy) == mid2.tiles.id_at(cx, cy)
                        || level.tiles.id_at(cx, cy) == floor_id || level.tiles.id_at(cx, cy)
                        == door_id || mid2.tiles.id_at(cx, cy) == floor_id || mid2.tiles.id_at(
                        cx,
                        cy,
                    ) == door_id);
                }
                assert forall|j: int, xx: int| 0 <= j < hw && x0 <= xx < x1 implies
                    #[trigger] level.tiles.id_at(xx, y + j) == floor_id by {
                    assert(mid.tiles.id_at(xx, y + j) == floor_id);
                    assert(mid2.tiles.id_at(xx, y + j) == mid.tiles.id_at(xx, y + j));
                    assert(level.tiles.id_at(xx, y + j) == mid2.tiles.id_at(xx, y + j));
                }
                assert(horizontal_corridor_at(
                    &level.tiles,
                    floor_id,
                    hw as int,
                    y as int,
                    x0 as int,
                    x1 as int,
                ));
                assert(has_horizontal_corridor(
                    &level.tiles,
                    floor_id,
                    hw as int,
                    x0 as int,
                    x1 as int,
                    y0 as int,
                    y1 as int,
                ));
            }
        }
    } else {
        let minr_us = minr as usize;
        let nsides = rng.range(3, 4);
        let order = rng.pick_distinct(4, nsides);
        let mut x0v = x0;
        let mut x1v = x1;
        let mut y0v = y0;
        let mut y1v = y1;
        let ghost mut done0: bool = false;
        let ghost mut done1: bool = false;
        let ghost mut done2: bool = false;
        let ghost mut done3: bool = false;
        let mut oi: usize = 0;
        while oi < order.len()
            invariant
                level.map_wf(cat),
                level.width == old(level).width,
                level.height == old(level).height,
                level.seen == old(level).seen,
                level.monsters == old(level).monsters,
                floor_id < cat.tiles@.len(),
                door_id < cat.tiles@.len(),
                floor_id != door_id,
                1 <= minr,
                minr_us == minr,
                minr_us <= i32::MAX,
                oi <= order@.len(),
                forall|k: int| 0 <= k < order@.len() ==> #[trigger] order@[k] < 4,
                forall|k1: int, k2: int|
                    0 <= k1 < k2 < order@.len() ==> order@[k1] != order@[k2],
                1 <= x0 && 1 <= y0,
                x0 + 2 <= x1,
                y0 + 2 <= y1,
                x1 < old(level).width,
                y1 < old(level).height,
                x0 <= x0v && x1v <= x1 && y0 <= y0v && y1v <= y1,
                x0v <= x1v + 1,
                y0v <= y1v + 1,
                done0 ==> exists|j: int| 0 <= j < oi && order@[j] == 0,
                done1 ==> exists|j: int| 0 <= j < oi && order@[j] == 1,
                done2 ==> exists|j: int| 0 <= j < oi && order@[j] == 2,
                done3 ==> exists|j: int| 0 <= j < oi && order@[j] == 3,
                !done0 ==> y0v == y0,
                !done1 ==> y1v == y1,
                !done2 ==> x0v == x0,
                !done3 ==> x1v == x1,
                forall|cx: int, cy: int|
                    x0 - 1 <= cx <= x1 && y0 - 1 <= cy <= y1 ==> #[trigger] old(
                        level,
                    ).tiles.id_at(cx, cy) != door_id,
                forall|cx: int, cy: int|
                    0 <= cx < old(level).width && 0 <= cy < old(level).height
                        ==> #[trigger] level.tiles.fov_at(cx, cy) == old(level).tiles.fov_at(
                        cx,
                        cy,
                    ),
                forall|cx: int, cy: int|
                    0 <= cx < old(level).width && 0 <= cy < old(level).height && !(x0 - 1 <= cx
                        <= x1 && y0 - 1 <= cy <= y1) ==> #[trigger] level.tiles.id_at(cx, cy)
                        == old(level).tiles.id_at(cx, cy),
                forall|cx: int, cy: int|
                    0 <= cx < old(level).width && 0 <= cy < old(level).height
                        ==> #[trigger] level.tiles.id_at(cx, cy) == old(level).tiles.id_at(cx, cy)
                        || level.tiles.id_at(cx, cy) == floor_id || (level.tiles.id_at(cx, cy)
                        == door_id && (cy == y0 - 1 || cy == y1 || cx == x0 - 1 || cx == x1)),
                !done0 ==> forall|cx: int, cy: int|
                    0 <= cx < old(level).width && 0 <= cy < old(level).height && cy == y0 - 1
                        ==> #[trigger] level.tiles.id_at(cx, cy) == old(level).tiles.id_at(cx, cy),
                !done1 ==> forall|cx: int, cy: int|
                    0 <= cx < old(level).width && 0 <= cy < old(level).height && cy == y1
                        ==> #[trigger] level.tiles.id_at(cx, cy) == old(level).tiles.id_at(cx, cy),
                !done2 ==> forall|cx: int, cy: int|
                    0 <= cx < old(level).width && 0 <= cy < old(level).height && cx == x0 - 1
                        ==> #[trigger] level.tiles.id_at(cx, cy) == old(level).tiles.id_at(cx, cy),
                !done3 ==> forall|cx: int, cy: int|
                    0 <= cx < old(level).width && 0 <= cy < old(level).height && cx == x1
                        ==> #[trigger] level.tiles.id_at(cx, cy) == old(level).tiles.id_at(cx, cy),
                (x0 + minr <= x1 && y0 + minr <= y1 && x0 != 1 && y0 != 1 && y0 != old(
                    level,
                ).height - 2 && x0 != old(level).width - 2 && oi >= 1) ==> has_floor_cell(
                    &level.tiles,
                    floor_id,
                    x0 as int,
                    x1 as int,
                    y0 as int,
                    y1 as int,
                ),
            decreases order@.len() - oi,
        {
            let s = order[oi];
            let ghost pre = *level;
            if s == 0 {
                if y0v != 1 && y1v >= y0v && y1v - y0v >= minr_us {
                    proof {
                        if done0 {
                            let j = choose|j: int| 0 <= j < oi && order@[j] == 0;
                            assert(order@[j] != order@[oi as int]);
                            assert(false);
                        }
                    }
                    let shrink = carve_side(
                        level,
                        cat,
                        rng,
                        Side::Top,
                        x0v,
                        x1v,
                        y0v,
                        y1v,
                        minr_us,
                        floor_id,
                        door_id,
                    );
                    proof {
                        if x0 + minr <= x1 && y0 + minr <= y1 && x0 != 1 && y0 != 1
                            && y0 != old(level).height - 2 && x0 != old(level).width - 2 {
                            if oi == 0 {
                                assert(has_floor_cell(
                                    &level.tiles,
                                    floor_id,
                                    x0 as int,
                                    x1 as int,
                                    y0 as int,
                                    y1 as int,
                                ));
                            } else {
                                leaf_floor_preserved(
                                    &pre.tiles,
                                    &level.tiles,
                                    Side::Top,
                                    x0v as int,
                                    x1v as int,
                                    y0v as int,
                                    y1v as int,
                                    x0 as int,
                                    x1 as int,
                                    y0 as int,
                                    y1 as int,
                                    floor_id,
                                    door_id,
                                );
                            }
                        }
                    }
                    y0v += shrink;
                    proof {
                        done0 = true;
                    }
                }
            } else if s == 1 {
                if y0v != level.height - 2 && y1v >= y0v && y1v - y0v >= minr_us {
                    proof {
                        if done1 {
                            let j = choose|j: int| 0 <= j < oi && order@[j] == 1;
                            assert(order@[j] != order@[oi as int]);
                            assert(false);
                        }
                    }
                    let shrink = carve_side(
                        level,
                        cat,
                        rng,
                        Side::Bottom,
                        x0v,
                        x1v,
                        y0v,
                        y1v,
                        minr_us,
                        floor_id,
                        door_id,
                    );
                    proof {
                        if x0 + minr <= x1 && y0 + minr <= y1 && x0 != 1 && y0 != 1
                            && y0 != old(level).height - 2 && x0 != old(level).width - 2 {
                            if oi == 0 {
                                assert(has_floor_cell(
                                    &level.tiles,
                                    floor_id,
                                    x0 as int,
                                    x1 as int,
                                    y0 as int,
                                    y1 as int,
                                ));
                            } else {
                                leaf_floor_preserved(
                                    &pre.tiles,
                                    &level.tiles,
                                    Side::Bottom,
                                    x0v as int,
                                    x1v as int,
                                    y0v as int,
                                    y1v as int,
                                    x0 as int,
                                    x1 as int,
                                    y0 as int,
                                    y1 as int,
                                    floor_id,
                                    door_id,
                                );
                            }
                        }
                    }
                    y1v -= shrink;
                    proof {
                        done1 = true;
                    }
                }
            } else if s == 2 {
                if x0v != 1 && x1v >= x0v && x1v - x0v >= minr_us {
                    proof {
                        if done2 {
                            let j = choose|j: int| 0 <= j < oi && order@[j] == 2;
                            assert(order@[j] != order@[oi as int]);
                            assert(false);
                        }
                    }
                    let shrink = carve_side(
                        level,
                        cat,
                        rng,
                        Side::Left,
                        x0v,
                        x1v,
                        y0v,
                        y1v,
                        minr_us,
                        floor_id,
                        door_id,
                    );
                    proof {
                        if x0 + minr <= x1 && y0 + minr <= y1 && x0 != 1 && y0 != 1
                            && y0 != old(level).height - 2 && x0 != old(level).width - 2 {
                            if oi == 0 {
                                assert(has_floor_cell(
                                    &level.tiles,
                                    floor_id,
                                    x0 as int,
                                    x1 as int,
                                    y0 as int,
                                    y1 as int,
                                ));
                            } else {
                                leaf_floor_preserved(
                                    &pre.tiles,
                                    &level.tiles,
                                    Side::Left,
                                    x0v as int,
                                    x1v as int,
                                    y0v as int,
                                    y1v as int,
                                    x0 as int,
                                    x1 as int,
                                    y0 as int,
                                    y1 as int,
                                    floor_id,
                                    door_id,
                                );
                            }
                        }
                    }
                    x0v += shrink;
                    proof {
                        done2 = true;
                    }
                }
            } else {
                if x0v != level.width - 2 && x1v >= x0v && x1v - x0v >= minr_us {
                    proof {
                        if done3 {
                            let j = choose|j: int| 0 <= j < oi && order@[j] == 3;
                            assert(order@[j] != order@[oi as int]);
                            assert(false);
                        }
                    }
                    let shrink = carve_side(
                        level,
                        cat,
                        rng,
                        Side::Right,
                        x0v,
                        x1v,
                        y0v,
                        y1v,
                        minr_us,
                        floor_id,
                        door_id,
                    );
                    proof {
                        if x0 + minr <= x1 && y0 + minr <= y1 && x0 != 1 && y0 != 1
                            && y0 != old(level).height - 2 && x0 != old(level).width - 2 {
                            if oi == 0 {
                                assert(has_floor_cell(
                                    &level.tiles,
                                    floor_id,
                                    x0 as int,
                                    x1 as int,
                                    y0 as int,
                                    y1 as int,
                                ));
                            } else {
                                leaf_floor_preserved(
                                    &pre.tiles,
                                    &level.tiles,
                                    Side::Right,
                                    x0v as int,
                                    x1v as int,
                                    y0v as int,
                                    y1v as int,
                                    x0 as int,
                                    x1 as int,
                                    y0 as int,
                                    y1 as int,
                                    floor_id,
                                    door_id,
                                );
                            }
                        }
                    }
                    x1v -= shrink;
                    proof {
                        done3 = true;
                    }
                }
            }
            oi += 1;
        }
    }
}

/// Carves nothing: leaves the level as its uniform fill, minus a plain
/// floored interior. A trivial generation strategy.
pub struct Empty;

impl Generator for Empty {
    fn generate(&self, game: &mut Game, level: &mut Level) -> (r: Result<(), MissingTileError>)
        ensures
            r is Err <==> !old(game).info.map.has_name("floor"@),
            final(level).monsters@ == old(level).monsters@,
            r is Ok ==> exists|fid: usize|
                {
                    &&& fid < old(game).info.map.tiles@.len()
                    &&& (#[trigger] old(game).info.map.tiles@[fid as int]).name@ == "floor"@
                    &&& forall|cx: int, cy: int|
                        1 <= cx < old(level).width - 1 && 1 <= cy < old(level).height - 1
                            ==> #[trigger] final(level).tiles.id_at(cx, cy) == fid
                    &&& forall|cx: int, cy: int|
                        0 <= cx < old(level).width && 0 <= cy < old(level).height && !(1 <= cx
                            < old(level).width - 1 && 1 <= cy < old(level).height - 1)
                            ==> #[trigger] final(level).tiles.id_at(cx, cy) == old(
                            level,
                        ).tiles.id_at(cx, cy)
                },
    {
        let floor = match game.info.map.lookup("floor") {
            Ok(i) => i,
            Err(e) => {
                return Err(e);
            },
        };
        let xmax = level.width - 1;
        let ymax = level.height - 1;
        let mut x: usize = 1;
        while x < xmax
            invariant
                level.map_wf(&old(game).info.map),
                level.width == old(level).width,
                level.height == old(level).height,
                level.seen == old(level).seen,
                level.monsters == old(level).monsters,
                game.info == old(game).info,
                game.messages == old(game).messages,
                game.levels == old(game).levels,
                game.play_rng == old(game).play_rng,
                floor < old(game).info.map.tiles@.len(),
                old(game).info.map.tiles@[floor as int].name@ == "floor"@,
                xmax == old(level).width - 1,
                ymax == old(level).height - 1,
                1 <= x,
                x <= xmax || x == 1,
                forall|cx: int, cy: int|
                    0 <= cx < old(level).width && 0 <= cy < old(level).height
                        ==> #[trigger] level.tiles.id_at(cx, cy) == if 1 <= cx < x && 1 <= cy
                        < ymax {
                        floor as int
                    } else {
                        old(level).tiles.id_at(cx, cy) as int
                    },
            decreases xmax - x,
        {
            let mut y: usize = 1;
            while y < ymax
                invariant
                    level.map_wf(&old(game).info.map),
                    level.width == old(level).width,
                    level.height == old(level).height,
                    level.seen == old(level).seen,
                    level.monsters == old(level).monsters,
                    game.info == old(game).info,
                    game.messages == old(game).messages,
                    game.levels == old(game).levels,
                    game.play_rng == old(game).play_rng,
                    floor < old(game).info.map.tiles@.len(),
                    old(game).info.map.tiles@[floor as int].name@ == "floor"@,
                    xmax == old(level).width - 1,
                    ymax == old(level).height - 1,
                    1 <= x < xmax,
                    1 <= y,
                    y <= ymax || y == 1,
                    forall|cx: int, cy: int|
                        0 <= cx < old(level).width && 0 <= cy < old(level).height
                            ==> #[trigger] level.tiles.id_at(cx, cy) == if (1 <= cx < x && 1 <= cy
                            < ymax) || (cx == x && 1 <= cy < y) {
                            floor as int
                        } else {
                            old(level).tiles.id_at(cx, cy) as int
                        },
                decreases ymax - y,
            {
                level.tiles.set(x, y, floor, &game.info.map);
                y += 1;
            }
            proof {
                assert forall|cx: int, cy: int|
                    0 <= cx < old(level).width && 0 <= cy < old(level).height implies
                    #[trigger] level.tiles.id_at(cx, cy) == if 1 <= cx < x + 1 && 1 <= cy < ymax {
                    floor as int
                } else {
                    old(level).tiles.id_at(cx, cy) as int
                } by {}
            }
            x += 1;
        }
        proof {
            assert(old(game).info.map.tiles@[floor as int].name@ == "floor"@);
            assert forall|cx: int, cy: int|
                1 <= cx < old(level).width - 1 && 1 <= cy < old(level).height - 1 implies
                #[trigger] level.tiles.id_at(cx, cy) == floor by {}
            assert forall|cx: int, cy: int|
                0 <= cx < old(level).width && 0 <= cy < old(level).height && !(1 <= cx < old(
                    level,
                ).width - 1 && 1 <= cy < old(level).height - 1) implies #[trigger] level.tiles.id_at(
                cx,
                cy,
            ) == old(level).tiles.id_at(cx, cy) by {}
        }
        Ok(())
    }
}

/// The corridor-and-rooms strategy: a binary space partition `depth` levels
/// deep, with rooms of minimum dimension `minr` at the leaves, followed by
/// weighted random monster placement.
pub struct Hallways {
    minr: i32,
    depth: usize,
}

impl Hallways {
    /// A room dimension is at least one cell.
    #[verifier::type_invariant]
    pub closed spec fn ty_inv(self) -> bool {
        self.minr >= 1
    }

    pub closed spec fn spec_depth(self) -> usize {
        self.depth
    }

    pub closed spec fn spec_minr(self) -> i32 {
        self.minr
    }

    /// A generator splitting `depth` times with rooms no smaller than
    /// `minr`.
    pub fn new(depth: usize, minr: i32) -> (r: Hallways)
        requires
            minr >= 1,
        ensures
            r.spec_depth() == depth,
            r.spec_minr() == minr,
    {
        Hallways { depth, minr }
    }
}

impl Generator for Hallways {
    fn generate(&self, game: &mut Game, level: &mut Level) -> (r: Result<(), MissingTileError>)
        ensures
            r is Err <==> (!old(game).info.map.has_name("floor"@) || !old(game).info.map.has_name(
                "door"@,
            )),
            old(game).info.settings.map.place_attempts <= 0 ==> final(level).monsters@ == old(
                level,
            ).monsters@,
            old(game).info.settings.map.num_monsters == 0 ==> final(level).monsters@ == old(
                level,
            ).monsters@,
            final(level).monsters@.len() <= old(level).monsters@.len() + old(
                game,
            ).info.settings.map.num_monsters,
            forall|i: int|
                old(level).monsters@.len() <= i < final(level).monsters@.len() ==> old(
                    game,
                ).info.map.tiles@[final(level).tiles.id_at(
                    (#[trigger] final(level).monsters@[i]).pos.0 as int,
                    final(level).monsters@[i].pos.1 as int,
                ) as int].walkable,
            (r is Ok && self.spec_depth() > 0 && !region_too_small(
                self.spec_depth() as int,
                1,
                old(level).width - 1,
                1,
                old(level).height - 1,
            )) ==> exists|fid: usize|
                {
                    &&& fid < old(game).info.map.tiles@.len()
                    &&& (#[trigger] old(game).info.map.tiles@[fid as int]).name@ == "floor"@
                    &&& (has_vertical_corridor(
                        &final(level).tiles,
                        fid,
                        self.spec_depth() as int / 2 + 1,
                        1,
                        old(level).width - 1,
                        1,
                        old(level).height - 1,
                    ) || has_horizontal_corridor(
                        &final(level).tiles,
                        fid,
                        self.spec_depth() as int / 2 + 1,
                        1,
                        old(level).width - 1,
                        1,
                        old(level).height - 1,
                    ))
                },
    {
        proof {
            use_type_invariant(&*self);
        }
        let floor = match game.info.map.lookup("floor") {
            Ok(i) => i,
            Err(e) => {
                return Err(e);
            },
        };
        let door = match game.info.map.lookup("door") {
            Ok(i) => i,
            Err(e) => {
                return Err(e);
            },
        };
        proof {
            reveal_strlit("floor");
            reveal_strlit("door");
            assert("floor"@ != "door"@) by {
                assert("floor"@.len() == 5);
                assert("door"@.len() == 4);
            }
            assert(floor != door);
            assert forall|cx: int, cy: int|
                1 - 1 <= cx <= level.width - 1 && 1 - 1 <= cy <= level.height - 1 implies
                #[trigger] level.tiles.id_at(cx, cy) != door by {
                if level.tiles.id_at(cx, cy) == door {
                    assert(game.info.map.tiles@[level.tiles.id_at(cx, cy) as int].name@
                        != "door"@);
                }
            }
        }
        let xaxis = game.map_rng.coin();
        create(
            level,
            &game.info.map,
            &mut game.map_rng,
            self.depth,
            self.minr,
            xaxis,
            1,
            level.width - 1,
            1,
            level.height - 1,
            floor,
            door,
        );
        place_monsters(level, &game.info, &mut game.map_rng);
        Ok(())
    }
}

/// Weighted random monster placement: for each of the configured number of
/// monsters, up to `placeAttempts` cells are sampled uniformly; the first
/// walkable one receives a monster drawn from the catalog by weight, at full
/// template health. A monster whose attempts are exhausted is silently
/// skipped, a zero or negative attempt budget places nothing, and when every
/// cell of the level is walkable a positive budget seats every monster.
/// Termination is part of verification: the sampling is bounded by the two
/// loop measures, never an unbounded retry.
pub fn place_monsters(level: &mut Level, info: &GameInfo, rng: &mut GameRng)
    requires
        info.wf(),
        old(level).map_wf(&info.map),
        old(level).monsters_in_bounds(),
    ensures
        final(level).map_wf(&info.map),
        final(level).width == old(level).width,
        final(level).height == old(level).height,
        final(level).seen == old(level).seen,
        final(level).tiles == old(level).tiles,
        final(level).monsters_in_bounds(),
        final(level).monsters@.len() >= old(level).monsters@.len(),
        final(level).monsters@.len() <= old(level).monsters@.len()
            + info.settings.map.num_monsters,
        forall|i: int|
            0 <= i < old(level).monsters@.len() ==> #[trigger] final(level).monsters@[i] == old(
                level,
            ).monsters@[i],
        forall|i: int|
            old(level).monsters@.len() <= i < final(level).monsters@.len() ==> {
                let m = #[trigger] final(level).monsters@[i];
                &&& m.info < info.monster@.len()
                &&& m.hp == info.monster@[m.info as int].health
                &&& 0 <= m.pos.0 < old(level).width
                &&& 0 <= m.pos.1 < old(level).height
                &&& info.map.tiles@[old(level).tiles.id_at(m.pos.0 as int, m.pos.1 as int) as int].walkable
            },
        info.settings.map.place_attempts <= 0 ==> final(level).monsters@ == old(
            level,
        ).monsters@,
        info.settings.map.num_monsters == 0 ==> final(level).monsters@ == old(level).monsters@,
        (info.settings.map.place_attempts >= 1 && (forall|cx: int, cy: int|
            0 <= cx < old(level).width && 0 <= cy < old(level).height
                ==> info.map.tiles@[#[trigger] old(level).tiles.id_at(cx, cy) as int].walkable))
            ==> final(level).monsters@.len() == old(level).monsters@.len()
            + info.settings.map.num_monsters,
{
    let mcount = info.monster.len();
    let mut weights: Vec<u32> = Vec::new();
    let mut wi: usize = 0;
    while wi < mcount
        invariant
            wi <= mcount,
            mcount == info.monster@.len(),
            weights@.len() == wi,
            forall|j: int| 0 <= j < wi ==> weights@[j] == info.monster@[j].weight,
        decreases mcount - wi,
    {
        weights.push(info.monster[wi].weight);
        wi += 1;
    }
    proof {
        assert(weights@ =~= weight_seq(info.monster@));
    }
    let num = info.settings.map.num_monsters;
    let attempts = info.settings.map.place_attempts;
    let mut n: u32 = 0;
    while n < num
        invariant
            info.wf(),
            level.map_wf(&info.map),
            level.width == old(level).width,
            level.height == old(level).height,
            level.seen == old(level).seen,
            level.tiles == old(level).tiles,
            level.monsters_in_bounds(),
            weights@ == weight_seq(info.monster@),
            num == info.settings.map.num_monsters,
            attempts == info.settings.map.place_attempts,
            n <= num,
            level.monsters@.len() >= old(level).monsters@.len(),
            level.monsters@.len() <= old(level).monsters@.len() + n,
            forall|i: int|
                0 <= i < old(level).monsters@.len() ==> #[trigger] level.monsters@[i] == old(
                    level,
                ).monsters@[i],
            forall|i: int|
                old(level).monsters@.len() <= i < level.monsters@.len() ==> {
                    let m = #[trigger] level.monsters@[i];
                    &&& m.info < info.monster@.len()
                    &&& m.hp == info.monster@[m.info as int].health
                    &&& 0 <= m.pos.0 < old(level).width
                    &&& 0 <= m.pos.1 < old(level).height
                    &&& info.map.tiles@[old(level).tiles.id_at(
                        m.pos.0 as int,
                        m.pos.1 as int,
                    ) as int].walkable
                },
            attempts <= 0 ==> level.monsters@.len() == old(level).monsters@.len(),
            (attempts >= 1 && (forall|cx: int, cy: int|
                0 <= cx < old(level).width && 0 <= cy < old(level).height
                    ==> info.map.tiles@[#[trigger] old(level).tiles.id_at(
                    cx,
                    cy,
                ) as int].walkable)) ==> level.monsters@.len() == old(level).monsters@.len() + n,
        decreases num - n,
    {
        let ghost len0 = level.monsters@.len();
        let mut placed = false;
        let mut a: i32 = 0;
        while a < attempts && !placed
            invariant
                info.wf(),
                level.map_wf(&info.map),
                level.width == old(level).width,
                level.height == old(level).height,
                level.seen == old(level).seen,
                level.tiles == old(level).tiles,
                level.monsters_in_bounds(),
                weights@ == weight_seq(info.monster@),
                attempts == info.settings.map.place_attempts,
                0 <= a,
                !placed ==> level.monsters@.len() == len0,
                placed ==> level.monsters@.len() == len0 + 1,
                placed ==> a >= 1,
                placed ==> attempts >= 1,
                attempts <= 0 ==> len0 == old(level).monsters@.len(),
                len0 >= old(level).monsters@.len(),
                n < num,
                (attempts >= 1 && (forall|cx: int, cy: int|
                    0 <= cx < old(level).width && 0 <= cy < old(level).height
                        ==> info.map.tiles@[#[trigger] old(level).tiles.id_at(
                        cx,
                        cy,
                    ) as int].walkable)) ==> (placed || a == 0) && len0 == old(
                    level,
                ).monsters@.len() + n,
                forall|i: int|
                    0 <= i < old(level).monsters@.len() ==> #[trigger] level.monsters@[i] == old(
                        level,
                    ).monsters@[i],
                forall|i: int|
                    old(level).monsters@.len() <= i < level.monsters@.len() ==> {
                        let m = #[trigger] level.monsters@[i];
                        &&& m.info < info.monster@.len()
                        &&& m.hp == info.monster@[m.info as int].health
                        &&& 0 <= m.pos.0 < old(level).width
                        &&& 0 <= m.pos.1 < old(level).height
                        &&& info.map.tiles@[old(level).tiles.id_at(
                            m.pos.0 as int,
                            m.pos.1 as int,
                        ) as int].walkable
                    },
            decreases (if placed { 0int } else { 1int }), attempts - a,
        {
            let x = rng.range(0, level.width - 1);
            let y = rng.range(0, level.height - 1);
            let id = level.tiles.get(x, y);
            if info.map.tiles[id].walkable {
                proof {
                    let iw = choose|iw: int|
                        0 <= iw < info.monster@.len() && info.monster@[iw].weight > 0;
                    assert(weights@[iw] == info.monster@[iw].weight);
                }
                let widx = rng.weighted(&weights);
                let hp = info.monster[widx].health;
                level.monsters.push(
                    Monster { info: widx, pos: Point(x as i32, y as i32), hp },
                );
                placed = true;
            }
            a += 1;
        }
        n += 1;
    }
    proof {
        if attempts <= 0 || num == 0 {
            assert(level.monsters@ =~= old(level).monsters@);
        }
    }
}

impl Level {
    /// Builds a fresh level of the given dimensions, uniformly filled with
    /// the catalog's "wall" template, and hands it to the generation
    /// strategy `gen`. Fails exactly when a template name the strategy or
    /// the fill needs is absent from the catalog.
    pub fn generate<G: Generator>(width: usize, height: usize, game: &mut Game, gen: G) -> (r:
        Result<Level, MissingTileError>)
        requires
            old(game).info.wf(),
            1 <= width <= i32::MAX,
            1 <= height <= i32::MAX,
            width * height <= usize::MAX,
        ensures
            final(game).info == old(game).info,
            final(game).messages == old(game).messages,
            final(game).levels == old(game).levels,
            final(game).play_rng == old(game).play_rng,
            !old(game).info.map.has_name("wall"@) ==> r is Err,
            r matches Err(e) ==> !old(game).info.map.has_name(e.name@) && (e.name@ == "wall"@
                || e.name@ == "floor"@ || e.name@ == "door"@),
            r matches Ok(l) ==> exists|wid: usize|
                {
                    &&& wid < old(game).info.map.tiles@.len()
                    &&& (#[trigger] old(game).info.map.tiles@[wid as int]).name@ == "wall"@
                    &&& forall|cx: int, cy: int|
                        0 <= cx < width && 0 <= cy < height ==> #[trigger] l.tiles.id_at(cx, cy)
                            == wid || old(game).info.map.tiles@[l.tiles.id_at(cx, cy) as int].name@
                            == "floor"@ || old(game).info.map.tiles@[l.tiles.id_at(
                            cx,
                            cy,
                        ) as int].name@ == "door"@
                },
            r matches Ok(l) ==> {
                &&& l.map_wf(&old(game).info.map)
                &&& l.width == width
                &&& l.height == height
                &&& l.monsters_in_bounds()
                &&& forall|i: int|
                    0 <= i < l.monsters@.len() ==> {
                        let m = #[trigger] l.monsters@[i];
                        &&& m.info < old(game).info.monster@.len()
                        &&& m.hp == old(game).info.monster@[m.info as int].health
                    }
            },
    {
        let wall = match game.info.map.lookup("wall") {
            Ok(i) => i,
            Err(e) => {
                return Err(e);
            },
        };
        let mut l = Level::new(width, height, wall, &game.info.map);
        proof {
            reveal_strlit("wall");
            reveal_strlit("door");
            assert("wall"@ != "door"@) by {
                assert("wall"@[0] == 'w');
                assert("door"@[0] == 'd');
            }
            assert forall|cx: int, cy: int|
                0 <= cx < l.width && 0 <= cy < l.height implies (#[trigger] game.info.map.tiles@[l.tiles.id_at(
                cx,
                cy,
            ) as int]).name@ != "door"@ by {
                assert(l.tiles.id_at(cx, cy) == wall);
            }
        }
        match gen.generate(game, &mut l) {
            Ok(()) => Ok(l),
            Err(e) => Err(e),
        }
    }
}

/// At the strategy level: whatever a generator carved is benign, whenever
/// the catalog's floor-named templates are walkable and its door-named
/// templates refuse passage until opened into a walkable variant. Every
/// changed cell is then walkable, or a door that is not walkable and opens
/// to a walkable template.
pub proof fn lemma_generated_cells_safe(level: &Level, base: &Level, cat: &MapInfo)
    requires
        forall|cx: int, cy: int|
            0 <= cx < level.width && 0 <= cy < level.height ==> #[trigger] level.tiles.id_at(
                cx,
                cy,
            ) == base.tiles.id_at(cx, cy) || cat.tiles@[level.tiles.id_at(cx, cy) as int].name@
                == "floor"@ || cat.tiles@[level.tiles.id_at(cx, cy) as int].name@ == "door"@,
        forall|i: int|
            0 <= i < cat.tiles@.len() && (#[trigger] cat.tiles@[i]).name@ == "floor"@
                ==> cat.tiles@[i].walkable,
        forall|i: int|
            0 <= i < cat.tiles@.len() && (#[trigger] cat.tiles@[i]).name@ == "door"@
                ==> !cat.tiles@[i].walkable && (cat.tiles@[i].open matches Some(o) && o
                < cat.tiles@.len() && cat.tiles@[o as int].walkable),
        forall|cx: int, cy: int|
            0 <= cx < level.width && 0 <= cy < level.height ==> (#[trigger] level.tiles.id_at(
                cx,
                cy,
            )) < cat.tiles@.len(),
    ensures
        forall|cx: int, cy: int|
            0 <= cx < level.width && 0 <= cy < level.height && #[trigger] level.tiles.id_at(cx, cy)
                != base.tiles.id_at(cx, cy) ==> {
                let t = cat.tiles@[level.tiles.id_at(cx, cy) as int];
                t.walkable || (!t.walkable && (t.open matches Some(o) && o < cat.tiles@.len()
                    && cat.tiles@[o as int].walkable))
            },
{
}

/// Every carved cell of a generation pass is benign: a carved floor cell is
/// walkable, and a carved door cell is not walkable until opened — its
/// template refuses passage and its open transition leads back into the
/// catalog.
pub proof fn lemma_carve_walkability(
    level: &Level,
    base: &Level,
    cat: &MapInfo,
    floor_id: usize,
    door_id: usize,
)
    requires
        cat.wf(),
        floor_id < cat.tiles@.len(),
        door_id < cat.tiles@.len(),
        cat.tiles@[floor_id as int].walkable,
        !cat.tiles@[door_id as int].walkable,
        cat.tiles@[door_id as int].open is Some,
        forall|cx: int, cy: int|
            0 <= cx < level.width && 0 <= cy < level.height ==> #[trigger] level.tiles.id_at(
                cx,
                cy,
            ) == base.tiles.id_at(cx, cy) || level.tiles.id_at(cx, cy) == floor_id
                || level.tiles.id_at(cx, cy) == door_id,
    ensures
        forall|cx: int, cy: int|
            0 <= cx < level.width && 0 <= cy < level.height && #[trigger] level.tiles.id_at(cx, cy)
                != base.tiles.id_at(cx, cy) ==> {
                let t = cat.tiles@[level.tiles.id_at(cx, cy) as int];
                &&& (level.tiles.id_at(cx, cy) == floor_id ==> t.walkable)
                &&& (level.tiles.id_at(cx, cy) == door_id ==> !t.walkable && t.open is Some
                    && t.open.unwrap() < cat.tiles@.len())
            },
{
}

} // verus!
