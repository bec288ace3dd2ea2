//! Monster templates and the monsters resident on a level.
//!
//! Templates live in the game catalog; each monster refers to its template
//! by index, so templates are shared without aliasing concerns.

use vstd::prelude::*;
use vstd::string::StringExecFns;

use crate::combat::AttackFlavor;
use crate::combat::DeathFlavor;
use crate::dice::Dice;
use crate::game::GameInfo;
use crate::map::Level;
use crate::point::Point;
use crate::rng::GameRng;
use crate::tile::Tile;

verus! {

/// An immutable monster template: appearance, placement weight, starting
/// health and the attacks it can make.
#[derive(Debug)]
pub struct MonsterInfo {
    pub name: String,
    /// Relative sampling weight for random placement; zero is never picked.
    pub weight: u32,
    pub tile: Tile,
    pub health: i32,
    pub attacks: Vec<Attack>,
    pub friendly: bool,
}

impl MonsterInfo {
    /// A usable template starts alive, can always attack, and all its
    /// attacks resolve against the damage catalog of `damage_len` classes.
    pub open spec fn wf(&self, damage_len: int) -> bool {
        &&& self.health >= 0
        &&& self.attacks@.len() >= 1
        &&& forall|i: int| 0 <= i < self.attacks@.len() ==> (#[trigger] self.attacks@[i]).wf(
            damage_len,
        )
    }
}

/// One attack: its damage dice, the damage class it resolves through (an
/// index into the damage catalog), and an optional inline flavor override.
#[derive(Debug)]
pub struct Attack {
    pub dam: Dice,
    pub class: usize,
    pub text: Option<Vec<AttackFlavor>>,
}

impl Attack {
    /// Dice are rollable, the class resolves, and an inline override, if
    /// present, offers at least one phrasing.
    pub open spec fn wf(&self, damage_len: int) -> bool {
        &&& self.dam.wf()
        &&& self.class < damage_len
        &&& (self.text matches Some(v) ==> v@.len() >= 1)
    }
}

/// A monster on a level: its template (an index into the game's monster
/// catalog), its position, and its current hit points. Hit points at or
/// below zero mean the monster is dead; dead monsters stay in the list but
/// are never targeted.
#[derive(Copy, Clone, Debug, PartialEq, Eq, Structural)]
pub struct Monster {
    pub info: usize,
    pub pos: Point,
    pub hp: i32,
}

/// Anything that occupies a cell and can be moved.
pub trait Creature {
    /// The occupied position, as the contracts see it.
    spec fn spec_pos(&self) -> Point;

    /// The occupied position.
    fn get_pos(&self) -> (p: Point)
        ensures
            p == self.spec_pos(),
    ;

    /// Moves the creature to `pos`.
    fn set_pos(&mut self, pos: Point)
        ensures
            final(self).spec_pos() == pos,
    ;

    /// Whether this creature is the player.
    fn is_player(&self) -> bool;
}

/// The first monster other than `idx`, in list order from position `i`,
/// standing alive on the target cell; dead monsters are never targets.
pub open spec fn find_target(ms: Seq<Monster>, idx: int, tx: int, ty: int, i: int) -> Option<int>
    decreases ms.len() - i,
{
    if i < 0 || i >= ms.len() {
        None
    } else if i != idx && ms[i].pos.0 == tx && ms[i].pos.1 == ty && ms[i].hp > 0 {
        Some(i)
    } else {
        find_target(ms, idx, tx, ty, i + 1)
    }
}

/// A melee target is always another, living monster standing exactly on the
/// target cell: a defender whose hit points have dropped to zero or below is
/// never selectable again.
pub proof fn lemma_dead_never_targeted(ms: Seq<Monster>, idx: int, tx: int, ty: int, i: int)
    ensures
        find_target(ms, idx, tx, ty, i) matches Some(t) ==> 0 <= t < ms.len() && t != idx
            && ms[t].hp > 0 && ms[t].pos.0 == tx && ms[t].pos.1 == ty,
    decreases ms.len() - i,
{
    if i < 0 || i >= ms.len() {
    } else if i != idx && ms[i].pos.0 == tx && ms[i].pos.1 == ty && ms[i].hp > 0 {
    } else {
        lemma_dead_never_targeted(ms, idx, tx, ty, i + 1);
    }
}

/// The narrative line for a landed attack, chosen by the combat roles.
pub open spec fn attack_line(
    attacker_is_player: bool,
    defender_is_player: bool,
    att: Seq<char>,
    def: Seq<char>,
    fl: AttackFlavor,
) -> Seq<char> {
    if attacker_is_player {
        "you"@ + fl.player.0@ + "the "@ + def + fl.player.1@
    } else if defender_is_player {
        "the "@ + att + fl.monster_p.0@ + "you"@ + fl.monster_p.1@
    } else {
        "the "@ + att + fl.monster_m.0@ + "the "@ + def + fl.monster_m.1@
    }
}

/// The narrative line for a death.
pub open spec fn death_line(defender_is_player: bool, def: Seq<char>, dfl: DeathFlavor) -> Seq<
    char,
> {
    if defender_is_player {
        dfl.player@
    } else {
        "the "@ + def + dfl.monster@
    }
}

/// What one melee resolution may do: some attack of the attacker's template
/// is chosen, its dice are rolled within their bounds, the defender loses
/// that many hit points, one attack line is logged, and exactly when the
/// defender's hit points drop to zero or below, one death line follows it.
pub open spec fn combat_outcome(
    old_ms: Seq<Monster>,
    new_ms: Seq<Monster>,
    info: &GameInfo,
    old_log: Seq<String>,
    new_log: Seq<String>,
    idx: int,
    t: int,
) -> bool {
    exists|ai: int, dmg: int, fi: int, di: int|
        #[trigger] combat_choice(old_ms, new_ms, info, old_log, new_log, idx, t, ai, dmg, fi, di)
}

/// One fully determined melee resolution: attack `ai` of the attacker's
/// template, a damage roll of `dmg`, flavor choice `fi`, and death-flavor
/// choice `di`.
pub open spec fn combat_choice(
    old_ms: Seq<Monster>,
    new_ms: Seq<Monster>,
    info: &GameInfo,
    old_log: Seq<String>,
    new_log: Seq<String>,
    idx: int,
    t: int,
    ai: int,
    dmg: int,
    fi: int,
    di: int,
) -> bool {
    let att = old_ms[idx];
    let def = old_ms[t];
    let atpl = info.monster@[att.info as int];
    let dtpl = info.monster@[def.info as int];
    &&& 0 <= ai < atpl.attacks@.len()
    &&& {
        let atk = atpl.attacks@[ai];
        let flavors = match atk.text {
            Some(v) => v@,
            None => info.damage@[atk.class as int].attacks@,
        };
        let deaths = info.damage@[atk.class as int].deaths@;
        let aline = attack_line(idx == 0, t == 0, atpl.name@, dtpl.name@, flavors[fi]);
        &&& atk.dam.rolls <= dmg <= atk.dam.rolls * atk.dam.faces
        &&& 0 <= fi < flavors.len()
        &&& new_ms == old_ms.update(t, Monster { hp: (def.hp - dmg) as i32, ..def })
        &&& new_log.len() > old_log.len()
        &&& new_log.subrange(0, old_log.len() as int) == old_log
        &&& new_log[old_log.len() as int]@ == aline
        &&& if def.hp - dmg <= 0 {
            &&& 0 <= di < deaths.len()
            &&& new_log.len() == old_log.len() + 2
            &&& new_log.last()@ == death_line(t == 0, dtpl.name@, deaths[di])
        } else {
            new_log.len() == old_log.len() + 1
        }
    }
}

/// Tile templates are unchanged on every cell of `a`'s grid.
pub open spec fn tiles_ids_preserved(a: &Level, b: &Level) -> bool {
    forall|cx: int, cy: int|
        0 <= cx < a.width && 0 <= cy < a.height ==> #[trigger] b.tiles.id_at(cx, cy)
            == a.tiles.id_at(cx, cy)
}

/// The full outcome of one resolved displacement of actor `idx` by `dpos`:
/// the turn is consumed exactly when the target cell is on the grid and
/// walkable or openable; a free walkable cell moves the actor; an occupied
/// one resolves melee; a closed openable tile opens in place; and a no-op
/// changes nothing.
pub open spec fn move_outcome(
    r: bool,
    oldl: &Level,
    newl: &Level,
    info: &GameInfo,
    old_log: Seq<String>,
    new_log: Seq<String>,
    idx: int,
    dpos: Point,
) -> bool {
    let tx = oldl.monsters@[idx].pos.0 + dpos.0;
    let ty = oldl.monsters@[idx].pos.1 + dpos.1;
    let inb = 0 <= tx < oldl.width && 0 <= ty < oldl.height;
    let tile = info.map.tiles@[oldl.tiles.id_at(tx, ty) as int];
    &&& r == (inb && (tile.walkable || tile.open is Some))
    &&& !r ==> tiles_ids_preserved(oldl, newl) && newl.monsters@ == oldl.monsters@ && new_log
        == old_log
    &&& (inb && tile.walkable) ==> match find_target(oldl.monsters@, idx, tx, ty, 0) {
        Some(t) => tiles_ids_preserved(oldl, newl) && combat_outcome(
            oldl.monsters@,
            newl.monsters@,
            info,
            old_log,
            new_log,
            idx,
            t,
        ),
        None => tiles_ids_preserved(oldl, newl) && new_log == old_log && newl.monsters@
            == oldl.monsters@.update(
            idx,
            Monster { pos: Point(tx as i32, ty as i32), ..oldl.monsters@[idx] },
        ),
    }
    &&& (inb && !tile.walkable) ==> match tile.open {
        Some(o) => {
            &&& newl.monsters@ == oldl.monsters@
            &&& new_log == old_log
            &&& forall|cx: int, cy: int|
                0 <= cx < oldl.width && 0 <= cy < oldl.height ==> #[trigger] newl.tiles.id_at(
                    cx,
                    cy,
                ) == if cx == tx && cy == ty {
                    o as int
                } else {
                    oldl.tiles.id_at(cx, cy) as int
                }
        },
        None => true,
    }
}

/// Resolves one requested displacement of the actor `monsters[idx]`: a move
/// into a free walkable cell, a melee attack on a live occupant, or the
/// opening of a door; anything else is a no-op. Returns whether the turn was
/// consumed.
pub fn move_to(
    idx: usize,
    dpos: Point,
    level: &mut Level,
    info: &GameInfo,
    log: &mut std::collections::VecDeque<String>,
    rng: &mut GameRng,
) -> (r: bool)
    requires
        info.wf(),
        old(level).map_wf(&info.map),
        old(level).monsters_in_bounds(),
        idx < old(level).monsters@.len(),
        forall|i: int|
            0 <= i < old(level).monsters@.len() ==> (#[trigger] old(level).monsters@[i]).info
                < info.monster@.len(),
    ensures
        final(level).map_wf(&info.map),
        final(level).width == old(level).width,
        final(level).height == old(level).height,
        final(level).seen == old(level).seen,
        final(level).monsters_in_bounds(),
        final(level).monsters@.len() == old(level).monsters@.len(),
        forall|i: int|
            0 <= i < old(level).monsters@.len() ==> (#[trigger] final(level).monsters@[i]).info
                == old(level).monsters@[i].info,
        move_outcome(r, old(level), final(level), info, old(log)@, final(log)@, idx as int, dpos),
        !r ==> *final(level) == *old(level) && final(log)@ == old(log)@,
{
    let px = level.monsters[idx].pos.0;
    let py = level.monsters[idx].pos.1;
    let txo = px.checked_add(dpos.0);
    let tyo = py.checked_add(dpos.1);
    let tx: i32;
    let ty: i32;
    match (txo, tyo) {
        (Some(a), Some(b)) => {
            tx = a;
            ty = b;
        },
        _ => {
            return false;
        },
    }
    if tx < 0 || ty < 0 {
        return false;
    }
    let ux = tx as usize;
    let uy = ty as usize;
    if ux >= level.width || uy >= level.height {
        return false;
    }
    let tile_id = level.tiles.get(ux, uy);
    if info.map.tiles[tile_id].walkable {
        let tpos = Point(tx, ty);
        let n = level.monsters.len();
        let mut i: usize = 0;
        let mut found: Option<usize> = None;
        while i < n && found.is_none()
            invariant
                n == level.monsters@.len(),
                i <= n,
                idx < n,
                found is None ==> find_target(level.monsters@, idx as int, tx as int, ty as int, 0)
                    == find_target(level.monsters@, idx as int, tx as int, ty as int, i as int),
                found matches Some(f) ==> find_target(
                    level.monsters@,
                    idx as int,
                    tx as int,
                    ty as int,
                    0,
                ) == Some(f as int) && f < n && f != idx && level.monsters@[f as int].hp > 0
                    && level.monsters@[f as int].pos == Point(tx, ty),
                tpos == Point(tx, ty),
            decreases (if found is Some { 0int } else { 1int }), n - i,
        {
            let m = level.monsters[i];
            if i != idx && m.pos == tpos && m.hp > 0 {
                found = Some(i);
            } else {
                i += 1;
            }
        }
        match found {
            None => {
                let mut m = level.monsters[idx];
                m.pos = tpos;
                level.monsters.set(idx, m);
                true
            },
            Some(ti) => {
                let att = level.monsters[idx];
                let def = level.monsters[ti];
                let atpl = &info.monster[att.info];
                let dtpl = &info.monster[def.info];
                let ai = rng.range(0, atpl.attacks.len() - 1);
                let atk = &atpl.attacks[ai];
                let damage = atk.dam.roll(rng);
                let dmg_info = &info.damage[atk.class];
                let inline = atk.text.is_some();
                let fl_len = if inline {
                    atk.text.as_ref().unwrap().len()
                } else {
                    dmg_info.attacks.len()
                };
                let fi = rng.range(0, fl_len - 1);
                let fl: &AttackFlavor = if inline {
                    &atk.text.as_ref().unwrap()[fi]
                } else {
                    &dmg_info.attacks[fi]
                };
                let msg: String;
                if idx == 0 {
                    msg = String::from_str("you").concat(fl.player.0.as_str()).concat(
                        "the ",
                    ).concat(dtpl.name.as_str()).concat(fl.player.1.as_str());
                } else if ti == 0 {
                    msg = String::from_str("the ").concat(atpl.name.as_str()).concat(
                        fl.monster_p.0.as_str(),
                    ).concat("you").concat(fl.monster_p.1.as_str());
                } else {
                    msg = String::from_str("the ").concat(atpl.name.as_str()).concat(
                        fl.monster_m.0.as_str(),
                    ).concat("the ").concat(dtpl.name.as_str()).concat(fl.monster_m.1.as_str());
                }
                log.push_back(msg);
                let newhp = def.hp - damage;
                let mut d2 = def;
                d2.hp = newhp;
                level.monsters.set(ti, d2);
                if newhp <= 0 {
                    let di = rng.range(0, dmg_info.deaths.len() - 1);
                    let dfl = &dmg_info.deaths[di];
                    let dmsg: String;
                    if ti == 0 {
                        dmsg = dfl.player.clone();
                    } else {
                        dmsg = String::from_str("the ").concat(dtpl.name.as_str()).concat(
                            dfl.monster.as_str(),
                        );
                    }
                    log.push_back(dmsg);
                    proof {
                        assert(log@.subrange(0, old(log)@.len() as int) =~= old(log)@);
                        combat_witness(
                            old(level).monsters@,
                            level.monsters@,
                            info,
                            old(log)@,
                            log@,
                            idx as int,
                            ti as int,
                            ai as int,
                            damage as int,
                            fi as int,
                            di as int,
                        );
                    }
                } else {
                    proof {
                        assert(log@.subrange(0, old(log)@.len() as int) =~= old(log)@);
                        combat_witness(
                            old(level).monsters@,
                            level.monsters@,
                            info,
                            old(log)@,
                            log@,
                            idx as int,
                            ti as int,
                            ai as int,
                            damage as int,
                            fi as int,
                            0,
                        );
                    }
                }
                true
            },
        }
    } else {
        match info.map.tiles[tile_id].open {
            Some(o) => {
                level.tiles.set(ux, uy, o, &info.map);
                true
            },
            None => false,
        }
    }
}

/// Packages the concrete random choices of one melee resolution as the
/// witnesses of `combat_outcome`.
proof fn combat_witness(
    old_ms: Seq<Monster>,
    new_ms: Seq<Monster>,
    info: &GameInfo,
    old_log: Seq<String>,
    new_log: Seq<String>,
    idx: int,
    t: int,
    ai: int,
    dmg: int,
    fi: int,
    di: int,
)
    requires
        combat_choice(old_ms, new_ms, info, old_log, new_log, idx, t, ai, dmg, fi, di),
    ensures
        combat_outcome(old_ms, new_ms, info, old_log, new_log, idx, t),
{
}

/// Re-closes doors around `pos`: every one of the eight neighbor cells whose
/// tile carries a close transition is replaced by that closed variant; all
/// other cells are untouched.
pub fn close_doors(level: &mut Level, info: &GameInfo, pos: Point)
    requires
        info.wf(),
        old(level).map_wf(&info.map),
        0 <= pos.0 < old(level).width,
        0 <= pos.1 < old(level).height,
    ensures
        final(level).map_wf(&info.map),
        final(level).width == old(level).width,
        final(level).height == old(level).height,
        final(level).seen == old(level).seen,
        final(level).monsters == old(level).monsters,
        forall|cx: int, cy: int|
            0 <= cx < old(level).width && 0 <= cy < old(level).height
                ==> #[trigger] final(level).tiles.id_at(cx, cy) == if pos.0 - 1 <= cx <= pos.0 + 1
                && pos.1 - 1 <= cy <= pos.1 + 1 && !(cx == pos.0 && cy == pos.1) {
                close_transition(&info.map, old(level).tiles.id_at(cx, cy))
            } else {
                old(level).tiles.id_at(cx, cy) as int
            },
{
    let mut dy: i32 = -1;
    while dy <= 1
        invariant
            level.map_wf(&info.map),
            level.width == old(level).width,
            level.height == old(level).height,
            level.seen == old(level).seen,
            level.monsters == old(level).monsters,
            info.wf(),
            0 <= pos.0 < old(level).width,
            0 <= pos.1 < old(level).height,
            -1 <= dy <= 2,
            forall|cx: int, cy: int|
                0 <= cx < old(level).width && 0 <= cy < old(level).height
                    ==> #[trigger] level.tiles.id_at(cx, cy) == if pos.0 - 1 <= cx <= pos.0 + 1
                    && pos.1 - 1 <= cy < pos.1 + dy && !(cx == pos.0 && cy == pos.1) {
                    close_transition(&info.map, old(level).tiles.id_at(cx, cy))
                } else {
                    old(level).tiles.id_at(cx, cy) as int
                },
        decreases 2 - dy,
    {
        let mut dx: i32 = -1;
        while dx <= 1
            invariant
                level.map_wf(&info.map),
                level.width == old(level).width,
                level.height == old(level).height,
                level.seen == old(level).seen,
                level.monsters == old(level).monsters,
                info.wf(),
                0 <= pos.0 < old(level).width,
                0 <= pos.1 < old(level).height,
                -1 <= dy <= 1,
                -1 <= dx <= 2,
                forall|cx: int, cy: int|
                    0 <= cx < old(level).width && 0 <= cy < old(level).height
                        ==> #[trigger] level.tiles.id_at(cx, cy) == if (pos.0 - 1 <= cx <= pos.0
                        + 1 && pos.1 - 1 <= cy < pos.1 + dy && !(cx == pos.0 && cy == pos.1)) || (cy
                        == pos.1 + dy && pos.0 - 1 <= cx < pos.0 + dx && !(cx == pos.0 && cy
                        == pos.1)) {
                        close_transition(&info.map, old(level).tiles.id_at(cx, cy))
                    } else {
                        old(level).tiles.id_at(cx, cy) as int
                    },
            decreases 2 - dx,
        {
            if dx != 0 || dy != 0 {
                let nx = pos.0 + dx;
                let ny = pos.1 + dy;
                if nx >= 0 && ny >= 0 {
                    let uxn = nx as usize;
                    let uyn = ny as usize;
                    if uxn < level.width && uyn < level.height {
                        let id = level.tiles.get(uxn, uyn);
                        match info.map.tiles[id].close {
                            Some(c) => {
                                level.tiles.set(uxn, uyn, c, &info.map);
                            },
                            None => {},
                        }
                    }
                }
            }
            dx += 1;
        }
        dy += 1;
    }
}

/// The template a tile turns into under the close interaction: its close
/// target if it names one, else the tile itself.
pub open spec fn close_transition(cat: &crate::tile::MapInfo, id: usize) -> int {
    match cat.tiles@[id as int].close {
        Some(c) => c as int,
        None => id as int,
    }
}

/// Opening a door and closing it right back restores the original tile,
/// whenever the catalog links the two variants both ways.
pub proof fn lemma_open_close_round_trip(cat: &crate::tile::MapInfo, d: usize)
    requires
        d < cat.tiles@.len(),
        cat.tiles@[d as int].open matches Some(o) && cat.tiles@[o as int].close == Some(d),
    ensures
        close_transition(cat, cat.tiles@[d as int].open.unwrap()) == d,
{
}

impl Creature for Monster {
    open spec fn spec_pos(&self) -> Point {
        self.pos
    }

    fn get_pos(&self) -> (p: Point)
        ensures
            p == self.spec_pos(),
    {
        self.pos
    }

    fn set_pos(&mut self, pos: Point)
        ensures
            final(self).spec_pos() == pos,
    {
        self.pos = pos;
    }

    fn is_player(&self) -> bool {
        false
    }
}

} // verus!
