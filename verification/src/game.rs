//! Game-wide state: configuration records, the catalogs, the level stack and
//! the two random streams.

use vstd::prelude::*;
use vstd::string::StringExecFns;

use crate::combat::DamageInfo;
use crate::dice::Dice;
use crate::gen::Hallways;
use crate::map::Level;
use crate::monster::Attack;
use crate::monster::Monster;
use crate::monster::MonsterInfo;
use crate::point::Point;
use crate::rng::weight_sum;
use crate::rng::GameRng;
use crate::tile::MapInfo;
use crate::tile::Tile;
use crate::util::insert_at_zero;

verus! {

/// Interface sizing for the render layer.
#[derive(Debug)]
pub struct InterfaceSettings {
    pub width: u32,
    pub height: u32,
    pub font: FontSettings,
    pub key_delay: u32,
}

/// Font selection for the render layer.
#[derive(Debug)]
pub struct FontSettings {
    pub font: String,
    pub width: u32,
    pub height: u32,
}

/// Player configuration: field-of-view radius and appearance.
#[derive(Debug)]
pub struct PlayerSettings {
    pub fov: usize,
    pub tile: Tile,
}

/// Map generation configuration.
#[derive(Debug)]
pub struct MapSettings {
    pub place_attempts: i32,
    pub num_monsters: u32,
    pub width: usize,
    pub height: usize,
}

/// All loaded configuration.
#[derive(Debug)]
pub struct GameSettings {
    pub interface: InterfaceSettings,
    pub player: PlayerSettings,
    pub map: MapSettings,
}

/// The placement weights of a monster catalog, in catalog order.
pub open spec fn weight_seq(ms: Seq<MonsterInfo>) -> Seq<u32> {
    ms.map(|i: int, m: MonsterInfo| m.weight)
}

/// The loaded catalogs and settings: the core assumes they were parsed
/// elsewhere and only relies on the integrity stated by `wf`.
pub struct GameInfo {
    pub settings: GameSettings,
    pub map: MapInfo,
    pub monster: Vec<MonsterInfo>,
    pub damage: Vec<DamageInfo>,
}

impl GameInfo {
    /// Referential integrity of the loaded data: the tile catalog's
    /// transitions resolve, every monster template is usable and points into
    /// the damage catalog, every damage class offers flavor text, the level
    /// dimensions fit the coordinate types, and the monster weights admit a
    /// weighted draw.
    pub open spec fn wf(&self) -> bool {
        &&& self.map.wf()
        &&& 1 <= self.settings.map.width <= i32::MAX
        &&& 1 <= self.settings.map.height <= i32::MAX
        &&& self.settings.map.width * self.settings.map.height <= usize::MAX
        &&& forall|i: int|
            0 <= i < self.monster@.len() ==> (#[trigger] self.monster@[i]).wf(
                self.damage@.len() as int,
            )
        &&& forall|i: int| 0 <= i < self.damage@.len() ==> (#[trigger] self.damage@[i]).wf()
        &&& weight_sum(weight_seq(self.monster@)) <= u32::MAX
        &&& exists|i: int| 0 <= i < self.monster@.len() && self.monster@[i].weight > 0
    }

    /// Looks a damage class up by name and returns its index.
    pub fn damage_class(&self, name: &str) -> (r: Option<usize>)
        ensures
            r matches Some(i) ==> i < self.damage@.len() && self.damage@[i as int].name@ == name@,
            r is Some <==> exists|i: int|
                0 <= i < self.damage@.len() && self.damage@[i].name@ == name@,
    {
        let n = self.damage.len();
        let mut i: usize = 0;
        while i < n
            invariant
                i <= n,
                n == self.damage@.len(),
                forall|j: int| 0 <= j < i ==> self.damage@[j].name@ != name@,
            decreases n - i,
        {
            if crate::tile::str_eq(self.damage[i].name.as_str(), name) {
                return Some(i);
            }
            i += 1;
        }
        None
    }
}

/// The stack of generated floors, above and below ground, with the index of
/// the floor currently being played. Floor `0` is ground level; negative
/// indices descend into the basement stack.
pub struct Levels {
    level: i32,
    floors: Vec<Level>,
    basement: Vec<Level>,
}

impl Levels {
    /// The current floor index points at an existing level.
    pub open spec fn wf(&self) -> bool {
        if self.spec_cur_idx() >= 0 {
            self.spec_cur_idx() < self.spec_floors().len()
        } else {
            -self.spec_cur_idx() - 1 < self.spec_basement().len()
        }
    }

    pub closed spec fn spec_cur_idx(&self) -> i32 {
        self.level
    }

    /// Whether floor `idx` exists in the stack.
    pub open spec fn valid_idx(&self, idx: i32) -> bool {
        if idx >= 0 {
            idx < self.spec_floors().len()
        } else {
            -idx - 1 < self.spec_basement().len()
        }
    }

    /// The level the given floor index denotes.
    pub open spec fn spec_at(&self, idx: i32) -> Level {
        if idx >= 0 {
            self.spec_floors()[idx as int]
        } else {
            self.spec_basement()[-idx - 1]
        }
    }

    /// The currently played level.
    pub open spec fn spec_cur(&self) -> Level {
        self.spec_at(self.spec_cur_idx())
    }

    /// An empty stack, at ground level; not well formed until a ground floor
    /// is added.
    pub fn empty() -> (r: Levels)
        ensures
            r.spec_cur_idx() == 0,
            r.spec_floors().len() == 0,
            r.spec_basement().len() == 0,
    {
        Levels { level: 0, floors: Vec::new(), basement: Vec::new() }
    }

    pub closed spec fn spec_floors(&self) -> Seq<Level> {
        self.floors@
    }

    pub closed spec fn spec_basement(&self) -> Seq<Level> {
        self.basement@
    }

    /// Adds a new topmost above-ground floor.
    pub fn add_top(&mut self, level: Level)
        ensures
            final(self).spec_floors() == old(self).spec_floors().push(level),
            final(self).spec_basement() == old(self).spec_basement(),
            final(self).spec_cur_idx() == old(self).spec_cur_idx(),
    {
        self.floors.push(level);
    }

    /// The index of the floor currently being played.
    pub fn cur_idx(&self) -> (r: i32)
        ensures
            r == self.spec_cur_idx(),
    {
        self.level
    }

    /// The level currently being played.
    pub fn cur(&self) -> (r: &Level)
        requires
            self.wf(),
        ensures
            *r == self.spec_cur(),
    {
        if self.level < 0 {
            let i = ((-(self.level as i64)) - 1) as usize;
            &self.basement[i]
        } else {
            &self.floors[self.level as usize]
        }
    }

    /// The level currently being played, for mutation.
    pub fn cur_mut(&mut self) -> (r: &mut Level)
        requires
            old(self).wf(),
        ensures
            *r == old(self).spec_cur(),
            final(self).wf(),
            final(self).spec_cur_idx() == old(self).spec_cur_idx(),
            final(self).spec_cur() == *final(r),
            forall|idx: i32|
                old(self).valid_idx(idx) && idx != old(self).spec_cur_idx()
                    ==> #[trigger] final(self).spec_at(idx) == old(self).spec_at(idx),
            final(self).spec_floors().len() == old(self).spec_floors().len(),
            final(self).spec_basement().len() == old(self).spec_basement().len(),
    {
        if self.level < 0 {
            let i = ((-(self.level as i64)) - 1) as usize;
            &mut self.basement[i]
        } else {
            let i = self.level as usize;
            &mut self.floors[i]
        }
    }

    /// The level at floor `idx`.
    pub fn at(&self, idx: i32) -> (r: &Level)
        requires
            self.valid_idx(idx),
        ensures
            *r == self.spec_at(idx),
    {
        if idx >= 0 {
            &self.floors[idx as usize]
        } else {
            let i = ((-(idx as i64)) - 1) as usize;
            &self.basement[i]
        }
    }
}

/// The whole game: catalogs, the message log, the level stack, and the two
/// independent random streams — one for generation, one for play.
pub struct Game {
    pub info: GameInfo,
    pub messages: std::collections::VecDeque<String>,
    pub levels: Levels,
    pub map_rng: GameRng,
    pub play_rng: GameRng,
}

/// A level is consistent with the game data: its grids match the tile
/// catalog, and every monster stands on the grid and refers to a template
/// of the monster catalog.
pub open spec fn level_ok(l: &Level, info: &GameInfo) -> bool {
    &&& l.map_wf(&info.map)
    &&& l.monsters_in_bounds()
    &&& forall|i: int|
        0 <= i < l.monsters@.len() ==> (#[trigger] l.monsters@[i]).info < info.monster@.len()
}

/// Why a game could not be set up.
#[derive(Debug)]
pub enum GameSetupError {
    /// A template or damage-class name the core requires is absent from the
    /// loaded catalogs: a fatal configuration error.
    MissingName(String),
    /// No walkable cell was found for the player within the attempt budget:
    /// a degenerate level, diagnosed rather than played.
    NoWalkableCell,
}

/// Appending a weight extends the weight total by exactly that weight.
proof fn lemma_weight_sum_push(s: Seq<u32>, w: u32)
    ensures
        weight_sum(s.push(w)) == weight_sum(s) + w,
{
    assert(s.push(w).drop_last() =~= s);
}

impl Game {
    /// The catalogs are sound and every level of the stack is consistent
    /// with them.
    pub open spec fn wf(&self) -> bool {
        &&& self.info.wf()
        &&& self.levels.wf()
        &&& forall|idx: i32|
            self.levels.valid_idx(idx) ==> level_ok(&(#[trigger] self.levels.spec_at(idx)), &self.info)
    }

    /// Sets a game up from loaded data and a seed: generates the ground
    /// floor with the corridor strategy, inserts the player as the level's
    /// first actor on a randomly sampled walkable cell, and computes the
    /// player's initial field of view. Both random streams are seeded from
    /// `seed`. Fails on a missing required name, or when no walkable cell
    /// turns up within the attempt budget.
    pub fn new(info: GameInfo, seed: u64) -> (r: Result<Game, GameSetupError>)
        requires
            info.wf(),
        ensures
            (!info.map.has_name("wall"@) || !info.map.has_name("floor"@) || !info.map.has_name(
                "door"@,
            ) || !(exists|i: int|
                0 <= i < info.damage@.len() && info.damage@[i].name@ == "cringe"@)) ==> r is Err,
            (info.map.has_name("wall"@) && info.map.has_name("floor"@) && info.map.has_name(
                "door"@,
            ) && (exists|i: int|
                0 <= i < info.damage@.len() && info.damage@[i].name@ == "cringe"@)) ==> !(
            r matches Err(GameSetupError::MissingName(_))),
            r matches Ok(g) ==> {
                &&& g.wf()
                &&& g.info.settings == info.settings
                &&& g.info.map == info.map
                &&& g.info.damage == info.damage
                &&& g.levels.spec_cur_idx() == 0
                &&& g.levels.spec_floors().len() == 1
                &&& g.messages@.len() == 0
                &&& g.levels.spec_cur().width == info.settings.map.width
                &&& g.levels.spec_cur().height == info.settings.map.height
                &&& g.levels.spec_cur().monsters@.len() >= 1
                &&& g.levels.spec_cur().monsters@[0].hp == 20
                &&& g.info.monster@[g.levels.spec_cur().monsters@[0].info as int].name@
                    == "player"@
                &&& g.info.map.tiles@[g.levels.spec_cur().tiles.id_at(
                    g.levels.spec_cur().monsters@[0].pos.0 as int,
                    g.levels.spec_cur().monsters@[0].pos.1 as int,
                ) as int].walkable
                &&& exists|gs: Seq<Monster>|
                    {
                        &&& (#[trigger] gs.len()) + 1 == g.levels.spec_cur().monsters@.len()
                        &&& gs.len() >= 1 ==> g.levels.spec_cur().monsters@ == seq![
                            g.levels.spec_cur().monsters@[0],
                        ] + gs.subrange(1, gs.len() as int) + seq![gs[0]]
                        &&& forall|i: int|
                            0 <= i < gs.len() ==> (#[trigger] gs[i]).info < g.info.monster@.len()
                                && gs[i].hp == g.info.monster@[gs[i].info as int].health
                    }
            },
    {
        let mut game = Game {
            info,
            messages: std::collections::VecDeque::new(),
            levels: Levels::empty(),
            map_rng: GameRng::from_seed(seed),
            play_rng: GameRng::from_seed(seed),
        };
        let cringe = match game.info.damage_class("cringe") {
            Some(i) => i,
            None => {
                return Err(GameSetupError::MissingName(String::from_str("cringe")));
            },
        };
        match game.info.map.lookup("floor") {
            Ok(_) => {},
            Err(e) => {
                return Err(GameSetupError::MissingName(e.name));
            },
        }
        match game.info.map.lookup("door") {
            Ok(_) => {},
            Err(e) => {
                return Err(GameSetupError::MissingName(e.name));
            },
        }
        let width = game.info.settings.map.width;
        let height = game.info.settings.map.height;
        let mut level = match Level::generate(width, height, &mut game, Hallways::new(7, 6)) {
            Ok(l) => l,
            Err(e) => {
                return Err(GameSetupError::MissingName(e.name));
            },
        };
        let mut attacks: Vec<Attack> = Vec::new();
        attacks.push(Attack { dam: Dice { rolls: 1, faces: 6 }, class: cringe, text: None });
        let ptile = game.info.settings.player.tile;
        let pidx = game.info.monster.len();
        let ghost pre_monster = game.info.monster@;
        game.info.monster.push(
            MonsterInfo {
                name: String::from_str("player"),
                weight: 0,
                tile: ptile,
                health: 20,
                attacks,
                friendly: true,
            },
        );
        proof {
            lemma_weight_sum_push(weight_seq(pre_monster), 0);
            assert(weight_seq(game.info.monster@) =~= weight_seq(pre_monster).push(0u32));
            let iw = choose|iw: int| 0 <= iw < pre_monster.len() && pre_monster[iw].weight > 0;
            assert(game.info.monster@[iw].weight > 0);
            assert(game.info.wf());
        }
        let attempts = game.info.settings.map.place_attempts;
        let mut placed = false;
        let mut a: i32 = 0;
        let ghost mut gseq: Seq<Monster> = Seq::empty();
        while a < attempts && !placed
            invariant
                game.info.wf(),
                game.info.settings == info.settings,
                game.info.map == info.map,
                game.info.damage == info.damage,
                game.levels.spec_cur_idx() == 0,
                game.levels.spec_floors().len() == 0,
                game.levels.spec_basement().len() == 0,
                game.messages@.len() == 0,
                level.map_wf(&game.info.map),
                level.monsters_in_bounds(),
                level.width == game.info.settings.map.width,
                level.height == game.info.settings.map.height,
                pidx < game.info.monster@.len(),
                game.info.monster@[pidx as int].name@ == "player"@,
                game.info.monster@[pidx as int].health == 20,
                forall|i: int|
                    0 <= i < level.monsters@.len() ==> (#[trigger] level.monsters@[i]).info
                        < game.info.monster@.len(),
                forall|i: int|
                    0 <= i < level.monsters@.len() ==> (#[trigger] level.monsters@[i]).hp
                        == game.info.monster@[level.monsters@[i].info as int].health,
                placed ==> level.monsters@.len() >= 1 && level.monsters@[0].hp == 20
                    && level.monsters@[0].info == pidx,
                placed ==> game.info.map.tiles@[level.tiles.id_at(
                    level.monsters@[0].pos.0 as int,
                    level.monsters@[0].pos.1 as int,
                ) as int].walkable,
                placed ==> gseq.len() + 1 == level.monsters@.len() && (gseq.len() >= 1
                    ==> level.monsters@ == seq![level.monsters@[0]] + gseq.subrange(
                    1,
                    gseq.len() as int,
                ) + seq![gseq[0]]) && (forall|i: int|
                    0 <= i < gseq.len() ==> (#[trigger] gseq[i]).info < game.info.monster@.len()
                        && gseq[i].hp == game.info.monster@[gseq[i].info as int].health),
                0 <= a,
            decreases (if placed { 0int } else { 1int }), attempts - a,
        {
            let x = game.map_rng.range(0, level.width - 1);
            let y = game.map_rng.range(0, level.height - 1);
            let id = level.tiles.get(x, y);
            if game.info.map.tiles[id].walkable {
                proof {
                    gseq = level.monsters@;
                }
                insert_at_zero(
                    &mut level.monsters,
                    Monster { info: pidx, pos: Point(x as i32, y as i32), hp: 20 },
                );
                placed = true;
                proof {
                    if gseq.len() >= 1 {
                        assert(level.monsters@ =~= seq![level.monsters@[0]] + gseq.subrange(
                            1,
                            gseq.len() as int,
                        ) + seq![gseq[0]]);
                    }
                }
            }
            a += 1;
        }
        if !placed {
            return Err(GameSetupError::NoWalkableCell);
        }
        let px = level.monsters[0].pos.0 as usize;
        let py = level.monsters[0].pos.1 as usize;
        let fov = game.info.settings.player.fov;
        game.levels.add_top(level);
        let cur = game.levels.cur_mut();
        cur.tiles.compute_fov(px, py, fov);
        proof {
            assert(game.levels.wf());
            assert(cur.tiles.wf(&game.info.map)) by {
                assert forall|cx: int, cy: int|
                    0 <= cx < cur.tiles.spec_width() && 0 <= cy < cur.tiles.spec_height() implies {
                    &&& (#[trigger] cur.tiles.id_at(cx, cy)) < game.info.map.tiles@.len()
                    &&& cur.tiles.transp_at(cx, cy) == game.info.map.tiles@[cur.tiles.id_at(
                        cx,
                        cy,
                    ) as int].transparent
                } by {}
            }
        }
        proof {
            let c = game.levels.spec_cur();
            assert(game.info.map.tiles@[c.tiles.id_at(
                c.monsters@[0].pos.0 as int,
                c.monsters@[0].pos.1 as int,
            ) as int].walkable);
            assert(gseq.len() + 1 == c.monsters@.len());
        }
        Ok(game)
    }
}

/// Resolves one player turn: the displacement is handed to the turn
/// resolver for the current level's first actor, and on any consumed turn
/// the field of view is recomputed around the player's (possibly new)
/// position with the configured radius.
pub fn player_turn(game: &mut Game, dpos: Point) -> (r: bool)
    requires
        old(game).wf(),
        old(game).levels.wf(),
        old(game).levels.spec_cur().monsters@.len() >= 1,
    ensures
        final(game).wf(),
        final(game).info == old(game).info,
        final(game).levels.spec_cur_idx() == old(game).levels.spec_cur_idx(),
        final(game).levels.spec_cur().monsters@.len()
            == old(game).levels.spec_cur().monsters@.len(),
        !r ==> final(game).levels.spec_cur() == old(game).levels.spec_cur()
            && final(game).messages@ == old(game).messages@,
        r ==> {
            let cur = final(game).levels.spec_cur();
            let p = cur.monsters@[0].pos;
            let fov = old(game).info.settings.player.fov;
            forall|cx: int, cy: int|
                0 <= cx < cur.width && 0 <= cy < cur.height ==> #[trigger] cur.tiles.fov_at(cx, cy)
                    == cur.tiles.visible(p.0 as int, p.1 as int, fov as int, cx, cy)
        },
        crate::monster::move_outcome(
            r,
            &old(game).levels.spec_cur(),
            &final(game).levels.spec_cur(),
            &old(game).info,
            old(game).messages@,
            final(game).messages@,
            0,
            dpos,
        ),
{
    proof {
        assert(old(game).levels.valid_idx(old(game).levels.spec_cur_idx()));
        assert(level_ok(&old(game).levels.spec_cur(), &old(game).info));
    }
    let fov = game.info.settings.player.fov;
    let level = game.levels.cur_mut();
    let tick = crate::monster::move_to(
        0,
        dpos,
        level,
        &game.info,
        &mut game.messages,
        &mut game.play_rng,
    );
    let ghost mid = *level;
    if tick {
        let px = level.monsters[0].pos.0 as usize;
        let py = level.monsters[0].pos.1 as usize;
        level.tiles.compute_fov(px, py, fov);
        proof {
            assert(level.tiles.wf(&game.info.map)) by {
                assert forall|cx: int, cy: int|
                    0 <= cx < level.tiles.spec_width() && 0 <= cy < level.tiles.spec_height() implies {
                    &&& (#[trigger] level.tiles.id_at(cx, cy)) < game.info.map.tiles@.len()
                    &&& level.tiles.transp_at(cx, cy) == game.info.map.tiles@[level.tiles.id_at(
                        cx,
                        cy,
                    ) as int].transparent
                } by {}
            }
        }
    }
    proof {
        assert forall|idx: i32| game.levels.valid_idx(idx) implies level_ok(
            &(game.levels.spec_at(idx)),
            &game.info,
        ) by {
            if idx == old(game).levels.spec_cur_idx() {
                assert(game.levels.spec_cur() == *level);
                assert(level_ok(&(*level), &game.info));
            } else {
                assert(old(game).levels.valid_idx(idx));
                assert(game.levels.spec_at(idx) == old(game).levels.spec_at(idx));
            }
        }
        let oldc = old(game).levels.spec_cur();
        let newc = game.levels.spec_cur();
        assert(newc == *level);
        assert(newc.monsters@ == mid.monsters@);
        assert forall|cx: int, cy: int| 0 <= cx < mid.width && 0 <= cy < mid.height implies
            #[trigger] newc.tiles.id_at(cx, cy) == mid.tiles.id_at(cx, cy) by {}
        assert(crate::monster::move_outcome(
            tick,
            &oldc,
            &newc,
            &old(game).info,
            old(game).messages@,
            game.messages@,
            0,
            dpos,
        )) by {
            assert(crate::monster::move_outcome(
                tick,
                &oldc,
                &mid,
                &old(game).info,
                old(game).messages@,
                game.messages@,
                0,
                dpos,
            ));
            assert(crate::monster::tiles_ids_preserved(&oldc, &mid)
                ==> crate::monster::tiles_ids_preserved(&oldc, &newc));
        }
    }
    tick
}

} // verus!
