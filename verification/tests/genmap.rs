use wheatley::combat::AttackFlavor;
use wheatley::combat::DamageInfo;
use wheatley::combat::DeathFlavor;
use wheatley::dice::Dice;
use wheatley::game::FontSettings;
use wheatley::game::Game;
use wheatley::game::GameInfo;
use wheatley::game::GameSettings;
use wheatley::game::InterfaceSettings;
use wheatley::game::Levels;
use wheatley::game::MapSettings;
use wheatley::game::PlayerSettings;
use wheatley::gen::create;
use wheatley::gen::place_monsters;
use wheatley::gen::Empty;
use wheatley::gen::Generator;
use wheatley::gen::Hallways;
use wheatley::map::Level;
use wheatley::monster::Attack;
use wheatley::monster::MonsterInfo;
use wheatley::rng::GameRng;
use wheatley::tile::MapInfo;
use wheatley::tile::MapTile;
use wheatley::tile::Tile;

fn tile(
    name: &str,
    transparent: bool,
    walkable: bool,
    open: Option<usize>,
    close: Option<usize>,
) -> MapTile {
    MapTile {
        name: String::from(name),
        tile: Tile { ch: 35, fg: (255, 255, 255, 255), bg: (0, 0, 0, 255) },
        transparent,
        walkable,
        open,
        close,
        flip: None,
    }
}

fn catalog() -> MapInfo {
    MapInfo {
        tiles: vec![
            tile("wall", false, false, None, None),
            tile("floor", true, true, None, None),
            tile("door", false, false, Some(3), None),
            tile("open_door", true, true, None, Some(2)),
        ],
    }
}

fn game_info(width: usize, height: usize, attempts: i32, num: u32) -> GameInfo {
    GameInfo {
        settings: GameSettings {
            interface: InterfaceSettings {
                width: 80,
                height: 50,
                font: FontSettings { font: String::from("terminal.png"), width: 8, height: 8 },
                key_delay: 5,
            },
            player: PlayerSettings {
                fov: 5,
                tile: Tile { ch: 64, fg: (255, 255, 255, 255), bg: (0, 0, 0, 255) },
            },
            map: MapSettings { place_attempts: attempts, num_monsters: num, width, height },
        },
        map: catalog(),
        monster: vec![MonsterInfo {
            name: String::from("slime"),
            weight: 1,
            tile: Tile { ch: 115, fg: (0, 255, 0, 255), bg: (0, 0, 0, 255) },
            health: 4,
            attacks: vec![Attack { dam: Dice { rolls: 1, faces: 6 }, class: 0, text: None }],
            friendly: false,
        }],
        damage: vec![DamageInfo {
            name: String::from("cringe"),
            attacks: vec![AttackFlavor {
                player: (String::from(" hit "), String::from("!")),
                monster_m: (String::from(" bumps "), String::from(".")),
                monster_p: (String::from(" hits "), String::from("!")),
            }],
            deaths: vec![DeathFlavor {
                player: String::from("you die."),
                monster: String::from(" dies."),
            }],
        }],
    }
}

fn fresh_game(width: usize, height: usize, attempts: i32, num: u32) -> Game {
    Game {
        info: game_info(width, height, attempts, num),
        messages: std::collections::VecDeque::new(),
        levels: Levels::empty(),
        map_rng: GameRng::from_seed(12),
        play_rng: GameRng::from_seed(34),
    }
}

#[test]
fn carved_cells_are_wall_floor_or_door() {
    let cat = catalog();
    let mut l = Level::new(40, 30, 0, &cat);
    let mut rng = GameRng::from_seed(7);
    create(&mut l, &cat, &mut rng, 3, 4, true, 1, 39, 1, 29, 1, 2);
    let mut floors = 0;
    for x in 0..40 {
        for y in 0..30 {
            let id = l.tiles.get(x, y);
            assert!(id == 0 || id == 1 || id == 2);
            // every carved corridor or room cell is walkable, every door
            // cell is not walkable until opened
            if id == 1 {
                assert!(cat.tiles[id].walkable);
                floors += 1;
            }
            if id == 2 {
                assert!(!cat.tiles[id].walkable);
                assert_eq!(cat.tiles[id].open, Some(3));
                assert!(cat.tiles[3].walkable);
            }
        }
    }
    assert!(floors > 0);
}

#[test]
fn later_carving_never_erases_doors() {
    let cat = catalog();
    let mut l = Level::new(40, 30, 0, &cat);
    let mut rng = GameRng::from_seed(21);
    create(&mut l, &cat, &mut rng, 2, 3, true, 1, 19, 1, 29, 1, 2);
    let mut doors = Vec::new();
    for x in 0..40 {
        for y in 0..30 {
            if l.tiles.get(x, y) == 2 {
                doors.push((x, y));
            }
        }
    }
    assert!(!doors.is_empty());
    create(&mut l, &cat, &mut rng, 2, 3, true, 21, 39, 1, 29, 1, 2);
    for (x, y) in doors {
        assert_eq!(l.tiles.get(x, y), 2);
    }
}

#[test]
fn zero_place_attempts_places_nothing() {
    let cat = catalog();
    let mut l = Level::new(20, 20, 0, &cat);
    for x in 1..19 {
        for y in 1..19 {
            l.tiles.set(x, y, 1, &cat);
        }
    }
    let info = game_info(20, 20, 0, 5);
    let mut rng = GameRng::from_seed(4);
    place_monsters(&mut l, &info, &mut rng);
    assert_eq!(l.monsters.len(), 0);
}

#[test]
fn placed_monsters_stand_on_walkable_cells() {
    let cat = catalog();
    let mut l = Level::new(20, 20, 0, &cat);
    for x in 1..19 {
        for y in 1..19 {
            l.tiles.set(x, y, 1, &cat);
        }
    }
    let info = game_info(20, 20, 50, 3);
    let mut rng = GameRng::from_seed(4);
    place_monsters(&mut l, &info, &mut rng);
    assert!(l.monsters.len() <= 3);
    assert!(!l.monsters.is_empty());
    for m in &l.monsters {
        let id = l.tiles.get(m.pos.0 as usize, m.pos.1 as usize);
        assert!(info.map.tiles[id].walkable);
        assert_eq!(m.hp, 4);
        assert_eq!(m.info, 0);
    }
}

#[test]
fn empty_generator_floors_the_interior() {
    let mut game = fresh_game(10, 10, 10, 0);
    let mut l = Level::new(10, 10, 0, &game.info.map);
    let r = Empty.generate(&mut game, &mut l);
    assert!(r.is_ok());
    // the interior is floored, the one-cell border keeps its wall
    assert_eq!(l.tiles.get(1, 1), 1);
    assert_eq!(l.tiles.get(8, 8), 1);
    assert_eq!(l.tiles.get(0, 0), 0);
    assert_eq!(l.tiles.get(1, 0), 0);
    assert_eq!(l.tiles.get(0, 1), 0);
    assert_eq!(l.tiles.get(9, 9), 0);
    assert_eq!(l.tiles.get(8, 9), 0);
}

#[test]
fn all_walkable_level_seats_every_monster() {
    let cat = catalog();
    let mut l = Level::new(20, 20, 1, &cat);
    let info = game_info(20, 20, 1, 5);
    let mut rng = GameRng::from_seed(8);
    place_monsters(&mut l, &info, &mut rng);
    assert_eq!(l.monsters.len(), 5);
}

#[test]
fn too_small_region_is_left_untouched() {
    let cat = catalog();
    let mut l = Level::new(10, 10, 0, &cat);
    let mut rng = GameRng::from_seed(2);
    create(&mut l, &cat, &mut rng, 3, 6, true, 1, 3, 1, 3, 1, 2);
    for x in 0..10 {
        for y in 0..10 {
            assert_eq!(l.tiles.get(x, y), 0);
        }
    }
}

#[test]
fn hallways_generates_a_playable_level() {
    let mut game = fresh_game(60, 40, 100, 4);
    let l = Level::generate(60, 40, &mut game, Hallways::new(7, 6)).unwrap();
    assert_eq!(l.width, 60);
    assert_eq!(l.height, 40);
    let mut floors = 0;
    for x in 0..60 {
        for y in 0..40 {
            let id = l.tiles.get(x, y);
            assert!(id <= 2);
            if id == 1 {
                floors += 1;
            }
        }
    }
    assert!(floors > 0);
    assert!(l.monsters.len() <= 4);
    for m in &l.monsters {
        let id = l.tiles.get(m.pos.0 as usize, m.pos.1 as usize);
        assert!(game.info.map.tiles[id].walkable);
    }
}

#[test]
fn generate_without_wall_template_fails() {
    let mut game = fresh_game(20, 20, 10, 0);
    game.info.map.tiles.remove(0);
    // the catalog now lacks "wall"; note indices of the remaining entries
    // shifted, so rebuild a clean two-entry catalog instead
    game.info.map = MapInfo { tiles: vec![tile("floor", true, true, None, None)] };
    let r = Level::generate(20, 20, &mut game, Hallways::new(7, 6));
    assert!(r.is_err());
    assert_eq!(r.err().unwrap().name, "wall");
}

#[test]
fn hallways_without_door_template_fails() {
    let mut game = fresh_game(20, 20, 10, 0);
    game.info.map = MapInfo {
        tiles: vec![tile("wall", false, false, None, None), tile("floor", true, true, None, None)],
    };
    let r = Level::generate(20, 20, &mut game, Hallways::new(7, 6));
    assert!(r.is_err());
    assert_eq!(r.err().unwrap().name, "door");
}
