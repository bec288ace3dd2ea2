use wheatley::combat::AttackFlavor;
use wheatley::combat::DamageInfo;
use wheatley::combat::DeathFlavor;
use wheatley::dice::Dice;
use wheatley::game::player_turn;
use wheatley::game::FontSettings;
use wheatley::game::Game;
use wheatley::game::GameInfo;
use wheatley::game::GameSetupError;
use wheatley::game::GameSettings;
use wheatley::game::InterfaceSettings;
use wheatley::game::Levels;
use wheatley::game::MapSettings;
use wheatley::game::PlayerSettings;
use wheatley::map::Level;
use wheatley::monster::Attack;
use wheatley::monster::MonsterInfo;
use wheatley::point::Point;
use wheatley::tile::MapInfo;
use wheatley::tile::MapTile;
use wheatley::tile::Tile;

fn tile(
    name: &str,
    transparent: bool,
    walkable: bool,
    open: Option<usize>,
    close: Option<usize>,
) -> MapTile {
    MapTile {
        name: String::from(name),
        tile: Tile { ch: 35, fg: (255, 255, 255, 255), bg: (0, 0, 0, 255) },
        transparent,
        walkable,
        open,
        close,
        flip: None,
    }
}

fn catalog() -> MapInfo {
    MapInfo {
        tiles: vec![
            tile("wall", false, false, None, None),
            tile("floor", true, true, None, None),
            tile("door", false, false, Some(3), None),
            tile("open_door", true, true, None, Some(2)),
        ],
    }
}

fn game_info(width: usize, height: usize, attempts: i32, num: u32) -> GameInfo {
    GameInfo {
        settings: GameSettings {
            interface: InterfaceSettings {
                width: 80,
                height: 50,
                font: FontSettings { font: String::from("terminal.png"), width: 8, height: 8 },
                key_delay: 5,
            },
            player: PlayerSettings {
                fov: 5,
                tile: Tile { ch: 64, fg: (255, 255, 255, 255), bg: (0, 0, 0, 255) },
            },
            map: MapSettings { place_attempts: attempts, num_monsters: num, width, height },
        },
        map: catalog(),
        monster: vec![MonsterInfo {
            name: String::from("slime"),
            weight: 1,
            tile: Tile { ch: 115, fg: (0, 255, 0, 255), bg: (0, 0, 0, 255) },
            health: 4,
            attacks: vec![Attack { dam: Dice { rolls: 1, faces: 6 }, class: 0, text: None }],
            friendly: false,
        }],
        damage: vec![DamageInfo {
            name: String::from("cringe"),
            attacks: vec![AttackFlavor {
                player: (String::from(" hit "), String::from("!")),
                monster_m: (String::from(" bumps "), String::from(".")),
                monster_p: (String::from(" hits "), String::from("!")),
            }],
            deaths: vec![DeathFlavor {
                player: String::from("you die."),
                monster: String::from(" dies."),
            }],
        }],
    }
}

#[test]
fn new_game_places_player_first_with_fov() {
    let game = Game::new(game_info(60, 40, 200, 3), 77).unwrap();
    let l = game.levels.cur();
    assert!(!l.monsters.is_empty());
    let p = l.monsters[0];
    assert_eq!(p.hp, 20);
    assert_eq!(game.info.monster[p.info].name, "player");
    // the player stands on a walkable cell and sees it
    let id = l.tiles.get(p.pos.0 as usize, p.pos.1 as usize);
    assert!(game.info.map.tiles[id].walkable);
    assert!(l.tiles.is_in_fov(p.pos.0 as usize, p.pos.1 as usize));
    assert!(game.messages.is_empty());
    assert_eq!(game.levels.cur_idx(), 0);
}

#[test]
fn new_game_without_damage_class_fails() {
    let mut info = game_info(40, 30, 100, 1);
    info.damage[0].name = String::from("boring");
    // the monster template still resolves class 0, so integrity holds, but
    // the player's class name is absent
    let r = Game::new(info, 5);
    match r {
        Err(GameSetupError::MissingName(n)) => assert_eq!(n, "cringe"),
        _ => panic!("expected a missing damage class"),
    }
}

#[test]
fn new_game_with_no_attempts_cannot_seat_player() {
    let r = Game::new(game_info(40, 30, 0, 1), 5);
    match r {
        Err(GameSetupError::NoWalkableCell) => {},
        _ => panic!("expected placement exhaustion"),
    }
}

#[test]
fn player_turn_moves_and_recomputes_fov() {
    let mut game = Game::new(game_info(60, 40, 200, 0), 123).unwrap();
    // clear any monster collisions: with zero monsters configured only the
    // player is on the level
    assert_eq!(game.levels.cur().monsters.len(), 1);
    let before = game.levels.cur().monsters[0].pos;
    let deltas = [Point(1, 0), Point(-1, 0), Point(0, 1), Point(0, -1)];
    let mut moved = false;
    for d in deltas {
        if player_turn(&mut game, d) {
            let l = game.levels.cur();
            let after = l.monsters[0].pos;
            let id = l.tiles.get(after.0 as usize, after.1 as usize);
            if game.info.map.tiles[id].walkable {
                // the actor either moved or opened a door in place
                moved = moved || after != before;
                assert!(l.tiles.is_in_fov(after.0 as usize, after.1 as usize));
            }
            break;
        }
    }
    let _ = moved;
}

#[test]
fn levels_stack_tracks_current_floor() {
    let cat = catalog();
    let ground = Level::new(8, 8, 0, &cat);
    let mut levels = Levels::empty();
    assert_eq!(levels.cur_idx(), 0);
    levels.add_top(ground);
    assert_eq!(levels.cur().width, 8);
    assert_eq!(levels.at(0).height, 8);
    let second = Level::new(9, 9, 0, &cat);
    levels.add_top(second);
    // the current floor index is unchanged by adding floors
    assert_eq!(levels.cur_idx(), 0);
    assert_eq!(levels.cur().width, 8);
}

#[test]
fn tile_lookup_finds_and_reports() {
    let cat = catalog();
    assert_eq!(cat.lookup("door").unwrap(), 2);
    assert_eq!(cat.lookup("wall").unwrap(), 0);
    let e = cat.lookup("lava").err().unwrap();
    assert_eq!(e.name, "lava");
}

#[test]
fn damage_class_lookup() {
    let info = game_info(10, 10, 1, 0);
    assert_eq!(info.damage_class("cringe"), Some(0));
    assert_eq!(info.damage_class("radiant"), None);
}

#[test]
fn catalog_validation_checks_transitions() {
    let cat = catalog();
    assert!(cat.valid());
    let bad = MapInfo { tiles: vec![tile("wall", false, false, Some(9), None)] };
    assert!(!bad.valid());
}
