use std::collections::VecDeque;

use wheatley::combat::AttackFlavor;
use wheatley::combat::DamageInfo;
use wheatley::combat::DeathFlavor;
use wheatley::dice::Dice;
use wheatley::game::FontSettings;
use wheatley::game::GameInfo;
use wheatley::game::GameSettings;
use wheatley::game::InterfaceSettings;
use wheatley::game::MapSettings;
use wheatley::game::PlayerSettings;
use wheatley::map::Level;
use wheatley::monster::close_doors;
use wheatley::monster::move_to;
use wheatley::monster::Attack;
use wheatley::monster::Monster;
use wheatley::monster::MonsterInfo;
use wheatley::point::Point;
use wheatley::rng::GameRng;
use wheatley::tile::MapInfo;
use wheatley::tile::MapTile;
use wheatley::tile::Tile;

fn tile(
    name: &str,
    transparent: bool,
    walkable: bool,
    open: Option<usize>,
    close: Option<usize>,
) -> MapTile {
    MapTile {
        name: String::from(name),
        tile: Tile { ch: 35, fg: (255, 255, 255, 255), bg: (0, 0, 0, 255) },
        transparent,
        walkable,
        open,
        close,
        flip: None,
    }
}

fn catalog() -> MapInfo {
    MapInfo {
        tiles: vec![
            tile("wall", false, false, None, None),
            tile("floor", true, true, None, None),
            tile("door", false, false, Some(3), None),
            tile("open_door", true, true, None, Some(2)),
        ],
    }
}

fn game_info(width: usize, height: usize) -> GameInfo {
    GameInfo {
        settings: GameSettings {
            interface: InterfaceSettings {
                width: 80,
                height: 50,
                font: FontSettings { font: String::from("terminal.png"), width: 8, height: 8 },
                key_delay: 5,
            },
            player: PlayerSettings {
                fov: 5,
                tile: Tile { ch: 64, fg: (255, 255, 255, 255), bg: (0, 0, 0, 255) },
            },
            map: MapSettings { place_attempts: 10, num_monsters: 1, width, height },
        },
        map: catalog(),
        monster: vec![MonsterInfo {
            name: String::from("slime"),
            weight: 1,
            tile: Tile { ch: 115, fg: (0, 255, 0, 255), bg: (0, 0, 0, 255) },
            health: 4,
            attacks: vec![Attack { dam: Dice { rolls: 1, faces: 6 }, class: 0, text: None }],
            friendly: false,
        }],
        damage: vec![DamageInfo {
            name: String::from("cringe"),
            attacks: vec![AttackFlavor {
                player: (String::from(" hit "), String::from("!")),
                monster_m: (String::from(" bumps "), String::from(".")),
                monster_p: (String::from(" hits "), String::from("!")),
            }],
            deaths: vec![DeathFlavor {
                player: String::from("you die."),
                monster: String::from(" dies."),
            }],
        }],
    }
}

fn open_level(width: usize, height: usize, cat: &MapInfo) -> Level {
    let mut l = Level::new(width, height, 0, cat);
    for x in 1..width - 1 {
        for y in 1..height - 1 {
            l.tiles.set(x, y, 1, cat);
        }
    }
    l
}

#[test]
fn move_into_floor_consumes_turn() {
    let info = game_info(12, 12);
    let mut l = open_level(12, 12, &info.map);
    l.monsters.push(Monster { info: 0, pos: Point(5, 5), hp: 20 });
    let mut log: VecDeque<String> = VecDeque::new();
    let mut rng = GameRng::from_seed(1);
    let tick = move_to(0, Point(1, 0), &mut l, &info, &mut log, &mut rng);
    assert!(tick);
    assert_eq!(l.monsters[0].pos, Point(6, 5));
    assert!(log.is_empty());
}

#[test]
fn move_into_wall_is_not_a_turn() {
    let info = game_info(12, 12);
    let mut l = open_level(12, 12, &info.map);
    l.monsters.push(Monster { info: 0, pos: Point(10, 5), hp: 20 });
    let mut log: VecDeque<String> = VecDeque::new();
    let mut rng = GameRng::from_seed(1);
    let tick = move_to(0, Point(1, 0), &mut l, &info, &mut log, &mut rng);
    assert!(!tick);
    assert_eq!(l.monsters[0].pos, Point(10, 5));
    assert!(log.is_empty());
}

#[test]
fn move_out_of_bounds_is_ignored() {
    let info = game_info(12, 12);
    let mut l = open_level(12, 12, &info.map);
    l.monsters.push(Monster { info: 0, pos: Point(5, 5), hp: 20 });
    let mut log: VecDeque<String> = VecDeque::new();
    let mut rng = GameRng::from_seed(1);
    let tick = move_to(0, Point(100, 0), &mut l, &info, &mut log, &mut rng);
    assert!(!tick);
    assert_eq!(l.monsters[0].pos, Point(5, 5));
}

#[test]
fn attack_rolls_damage_in_range() {
    let info = game_info(12, 12);
    let mut l = open_level(12, 12, &info.map);
    l.monsters.push(Monster { info: 0, pos: Point(5, 5), hp: 20 });
    l.monsters.push(Monster { info: 0, pos: Point(6, 5), hp: 4 });
    let mut log: VecDeque<String> = VecDeque::new();
    let mut rng = GameRng::from_seed(3);
    let tick = move_to(0, Point(1, 0), &mut l, &info, &mut log, &mut rng);
    assert!(tick);
    // the attacker stands still and the defender lost a 1d6 roll
    assert_eq!(l.monsters[0].pos, Point(5, 5));
    let roll = 4 - l.monsters[1].hp;
    assert!(1 <= roll && roll <= 6);
    if l.monsters[1].hp <= 0 {
        assert_eq!(log.len(), 2);
        assert_eq!(log[1], "the slime dies.");
    } else {
        assert_eq!(log.len(), 1);
    }
    assert_eq!(log[0], "you hit the slime!");
}

#[test]
fn one_death_message_and_dead_never_targeted() {
    let info = game_info(12, 12);
    let mut l = open_level(12, 12, &info.map);
    l.monsters.push(Monster { info: 0, pos: Point(5, 5), hp: 20 });
    l.monsters.push(Monster { info: 0, pos: Point(6, 5), hp: 4 });
    let mut log: VecDeque<String> = VecDeque::new();
    let mut rng = GameRng::from_seed(9);
    let mut guard = 0;
    while l.monsters[1].hp > 0 {
        let tick = move_to(0, Point(1, 0), &mut l, &info, &mut log, &mut rng);
        assert!(tick);
        assert_eq!(l.monsters[0].pos, Point(5, 5));
        guard += 1;
        assert!(guard < 20);
    }
    let deaths = log.iter().filter(|m| m.as_str() == "the slime dies.").count();
    assert_eq!(deaths, 1);
    // a dead defender is not a combat target: the actor walks onto its cell
    let before = log.len();
    let tick = move_to(0, Point(1, 0), &mut l, &info, &mut log, &mut rng);
    assert!(tick);
    assert_eq!(l.monsters[0].pos, Point(6, 5));
    assert_eq!(log.len(), before);
    let deaths = log.iter().filter(|m| m.as_str() == "the slime dies.").count();
    assert_eq!(deaths, 1);
}

#[test]
fn open_then_close_restores_door() {
    let info = game_info(12, 12);
    let mut l = open_level(12, 12, &info.map);
    l.tiles.set(6, 5, 2, &info.map);
    l.monsters.push(Monster { info: 0, pos: Point(5, 5), hp: 20 });
    let mut log: VecDeque<String> = VecDeque::new();
    let mut rng = GameRng::from_seed(1);
    // opening the door consumes the turn without moving
    let tick = move_to(0, Point(1, 0), &mut l, &info, &mut log, &mut rng);
    assert!(tick);
    assert_eq!(l.monsters[0].pos, Point(5, 5));
    assert_eq!(l.tiles.get(6, 5), 3);
    // the close interaction while adjacent restores the closed template
    close_doors(&mut l, &info, Point(5, 5));
    assert_eq!(l.tiles.get(6, 5), 2);
    // everything else is untouched
    assert_eq!(l.tiles.get(5, 5), 1);
    assert_eq!(l.tiles.get(7, 5), 1);
}

#[test]
fn open_door_is_walkable() {
    let info = game_info(12, 12);
    let mut l = open_level(12, 12, &info.map);
    l.tiles.set(6, 5, 2, &info.map);
    l.monsters.push(Monster { info: 0, pos: Point(5, 5), hp: 20 });
    let mut log: VecDeque<String> = VecDeque::new();
    let mut rng = GameRng::from_seed(1);
    assert!(move_to(0, Point(1, 0), &mut l, &info, &mut log, &mut rng));
    assert_eq!(l.monsters[0].pos, Point(5, 5));
    assert!(move_to(0, Point(1, 0), &mut l, &info, &mut log, &mut rng));
    assert_eq!(l.monsters[0].pos, Point(6, 5));
}

#[test]
fn close_doors_at_level_corner() {
    let info = game_info(12, 12);
    let mut l = open_level(12, 12, &info.map);
    l.tiles.set(0, 0, 3, &info.map);
    close_doors(&mut l, &info, Point(1, 1));
    assert_eq!(l.tiles.get(0, 0), 2);
    // the player's own cell is not touched
    assert_eq!(l.tiles.get(1, 1), 1);
}

#[test]
fn close_doors_ignores_plain_walls() {
    let info = game_info(12, 12);
    let mut l = open_level(12, 12, &info.map);
    close_doors(&mut l, &info, Point(1, 1));
    assert_eq!(l.tiles.get(0, 0), 0);
    assert_eq!(l.tiles.get(2, 2), 1);
}

#[test]
fn monster_attacks_player_message() {
    let info = game_info(12, 12);
    let mut l = open_level(12, 12, &info.map);
    l.monsters.push(Monster { info: 0, pos: Point(5, 5), hp: 20 });
    l.monsters.push(Monster { info: 0, pos: Point(6, 5), hp: 20 });
    let mut log: VecDeque<String> = VecDeque::new();
    let mut rng = GameRng::from_seed(1);
    // actor 1 (a monster) attacks the player on cell (5,5)
    let tick = move_to(1, Point(-1, 0), &mut l, &info, &mut log, &mut rng);
    assert!(tick);
    assert_eq!(log.len(), 1);
    assert_eq!(log[0], "the slime hits you!");
    assert!(l.monsters[0].hp < 20);
}
