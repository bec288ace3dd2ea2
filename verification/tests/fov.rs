use wheatley::map::Level;
use wheatley::tile::MapInfo;
use wheatley::tile::MapTile;
use wheatley::tile::Tile;

fn tile(name: &str, transparent: bool, walkable: bool) -> MapTile {
    MapTile {
        name: String::from(name),
        tile: Tile { ch: 35, fg: (255, 255, 255, 255), bg: (0, 0, 0, 255) },
        transparent,
        walkable,
        open: None,
        close: None,
        flip: None,
    }
}

fn catalog() -> MapInfo {
    MapInfo { tiles: vec![tile("wall", false, false), tile("floor", true, true)] }
}

fn open_level(width: usize, height: usize, cat: &MapInfo) -> Level {
    let mut l = Level::new(width, height, 0, cat);
    for x in 1..width - 1 {
        for y in 1..height - 1 {
            l.tiles.set(x, y, 1, cat);
        }
    }
    l
}

#[test]
fn origin_always_visible() {
    let cat = catalog();
    let mut l = open_level(12, 12, &cat);
    l.tiles.compute_fov(5, 5, 0);
    assert!(l.tiles.is_in_fov(5, 5));
    l.tiles.compute_fov(5, 5, 4);
    assert!(l.tiles.is_in_fov(5, 5));
}

#[test]
fn visibility_monotonic_in_radius() {
    let cat = catalog();
    let mut l = open_level(16, 16, &cat);
    l.tiles.compute_fov(8, 8, 3);
    let mut small = Vec::new();
    for x in 0..16 {
        for y in 0..16 {
            small.push(l.tiles.is_in_fov(x, y));
        }
    }
    l.tiles.compute_fov(8, 8, 6);
    let mut i = 0;
    for x in 0..16 {
        for y in 0..16 {
            if small[i] {
                assert!(l.tiles.is_in_fov(x, y));
            }
            i += 1;
        }
    }
}

#[test]
fn opaque_cell_blocks_sight() {
    let cat = catalog();
    let mut l = open_level(12, 12, &cat);
    l.tiles.set(6, 5, 0, &cat);
    l.tiles.compute_fov(5, 5, 4);
    assert!(l.tiles.is_in_fov(6, 5));
    assert!(!l.tiles.is_in_fov(7, 5));
    assert!(!l.tiles.is_in_fov(8, 5));
}

#[test]
fn set_updates_occlusion_for_next_compute() {
    let cat = catalog();
    let mut l = open_level(12, 12, &cat);
    l.tiles.set(6, 5, 0, &cat);
    l.tiles.compute_fov(5, 5, 4);
    assert!(!l.tiles.is_in_fov(7, 5));
    l.tiles.set(6, 5, 1, &cat);
    l.tiles.compute_fov(5, 5, 4);
    assert!(l.tiles.is_in_fov(7, 5));
}

#[test]
fn radius_limits_sight() {
    let cat = catalog();
    let mut l = open_level(16, 16, &cat);
    l.tiles.compute_fov(8, 8, 2);
    assert!(l.tiles.is_in_fov(10, 8));
    assert!(!l.tiles.is_in_fov(11, 8));
    assert!(!l.tiles.is_in_fov(8, 12));
}
