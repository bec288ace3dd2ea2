use wheatley::dice::parse_dice;
use wheatley::dice::Dice;
use wheatley::rng::GameRng;

#[test]
fn parse_simple() {
    let d = parse_dice("1d6").unwrap();
    assert_eq!(d.rolls, 1);
    assert_eq!(d.faces, 6);
    let d = parse_dice("2d6").unwrap();
    assert_eq!(d.rolls, 2);
    assert_eq!(d.faces, 6);
    let d = parse_dice("10d20").unwrap();
    assert_eq!(d.rolls, 10);
    assert_eq!(d.faces, 20);
}

#[test]
fn parse_leading_zeros() {
    let d = parse_dice("003d007").unwrap();
    assert_eq!(d.rolls, 3);
    assert_eq!(d.faces, 7);
}

#[test]
fn parse_rejects_malformed() {
    assert!(parse_dice("").is_none());
    assert!(parse_dice("d6").is_none());
    assert!(parse_dice("2d").is_none());
    assert!(parse_dice("2x6").is_none());
    assert!(parse_dice("2d6d3").is_none());
    assert!(parse_dice("ad6").is_none());
    assert!(parse_dice("2d6 ").is_none());
    assert!(parse_dice("0d6").is_none());
    assert!(parse_dice("2d0").is_none());
    assert!(parse_dice("99999999999999999999d2").is_none());
}

#[test]
fn roll_stays_in_bounds() {
    let mut rng = GameRng::from_seed(11);
    let d = Dice { rolls: 2, faces: 6 };
    for _ in 0..200 {
        let r = d.roll(&mut rng);
        assert!(2 <= r && r <= 12);
    }
}

#[test]
fn roll_one_sided_die_is_exact() {
    let mut rng = GameRng::from_seed(5);
    let d = Dice { rolls: 3, faces: 1 };
    for _ in 0..10 {
        assert_eq!(d.roll(&mut rng), 3);
    }
}
