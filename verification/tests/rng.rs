use wheatley::rng::GameRng;

#[test]
fn range_is_inclusive_and_tight() {
    let mut rng = GameRng::from_seed(1);
    assert_eq!(rng.range(3, 3), 3);
    for _ in 0..100 {
        let r = rng.range(2, 5);
        assert!(2 <= r && r <= 5);
    }
}

#[test]
fn weighted_never_picks_zero_weight() {
    let mut rng = GameRng::from_seed(2);
    let weights = vec![0u32, 7, 0];
    for _ in 0..50 {
        assert_eq!(rng.weighted(&weights), 1);
    }
}

#[test]
fn pick_distinct_is_a_full_draw() {
    let mut rng = GameRng::from_seed(3);
    let mut picks = rng.pick_distinct(4, 4);
    picks.sort();
    assert_eq!(picks, vec![0, 1, 2, 3]);
    let some = rng.pick_distinct(10, 3);
    assert_eq!(some.len(), 3);
    for i in 0..3 {
        assert!(some[i] < 10);
        for j in 0..i {
            assert!(some[i] != some[j]);
        }
    }
}

#[test]
fn same_seed_gives_same_stream() {
    let mut a = GameRng::from_seed(42);
    let mut b = GameRng::from_seed(42);
    for _ in 0..50 {
        assert_eq!(a.range(0, 1000), b.range(0, 1000));
        assert_eq!(a.coin(), b.coin());
    }
}

#[test]
fn different_draws_vary() {
    let mut rng = GameRng::from_seed(0);
    let mut seen = Vec::new();
    for _ in 0..50 {
        seen.push(rng.range(0, 1_000_000));
    }
    let first = seen[0];
    assert!(seen.iter().any(|v| *v != first));
}
