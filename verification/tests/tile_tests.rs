use mahjong_rs::tile::Tile;

/// Suit attributes of the man tiles.
#[test]
fn suit_char_test() {
    for i in Tile::M1..=Tile::M9 {
        let t = Tile::new(i);
        assert_eq!(t.is_character(), true);
        assert_eq!(t.is_bamboo(), false);
        assert_eq!(t.is_circle(), false);
        assert_eq!(t.is_honor(), false);
        assert_eq!(
            t.is_1_or_9(),
            if i == Tile::M1 || i == Tile::M9 {
                true
            } else {
                false
            }
        );
    }
}

/// Suit attributes of the pin tiles.
#[test]
fn suit_circle_test() {
    for i in Tile::P1..=Tile::P9 {
        let t = Tile::new(i);
        assert_eq!(t.is_character(), false);
        assert_eq!(t.is_bamboo(), false);
        assert_eq!(t.is_circle(), true);
        assert_eq!(t.is_honor(), false);
        assert_eq!(
            t.is_1_or_9(),
            if i == Tile::P1 || i == Tile::P9 {
                true
            } else {
                false
            }
        );
    }
}

/// Suit attributes of the sou tiles.
#[test]
fn suit_bamboo_test() {
    for i in Tile::S1..=Tile::S9 {
        let t = Tile::new(i);
        assert_eq!(t.is_character(), false);
        assert_eq!(t.is_bamboo(), true);
        assert_eq!(t.is_circle(), false);
        assert_eq!(t.is_honor(), false);
        assert_eq!(
            t.is_1_or_9(),
            if i == Tile::S1 || i == Tile::S9 {
                true
            } else {
                false
            }
        );
    }
}

/// Attributes of the wind tiles.
#[test]
fn suit_wind_test() {
    for i in Tile::Z1..=Tile::Z4 {
        let t = Tile::new(i);
        assert_eq!(t.is_character(), false);
        assert_eq!(t.is_bamboo(), false);
        assert_eq!(t.is_circle(), false);
        assert_eq!(t.is_wind(), true);
        assert_eq!(t.is_dragon(), false);
        assert_eq!(t.is_honor(), true);
    }
}

/// Attributes of the dragon tiles.
#[test]
fn suit_dragon_test() {
    for i in Tile::Z5..=Tile::Z7 {
        let t = Tile::new(i);
        assert_eq!(t.is_character(), false);
        assert_eq!(t.is_bamboo(), false);
        assert_eq!(t.is_circle(), false);
        assert_eq!(t.is_wind(), false);
        assert_eq!(t.is_dragon(), true);
        assert_eq!(t.is_honor(), true);
    }
}

/// Attributes of the honor tiles.
#[test]
fn suit_honor_test() {
    for i in Tile::Z1..=Tile::Z7 {
        let t = Tile::new(i);
        assert_eq!(t.is_character(), false);
        assert_eq!(t.is_bamboo(), false);
        assert_eq!(t.is_circle(), false);
        assert_eq!(t.is_honor(), true);
    }
}

/// Pairs: two tiles of one kind.
#[test]
fn sameness_test() {
    // 1m and 1m pair up
    assert_eq!(Tile::new(Tile::M1).is_same_to(Tile::new(Tile::M1)), true);
    // 1m and 1p do not
    assert_eq!(Tile::new(Tile::M1).is_same_to(Tile::new(Tile::P1)), false);
    // 1z and 1z pair up
    assert_eq!(Tile::new(Tile::Z1).is_same_to(Tile::new(Tile::Z1)), true);
}

/// Proto-runs: adjacent ranks of one suit.
#[test]
fn sequential_test() {
    // 1m then 2m is a proto-run
    assert_eq!(
        Tile::new(Tile::M1).is_sequential_to(Tile::new(Tile::M2)),
        true
    );
    // 3p then 3p is not
    assert_eq!(
        Tile::new(Tile::P3).is_sequential_to(Tile::new(Tile::P3)),
        false
    );
    // 7s then 8s is a proto-run
    assert_eq!(
        Tile::new(Tile::S7).is_sequential_to(Tile::new(Tile::S8)),
        true
    );
    // 1m then 1p is not
    assert_eq!(
        Tile::new(Tile::M1).is_sequential_to(Tile::new(Tile::P1)),
        false
    );
    // 9m then 8m is a proto-run
    assert_eq!(
        Tile::new(Tile::M9).is_sequential_to(Tile::new(Tile::M8)),
        true
    );
    // 9m then 1p is not
    assert_eq!(
        Tile::new(Tile::M9).is_sequential_to(Tile::new(Tile::P1)),
        false
    );
    // 1s then 9p is not
    assert_eq!(
        Tile::new(Tile::S1).is_sequential_to(Tile::new(Tile::P9)),
        false
    );
    // 9s then 1z is not
    assert_eq!(
        Tile::new(Tile::S9).is_sequential_to(Tile::new(Tile::Z1)),
        false
    );
    // 1z then 2z is not: honors never run
    assert_eq!(
        Tile::new(Tile::Z1).is_sequential_to(Tile::new(Tile::Z2)),
        false
    );
}
