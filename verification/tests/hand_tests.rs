use mahjong_rs::hand::Hand;
use mahjong_rs::tile::Tile;

/// Reading a run of tiles with one suit letter per group.
#[test]
fn str_to_tiles_test() {
    let test = Hand::str_to_tiles("123m456p789s1234z");
    assert_eq!(test[0], Tile::new(Tile::M1));
    assert_eq!(test[1], Tile::new(Tile::M2));
    assert_eq!(test[2], Tile::new(Tile::M3));
    assert_eq!(test[3], Tile::new(Tile::P4));
    assert_eq!(test[4], Tile::new(Tile::P5));
    assert_eq!(test[5], Tile::new(Tile::P6));
    assert_eq!(test[6], Tile::new(Tile::S7));
    assert_eq!(test[7], Tile::new(Tile::S8));
    assert_eq!(test[8], Tile::new(Tile::S9));
    assert_eq!(test[9], Tile::new(Tile::Z1));
    assert_eq!(test[10], Tile::new(Tile::Z2));
    assert_eq!(test[11], Tile::new(Tile::Z3));
    assert_eq!(test[12], Tile::new(Tile::Z4));
}

/// Reading a run of tiles with a suit letter after every rank.
#[test]
fn str_to_tiles_test2() {
    let test = Hand::str_to_tiles("1m2m3m4p5p6p");
    assert_eq!(test[0], Tile::new(Tile::M1));
    assert_eq!(test[1], Tile::new(Tile::M2));
    assert_eq!(test[2], Tile::new(Tile::M3));
    assert_eq!(test[3], Tile::new(Tile::P4));
    assert_eq!(test[4], Tile::new(Tile::P5));
    assert_eq!(test[5], Tile::new(Tile::P6));
}
