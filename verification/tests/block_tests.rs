use mahjong_rs::hand_info::block::{Same2, Same3, Sequential2, Sequential3};
use mahjong_rs::tile::Tile;

#[test]
fn test_same2_normal() {
    assert_eq!(Same2::new(Tile::M1, Tile::M1).unwrap().get(), [Tile::M1; 2]);
}

#[test]
#[should_panic]
fn test_same2_errors_when_not_same() {
    Same2::new(Tile::M1, Tile::M2).unwrap();
}

#[test]
fn test_same3_normal() {
    assert_eq!(
        Same3::new(Tile::M1, Tile::M1, Tile::M1).unwrap().get(),
        [Tile::M1; 3]
    );
}

#[test]
#[should_panic]
fn test_same3_errors_when_not_same() {
    Same3::new(Tile::M1, Tile::M1, Tile::M2).unwrap();
}

#[test]
fn test_sequential2_normal() {
    assert_eq!(
        Sequential2::new(Tile::M1, Tile::M2).unwrap().get(),
        [Tile::M1, Tile::M2]
    );
}

#[test]
fn test_sequential2_normal2() {
    assert_eq!(
        Sequential2::new(Tile::M1, Tile::M3).unwrap().get(),
        [Tile::M1, Tile::M3]
    );
}

#[test]
#[should_panic]
fn test_sequential2_errors_when_not_sequential() {
    Sequential2::new(Tile::M1, Tile::M4).unwrap();
}

#[test]
#[should_panic]
fn test_sequential2_errors_when_honor() {
    Sequential2::new(Tile::Z1, Tile::Z2).unwrap();
}

#[test]
#[should_panic]
fn test_sequential2_errors_when_other_kind() {
    Sequential2::new(Tile::M9, Tile::P1).unwrap();
}

#[test]
#[should_panic]
fn test_sequential2_errors_when_other_kind2() {
    Sequential2::new(Tile::P8, Tile::S1).unwrap();
}

#[test]
fn test_sequential3_normal() {
    assert_eq!(
        Sequential3::new(Tile::M1, Tile::M2, Tile::M3).unwrap().get(),
        [Tile::M1, Tile::M2, Tile::M3]
    );
}

#[test]
#[should_panic]
fn test_sequential3_errors_when_not_sequential() {
    Sequential3::new(Tile::M1, Tile::M2, Tile::M4).unwrap();
}

#[test]
#[should_panic]
fn test_sequential3_errors_when_honor() {
    Sequential3::new(Tile::Z1, Tile::Z2, Tile::Z3).unwrap();
}

#[test]
#[should_panic]
fn test_sequential3_errors_when_other_kind() {
    Sequential3::new(Tile::M8, Tile::M9, Tile::P1).unwrap();
}

#[test]
#[should_panic]
fn test_sequential3_errors_when_other_kind2() {
    Sequential3::new(Tile::P9, Tile::S1, Tile::S2).unwrap();
}
