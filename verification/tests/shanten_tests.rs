use mahjong_rs::hand::Hand;
use mahjong_rs::hand_info::shanten::Shanten;
use mahjong_rs::winning_hand::name::WinningHandForm;

/// A complete seven pairs hand.
#[test]
fn win_by_seven_pairs() {
    let test_str = "1122m3344p5566s1z 1z";
    let test = Hand::from(test_str);
    assert_eq!(
        Shanten::calc_by_form(&test, WinningHandForm::SevenPairs).num,
        -1
    );
}

/// A complete thirteen orphans hand.
#[test]
fn win_by_thirteen_orphens() {
    let test_str = "19m19p19s1234567z 1m";
    let test = Hand::from(test_str);
    assert_eq!(
        Shanten::calc_by_form(&test, WinningHandForm::ThirteenOrphens).num,
        -1
    );
}

/// Tenpai towards seven pairs.
#[test]
fn shanten_zero_shanten_to_seven_pairs() {
    let test_str = "226699m99p228s66z 1z";
    let test = Hand::from(test_str);
    assert_eq!(
        Shanten::calc_by_form(&test, WinningHandForm::SevenPairs).num,
        0
    );
}

/// Tenpai towards seven pairs with three copies of one kind.
#[test]
fn shanten_zero_shanten_to_seven_pairs_2() {
    let test_str = "226699m99p222s66z 1z";
    let test = Hand::from(test_str);
    assert_eq!(
        Shanten::calc_by_form(&test, WinningHandForm::SevenPairs).num,
        0
    );
}

/// Tenpai towards thirteen orphans.
#[test]
fn shanten_zero_shanten_to_orphens() {
    let test_str = "19m19p11s1234567z 5m";
    let test = Hand::from(test_str);
    assert_eq!(
        Shanten::calc_by_form(&test, WinningHandForm::ThirteenOrphens).num,
        0
    );
}

/// Four copies of one kind afford only one pair: one away, not complete.
#[test]
fn shanten_seven_pairs_with_4_same_tiles() {
    let test_str = "1122m3344p5555s1z 1z";
    let test = Hand::from(test_str);
    assert_eq!(
        Shanten::calc_by_form(&test, WinningHandForm::SevenPairs).num,
        1
    );
}
