use mahjong_rs::hand::Hand;
use mahjong_rs::hand_info::hand_analyzer::HandAnalyzer;
use mahjong_rs::winning_hand::name::WinningHandForm;

/// Tenpai towards seven pairs.
#[test]
fn hand_analyzer_zero_shanten_to_seven_pairs() {
    let test_str = "226699m99p228s66z 1z";
    let test = Hand::from(test_str);
    assert_eq!(
        HandAnalyzer::new_by_form(&test, WinningHandForm::SevenPairs).shanten,
        0
    );
}

/// Tenpai towards seven pairs with three copies of one kind.
#[test]
fn hand_analyzer_zero_shanten_to_seven_pairs_2() {
    let test_str = "226699m99p222s66z 1z";
    let test = Hand::from(test_str);
    assert_eq!(
        HandAnalyzer::new_by_form(&test, WinningHandForm::SevenPairs).shanten,
        0
    );
}

/// Tenpai towards thirteen orphans.
#[test]
fn hand_analyzer_zero_shanten_to_orphens() {
    let test_str = "19m19p11s1234567z 5m";
    let test = Hand::from(test_str);
    assert_eq!(
        HandAnalyzer::new_by_form(&test, WinningHandForm::ThirteenOrphens).shanten,
        0
    );
}

/// Four copies of one kind afford only one pair: one away, not complete.
#[test]
fn hand_analyzer_seven_pairs_with_4_same_tiles() {
    let test_str = "1122m3344p5555s1z 1z";
    let test = Hand::from(test_str);
    assert_eq!(
        HandAnalyzer::new_by_form(&test, WinningHandForm::SevenPairs).shanten,
        1
    );
}

/// A complete standard hand.
#[test]
fn win_by_ready_hand() {
    let test_str = "123m444p789s1112z 2z";
    let test = Hand::from(test_str);
    assert_eq!(
        HandAnalyzer::new_by_form(&test, WinningHandForm::Normal).shanten,
        -1
    );
}

/// A complete hand holding the seat wind triplet as a meld.
#[test]
fn win_by_honor_tiles_players_wind() {
    let test_str = "333m456p1789s 333z 1s";
    let test = Hand::from(test_str);
    assert_eq!(
        HandAnalyzer::new_by_form(&test, WinningHandForm::Normal).shanten,
        -1
    );
}

/// A complete hand holding the round wind triplet as a meld.
#[test]
fn win_by_honor_tiles_prevailing_wind() {
    let test_str = "234567m6789s 111z 6s";
    let test = Hand::from(test_str);
    assert_eq!(
        HandAnalyzer::new_by_form(&test, WinningHandForm::Normal).shanten,
        -1
    );
}

/// A complete hand holding a dragon triplet as a meld.
#[test]
fn win_by_honor_tiles_dragons() {
    let test_str = "5m123456p888s 777z 5m";
    let test = Hand::from(test_str);
    assert_eq!(
        HandAnalyzer::new_by_form(&test, WinningHandForm::Normal).shanten,
        -1
    );
}

/// A complete all-simples hand with three melds.
#[test]
fn win_by_all_simples() {
    let test_str = "234m8s 567m 333p 456s 8s";
    let test = Hand::from(test_str);
    assert_eq!(
        HandAnalyzer::new_by_form(&test, WinningHandForm::Normal).shanten,
        -1
    );
}

/// A complete closed hand of runs with a worthless pair.
#[test]
fn win_by_no_points() {
    let test_str = "123567m234p6799s 5s";
    let test = Hand::from(test_str);
    assert_eq!(
        HandAnalyzer::new_by_form(&test, WinningHandForm::Normal).shanten,
        -1
    );
}
