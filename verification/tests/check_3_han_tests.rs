use mahjong_rs::hand::Hand;
use mahjong_rs::hand_info::hand_analyzer::HandAnalyzer;
use mahjong_rs::hand_info::status::Status;
use mahjong_rs::settings::Settings;
use mahjong_rs::winning_hand::check_2_han::check_terminal_or_honor_in_each_set;
use mahjong_rs::winning_hand::check_3_han::{
    check_half_flush, check_terminal_in_each_set, check_two_sets_of_identical_sequences,
};

/// Junchan in a closed hand.
#[test]
fn check_3_han_test_terminal_in_each_set() {
    let test_str = "123999m11p11179s 8s";
    let test = Hand::from(test_str);
    let test_analyzer = HandAnalyzer::new(&test);
    let mut status = Status::new();
    let settings = Settings::new();
    status.has_claimed_open = false;
    assert_eq!(
        check_terminal_in_each_set(&test_analyzer, &status, &settings).unwrap(),
        ("純全帯么九", true, 3)
    );
}

/// Junchan drops to two when the hand is open.
#[test]
fn check_3_han_test_terminal_in_each_set_open() {
    let test_str = "123m111p7999s 789m 8s";
    let test = Hand::from(test_str);
    let test_analyzer = HandAnalyzer::new(&test);
    let mut status = Status::new();
    let settings = Settings::new();
    status.has_claimed_open = true;
    assert_eq!(
        check_terminal_in_each_set(&test_analyzer, &status, &settings).unwrap(),
        ("純全帯么九（鳴）", true, 2)
    );
}

/// Chanta and junchan never both hold of one hand.
#[test]
fn check_3_han_test_terminal_or_honor_in_each_set_does_not_combined_with_terminal_in_each_set() {
    let test_str = "111789m111p99s11z 1z";
    let test = Hand::from(test_str);
    let test_analyzer = HandAnalyzer::new(&test);
    let mut status = Status::new();
    let settings = Settings::new();
    status.has_claimed_open = false;
    assert_eq!(
        check_terminal_or_honor_in_each_set(&test_analyzer, &status, &settings)
            .unwrap()
            .1,
        true
    );
    assert_eq!(
        check_terminal_in_each_set(&test_analyzer, &status, &settings)
            .unwrap()
            .1,
        false
    );
}

/// Junchan and chanta never both hold of one hand.
#[test]
fn check_3_han_test_terminal_in_each_set_does_not_combined_with_terminal_or_honor_in_each_set() {
    let test_str = "111789m111p1199s 9s";
    let test = Hand::from(test_str);
    let test_analyzer = HandAnalyzer::new(&test);
    let mut status = Status::new();
    let settings = Settings::new();
    status.has_claimed_open = false;
    assert_eq!(
        check_terminal_or_honor_in_each_set(&test_analyzer, &status, &settings)
            .unwrap()
            .1,
        false
    );
    assert_eq!(
        check_terminal_in_each_set(&test_analyzer, &status, &settings)
            .unwrap()
            .1,
        true
    );
}

/// A hand of seven pairs is kept as seven pairs, so no two run pairs are
/// seen.
#[test]
fn test_two_sets_of_identical_sequences() {
    let test_str = "112233m778899p7z 7z";
    let hand = Hand::from(test_str);
    let analyzer = HandAnalyzer::new(&hand);
    let status = Status::new();
    let settings = Settings::new();
    assert_eq!(
        check_two_sets_of_identical_sequences(&analyzer, &status, &settings).unwrap(),
        ("二盃口", false, 0)
    );
}

/// A closed half flush.
#[test]
fn test_half_flush_closed() {
    let test_str = "123456789m1112z 2z";
    let hand = Hand::from(test_str);
    let analyzer = HandAnalyzer::new(&hand);
    let status = Status::new();
    let settings = Settings::new();
    assert_eq!(
        check_half_flush(&analyzer, &status, &settings).unwrap(),
        ("混一色", true, 3)
    );
}

/// A half flush drops to two when the hand is open.
#[test]
fn test_half_flush_open() {
    let test_str = "111m789m2z 123m 222z 2z";
    let hand = Hand::from(test_str);
    let analyzer = HandAnalyzer::new(&hand);
    let mut status = Status::new();
    let settings = Settings::new();
    status.has_claimed_open = true;
    assert_eq!(
        check_half_flush(&analyzer, &status, &settings).unwrap(),
        ("混一色（鳴）", true, 2)
    );
}
