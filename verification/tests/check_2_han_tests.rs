use mahjong_rs::hand::Hand;
use mahjong_rs::hand_info::hand_analyzer::HandAnalyzer;
use mahjong_rs::hand_info::status::Status;
use mahjong_rs::settings::Settings;
use mahjong_rs::winning_hand::check_2_han::{
    check_all_terminals_and_honors, check_all_triplet_hand, check_little_three_dragons,
    check_seven_pairs, check_straight, check_terminal_or_honor_in_each_set,
    check_three_closed_triplets, check_three_colour_straight, check_three_colour_triplets,
};

/// A complete seven pairs hand.
#[test]
fn check_2_han_test_win_by_seven_pairs() {
    let test_str = "1122m3344p5566s1z 1z";
    let test = Hand::from(test_str);
    let test_analyzer = HandAnalyzer::new(&test);
    let status = Status::new();
    let settings = Settings::new();
    assert_eq!(
        check_seven_pairs(&test_analyzer, &status, &settings).unwrap(),
        ("七対子", true, 2)
    );
}

/// Chanta in a closed hand.
#[test]
fn check_2_han_test_terminal_or_honor_in_each_set() {
    let test_str = "123999m111p79s44z 8s";
    let test = Hand::from(test_str);
    let test_analyzer = HandAnalyzer::new(&test);
    let mut status = Status::new();
    let settings = Settings::new();
    status.has_claimed_open = false;
    assert_eq!(
        check_terminal_or_honor_in_each_set(&test_analyzer, &status, &settings).unwrap(),
        ("混全帯么九", true, 2)
    );
}

/// Chanta drops to one when the hand is open.
#[test]
fn check_2_han_test_terminal_or_honor_in_each_set_open() {
    let test_str = "123m111p79s44z 789m 8s";
    let test = Hand::from(test_str);
    let test_analyzer = HandAnalyzer::new(&test);
    let mut status = Status::new();
    let settings = Settings::new();
    status.has_claimed_open = true;
    assert_eq!(
        check_terminal_or_honor_in_each_set(&test_analyzer, &status, &settings).unwrap(),
        ("混全帯么九（鳴）", true, 1)
    );
}

/// An all-triplet hand with two melds.
#[test]
fn check_2_han_test_all_triplet_hand() {
    let test_str = "777m333p22z 555m 999s";
    let test = Hand::from(test_str);
    let test_analyzer = HandAnalyzer::new(&test);
    let status = Status::new();
    let settings = Settings::new();
    assert_eq!(
        check_all_triplet_hand(&test_analyzer, &status, &settings).unwrap(),
        ("対々和", true, 2)
    );
}

/// A closed straight in the man suit.
#[test]
fn check_2_han_test_straight() {
    let test_str = "123456789m78p22z 9p";
    let test = Hand::from(test_str);
    let test_analyzer = HandAnalyzer::new(&test);
    let mut status = Status::new();
    let settings = Settings::new();
    status.has_claimed_open = false;
    assert_eq!(
        check_straight(&test_analyzer, &status, &settings).unwrap(),
        ("一気通貫", true, 2)
    );
}

/// A straight drops to one when the hand is open.
#[test]
fn check_2_han_test_straight_open() {
    let test_str = "123m1p123s 456s 789s 1p";
    let test = Hand::from(test_str);
    let test_analyzer = HandAnalyzer::new(&test);
    let mut status = Status::new();
    let settings = Settings::new();
    status.has_claimed_open = true;
    assert_eq!(
        check_straight(&test_analyzer, &status, &settings).unwrap(),
        ("一気通貫（鳴）", true, 1)
    );
}

/// A closed three colour straight.
#[test]
fn test_three_colour_straight_closed() {
    let test_str = "123m123p123s789m9p 9p";
    let hand = Hand::from(test_str);
    let analyzer = HandAnalyzer::new(&hand);
    let mut status = Status::new();
    let settings = Settings::new();
    status.has_claimed_open = false;
    assert_eq!(
        check_three_colour_straight(&analyzer, &status, &settings).unwrap(),
        ("三色同順", true, 2)
    );
}

/// A three colour straight drops to one when the hand is open.
#[test]
fn test_three_colour_straight_open() {
    let test_str = "123m789m9p 123p 123s 9p";
    let hand = Hand::from(test_str);
    let analyzer = HandAnalyzer::new(&hand);
    let mut status = Status::new();
    let settings = Settings::new();
    status.has_claimed_open = true;
    assert_eq!(
        check_three_colour_straight(&analyzer, &status, &settings).unwrap(),
        ("三色同順（鳴）", true, 1)
    );
}

/// Three closed triplets.
#[test]
fn test_three_closed_triplets() {
    let test_str = "111333m444s1777z 1z";
    let hand = Hand::from(test_str);
    let analyzer = HandAnalyzer::new(&hand);
    let status = Status::new();
    let settings = Settings::new();
    assert_eq!(
        check_three_closed_triplets(&analyzer, &status, &settings).unwrap(),
        ("三暗刻", true, 2)
    );
}

/// One triplet rank in all three suits.
#[test]
fn test_three_colour_triplets() {
    let test_str = "111m111p111s444m5z 5z";
    let hand = Hand::from(test_str);
    let analyzer = HandAnalyzer::new(&hand);
    let status = Status::new();
    let settings = Settings::new();
    assert_eq!(
        check_three_colour_triplets(&analyzer, &status, &settings).unwrap(),
        ("三色同刻", true, 2)
    );
}

/// A fifteen-tile string never forms a winning hand.
#[test]
fn test_all_terminals_and_honors() {
    let test_str = "111m999p111s777z55z 5z";
    let hand = Hand::from(test_str);
    let analyzer = HandAnalyzer::new(&hand);
    let status = Status::new();
    let settings = Settings::new();
    assert_eq!(
        check_all_terminals_and_honors(&analyzer, &status, &settings).unwrap(),
        ("混老頭", false, 0)
    );
}

/// Two dragon triplets and the third dragon as the head.
#[test]
fn test_little_three_dragons() {
    let test_str = "111m111p555z666z7z 7z";
    let hand = Hand::from(test_str);
    let analyzer = HandAnalyzer::new(&hand);
    let status = Status::new();
    let settings = Settings::new();
    assert_eq!(
        check_little_three_dragons(&analyzer, &status, &settings).unwrap(),
        ("小三元", true, 2)
    );
}
