use mahjong_rs::hand::Hand;
use mahjong_rs::hand_info::hand_analyzer::HandAnalyzer;
use mahjong_rs::hand_info::status::Status;
use mahjong_rs::settings::Settings;
use mahjong_rs::winning_hand::check_yakuman::{
    check_all_green, check_all_honors, check_all_terminals, check_big_four_winds,
    check_big_three_dragons, check_four_concealed_triplets, check_little_four_winds,
    check_nine_gates, check_thirteen_orphans,
};

/// A complete thirteen orphans hand.
#[test]
fn check_yakuman_test_win_by_thirteen_orphens() {
    let test_str = "19m19p19s1234567z 1m";
    let test = Hand::from(test_str);
    let test_analyzer = HandAnalyzer::new(&test);
    let status = Status::new();
    let settings = Settings::new();
    assert_eq!(
        check_thirteen_orphans(&test_analyzer, &status, &settings).unwrap(),
        ("国士無双", true, 13)
    );
}

/// Four concealed triplets on a self-drawn single wait.
#[test]
fn test_win_by_four_concealed_triplets_single() {
    let test_str = "111333m444s1777z 1z";
    let test = Hand::from(test_str);
    let test_analyzer = HandAnalyzer::new(&test);
    let mut status = Status::new();
    status.is_self_picked = true;
    let settings = Settings::new();
    assert_eq!(
        check_four_concealed_triplets(&test_analyzer, &status, &settings).unwrap(),
        ("四暗刻", true, 13)
    );
}

/// Four concealed triplets need the self-drawn win.
#[test]
fn test_not_win_by_four_concealed_triplets_single_if_not_self_pick() {
    let test_str = "111333m444s1777z 1z";
    let test = Hand::from(test_str);
    let test_analyzer = HandAnalyzer::new(&test);
    let mut status = Status::new();
    status.is_self_picked = false;
    let settings = Settings::new();
    assert_eq!(
        check_four_concealed_triplets(&test_analyzer, &status, &settings).unwrap(),
        ("四暗刻", false, 0)
    );
}

/// A triplet of every dragon.
#[test]
fn test_big_three_dragons() {
    let test_str = "1234m555666z 777z 1m";
    let hand = Hand::from(test_str);
    let analyzer = HandAnalyzer::new(&hand);
    let status = Status::new();
    let settings = Settings::new();
    assert_eq!(
        check_big_three_dragons(&analyzer, &status, &settings).unwrap(),
        ("大三元", true, 13)
    );
}

/// Three wind triplets and the fourth wind as the head.
#[test]
fn test_little_four_winds() {
    let test_str = "111m1112223334z 4z";
    let hand = Hand::from(test_str);
    let analyzer = HandAnalyzer::new(&hand);
    let status = Status::new();
    let settings = Settings::new();
    assert_eq!(
        check_little_four_winds(&analyzer, &status, &settings).unwrap(),
        ("小四喜", true, 13)
    );
}

/// A triplet of every wind.
#[test]
fn test_big_four_winds() {
    let test_str = "1m111222333444z 1m";
    let hand = Hand::from(test_str);
    let analyzer = HandAnalyzer::new(&hand);
    let status = Status::new();
    let settings = Settings::new();
    assert_eq!(
        check_big_four_winds(&analyzer, &status, &settings).unwrap(),
        ("大四喜", true, 13)
    );
}

/// Nothing but honors.
#[test]
fn test_all_honors() {
    let test_str = "1112223335556z 6z";
    let hand = Hand::from(test_str);
    let analyzer = HandAnalyzer::new(&hand);
    let status = Status::new();
    let settings = Settings::new();
    assert_eq!(
        check_all_honors(&analyzer, &status, &settings).unwrap(),
        ("字一色", true, 13)
    );
}

/// Nothing but terminals.
#[test]
fn test_all_terminals() {
    let test_str = "111999m111999p1s 1s";
    let hand = Hand::from(test_str);
    let analyzer = HandAnalyzer::new(&hand);
    let status = Status::new();
    let settings = Settings::new();
    assert_eq!(
        check_all_terminals(&analyzer, &status, &settings).unwrap(),
        ("清老頭", true, 13)
    );
}

/// Nothing but the six green kinds.
#[test]
fn test_all_green() {
    let test_str = "22334466s66z 888s 6z";
    let hand = Hand::from(test_str);
    let analyzer = HandAnalyzer::new(&hand);
    let status = Status::new();
    let settings = Settings::new();
    assert_eq!(
        check_all_green(&analyzer, &status, &settings).unwrap(),
        ("緑一色", true, 13)
    );
}

/// The nine gates shape in the man suit.
#[test]
fn test_nine_gates() {
    let test_str = "1112345678999m 5m";
    let hand = Hand::from(test_str);
    let analyzer = HandAnalyzer::new(&hand);
    let status = Status::new();
    let settings = Settings::new();
    assert_eq!(
        check_nine_gates(&analyzer, &status, &settings).unwrap(),
        ("九蓮宝燈", true, 13)
    );
}
