use mahjong_rs::hand::Hand;
use mahjong_rs::hand_info::hand_analyzer::HandAnalyzer;
use mahjong_rs::hand_info::status::Status;
use mahjong_rs::settings::Settings;
use mahjong_rs::winning_hand::check_6_han::check_flush;

/// A closed full flush.
#[test]
fn test_flush_closed() {
    let test_str = "1112223334445m 5m";
    let hand = Hand::from(test_str);
    let analyzer = HandAnalyzer::new(&hand);
    let status = Status::new();
    let settings = Settings::new();
    assert_eq!(
        check_flush(&analyzer, &status, &settings).unwrap(),
        ("清一色", true, 6)
    );
}

/// A full flush drops to five when the hand is open.
#[test]
fn test_flush_open() {
    let test_str = "1234568889m 111m 9m";
    let hand = Hand::from(test_str);
    let analyzer = HandAnalyzer::new(&hand);
    let mut status = Status::new();
    let settings = Settings::new();
    status.has_claimed_open = true;
    assert_eq!(
        check_flush(&analyzer, &status, &settings).unwrap(),
        ("清一色（鳴）", true, 5)
    );
}
