use mahjong_rs::hand::Hand;
use mahjong_rs::hand_info::hand_analyzer::HandAnalyzer;
use mahjong_rs::hand_info::status::Status;
use mahjong_rs::settings::Settings;
use mahjong_rs::tile::Wind;
use mahjong_rs::winning_hand::check_1_han::{check_all_simples, check_honor_tiles_green_dragon, check_honor_tiles_players_wind, check_honor_tiles_prevailing_wind, check_honor_tiles_red_dragon, check_honor_tiles_white_dragon, check_one_set_of_identical_sequences, check_one_shot, check_ready_hand, check_self_pick};
use mahjong_rs::winning_hand::check_2_han::{check_all_triplet_hand, check_seven_pairs, check_straight, check_terminal_or_honor_in_each_set};
use mahjong_rs::winning_hand::check_3_han::check_terminal_in_each_set;
use mahjong_rs::winning_hand::check_yakuman::check_thirteen_orphans;

#[test]
fn checker_test_win_by_seven_pairs() {
    let test_str = "1122m3344p5566s1z 1z";
    let test = Hand::from(test_str);
    let test_analyzer = HandAnalyzer::new(&test);
    let status = Status::new();
    let settings = Settings::new();
    assert_eq!(
        check_seven_pairs(&test_analyzer, &status, &settings).unwrap(),
        ("七対子", true, 2)
    );
}

#[test]
fn checker_test_win_by_thirteen_orphens() {
    let test_str = "19m19p19s1234567z 1m";
    let test = Hand::from(test_str);
    let test_analyzer = HandAnalyzer::new(&test);
    let status = Status::new();
    let settings = Settings::new();
    assert_eq!(
        check_thirteen_orphans(&test_analyzer, &status, &settings).unwrap(),
        ("国士無双", true, 13)
    );
}

#[test]
fn checker_test_win_by_ready_hand() {
    let test_str = "123m45678p999s11z 9p";
    let test = Hand::from(test_str);
    let test_analyzer = HandAnalyzer::new(&test);
    let mut status = Status::new();
    let settings = Settings::new();
    status.has_claimed_ready = true;
    assert_eq!(
        check_ready_hand(&test_analyzer, &status, &settings).unwrap(),
        ("立直", true, 1)
    );
}

#[test]
fn checker_test_win_by_one_shot() {
    let test_str = "123m45678p999s11z 9p";
    let test = Hand::from(test_str);
    let test_analyzer = HandAnalyzer::new(&test);
    let mut status = Status::new();
    let settings = Settings::new();
    status.has_claimed_ready = true;
    status.is_one_shot = true;
    assert_eq!(
        check_one_shot(&test_analyzer, &status, &settings).unwrap(),
        ("一発", true, 1)
    );
}

#[test]
fn checker_test_win_by_self_pick() {
    let test_str = "123m45678p999s11z 9p";
    let test = Hand::from(test_str);
    let test_analyzer = HandAnalyzer::new(&test);
    let mut status = Status::new();
    let settings = Settings::new();
    status.is_self_picked = true;
    assert_eq!(
        check_self_pick(&test_analyzer, &status, &settings).unwrap(),
        ("門前清自摸和", true, 1)
    );
}

#[test]
fn checker_test_not_win_by_self_pick_with_claiming_open() {
    let test_str = "123m45678p999s11z 9p";
    let test = Hand::from(test_str);
    let test_analyzer = HandAnalyzer::new(&test);
    let mut status = Status::new();
    let settings = Settings::new();
    status.is_self_picked = true;
    status.has_claimed_open = true;
    assert_eq!(
        check_self_pick(&test_analyzer, &status, &settings).unwrap(),
        ("門前清自摸和", false, 0)
    );
}

#[test]
fn checker_test_win_by_all_simples_open_rule_close_hand() {
    let test_str = "222456m777p56s88s 7s";
    let test = Hand::from(test_str);
    let test_analyzer = HandAnalyzer::new(&test);
    let mut status = Status::new();
    let mut settings = Settings::new();
    status.has_claimed_open = false;
    settings.openned_all_simples = true;
    assert_eq!(
        check_all_simples(&test_analyzer, &status, &settings).unwrap(),
        ("断么九", true, 1)
    );
}

#[test]
fn checker_test_not_win_by_all_simples_with_1() {
    let test_str = "111456m777p56s88s 7s";
    let test = Hand::from(test_str);
    let test_analyzer = HandAnalyzer::new(&test);
    let mut status = Status::new();
    let mut settings = Settings::new();
    status.has_claimed_open = false;
    settings.openned_all_simples = true;
    assert_eq!(
        check_all_simples(&test_analyzer, &status, &settings).unwrap(),
        ("断么九", false, 0)
    );
}

#[test]
fn checker_test_not_win_by_all_simples_with_9() {
    let test_str = "222456m777p5699s 7s";
    let test = Hand::from(test_str);
    let test_analyzer = HandAnalyzer::new(&test);
    let mut status = Status::new();
    let mut settings = Settings::new();
    status.has_claimed_open = false;
    settings.openned_all_simples = true;
    assert_eq!(
        check_all_simples(&test_analyzer, &status, &settings).unwrap(),
        ("断么九", false, 0)
    );
}

#[test]
fn checker_test_not_win_by_all_simples_with_honor() {
    let test_str = "222456m56s88s111z 7s";
    let test = Hand::from(test_str);
    let test_analyzer = HandAnalyzer::new(&test);
    let mut status = Status::new();
    let mut settings = Settings::new();
    status.has_claimed_open = false;
    settings.openned_all_simples = true;
    assert_eq!(
        check_all_simples(&test_analyzer, &status, &settings).unwrap(),
        ("断么九", false, 0)
    );
}

#[test]
fn checker_test_win_by_all_simples_open_rule_open_hand() {
    let test_str = "234m567m234p345s3s 3s";
    let test = Hand::from(test_str);
    let test_analyzer = HandAnalyzer::new(&test);
    let mut status = Status::new();
    let mut settings = Settings::new();
    status.has_claimed_open = true;
    settings.openned_all_simples = true;
    assert_eq!(
        check_all_simples(&test_analyzer, &status, &settings).unwrap(),
        ("断么九", true, 1)
    );
}

#[test]
fn checker_test_win_by_all_simples_close_rule_close_hand() {
    let test_str = "678m23455p33345ss 5p";
    let test = Hand::from(test_str);
    let test_analyzer = HandAnalyzer::new(&test);
    let mut status = Status::new();
    let mut settings = Settings::new();
    status.has_claimed_open = false;
    settings.openned_all_simples = false;
    assert_eq!(
        check_all_simples(&test_analyzer, &status, &settings).unwrap(),
        ("断么九", true, 1)
    );
}

#[test]
fn checker_test_win_by_all_simples_close_rule_open_hand() {
    let test_str = "222m456m777p56s88s 7s";
    let test = Hand::from(test_str);
    let test_analyzer = HandAnalyzer::new(&test);
    let mut status = Status::new();
    let mut settings = Settings::new();
    status.has_claimed_open = true;
    settings.openned_all_simples = false;
    assert_eq!(
        check_all_simples(&test_analyzer, &status, &settings).unwrap(),
        ("断么九", false, 0)
    );
}

#[test]
fn checker_test_win_by_one_set_of_identical_sequences() {
    let test_str = "112233m456p456s7z 7z";
    let test = Hand::from(test_str);
    let test_analyzer = HandAnalyzer::new(&test);
    let mut status = Status::new();
    let settings = Settings::new();
    status.has_claimed_open = false;
    assert_eq!(
        check_one_set_of_identical_sequences(&test_analyzer, &status, &settings).unwrap(),
        ("一盃口", true, 1)
    );
}

#[test]
fn checker_test_no_win_by_one_set_of_identical_sequences_with_openned() {
    let test_str = "112233m456p456s7z 7z";
    let test = Hand::from(test_str);
    let test_analyzer = HandAnalyzer::new(&test);
    let mut status = Status::new();
    let settings = Settings::new();
    status.has_claimed_open = true;
    assert_eq!(
        check_one_set_of_identical_sequences(&test_analyzer, &status, &settings).unwrap(),
        ("一盃口", false, 0)
    );
}

#[test]
fn checker_test_win_by_honor_tiles_players_wind() {
    let test_str = "222m456m777p5s 222z 5s";
    let test = Hand::from(test_str);
    let test_analyzer = HandAnalyzer::new(&test);
    let mut status = Status::new();
    let settings = Settings::new();
    status.prevailing_wind = Wind::East;
    status.player_wind = Wind::South;
    assert_eq!(
        check_honor_tiles_players_wind(&test_analyzer, &status, &settings).unwrap(),
        ("役牌（自風牌）", true, 1)
    );
}

#[test]
fn checker_test_win_by_honor_tiles_prevailing_wind() {
    let test_str = "222m456m777p5s 111z 5s";
    let test = Hand::from(test_str);
    let test_analyzer = HandAnalyzer::new(&test);
    let mut status = Status::new();
    let settings = Settings::new();
    status.prevailing_wind = Wind::East;
    status.player_wind = Wind::South;
    assert_eq!(
        check_honor_tiles_prevailing_wind(&test_analyzer, &status, &settings).unwrap(),
        ("役牌（場風牌）", true, 1)
    );
}

#[test]
fn checker_test_win_by_honor_tiles_white_dragon() {
    let test_str = "222m456m777p5s 555z 5s";
    let test = Hand::from(test_str);
    let test_analyzer = HandAnalyzer::new(&test);
    let mut status = Status::new();
    let settings = Settings::new();
    status.prevailing_wind = Wind::East;
    status.player_wind = Wind::South;
    assert_eq!(
        check_honor_tiles_white_dragon(&test_analyzer, &status, &settings).unwrap(),
        ("役牌（白）", true, 1)
    );
}

#[test]
fn checker_test_win_by_honor_tiles_green_dragon() {
    let test_str = "222m456m777p5s 666z 5s";
    let test = Hand::from(test_str);
    let test_analyzer = HandAnalyzer::new(&test);
    let mut status = Status::new();
    let settings = Settings::new();
    status.prevailing_wind = Wind::East;
    status.player_wind = Wind::South;
    assert_eq!(
        check_honor_tiles_green_dragon(&test_analyzer, &status, &settings).unwrap(),
        ("役牌（發）", true, 1)
    );
}

#[test]
fn checker_test_win_by_honor_tiles_red_dragon() {
    let test_str = "222m456m777p5s 777z 5s";
    let test = Hand::from(test_str);
    let test_analyzer = HandAnalyzer::new(&test);
    let mut status = Status::new();
    let settings = Settings::new();
    status.prevailing_wind = Wind::East;
    status.player_wind = Wind::South;
    assert_eq!(
        check_honor_tiles_red_dragon(&test_analyzer, &status, &settings).unwrap(),
        ("役牌（中）", true, 1)
    );
}

#[test]
fn checker_test_terminal_or_honor_in_each_set() {
    let test_str = "123999m111p79s44z 8s";
    let test = Hand::from(test_str);
    let test_analyzer = HandAnalyzer::new(&test);
    let mut status = Status::new();
    let settings = Settings::new();
    status.has_claimed_open = false;
    assert_eq!(
        check_terminal_or_honor_in_each_set(&test_analyzer, &status, &settings).unwrap(),
        ("混全帯么九", true, 2)
    );
}

#[test]
fn checker_test_terminal_or_honor_in_each_set_open() {
    let test_str = "123m111p79s44z 789m 8s";
    let test = Hand::from(test_str);
    let test_analyzer = HandAnalyzer::new(&test);
    let mut status = Status::new();
    let settings = Settings::new();
    status.has_claimed_open = true;
    assert_eq!(
        check_terminal_or_honor_in_each_set(&test_analyzer, &status, &settings).unwrap(),
        ("混全帯么九（鳴）", true, 1)
    );
}

#[test]
fn checker_test_terminal_in_each_set() {
    let test_str = "123999m11p11179s 8s";
    let test = Hand::from(test_str);
    let test_analyzer = HandAnalyzer::new(&test);
    let mut status = Status::new();
    let settings = Settings::new();
    status.has_claimed_open = false;
    assert_eq!(
        check_terminal_in_each_set(&test_analyzer, &status, &settings).unwrap(),
        ("純全帯么九", true, 3)
    );
}

#[test]
fn checker_test_terminal_in_each_set_open() {
    let test_str = "123m111p7999s 789m 8s";
    let test = Hand::from(test_str);
    let test_analyzer = HandAnalyzer::new(&test);
    let mut status = Status::new();
    let settings = Settings::new();
    status.has_claimed_open = true;
    assert_eq!(
        check_terminal_in_each_set(&test_analyzer, &status, &settings).unwrap(),
        ("純全帯么九（鳴）", true, 2)
    );
}

/// Chanta and junchan never both hold of one hand.
#[test]
fn checker_test_terminal_or_honor_in_each_set_does_not_combined_with_terminal_in_each_set() {
    let test_str = "111789m111p99s11z 1z";
    let test = Hand::from(test_str);
    let test_analyzer = HandAnalyzer::new(&test);
    let mut status = Status::new();
    let settings = Settings::new();
    status.has_claimed_open = false;
    assert_eq!(
        check_terminal_or_honor_in_each_set(&test_analyzer, &status, &settings)
            .unwrap()
            .1,
        true
    );
    assert_eq!(
        check_terminal_in_each_set(&test_analyzer, &status, &settings)
            .unwrap()
            .1,
        false
    );
}

/// Junchan and chanta never both hold of one hand.
#[test]
fn checker_test_terminal_in_each_set_does_not_combined_with_terminal_or_honor_in_each_set() {
    let test_str = "111789m111p1199s 9s";
    let test = Hand::from(test_str);
    let test_analyzer = HandAnalyzer::new(&test);
    let mut status = Status::new();
    let settings = Settings::new();
    status.has_claimed_open = false;
    assert_eq!(
        check_terminal_or_honor_in_each_set(&test_analyzer, &status, &settings)
            .unwrap()
            .1,
        false
    );
    assert_eq!(
        check_terminal_in_each_set(&test_analyzer, &status, &settings)
            .unwrap()
            .1,
        true
    );
}

#[test]
fn checker_test_all_triplet_hand() {
    let test_str = "777m333p22z 555m 999s";
    let test = Hand::from(test_str);
    let test_analyzer = HandAnalyzer::new(&test);
    let status = Status::new();
    let settings = Settings::new();
    assert_eq!(
        check_all_triplet_hand(&test_analyzer, &status, &settings).unwrap(),
        ("対々和", true, 2)
    );
}

#[test]
fn checker_test_straight() {
    let test_str = "123456789m78p22z 9p";
    let test = Hand::from(test_str);
    let test_analyzer = HandAnalyzer::new(&test);
    let mut status = Status::new();
    let settings = Settings::new();
    status.has_claimed_open = false;
    assert_eq!(
        check_straight(&test_analyzer, &status, &settings).unwrap(),
        ("一気通貫", true, 2)
    );
}

#[test]
fn checker_test_straight_open() {
    let test_str = "123m1p123s 456s 789s 1p";
    let test = Hand::from(test_str);
    let test_analyzer = HandAnalyzer::new(&test);
    let mut status = Status::new();
    let settings = Settings::new();
    status.has_claimed_open = true;
    assert_eq!(
        check_straight(&test_analyzer, &status, &settings).unwrap(),
        ("一気通貫（鳴）", true, 1)
    );
}
