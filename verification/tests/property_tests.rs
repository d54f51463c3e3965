use mahjong_rs::error::HandError;
use mahjong_rs::hand::Hand;
use mahjong_rs::hand_info::block::{Same2, Same3, Sequential2, Sequential3};
use mahjong_rs::hand_info::hand_analyzer::HandAnalyzer;
use mahjong_rs::hand_info::shanten::{calc_13_orphens, calc_seven_pairs, calc_normal_form, Shanten};
use mahjong_rs::hand_info::status::{is_two_sided_wait, Status};
use mahjong_rs::settings::{Lang, Settings};
use mahjong_rs::tile::Tile;
use mahjong_rs::winning_hand::check_3_han::check_two_sets_of_identical_sequences;
use mahjong_rs::winning_hand::check_5_han::check_nagashi_mangan;
use mahjong_rs::winning_hand::check_yakuman::check_nine_gates;
use mahjong_rs::winning_hand::checker::check;
use mahjong_rs::winning_hand::name::{get_winning_hand_name, WinningHandForm, WinningHandKind};

/// Rerunning the engine on one hand gives a bit-identical result:
/// distance, form, and every retained block list.
#[test]
fn engine_rerun_is_bit_identical() {
    for test_str in [
        "123m444p789s1112z 2z",
        "1122m3344p5555s1z 1z",
        "19m19p11s1234567z 5m",
        "123456789m78p22z 9p",
        "1112345678999m 5m",
    ] {
        let hand = Hand::from(test_str);
        let a = HandAnalyzer::new(&hand);
        let b = HandAnalyzer::new(&hand);
        assert_eq!(a.shanten, b.shanten);
        assert_eq!(a.form, b.form);
        assert_eq!(a.same3, b.same3);
        assert_eq!(a.sequential3, b.sequential3);
        assert_eq!(a.same2, b.same2);
        assert_eq!(a.sequential2, b.sequential2);
        assert_eq!(a.single, b.single);
    }
}

/// On a tie the selector prefers seven pairs: a two-pairs-of-runs hand is
/// complete both ways and is kept as seven pairs.
#[test]
fn selector_prefers_seven_pairs_on_tie() {
    let hand = Hand::from("112233m778899p7z 7z");
    let s = Shanten::calc(&hand);
    assert_eq!(s.num, -1);
    assert_eq!(s.form, WinningHandForm::SevenPairs);
    let a = HandAnalyzer::new(&hand);
    assert_eq!(a.shanten, -1);
    assert_eq!(a.form, WinningHandForm::SevenPairs);
}

/// The selector keeps the standard form where it alone is least.
#[test]
fn selector_picks_normal_when_strictly_less() {
    let hand = Hand::from("123m456p789s1122z 2z");
    let s = Shanten::calc(&hand);
    assert_eq!(s.num, -1);
    assert_eq!(s.form, WinningHandForm::Normal);
}

/// Exact distances of the two counted forms.
#[test]
fn counted_form_distances() {
    // seven distinct pairs: complete
    assert_eq!(calc_seven_pairs(&Hand::from("1122m3344p5566s77z")), -1);
    // all thirteen orphan kinds with a duplicate: complete
    assert_eq!(calc_13_orphens(&Hand::from("19m19p19s1234567z 1m")), -1);
    // a full standard hand is far from both counted forms
    assert_eq!(calc_seven_pairs(&Hand::from("123m456p789s1122z 2z")), 4);
    assert_eq!(calc_13_orphens(&Hand::from("123m456p789s1122z 2z")), 8);
    // and complete in the standard form
    assert_eq!(calc_normal_form(&Hand::from("123m456p789s1122z 2z")), -1);
}

/// Invalid block compositions are rejected with the named error.
#[test]
fn block_constructors_report_invalid_composition() {
    assert_eq!(
        Same2::new(Tile::M1, Tile::M2),
        Err(HandError::InvalidBlockComposition)
    );
    assert_eq!(
        Same3::new(99, 99, 99),
        Err(HandError::InvalidBlockComposition)
    );
    assert_eq!(
        Sequential2::new(Tile::M1, Tile::M4),
        Err(HandError::InvalidBlockComposition)
    );
    assert_eq!(
        Sequential3::new(Tile::Z1, Tile::Z2, Tile::Z3),
        Err(HandError::InvalidBlockComposition)
    );
}

/// A rule that is not coded yet says so on a complete hand instead of
/// answering "not met".
#[test]
fn unimplemented_rule_is_reported() {
    let hand = Hand::from("123m444p789s1112z 2z");
    let analyzer = HandAnalyzer::new(&hand);
    let status = Status::new();
    let settings = Settings::new();
    assert_eq!(
        check_nagashi_mangan(&analyzer, &status, &settings),
        Err(HandError::NotImplemented(WinningHandKind::NagashiMangan))
    );
    // an incomplete hand is simply not met
    let short = Hand::from("19m19p11s1234567z 5m");
    let analyzer2 = HandAnalyzer::new_by_form(&short, WinningHandForm::Normal);
    assert_eq!(
        check_nagashi_mangan(&analyzer2, &status, &settings),
        Ok(("流し満貫", false, 0))
    );
}

/// Every tile name reads back to the tile it names.
#[test]
fn tile_names_round_trip() {
    for i in 0..34 {
        let name = Tile::new(i).to_string();
        assert_eq!(Tile::from(&name).get(), i);
    }
    assert_eq!(Tile::new(Tile::M1).to_string(), "1m");
    assert_eq!(Tile::new(Tile::Z7).to_string(), "7z");
}

/// The full-name rendering shows melds after spaces, quads with their
/// fourth tile.
#[test]
fn hand_to_string_shows_melds() {
    let hand = Hand::from("777m333p22z 555m 999s");
    assert_eq!(hand.to_string(), "7m7m7m3p3p3p2z2z 5m5m5m 9s9s9s");
    let drawn = Hand::from("123m 1z");
    assert_eq!(drawn.to_string(), "1m2m3m 1z");
}

/// The short rendering compresses runs of one suit.
#[test]
fn hand_to_short_string_compresses_suits() {
    let hand = Hand::from("123m456p 1z");
    assert_eq!(hand.to_short_string(), "123m456p 1z");
}

/// The aggregated judgement answers every pattern once, in order.
#[test]
fn check_judges_every_pattern() {
    let hand = Hand::from("1122m3344p5566s1z 1z");
    let analyzer = HandAnalyzer::new(&hand);
    let status = Status::new();
    let settings = Settings::new();
    let judgements = check(&analyzer, &status, &settings);
    assert_eq!(judgements.len(), 42);
    assert_eq!(judgements[0].0, WinningHandKind::ReadyHand);
    assert_eq!(judgements[0].1, Ok(("立直", false, 0)));
    assert_eq!(judgements[1].0, WinningHandKind::SevenPairs);
    assert_eq!(judgements[1].1, Ok(("七対子", true, 2)));
    assert_eq!(
        judgements[2].1,
        Err(HandError::NotImplemented(WinningHandKind::NagashiMangan))
    );
    assert_eq!(judgements[41].0, WinningHandKind::HandOfEarth);
}

/// Two ranks below or above make a two-sided wait; edge runs do not.
#[test]
fn two_sided_wait_shapes() {
    let counts = Hand::new(
        vec![Tile::new(Tile::M4), Tile::new(Tile::M5)],
        None,
    )
    .summarize_tiles();
    // 3m or 6m completes 45m from either side
    assert!(is_two_sided_wait(Tile::M3, &counts));
    assert!(is_two_sided_wait(Tile::M6, &counts));
    // honors never wait two-sided
    assert!(!is_two_sided_wait(Tile::Z1, &counts));
    let edge = Hand::new(
        vec![Tile::new(Tile::M2), Tile::new(Tile::M3)],
        None,
    )
    .summarize_tiles();
    // 1m only completes the edge run 123m: not two-sided
    assert!(!is_two_sided_wait(Tile::M1, &edge));
    // 4m completes 234m: two-sided
    assert!(is_two_sided_wait(Tile::M4, &edge));
}

/// An adjacent proto-run may start at rank 8 of a suit: this hand is
/// tenpai, its 8-9 shape waiting on the 7.
#[test]
fn adjacent_partial_at_rank_eight() {
    let hand = Hand::from("89m111222333p44s");
    assert_eq!(
        HandAnalyzer::new_by_form(&hand, WinningHandForm::Normal).shanten,
        0
    );
}

/// A flush without the gates shape is no nine gates.
#[test]
fn nine_gates_needs_the_gates() {
    let hand = Hand::from("1112223334445m 5m");
    let analyzer = HandAnalyzer::new(&hand);
    let status = Status::new();
    let settings = Settings::new();
    assert_eq!(
        check_nine_gates(&analyzer, &status, &settings).unwrap(),
        ("九蓮宝燈", false, 0)
    );
}

/// Measured against the standard form alone, two pairs of equal runs score
/// ryanpeikou.
#[test]
fn two_sets_of_identical_sequences_in_standard_form() {
    let hand = Hand::from("112233m778899p7z 7z");
    let analyzer = HandAnalyzer::new_by_form(&hand, WinningHandForm::Normal);
    let status = Status::new();
    let settings = Settings::new();
    assert_eq!(
        check_two_sets_of_identical_sequences(&analyzer, &status, &settings).unwrap(),
        ("二盃口", true, 3)
    );
}

/// English names carry the open marker only on the patterns whose value
/// drops.
#[test]
fn names_in_english() {
    assert_eq!(
        get_winning_hand_name(WinningHandKind::Straight, false, Lang::En),
        "Straight"
    );
    assert_eq!(
        get_winning_hand_name(WinningHandKind::Straight, true, Lang::En),
        "Straight (Open)"
    );
    assert_eq!(
        get_winning_hand_name(WinningHandKind::SevenPairs, true, Lang::En),
        "Seven Pairs"
    );
}
