use vstd::prelude::*;

use crate::error::HandError;
use crate::hand_info::hand_analyzer::{spec_has_won, HandAnalyzer};
use crate::hand_info::status::Status;
use crate::settings::Settings;
use crate::tile::Dragon;
use crate::winning_hand::check_1_han::{
    all_simples_met, check_all_simples, check_dead_wall_draw, check_honor_tiles_green_dragon,
    check_honor_tiles_players_wind, check_honor_tiles_prevailing_wind, check_honor_tiles_red_dragon,
    check_honor_tiles_white_dragon, check_last_discard, check_last_tile_from_the_wall,
    check_no_points_hand, check_one_set_of_identical_sequences, check_one_shot, check_ready_hand,
    check_robbing_a_quad, check_self_pick, dragon_met, one_set_of_identical_sequences_met,
    one_shot_met, players_wind_met, prevailing_wind_met, ready_hand_met, self_pick_met,
};
use crate::winning_hand::check_2_han::{
    all_terminals_and_honors_met, all_triplet_hand_met, check_all_terminals_and_honors,
    check_all_triplet_hand, check_double_ready, check_little_three_dragons, check_seven_pairs,
    check_straight, check_three_closed_triplets, check_three_colour_straight,
    check_three_colour_triplets, check_terminal_or_honor_in_each_set, little_three_dragons_met,
    seven_pairs_met, straight_met, terminal_or_honor_in_each_set_met, three_closed_triplets_met,
    three_colour_straight_met, three_colour_triplets_met,
};
use crate::winning_hand::check_3_han::{
    check_half_flush, check_terminal_in_each_set, check_two_sets_of_identical_sequences,
    half_flush_met, terminal_in_each_set_met, two_sets_of_identical_sequences_met,
};
use crate::winning_hand::check_5_han::check_nagashi_mangan;
use crate::winning_hand::check_6_han::{check_flush, flush_met};
use crate::winning_hand::check_yakuman::{
    all_green_met, all_honors_met, all_terminals_met, big_four_winds_met, big_three_dragons_met,
    check_all_green, check_all_honors, check_all_terminals, check_big_four_winds,
    check_big_three_dragons, check_four_concealed_triplets, check_four_kans, check_hand_of_earth,
    check_heavenly_hand, check_little_four_winds, check_nine_gates, check_thirteen_orphans,
    four_concealed_triplets_met, little_four_winds_met, nine_gates_met, thirteen_orphans_met,
};
use crate::winning_hand::name::WinningHandKind;

verus! {

/// One judged entry of the evaluator's answer.
pub type Judgement = (WinningHandKind, Result<(&'static str, bool, u32), HandError>);

/// The outcome says the pattern was judged, met as given, with its value
/// when met and nothing otherwise.
pub open spec fn judged(o: Result<(&'static str, bool, u32), HandError>, met: bool, han: u32) -> bool {
    o matches Ok(t) && t.1 == met && t.2 == (if met {
        han
    } else {
        0u32
    })
}

/// The outcome says the pattern's rule is not coded yet: a complete hand is
/// answered with that, an incomplete one with "not met".
pub open spec fn deferred(o: Result<(&'static str, bool, u32), HandError>, kind: WinningHandKind, won: bool) -> bool {
    if won {
        o matches Err(e) && e == HandError::NotImplemented(kind)
    } else {
        o matches Ok(t) && t.1 == false && t.2 == 0
    }
}

/// Judges every winning pattern against the analyzed hand and the table
/// state: one entry per pattern, in a fixed order.
pub fn check(hand: &HandAnalyzer, status: &Status, settings: &Settings) -> (r: Vec<Judgement>)
    ensures
        r@.len() == 42,
        r@[0].0 == WinningHandKind::ReadyHand && judged(r@[0].1, ready_hand_met(*hand, *status), 1),
        r@[1].0 == WinningHandKind::SevenPairs && judged(r@[1].1, seven_pairs_met(*hand), 2),
        r@[2].0 == WinningHandKind::NagashiMangan && deferred(
            r@[2].1,
            WinningHandKind::NagashiMangan,
            spec_has_won(*hand),
        ),
        r@[3].0 == WinningHandKind::SelfPick && judged(r@[3].1, self_pick_met(*hand, *status), 1),
        r@[4].0 == WinningHandKind::OneShot && judged(r@[4].1, one_shot_met(*hand, *status), 1),
        r@[5].0 == WinningHandKind::LastTileFromTheWall && deferred(
            r@[5].1,
            WinningHandKind::LastTileFromTheWall,
            spec_has_won(*hand),
        ),
        r@[6].0 == WinningHandKind::LastDiscard && deferred(
            r@[6].1,
            WinningHandKind::LastDiscard,
            spec_has_won(*hand),
        ),
        r@[7].0 == WinningHandKind::DeadWallDraw && deferred(
            r@[7].1,
            WinningHandKind::DeadWallDraw,
            spec_has_won(*hand),
        ),
        r@[8].0 == WinningHandKind::RobbingAQuad && deferred(
            r@[8].1,
            WinningHandKind::RobbingAQuad,
            spec_has_won(*hand),
        ),
        r@[9].0 == WinningHandKind::DoubleReady && deferred(
            r@[9].1,
            WinningHandKind::DoubleReady,
            spec_has_won(*hand),
        ),
        r@[10].0 == WinningHandKind::NoPointsHand && deferred(
            r@[10].1,
            WinningHandKind::NoPointsHand,
            spec_has_won(*hand),
        ),
        r@[11].0 == WinningHandKind::OneSetOfIdenticalSequences && judged(
            r@[11].1,
            one_set_of_identical_sequences_met(*hand, *status),
            1,
        ),
        r@[12].0 == WinningHandKind::ThreeColourStraight && judged(
            r@[12].1,
            three_colour_straight_met(*hand),
            if status.has_claimed_open {
                1u32
            } else {
                2u32
            },
        ),
        r@[13].0 == WinningHandKind::Straight && judged(
            r@[13].1,
            straight_met(*hand),
            if status.has_claimed_open {
                1u32
            } else {
                2u32
            },
        ),
        r@[14].0 == WinningHandKind::TwoSetsOfIdenticalSequences && judged(
            r@[14].1,
            two_sets_of_identical_sequences_met(*hand, *status),
            3,
        ),
        r@[15].0 == WinningHandKind::AllTripletHand && judged(
            r@[15].1,
            all_triplet_hand_met(*hand),
            2,
        ),
        r@[16].0 == WinningHandKind::ThreeClosedTriplets && judged(
            r@[16].1,
            three_closed_triplets_met(*hand, *status),
            2,
        ),
        r@[17].0 == WinningHandKind::ThreeColourTriplets && judged(
            r@[17].1,
            three_colour_triplets_met(*hand),
            2,
        ),
        r@[18].0 == WinningHandKind::AllSimples && judged(
            r@[18].1,
            all_simples_met(*hand, *status, *settings),
            1,
        ),
        r@[19].0 == WinningHandKind::HonorTilesPlayersWind && judged(
            r@[19].1,
            players_wind_met(*hand, *status),
            1,
        ),
        r@[20].0 == WinningHandKind::HonorTilesPrevailingWind && judged(
            r@[20].1,
            prevailing_wind_met(*hand, *status),
            1,
        ),
        r@[21].0 == WinningHandKind::HonorTilesWhiteDragon && judged(
            r@[21].1,
            dragon_met(*hand, Dragon::White),
            1,
        ),
        r@[22].0 == WinningHandKind::HonorTilesGreenDragon && judged(
            r@[22].1,
            dragon_met(*hand, Dragon::Green),
            1,
        ),
        r@[23].0 == WinningHandKind::HonorTilesRedDragon && judged(
            r@[23].1,
            dragon_met(*hand, Dragon::Red),
            1,
        ),
        r@[24].0 == WinningHandKind::TerminalOrHonorInEachSet && judged(
            r@[24].1,
            terminal_or_honor_in_each_set_met(*hand),
            if status.has_claimed_open {
                1u32
            } else {
                2u32
            },
        ),
        r@[25].0 == WinningHandKind::TerminalInEachSet && judged(
            r@[25].1,
            terminal_in_each_set_met(*hand),
            if status.has_claimed_open {
                2u32
            } else {
                3u32
            },
        ),
        r@[26].0 == WinningHandKind::AllTerminalsAndHonors && judged(
            r@[26].1,
            all_terminals_and_honors_met(*hand),
            2,
        ),
        r@[27].0 == WinningHandKind::LittleThreeDragons && judged(
            r@[27].1,
            little_three_dragons_met(*hand),
            2,
        ),
        r@[28].0 == WinningHandKind::HalfFlush && judged(
            r@[28].1,
            half_flush_met(*hand),
            if status.has_claimed_open {
                2u32
            } else {
                3u32
            },
        ),
        r@[29].0 == WinningHandKind::Flush && judged(
            r@[29].1,
            flush_met(*hand),
            if status.has_claimed_open {
                5u32
            } else {
                6u32
            },
        ),
        r@[30].0 == WinningHandKind::ThirteenOrphans && judged(
            r@[30].1,
            thirteen_orphans_met(*hand),
            13,
        ),
        r@[31].0 == WinningHandKind::FourConcealedTriplets && judged(
            r@[31].1,
            four_concealed_triplets_met(*hand, *status),
            13,
        ),
        r@[32].0 == WinningHandKind::BigThreeDragons && judged(
            r@[32].1,
            big_three_dragons_met(*hand),
            13,
        ),
        r@[33].0 == WinningHandKind::LittleFourWinds && judged(
            r@[33].1,
            little_four_winds_met(*hand),
            13,
        ),
        r@[34].0 == WinningHandKind::BigFourWinds && judged(r@[34].1, big_four_winds_met(*hand), 13),
        r@[35].0 == WinningHandKind::AllHonors && judged(r@[35].1, all_honors_met(*hand), 13),
        r@[36].0 == WinningHandKind::AllTerminals && judged(r@[36].1, all_terminals_met(*hand), 13),
        r@[37].0 == WinningHandKind::AllGreen && judged(r@[37].1, all_green_met(*hand), 13),
        r@[38].0 == WinningHandKind::NineGates && judged(r@[38].1, nine_gates_met(*hand), 13),
        r@[39].0 == WinningHandKind::FourKans && deferred(
            r@[39].1,
            WinningHandKind::FourKans,
            spec_has_won(*hand),
        ),
        r@[40].0 == WinningHandKind::HeavenlyHand && deferred(
            r@[40].1,
            WinningHandKind::HeavenlyHand,
            spec_has_won(*hand),
        ),
        r@[41].0 == WinningHandKind::HandOfEarth && deferred(
            r@[41].1,
            WinningHandKind::HandOfEarth,
            spec_has_won(*hand),
        ),
{
    let mut result: Vec<Judgement> = Vec::new();
    result.push((WinningHandKind::ReadyHand, check_ready_hand(hand, status, settings)));
    result.push((WinningHandKind::SevenPairs, check_seven_pairs(hand, status, settings)));
    result.push((WinningHandKind::NagashiMangan, check_nagashi_mangan(hand, status, settings)));
    result.push((WinningHandKind::SelfPick, check_self_pick(hand, status, settings)));
    result.push((WinningHandKind::OneShot, check_one_shot(hand, status, settings)));
    result.push(
        (WinningHandKind::LastTileFromTheWall, check_last_tile_from_the_wall(hand, status, settings)),
    );
    result.push((WinningHandKind::LastDiscard, check_last_discard(hand, status, settings)));
    result.push((WinningHandKind::DeadWallDraw, check_dead_wall_draw(hand, status, settings)));
    result.push((WinningHandKind::RobbingAQuad, check_robbing_a_quad(hand, status, settings)));
    result.push((WinningHandKind::DoubleReady, check_double_ready(hand, status, settings)));
    result.push((WinningHandKind::NoPointsHand, check_no_points_hand(hand, status, settings)));
    result.push(
        (
            WinningHandKind::OneSetOfIdenticalSequences,
            check_one_set_of_identical_sequences(hand, status, settings),
        ),
    );
    result.push(
        (WinningHandKind::ThreeColourStraight, check_three_colour_straight(hand, status, settings)),
    );
    result.push((WinningHandKind::Straight, check_straight(hand, status, settings)));
    result.push(
        (
            WinningHandKind::TwoSetsOfIdenticalSequences,
            check_two_sets_of_identical_sequences(hand, status, settings),
        ),
    );
    result.push((WinningHandKind::AllTripletHand, check_all_triplet_hand(hand, status, settings)));
    result.push(
        (WinningHandKind::ThreeClosedTriplets, check_three_closed_triplets(hand, status, settings)),
    );
    result.push(
        (WinningHandKind::ThreeColourTriplets, check_three_colour_triplets(hand, status, settings)),
    );
    result.push((WinningHandKind::AllSimples, check_all_simples(hand, status, settings)));
    result.push(
        (
            WinningHandKind::HonorTilesPlayersWind,
            check_honor_tiles_players_wind(hand, status, settings),
        ),
    );
    result.push(
        (
            WinningHandKind::HonorTilesPrevailingWind,
            check_honor_tiles_prevailing_wind(hand, status, settings),
        ),
    );
    result.push(
        (
            WinningHandKind::HonorTilesWhiteDragon,
            check_honor_tiles_white_dragon(hand, status, settings),
        ),
    );
    result.push(
        (
            WinningHandKind::HonorTilesGreenDragon,
            check_honor_tiles_green_dragon(hand, status, settings),
        ),
    );
    result.push(
        (WinningHandKind::HonorTilesRedDragon, check_honor_tiles_red_dragon(hand, status, settings)),
    );
    result.push(
        (
            WinningHandKind::TerminalOrHonorInEachSet,
            check_terminal_or_honor_in_each_set(hand, status, settings),
        ),
    );
    result.push(
        (WinningHandKind::TerminalInEachSet, check_terminal_in_each_set(hand, status, settings)),
    );
    result.push(
        (
            WinningHandKind::AllTerminalsAndHonors,
            check_all_terminals_and_honors(hand, status, settings),
        ),
    );
    result.push(
        (WinningHandKind::LittleThreeDragons, check_little_three_dragons(hand, status, settings)),
    );
    result.push((WinningHandKind::HalfFlush, check_half_flush(hand, status, settings)));
    result.push((WinningHandKind::Flush, check_flush(hand, status, settings)));
    result.push((WinningHandKind::ThirteenOrphans, check_thirteen_orphans(hand, status, settings)));
    result.push(
        (
            WinningHandKind::FourConcealedTriplets,
            check_four_concealed_triplets(hand, status, settings),
        ),
    );
    result.push((WinningHandKind::BigThreeDragons, check_big_three_dragons(hand, status, settings)));
    result.push((WinningHandKind::LittleFourWinds, check_little_four_winds(hand, status, settings)));
    result.push((WinningHandKind::BigFourWinds, check_big_four_winds(hand, status, settings)));
    result.push((WinningHandKind::AllHonors, check_all_honors(hand, status, settings)));
    result.push((WinningHandKind::AllTerminals, check_all_terminals(hand, status, settings)));
    result.push((WinningHandKind::AllGreen, check_all_green(hand, status, settings)));
    result.push((WinningHandKind::NineGates, check_nine_gates(hand, status, settings)));
    result.push((WinningHandKind::FourKans, check_four_kans(hand, status, settings)));
    result.push((WinningHandKind::HeavenlyHand, check_heavenly_hand(hand, status, settings)));
    result.push((WinningHandKind::HandOfEarth, check_hand_of_earth(hand, status, settings)));
    result
}

} // verus!
