use vstd::prelude::*;

use crate::hand::Hand;
use crate::hand_info::hand_analyzer::{
    seven_pairs_distance, standard_form_distance, thirteen_orphans_distance, HandAnalyzer,
};
use vstd::math::min;
use crate::winning_hand::name::WinningHandForm;

verus! {

/// A hand's distance to a winning shape, and the form it was measured
/// against: tenpai is `0`, a complete hand is `-1`.
#[derive(Debug)]
pub struct Shanten {
    /// The distance.
    pub num: i32,
    /// The winning form the distance was measured against.
    pub form: WinningHandForm,
}

/// The seven pairs distance of the hand.
pub fn calc_seven_pairs(hand: &Hand) -> (r: i32)
    requires
        hand.spec_total() <= 14,
    ensures
        r as int == seven_pairs_distance(hand.spec_counts()),
        r >= -1,
{
    HandAnalyzer::new_by_form(hand, WinningHandForm::SevenPairs).shanten
}

/// The thirteen orphans distance of the hand.
pub fn calc_13_orphens(hand: &Hand) -> (r: i32)
    requires
        hand.spec_total() <= 14,
    ensures
        r as int == thirteen_orphans_distance(hand.spec_counts()),
        r >= -1,
{
    HandAnalyzer::new_by_form(hand, WinningHandForm::ThirteenOrphens).shanten
}

/// The standard form distance of the hand.
pub fn calc_normal_form(hand: &Hand) -> (r: i32)
    requires
        hand.spec_total() <= 14,
    ensures
        r as int == standard_form_distance(hand.spec_counts()),
        -1 <= r <= 8,
{
    HandAnalyzer::new_by_form(hand, WinningHandForm::Normal).shanten
}

impl Shanten {
    /// Measures the hand against all three winning forms and keeps the
    /// least distance; on a tie seven pairs beats thirteen orphans beats
    /// the standard form.
    pub fn calc(hand: &Hand) -> (r: Shanten)
        requires
            hand.spec_total() <= 14,
        ensures
            -1 <= r.num <= 8,
            r.num as int == min(
                min(
                    seven_pairs_distance(hand.spec_counts()),
                    thirteen_orphans_distance(hand.spec_counts()),
                ),
                standard_form_distance(hand.spec_counts()),
            ),
            r.form == WinningHandForm::SevenPairs <==> (seven_pairs_distance(hand.spec_counts())
                <= thirteen_orphans_distance(hand.spec_counts()) && seven_pairs_distance(
                hand.spec_counts(),
            ) <= standard_form_distance(hand.spec_counts())),
            r.form == WinningHandForm::ThirteenOrphens <==> (thirteen_orphans_distance(
                hand.spec_counts(),
            ) < seven_pairs_distance(hand.spec_counts()) && thirteen_orphans_distance(
                hand.spec_counts(),
            ) <= standard_form_distance(hand.spec_counts())),
            r.form == WinningHandForm::Normal <==> (standard_form_distance(hand.spec_counts())
                < seven_pairs_distance(hand.spec_counts()) && standard_form_distance(
                hand.spec_counts(),
            ) < thirteen_orphans_distance(hand.spec_counts())),
    {
        let sp = Shanten::calc_by_form(hand, WinningHandForm::SevenPairs);
        let to = Shanten::calc_by_form(hand, WinningHandForm::ThirteenOrphens);
        let normal = Shanten::calc_by_form(hand, WinningHandForm::Normal);
        let m1 = if sp.num <= to.num {
            sp
        } else {
            to
        };
        if m1.num <= normal.num {
            m1
        } else {
            normal
        }
    }

    /// Measures the hand against the one winning form asked for.
    pub fn calc_by_form(hand: &Hand, form: WinningHandForm) -> (r: Shanten)
        requires
            hand.spec_total() <= 14,
        ensures
            r.form == form,
            -1 <= r.num,
            form == WinningHandForm::SevenPairs ==> r.num as int == seven_pairs_distance(
                hand.spec_counts(),
            ),
            form == WinningHandForm::ThirteenOrphens ==> r.num as int == thirteen_orphans_distance(
                hand.spec_counts(),
            ),
            form == WinningHandForm::Normal ==> r.num as int == standard_form_distance(
                hand.spec_counts(),
            ),
            form == WinningHandForm::Normal ==> r.num <= 8,
    {
        match form {
            WinningHandForm::SevenPairs => Shanten {
                num: calc_seven_pairs(hand),
                form: WinningHandForm::SevenPairs,
            },
            WinningHandForm::ThirteenOrphens => Shanten {
                num: calc_13_orphens(hand),
                form: WinningHandForm::ThirteenOrphens,
            },
            WinningHandForm::Normal => Shanten {
                num: calc_normal_form(hand),
                form: WinningHandForm::Normal,
            },
        }
    }
}

} // verus!
