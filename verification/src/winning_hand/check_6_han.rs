use vstd::prelude::*;

use crate::error::HandError;
use crate::hand_info::block::BlockProperty;
use crate::hand_info::hand_analyzer::{spec_has_won, HandAnalyzer};
use crate::hand_info::status::Status;
use crate::settings::Settings;
use crate::tile::is_honor_kind;
use crate::winning_hand::check_3_han::{exactly_one_suit, suit_flags};
use crate::winning_hand::name::{get_winning_hand_name, WinningHandKind};

verus! {

/// No honor sits in a triplet or in the head pair; runs never hold one.
pub open spec fn flush_no_honor(hand: HandAnalyzer) -> bool {
    &&& forall|i: int| 0 <= i < hand.same3@.len() ==> !is_honor_kind((#[trigger] hand.same3@[i])@)
    &&& forall|i: int| 0 <= i < hand.same2@.len() ==> !is_honor_kind((#[trigger] hand.same2@[i])@)
}

/// Full flush: one suit only and no honors at all.
pub open spec fn flush_met(hand: HandAnalyzer) -> bool {
    spec_has_won(hand) && flush_no_honor(hand) && exactly_one_suit(hand)
}

/// Full flush (chinitsu).
pub fn check_flush(hand: &HandAnalyzer, status: &Status, settings: &Settings) -> (r: Result<
    (&'static str, bool, u32),
    HandError,
>)
    ensures
        r matches Ok(t) && t.1 == flush_met(*hand) && t.2 == (if t.1 {
            if status.has_claimed_open {
                5u32
            } else {
                6u32
            }
        } else {
            0u32
        }),
{
    let name = get_winning_hand_name(
        WinningHandKind::Flush,
        status.has_claimed_open,
        settings.display_lang,
    );
    if hand.shanten != -1 {
        return Ok((name, false, 0));
    }

    let n3 = hand.same3.len();
    let mut i: usize = 0;
    while i < n3
        invariant
            i <= n3,
            n3 == hand.same3@.len(),
            forall|j: int| 0 <= j < i ==> !is_honor_kind((#[trigger] hand.same3@[j])@),
        decreases n3 - i,
    {
        if hand.same3[i].has_honor()? {
            return Ok((name, false, 0));
        }
        i += 1;
    }
    let n2 = hand.same2.len();
    let mut k: usize = 0;
    while k < n2
        invariant
            k <= n2,
            n2 == hand.same2@.len(),
            forall|j: int| 0 <= j < k ==> !is_honor_kind((#[trigger] hand.same2@[j])@),
        decreases n2 - k,
    {
        if hand.same2[k].has_honor()? {
            return Ok((name, false, 0));
        }
        k += 1;
    }

    let (has_char, has_circle, has_bamboo) = suit_flags(hand)?;
    let suits: u32 = (if has_char {
        1
    } else {
        0
    }) + (if has_circle {
        1
    } else {
        0
    }) + (if has_bamboo {
        1
    } else {
        0
    });
    if suits == 1 {
        if status.has_claimed_open {
            Ok((name, true, 5))
        } else {
            Ok((name, true, 6))
        }
    } else {
        Ok((name, false, 0))
    }
}

} // verus!
