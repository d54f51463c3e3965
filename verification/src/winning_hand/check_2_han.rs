use vstd::prelude::*;

use crate::error::HandError;
use crate::hand_info::block::BlockProperty;
use crate::hand_info::hand_analyzer::{
    has_same3, has_seq3, same3_contains, seq3_contains, spec_has_won, HandAnalyzer,
};
use crate::hand_info::status::Status;
use crate::settings::Settings;
use crate::tile::{is_dragon_kind, is_honor_kind, is_terminal_kind, is_terminal_or_honor_kind};
use crate::winning_hand::name::{get_winning_hand_name, WinningHandForm, WinningHandKind};

verus! {

/// Seven pairs: the hand won in the seven pairs form.
pub open spec fn seven_pairs_met(hand: HandAnalyzer) -> bool {
    spec_has_won(hand) && hand.form == WinningHandForm::SevenPairs
}

/// Three colour straight: one run rank in all three suits.
pub open spec fn three_colour_straight_met(hand: HandAnalyzer) -> bool {
    spec_has_won(hand) && exists|r: int|
        0 <= r < 7 && #[trigger] has_seq3(hand, r) && has_seq3(hand, r + 9) && has_seq3(
            hand,
            r + 18,
        )
}

/// Straight: the runs 123, 456 and 789 of one suit.
pub open spec fn straight_met(hand: HandAnalyzer) -> bool {
    spec_has_won(hand) && ((has_seq3(hand, 0) && has_seq3(hand, 3) && has_seq3(hand, 6)) || (
    has_seq3(hand, 9) && has_seq3(hand, 12) && has_seq3(hand, 15)) || (has_seq3(hand, 18)
        && has_seq3(hand, 21) && has_seq3(hand, 24)))
}

/// All triplet hand: four triplets and the head pair.
pub open spec fn all_triplet_hand_met(hand: HandAnalyzer) -> bool {
    spec_has_won(hand) && hand.same3@.len() == 4 && hand.same2@.len() == 1
}

/// Three closed triplets: three triplets in a closed hand.
pub open spec fn three_closed_triplets_met(hand: HandAnalyzer, status: Status) -> bool {
    spec_has_won(hand) && !status.has_claimed_open && hand.same3@.len() >= 3
}

/// Three colour triplets: one triplet rank in all three suits.
pub open spec fn three_colour_triplets_met(hand: HandAnalyzer) -> bool {
    spec_has_won(hand) && exists|r: int|
        0 <= r < 9 && #[trigger] has_same3(hand, r) && has_same3(hand, r + 9) && has_same3(
            hand,
            r + 18,
        )
}

/// Every block of the decomposition touches a terminal or an honor.
pub open spec fn chanta_blocks(hand: HandAnalyzer) -> bool {
    &&& forall|i: int| 0 <= i < hand.same3@.len() ==> is_terminal_or_honor_kind(
        (#[trigger] hand.same3@[i])@,
    )
    &&& forall|i: int| 0 <= i < hand.sequential3@.len() ==> (is_terminal_kind(
        (#[trigger] hand.sequential3@[i])@,
    ) || is_terminal_kind(hand.sequential3@[i]@ + 2))
    &&& forall|i: int| 0 <= i < hand.same2@.len() ==> is_terminal_or_honor_kind(
        (#[trigger] hand.same2@[i])@,
    )
}

/// An honor sits in a triplet or in the head pair.
pub open spec fn chanta_has_honor(hand: HandAnalyzer) -> bool {
    (exists|i: int| 0 <= i < hand.same3@.len() && is_honor_kind((#[trigger] hand.same3@[i])@)) || (
    exists|i: int| 0 <= i < hand.same2@.len() && is_honor_kind((#[trigger] hand.same2@[i])@))
}

/// Terminal or honor in each set (chanta): every block touches a terminal
/// or honor, at least one run is present (else it is the all terminals and
/// honors pattern), and at least one honor is present (else it is the pure
/// terminal pattern).
pub open spec fn terminal_or_honor_in_each_set_met(hand: HandAnalyzer) -> bool {
    spec_has_won(hand) && hand.sequential3@.len() > 0 && chanta_blocks(hand) && chanta_has_honor(
        hand,
    )
}

/// All terminals and honors: four triplets and a head of nothing but
/// terminals and honors.
pub open spec fn all_terminals_and_honors_met(hand: HandAnalyzer) -> bool {
    &&& spec_has_won(hand)
    &&& hand.sequential3@.len() == 0
    &&& hand.same3@.len() == 4
    &&& hand.same2@.len() == 1
    &&& forall|i: int| 0 <= i < hand.same3@.len() ==> is_terminal_or_honor_kind(
        (#[trigger] hand.same3@[i])@,
    )
    &&& forall|i: int| 0 <= i < hand.same2@.len() ==> is_terminal_or_honor_kind(
        (#[trigger] hand.same2@[i])@,
    )
}

/// Little three dragons: triplets of exactly two of the three dragon
/// kinds, and a dragon as the head pair.
pub open spec fn little_three_dragons_met(hand: HandAnalyzer) -> bool {
    &&& spec_has_won(hand)
    &&& ((has_same3(hand, 31) && has_same3(hand, 32) && !has_same3(hand, 33)) || (has_same3(
        hand,
        31,
    ) && !has_same3(hand, 32) && has_same3(hand, 33)) || (!has_same3(hand, 31) && has_same3(
        hand,
        32,
    ) && has_same3(hand, 33)))
    &&& exists|i: int| 0 <= i < hand.same2@.len() && is_dragon_kind((#[trigger] hand.same2@[i])@)
}

/// Chanta and the all terminals and honors pattern never both hold of one
/// decomposition: the first demands a run, the second forbids one.
pub proof fn lemma_chanta_honroutou_exclusive(hand: HandAnalyzer)
    ensures
        !(terminal_or_honor_in_each_set_met(hand) && all_terminals_and_honors_met(hand)),
{
}

/// Double ready (double riichi). Its rule is not coded yet: a complete
/// hand is answered with `NotImplemented`, never with a silent "not met".
pub fn check_double_ready(hand: &HandAnalyzer, status: &Status, settings: &Settings) -> (r: Result<
    (&'static str, bool, u32),
    HandError,
>)
    ensures
        !spec_has_won(*hand) ==> (r matches Ok(t) && t.1 == false && t.2 == 0),
        spec_has_won(*hand) ==> (r matches Err(e) && e == HandError::NotImplemented(
            WinningHandKind::DoubleReady,
        )),
{
    let name = get_winning_hand_name(
        WinningHandKind::DoubleReady,
        status.has_claimed_open,
        settings.display_lang,
    );
    if hand.shanten != -1 {
        return Ok((name, false, 0));
    }
    Err(HandError::NotImplemented(WinningHandKind::DoubleReady))
}

/// Seven pairs (chiitoitsu).
pub fn check_seven_pairs(hand: &HandAnalyzer, status: &Status, settings: &Settings) -> (r: Result<
    (&'static str, bool, u32),
    HandError,
>)
    ensures
        r matches Ok(t) && t.1 == seven_pairs_met(*hand) && t.2 == (if t.1 {
            2u32
        } else {
            0u32
        }),
{
    let name = get_winning_hand_name(
        WinningHandKind::SevenPairs,
        status.has_claimed_open,
        settings.display_lang,
    );
    if hand.shanten != -1 {
        return Ok((name, false, 0));
    }
    if matches!(hand.form, WinningHandForm::SevenPairs) {
        Ok((name, true, 2))
    } else {
        Ok((name, false, 0))
    }
}

/// Three colour straight (sanshoku doujun).
pub fn check_three_colour_straight(
    hand: &HandAnalyzer,
    status: &Status,
    settings: &Settings,
) -> (r: Result<(&'static str, bool, u32), HandError>)
    ensures
        r matches Ok(t) && t.1 == three_colour_straight_met(*hand) && t.2 == (if t.1 {
            if status.has_claimed_open {
                1u32
            } else {
                2u32
            }
        } else {
            0u32
        }),
{
    let name = get_winning_hand_name(
        WinningHandKind::ThreeColourStraight,
        status.has_claimed_open,
        settings.display_lang,
    );
    if hand.shanten != -1 {
        return Ok((name, false, 0));
    }
    let mut found = false;
    let mut r: u32 = 0;
    while r < 7
        invariant
            r <= 7,
            found ==> three_colour_straight_met(*hand),
            hand.shanten == -1,
            !found ==> forall|q: int| 0 <= q < r ==> !(#[trigger] has_seq3(*hand, q) && has_seq3(
                *hand,
                q + 9,
            ) && has_seq3(*hand, q + 18)),
        decreases 7 - r,
    {
        if seq3_contains(hand, r) && seq3_contains(hand, r + 9) && seq3_contains(hand, r + 18) {
            found = true;
        }
        r += 1;
    }
    if found {
        if status.has_claimed_open {
            Ok((name, true, 1))
        } else {
            Ok((name, true, 2))
        }
    } else {
        Ok((name, false, 0))
    }
}

/// Straight (ittsuu).
pub fn check_straight(hand: &HandAnalyzer, status: &Status, settings: &Settings) -> (r: Result<
    (&'static str, bool, u32),
    HandError,
>)
    ensures
        r matches Ok(t) && t.1 == straight_met(*hand) && t.2 == (if t.1 {
            if status.has_claimed_open {
                1u32
            } else {
                2u32
            }
        } else {
            0u32
        }),
{
    let name = get_winning_hand_name(
        WinningHandKind::Straight,
        status.has_claimed_open,
        settings.display_lang,
    );
    if hand.shanten != -1 {
        return Ok((name, false, 0));
    }
    let m = seq3_contains(hand, 0) && seq3_contains(hand, 3) && seq3_contains(hand, 6);
    let p = seq3_contains(hand, 9) && seq3_contains(hand, 12) && seq3_contains(hand, 15);
    let s = seq3_contains(hand, 18) && seq3_contains(hand, 21) && seq3_contains(hand, 24);
    if m || p || s {
        if status.has_claimed_open {
            Ok((name, true, 1))
        } else {
            Ok((name, true, 2))
        }
    } else {
        Ok((name, false, 0))
    }
}

/// All triplet hand (toitoi).
pub fn check_all_triplet_hand(hand: &HandAnalyzer, status: &Status, settings: &Settings) -> (r:
    Result<(&'static str, bool, u32), HandError>)
    ensures
        r matches Ok(t) && t.1 == all_triplet_hand_met(*hand) && t.2 == (if t.1 {
            2u32
        } else {
            0u32
        }),
{
    let name = get_winning_hand_name(
        WinningHandKind::AllTripletHand,
        status.has_claimed_open,
        settings.display_lang,
    );
    if hand.shanten != -1 {
        return Ok((name, false, 0));
    }
    if hand.same3.len() == 4 && hand.same2.len() == 1 {
        return Ok((name, true, 2));
    }
    Ok((name, false, 0))
}

/// Three closed triplets (sanankou).
pub fn check_three_closed_triplets(
    hand: &HandAnalyzer,
    status: &Status,
    settings: &Settings,
) -> (r: Result<(&'static str, bool, u32), HandError>)
    ensures
        r matches Ok(t) && t.1 == three_closed_triplets_met(*hand, *status) && t.2 == (if t.1 {
            2u32
        } else {
            0u32
        }),
{
    let name = get_winning_hand_name(
        WinningHandKind::ThreeClosedTriplets,
        status.has_claimed_open,
        settings.display_lang,
    );
    if hand.shanten != -1 {
        return Ok((name, false, 0));
    }
    if !status.has_claimed_open && hand.same3.len() >= 3 {
        return Ok((name, true, 2));
    }
    Ok((name, false, 0))
}

/// Three colour triplets (sanshoku doukou).
pub fn check_three_colour_triplets(
    hand: &HandAnalyzer,
    status: &Status,
    settings: &Settings,
) -> (r: Result<(&'static str, bool, u32), HandError>)
    ensures
        r matches Ok(t) && t.1 == three_colour_triplets_met(*hand) && t.2 == (if t.1 {
            2u32
        } else {
            0u32
        }),
{
    let name = get_winning_hand_name(
        WinningHandKind::ThreeColourTriplets,
        status.has_claimed_open,
        settings.display_lang,
    );
    if hand.shanten != -1 {
        return Ok((name, false, 0));
    }
    let mut found = false;
    let mut r: u32 = 0;
    while r < 9
        invariant
            r <= 9,
            found ==> three_colour_triplets_met(*hand),
            hand.shanten == -1,
            !found ==> forall|q: int| 0 <= q < r ==> !(#[trigger] has_same3(*hand, q) && has_same3(
                *hand,
                q + 9,
            ) && has_same3(*hand, q + 18)),
        decreases 9 - r,
    {
        if same3_contains(hand, r) && same3_contains(hand, r + 9) && same3_contains(hand, r + 18) {
            found = true;
        }
        r += 1;
    }
    if found {
        Ok((name, true, 2))
    } else {
        Ok((name, false, 0))
    }
}

/// Terminal or honor in each set (chanta).
pub fn check_terminal_or_honor_in_each_set(
    hand: &HandAnalyzer,
    status: &Status,
    settings: &Settings,
) -> (r: Result<(&'static str, bool, u32), HandError>)
    ensures
        r matches Ok(t) && t.1 == terminal_or_honor_in_each_set_met(*hand) && t.2 == (if t.1 {
            if status.has_claimed_open {
                1u32
            } else {
                2u32
            }
        } else {
            0u32
        }),
{
    let name = get_winning_hand_name(
        WinningHandKind::TerminalOrHonorInEachSet,
        status.has_claimed_open,
        settings.display_lang,
    );
    if hand.shanten != -1 {
        return Ok((name, false, 0));
    }
    // Never together with all terminals and honors: a run must be present.
    if hand.sequential3.len() == 0 {
        return Ok((name, false, 0));
    }
    let mut no_1_9_honor = false;
    // Never together with the pure terminal pattern: an honor must be
    // present.
    let mut has_honor = false;

    let n3 = hand.same3.len();
    let mut i: usize = 0;
    while i < n3
        invariant
            i <= n3,
            n3 == hand.same3@.len(),
            no_1_9_honor ==> !chanta_blocks(*hand),
            !no_1_9_honor ==> forall|j: int| 0 <= j < i ==> is_terminal_or_honor_kind(
                (#[trigger] hand.same3@[j])@,
            ),
            has_honor ==> chanta_has_honor(*hand),
            !has_honor ==> forall|j: int| 0 <= j < i ==> !is_honor_kind(
                (#[trigger] hand.same3@[j])@,
            ),
        decreases n3 - i,
    {
        let same = hand.same3[i];
        if !same.has_1_or_9()? && !same.has_honor()? {
            no_1_9_honor = true;
        }
        if same.has_honor()? {
            has_honor = true;
        }
        i += 1;
    }

    let nq = hand.sequential3.len();
    let mut j: usize = 0;
    while j < nq
        invariant
            j <= nq,
            nq == hand.sequential3@.len(),
            no_1_9_honor ==> !chanta_blocks(*hand),
            !no_1_9_honor ==> forall|k: int| 0 <= k < hand.same3@.len()
                ==> is_terminal_or_honor_kind((#[trigger] hand.same3@[k])@),
            !no_1_9_honor ==> forall|k: int| 0 <= k < j ==> (is_terminal_kind(
                (#[trigger] hand.sequential3@[k])@,
            ) || is_terminal_kind(hand.sequential3@[k]@ + 2)),
            has_honor ==> chanta_has_honor(*hand),
            !has_honor ==> forall|k: int| 0 <= k < hand.same3@.len() ==> !is_honor_kind(
                (#[trigger] hand.same3@[k])@,
            ),
        decreases nq - j,
    {
        let seq = hand.sequential3[j];
        if !seq.has_1_or_9()? {
            no_1_9_honor = true;
        }
        j += 1;
    }

    let n2 = hand.same2.len();
    let mut k: usize = 0;
    while k < n2
        invariant
            k <= n2,
            n2 == hand.same2@.len(),
            no_1_9_honor ==> !chanta_blocks(*hand),
            !no_1_9_honor ==> forall|q: int| 0 <= q < hand.same3@.len()
                ==> is_terminal_or_honor_kind((#[trigger] hand.same3@[q])@),
            !no_1_9_honor ==> forall|q: int| 0 <= q < hand.sequential3@.len() ==> (is_terminal_kind(
                (#[trigger] hand.sequential3@[q])@,
            ) || is_terminal_kind(hand.sequential3@[q]@ + 2)),
            !no_1_9_honor ==> forall|q: int| 0 <= q < k ==> is_terminal_or_honor_kind(
                (#[trigger] hand.same2@[q])@,
            ),
            has_honor ==> chanta_has_honor(*hand),
            !has_honor ==> forall|q: int| 0 <= q < hand.same3@.len() ==> !is_honor_kind(
                (#[trigger] hand.same3@[q])@,
            ),
            !has_honor ==> forall|q: int| 0 <= q < k ==> !is_honor_kind(
                (#[trigger] hand.same2@[q])@,
            ),
        decreases n2 - k,
    {
        let head = hand.same2[k];
        if !head.has_1_or_9()? && !head.has_honor()? {
            no_1_9_honor = true;
        }
        if head.has_honor()? {
            has_honor = true;
        }
        k += 1;
    }

    if no_1_9_honor || !has_honor {
        return Ok((name, false, 0));
    }
    if status.has_claimed_open {
        return Ok((name, true, 1));
    }
    Ok((name, true, 2))
}

/// All terminals and honors (honroutou).
pub fn check_all_terminals_and_honors(
    hand: &HandAnalyzer,
    status: &Status,
    settings: &Settings,
) -> (r: Result<(&'static str, bool, u32), HandError>)
    ensures
        r matches Ok(t) && t.1 == all_terminals_and_honors_met(*hand) && t.2 == (if t.1 {
            2u32
        } else {
            0u32
        }),
{
    let name = get_winning_hand_name(
        WinningHandKind::AllTerminalsAndHonors,
        status.has_claimed_open,
        settings.display_lang,
    );
    if hand.shanten != -1 {
        return Ok((name, false, 0));
    }
    if hand.sequential3.len() != 0 {
        return Ok((name, false, 0));
    }
    if hand.same3.len() != 4 || hand.same2.len() != 1 {
        return Ok((name, false, 0));
    }
    let n3 = hand.same3.len();
    let mut i: usize = 0;
    while i < n3
        invariant
            i <= n3,
            n3 == hand.same3@.len(),
            forall|j: int| 0 <= j < i ==> is_terminal_or_honor_kind((#[trigger] hand.same3@[j])@),
        decreases n3 - i,
    {
        let same = hand.same3[i];
        if !(same.has_1_or_9()? || same.has_honor()?) {
            return Ok((name, false, 0));
        }
        i += 1;
    }
    let n2 = hand.same2.len();
    let mut k: usize = 0;
    while k < n2
        invariant
            k <= n2,
            n2 == hand.same2@.len(),
            forall|j: int| 0 <= j < k ==> is_terminal_or_honor_kind((#[trigger] hand.same2@[j])@),
        decreases n2 - k,
    {
        let pair = hand.same2[k];
        if !(pair.has_1_or_9()? || pair.has_honor()?) {
            return Ok((name, false, 0));
        }
        k += 1;
    }
    Ok((name, true, 2))
}

/// Little three dragons (shousangen).
pub fn check_little_three_dragons(
    hand: &HandAnalyzer,
    status: &Status,
    settings: &Settings,
) -> (r: Result<(&'static str, bool, u32), HandError>)
    ensures
        r matches Ok(t) && t.1 == little_three_dragons_met(*hand) && t.2 == (if t.1 {
            2u32
        } else {
            0u32
        }),
{
    let name = get_winning_hand_name(
        WinningHandKind::LittleThreeDragons,
        status.has_claimed_open,
        settings.display_lang,
    );
    if hand.shanten != -1 {
        return Ok((name, false, 0));
    }
    let white = same3_contains(hand, 31);
    let green = same3_contains(hand, 32);
    let red = same3_contains(hand, 33);
    let two_triplets = (white && green && !red) || (white && !green && red) || (!white && green
        && red);
    let mut pair_found = false;

    let n2 = hand.same2.len();
    let mut k: usize = 0;
    while k < n2
        invariant
            k <= n2,
            n2 == hand.same2@.len(),
            pair_found ==> exists|q: int|
                0 <= q < hand.same2@.len() && is_dragon_kind((#[trigger] hand.same2@[q])@),
            !pair_found ==> forall|q: int| 0 <= q < k ==> !is_dragon_kind(
                (#[trigger] hand.same2@[q])@,
            ),
        decreases n2 - k,
    {
        let head = hand.same2[k];
        if head.has_dragon(crate::tile::Dragon::White)? || head.has_dragon(
            crate::tile::Dragon::Green,
        )? || head.has_dragon(crate::tile::Dragon::Red)? {
            pair_found = true;
        }
        k += 1;
    }

    if two_triplets && pair_found {
        return Ok((name, true, 2));
    }
    Ok((name, false, 0))
}

} // verus!
