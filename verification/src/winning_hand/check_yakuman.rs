use vstd::prelude::*;

use crate::error::HandError;
use crate::hand_info::block::{BlockProperty, Same2, Same3, Sequential3};
use crate::hand_info::hand_analyzer::{
    count2_tiles, count3_tiles, countq_tiles, has_same2, has_same3, same2_contains, same3_contains,
    spec_has_won, HandAnalyzer,
};
use crate::hand_info::status::Status;
use crate::settings::Settings;
use crate::tile::{is_honor_kind, is_terminal_kind};
use crate::winning_hand::name::{get_winning_hand_name, WinningHandForm, WinningHandKind};

verus! {

/// Thirteen orphans: the hand won in the thirteen orphans form.
pub open spec fn thirteen_orphans_met(hand: HandAnalyzer) -> bool {
    spec_has_won(hand) && hand.form == WinningHandForm::ThirteenOrphens
}

/// Four concealed triplets: a closed, self-drawn hand of four triplets.
pub open spec fn four_concealed_triplets_met(hand: HandAnalyzer, status: Status) -> bool {
    spec_has_won(hand) && !status.has_claimed_open && hand.same3@.len() == 4
        && status.is_self_picked
}

/// Big three dragons: a triplet of every dragon.
pub open spec fn big_three_dragons_met(hand: HandAnalyzer) -> bool {
    spec_has_won(hand) && has_same3(hand, 31) && has_same3(hand, 32) && has_same3(hand, 33)
}

/// Little four winds: triplets of three winds and the fourth as the head.
pub open spec fn little_four_winds_met(hand: HandAnalyzer) -> bool {
    spec_has_won(hand) && exists|w: int|
        27 <= w <= 30 && !(#[trigger] has_same3(hand, w)) && has_same2(hand, w) && (forall|v: int|
            27 <= v <= 30 && v != w ==> has_same3(hand, v))
}

/// Big four winds: a triplet of every wind.
pub open spec fn big_four_winds_met(hand: HandAnalyzer) -> bool {
    spec_has_won(hand) && has_same3(hand, 27) && has_same3(hand, 28) && has_same3(hand, 29)
        && has_same3(hand, 30)
}

/// All honors: no run, and every triplet and the head an honor.
pub open spec fn all_honors_met(hand: HandAnalyzer) -> bool {
    &&& spec_has_won(hand)
    &&& hand.sequential3@.len() == 0
    &&& forall|i: int| 0 <= i < hand.same3@.len() ==> is_honor_kind((#[trigger] hand.same3@[i])@)
    &&& forall|i: int| 0 <= i < hand.same2@.len() ==> is_honor_kind((#[trigger] hand.same2@[i])@)
}

/// All terminals: no run, and every triplet and the head a terminal.
pub open spec fn all_terminals_met(hand: HandAnalyzer) -> bool {
    &&& spec_has_won(hand)
    &&& hand.sequential3@.len() == 0
    &&& forall|i: int| 0 <= i < hand.same3@.len() ==> is_terminal_kind((#[trigger] hand.same3@[i])@)
    &&& forall|i: int| 0 <= i < hand.same2@.len() ==> is_terminal_kind((#[trigger] hand.same2@[i])@)
}

/// The kind is one of the six all-green kinds: 2s, 3s, 4s, 6s, 8s and the
/// green dragon.
pub open spec fn is_green_kind(k: int) -> bool {
    k == 19 || k == 20 || k == 21 || k == 23 || k == 25 || k == 32
}

/// All green: every tile of every block is green.
pub open spec fn all_green_met(hand: HandAnalyzer) -> bool {
    &&& spec_has_won(hand)
    &&& forall|i: int| 0 <= i < hand.same3@.len() ==> is_green_kind((#[trigger] hand.same3@[i])@)
    &&& forall|i: int| 0 <= i < hand.sequential3@.len() ==> (is_green_kind(
        (#[trigger] hand.sequential3@[i])@,
    ) && is_green_kind(hand.sequential3@[i]@ + 1) && is_green_kind(hand.sequential3@[i]@ + 2))
    &&& forall|i: int| 0 <= i < hand.same2@.len() ==> is_green_kind((#[trigger] hand.same2@[i])@)
}

/// How many tiles of kind `k` the whole decomposition holds.
pub open spec fn decomp_count(hand: HandAnalyzer, k: int) -> int {
    count3_tiles(hand.same3@, k) + countq_tiles(hand.sequential3@, k) + count2_tiles(
        hand.same2@,
        k,
    )
}

/// Every block lies inside the suit whose low kind is `base`.
pub open spec fn blocks_in_suit(hand: HandAnalyzer, base: int) -> bool {
    &&& forall|i: int| 0 <= i < hand.same3@.len() ==> base <= (#[trigger] hand.same3@[i])@ < base
        + 9
    &&& forall|i: int| 0 <= i < hand.sequential3@.len() ==> base
        <= (#[trigger] hand.sequential3@[i])@ && hand.sequential3@[i]@ + 2 < base + 9
    &&& forall|i: int| 0 <= i < hand.same2@.len() ==> base <= (#[trigger] hand.same2@[i])@ < base
        + 9
}

/// Nine gates: a one-suit hand shaped 1112345678999 plus one more tile of
/// the suit. A winning decomposition holds at most four melds and one head
/// pair, so larger block lists never describe one.
pub open spec fn nine_gates_met(hand: HandAnalyzer) -> bool {
    &&& spec_has_won(hand)
    &&& hand.same3@.len() <= 4
    &&& hand.sequential3@.len() <= 4
    &&& hand.same2@.len() <= 1
    &&& exists|base: int|
        #![trigger blocks_in_suit(hand, base)]
        (base == 0 || base == 9 || base == 18) && blocks_in_suit(hand, base) && decomp_count(
            hand,
            base,
        ) >= 3 && decomp_count(hand, base + 8) >= 3 && (forall|r: int|
            1 <= r <= 7 ==> #[trigger] decomp_count(hand, base + r) >= 1)
}

/// Thirteen orphans (kokushi musou).
pub fn check_thirteen_orphans(hand: &HandAnalyzer, status: &Status, settings: &Settings) -> (r:
    Result<(&'static str, bool, u32), HandError>)
    ensures
        r matches Ok(t) && t.1 == thirteen_orphans_met(*hand) && t.2 == (if t.1 {
            13u32
        } else {
            0u32
        }),
{
    let name = get_winning_hand_name(
        WinningHandKind::ThirteenOrphans,
        status.has_claimed_open,
        settings.display_lang,
    );
    if hand.shanten != -1 {
        return Ok((name, false, 0));
    }
    if matches!(hand.form, WinningHandForm::ThirteenOrphens) {
        Ok((name, true, 13))
    } else {
        Ok((name, false, 0))
    }
}

/// Four concealed triplets (suuankou).
pub fn check_four_concealed_triplets(
    hand: &HandAnalyzer,
    status: &Status,
    settings: &Settings,
) -> (r: Result<(&'static str, bool, u32), HandError>)
    ensures
        r matches Ok(t) && t.1 == four_concealed_triplets_met(*hand, *status) && t.2 == (if t.1 {
            13u32
        } else {
            0u32
        }),
{
    let name = get_winning_hand_name(
        WinningHandKind::FourConcealedTriplets,
        status.has_claimed_open,
        settings.display_lang,
    );
    if hand.shanten != -1 {
        return Ok((name, false, 0));
    }
    if !status.has_claimed_open && hand.same3.len() == 4 && status.is_self_picked {
        Ok((name, true, 13))
    } else {
        Ok((name, false, 0))
    }
}

/// Big three dragons (daisangen).
pub fn check_big_three_dragons(hand: &HandAnalyzer, status: &Status, settings: &Settings) -> (r:
    Result<(&'static str, bool, u32), HandError>)
    ensures
        r matches Ok(t) && t.1 == big_three_dragons_met(*hand) && t.2 == (if t.1 {
            13u32
        } else {
            0u32
        }),
{
    let name = get_winning_hand_name(
        WinningHandKind::BigThreeDragons,
        status.has_claimed_open,
        settings.display_lang,
    );
    if hand.shanten != -1 {
        return Ok((name, false, 0));
    }
    if same3_contains(hand, 31) && same3_contains(hand, 32) && same3_contains(hand, 33) {
        Ok((name, true, 13))
    } else {
        Ok((name, false, 0))
    }
}

/// Little four winds (shousuushii).
pub fn check_little_four_winds(hand: &HandAnalyzer, status: &Status, settings: &Settings) -> (r:
    Result<(&'static str, bool, u32), HandError>)
    ensures
        r matches Ok(t) && t.1 == little_four_winds_met(*hand) && t.2 == (if t.1 {
            13u32
        } else {
            0u32
        }),
{
    let name = get_winning_hand_name(
        WinningHandKind::LittleFourWinds,
        status.has_claimed_open,
        settings.display_lang,
    );
    if hand.shanten != -1 {
        return Ok((name, false, 0));
    }
    let t27 = same3_contains(hand, 27);
    let t28 = same3_contains(hand, 28);
    let t29 = same3_contains(hand, 29);
    let t30 = same3_contains(hand, 30);
    let p27 = same2_contains(hand, 27);
    let p28 = same2_contains(hand, 28);
    let p29 = same2_contains(hand, 29);
    let p30 = same2_contains(hand, 30);
    let met = (!t27 && p27 && t28 && t29 && t30) || (!t28 && p28 && t27 && t29 && t30) || (!t29
        && p29 && t27 && t28 && t30) || (!t30 && p30 && t27 && t28 && t29);
    proof {
        if met {
            if !t27 && p27 && t28 && t29 && t30 {
                assert(!has_same3(*hand, 27) && has_same2(*hand, 27) && forall|v: int|
                    27 <= v <= 30 && v != 27 ==> has_same3(*hand, v));
            } else if !t28 && p28 && t27 && t29 && t30 {
                assert(!has_same3(*hand, 28) && has_same2(*hand, 28) && forall|v: int|
                    27 <= v <= 30 && v != 28 ==> has_same3(*hand, v));
            } else if !t29 && p29 && t27 && t28 && t30 {
                assert(!has_same3(*hand, 29) && has_same2(*hand, 29) && forall|v: int|
                    27 <= v <= 30 && v != 29 ==> has_same3(*hand, v));
            } else {
                assert(!has_same3(*hand, 30) && has_same2(*hand, 30) && forall|v: int|
                    27 <= v <= 30 && v != 30 ==> has_same3(*hand, v));
            }
            assert(little_four_winds_met(*hand));
        } else {
            assert forall|w: int|
                27 <= w <= 30 implies !(!(#[trigger] has_same3(*hand, w)) && has_same2(*hand, w)
                && (forall|v: int| 27 <= v <= 30 && v != w ==> has_same3(*hand, v))) by {
                if !has_same3(*hand, w) && has_same2(*hand, w) && (forall|v: int|
                    27 <= v <= 30 && v != w ==> has_same3(*hand, v)) {
                    if w == 27 {
                        assert(has_same3(*hand, 28) && has_same3(*hand, 29) && has_same3(
                            *hand,
                            30,
                        ));
                    } else if w == 28 {
                        assert(has_same3(*hand, 27) && has_same3(*hand, 29) && has_same3(
                            *hand,
                            30,
                        ));
                    } else if w == 29 {
                        assert(has_same3(*hand, 27) && has_same3(*hand, 28) && has_same3(
                            *hand,
                            30,
                        ));
                    } else {
                        assert(has_same3(*hand, 27) && has_same3(*hand, 28) && has_same3(
                            *hand,
                            29,
                        ));
                    }
                    assert(false);
                }
            }
            assert(!little_four_winds_met(*hand));
        }
    }
    if met {
        Ok((name, true, 13))
    } else {
        Ok((name, false, 0))
    }
}

/// Big four winds (daisuushii).
pub fn check_big_four_winds(hand: &HandAnalyzer, status: &Status, settings: &Settings) -> (r:
    Result<(&'static str, bool, u32), HandError>)
    ensures
        r matches Ok(t) && t.1 == big_four_winds_met(*hand) && t.2 == (if t.1 {
            13u32
        } else {
            0u32
        }),
{
    let name = get_winning_hand_name(
        WinningHandKind::BigFourWinds,
        status.has_claimed_open,
        settings.display_lang,
    );
    if hand.shanten != -1 {
        return Ok((name, false, 0));
    }
    if same3_contains(hand, 27) && same3_contains(hand, 28) && same3_contains(hand, 29)
        && same3_contains(hand, 30) {
        Ok((name, true, 13))
    } else {
        Ok((name, false, 0))
    }
}

/// All honors (tsuuiisou).
pub fn check_all_honors(hand: &HandAnalyzer, status: &Status, settings: &Settings) -> (r: Result<
    (&'static str, bool, u32),
    HandError,
>)
    ensures
        r matches Ok(t) && t.1 == all_honors_met(*hand) && t.2 == (if t.1 {
            13u32
        } else {
            0u32
        }),
{
    let name = get_winning_hand_name(
        WinningHandKind::AllHonors,
        status.has_claimed_open,
        settings.display_lang,
    );
    if hand.shanten != -1 {
        return Ok((name, false, 0));
    }
    if hand.sequential3.len() > 0 {
        return Ok((name, false, 0));
    }
    let n3 = hand.same3.len();
    let mut i: usize = 0;
    while i < n3
        invariant
            i <= n3,
            n3 == hand.same3@.len(),
            forall|j: int| 0 <= j < i ==> is_honor_kind((#[trigger] hand.same3@[j])@),
        decreases n3 - i,
    {
        if !hand.same3[i].has_honor()? {
            return Ok((name, false, 0));
        }
        i += 1;
    }
    let n2 = hand.same2.len();
    let mut k: usize = 0;
    while k < n2
        invariant
            k <= n2,
            n2 == hand.same2@.len(),
            forall|j: int| 0 <= j < k ==> is_honor_kind((#[trigger] hand.same2@[j])@),
        decreases n2 - k,
    {
        if !hand.same2[k].has_honor()? {
            return Ok((name, false, 0));
        }
        k += 1;
    }
    Ok((name, true, 13))
}

/// All terminals (chinroutou).
pub fn check_all_terminals(hand: &HandAnalyzer, status: &Status, settings: &Settings) -> (r:
    Result<(&'static str, bool, u32), HandError>)
    ensures
        r matches Ok(t) && t.1 == all_terminals_met(*hand) && t.2 == (if t.1 {
            13u32
        } else {
            0u32
        }),
{
    let name = get_winning_hand_name(
        WinningHandKind::AllTerminals,
        status.has_claimed_open,
        settings.display_lang,
    );
    if hand.shanten != -1 {
        return Ok((name, false, 0));
    }
    if hand.sequential3.len() > 0 {
        return Ok((name, false, 0));
    }
    let n3 = hand.same3.len();
    let mut i: usize = 0;
    while i < n3
        invariant
            i <= n3,
            n3 == hand.same3@.len(),
            forall|j: int| 0 <= j < i ==> is_terminal_kind((#[trigger] hand.same3@[j])@),
        decreases n3 - i,
    {
        let same = hand.same3[i];
        if !(same.has_1_or_9()? && !same.has_honor()?) {
            return Ok((name, false, 0));
        }
        i += 1;
    }
    let n2 = hand.same2.len();
    let mut k: usize = 0;
    while k < n2
        invariant
            k <= n2,
            n2 == hand.same2@.len(),
            forall|j: int| 0 <= j < k ==> is_terminal_kind((#[trigger] hand.same2@[j])@),
        decreases n2 - k,
    {
        let pair = hand.same2[k];
        if !(pair.has_1_or_9()? && !pair.has_honor()?) {
            return Ok((name, false, 0));
        }
        k += 1;
    }
    Ok((name, true, 13))
}

/// All green (ryuuiisou).
pub fn check_all_green(hand: &HandAnalyzer, status: &Status, settings: &Settings) -> (r: Result<
    (&'static str, bool, u32),
    HandError,
>)
    ensures
        r matches Ok(t) && t.1 == all_green_met(*hand) && t.2 == (if t.1 {
            13u32
        } else {
            0u32
        }),
{
    let name = get_winning_hand_name(
        WinningHandKind::AllGreen,
        status.has_claimed_open,
        settings.display_lang,
    );
    if hand.shanten != -1 {
        return Ok((name, false, 0));
    }
    let n3 = hand.same3.len();
    let mut i: usize = 0;
    while i < n3
        invariant
            i <= n3,
            n3 == hand.same3@.len(),
            forall|j: int| 0 <= j < i ==> is_green_kind((#[trigger] hand.same3@[j])@),
        decreases n3 - i,
    {
        let k = hand.same3[i].get()[0];
        if !(k == 19 || k == 20 || k == 21 || k == 23 || k == 25 || k == 32) {
            return Ok((name, false, 0));
        }
        i += 1;
    }
    let nq = hand.sequential3.len();
    let mut j: usize = 0;
    while j < nq
        invariant
            j <= nq,
            nq == hand.sequential3@.len(),
            forall|q: int| 0 <= q < j ==> (is_green_kind((#[trigger] hand.sequential3@[q])@)
                && is_green_kind(hand.sequential3@[q]@ + 1) && is_green_kind(
                hand.sequential3@[q]@ + 2,
            )),
        decreases nq - j,
    {
        let tiles = hand.sequential3[j].get();
        let mut ok = true;
        let t0 = tiles[0];
        let t1 = tiles[1];
        let t2 = tiles[2];
        if !(t0 == 19 || t0 == 20 || t0 == 21 || t0 == 23 || t0 == 25 || t0 == 32) {
            ok = false;
        }
        if !(t1 == 19 || t1 == 20 || t1 == 21 || t1 == 23 || t1 == 25 || t1 == 32) {
            ok = false;
        }
        if !(t2 == 19 || t2 == 20 || t2 == 21 || t2 == 23 || t2 == 25 || t2 == 32) {
            ok = false;
        }
        if !ok {
            return Ok((name, false, 0));
        }
        j += 1;
    }
    let n2 = hand.same2.len();
    let mut k2: usize = 0;
    while k2 < n2
        invariant
            k2 <= n2,
            n2 == hand.same2@.len(),
            forall|q: int| 0 <= q < k2 ==> is_green_kind((#[trigger] hand.same2@[q])@),
        decreases n2 - k2,
    {
        let k = hand.same2[k2].get()[0];
        if !(k == 19 || k == 20 || k == 21 || k == 23 || k == 25 || k == 32) {
            return Ok((name, false, 0));
        }
        k2 += 1;
    }
    Ok((name, true, 13))
}

proof fn lemma_count3_range(s: Seq<Same3>, k: int)
    ensures
        0 <= count3_tiles(s, k) <= 3 * s.len(),
    decreases s.len(),
{
    if s.len() > 0 {
        lemma_count3_range(s.drop_last(), k);
    }
}

proof fn lemma_countq_range(s: Seq<Sequential3>, k: int)
    ensures
        0 <= countq_tiles(s, k) <= s.len(),
    decreases s.len(),
{
    if s.len() > 0 {
        lemma_countq_range(s.drop_last(), k);
    }
}

proof fn lemma_count2_range(s: Seq<Same2>, k: int)
    ensures
        0 <= count2_tiles(s, k) <= 2 * s.len(),
    decreases s.len(),
{
    if s.len() > 0 {
        lemma_count2_range(s.drop_last(), k);
    }
}

/// Nine gates (chuuren poutou).
pub fn check_nine_gates(hand: &HandAnalyzer, status: &Status, settings: &Settings) -> (r: Result<
    (&'static str, bool, u32),
    HandError,
>)
    ensures
        r matches Ok(t) && t.1 == nine_gates_met(*hand) && t.2 == (if t.1 {
            13u32
        } else {
            0u32
        }),
{
    let name = get_winning_hand_name(
        WinningHandKind::NineGates,
        status.has_claimed_open,
        settings.display_lang,
    );
    if hand.shanten != -1 {
        return Ok((name, false, 0));
    }
    if hand.same3.len() > 4 || hand.sequential3.len() > 4 || hand.same2.len() > 1 {
        return Ok((name, false, 0));
    }

    // The suit is settled by the first block; an empty decomposition holds
    // no tiles at all.
    let first_kind: u32;
    if hand.same3.len() > 0 {
        first_kind = hand.same3[0].get()[0];
    } else if hand.sequential3.len() > 0 {
        first_kind = hand.sequential3[0].get()[0];
    } else if hand.same2.len() > 0 {
        first_kind = hand.same2[0].get()[0];
    } else {
        return Ok((name, false, 0));
    }
    let ghost first_fact = (hand.same3@.len() > 0 && hand.same3@[0]@ == first_kind as int) || (
    hand.same3@.len() == 0 && hand.sequential3@.len() > 0 && hand.sequential3@[0]@
        == first_kind as int) || (hand.same3@.len() == 0 && hand.sequential3@.len() == 0
        && hand.same2@.len() > 0 && hand.same2@[0]@ == first_kind as int);
    proof {
        assert(first_fact);
    }
    if first_kind >= 27 {
        proof {
            assert(!blocks_in_suit(*hand, 0));
            assert(!blocks_in_suit(*hand, 9));
            assert(!blocks_in_suit(*hand, 18));
        }
        return Ok((name, false, 0));
    }
    let base: u32 = if first_kind < 9 {
        0
    } else if first_kind < 18 {
        9
    } else {
        18
    };
    proof {
        if base != 0 {
            assert(!blocks_in_suit(*hand, 0));
        }
        if base != 9 {
            assert(!blocks_in_suit(*hand, 9));
        }
        if base != 18 {
            assert(!blocks_in_suit(*hand, 18));
        }
    }

    // every block must lie inside that suit
    let n3 = hand.same3.len();
    let mut i: usize = 0;
    while i < n3
        invariant
            i <= n3,
            n3 == hand.same3@.len(),
            base == 0 || base == 9 || base == 18,
            (base != 0 ==> !blocks_in_suit(*hand, 0)),
            (base != 9 ==> !blocks_in_suit(*hand, 9)),
            (base != 18 ==> !blocks_in_suit(*hand, 18)),
            forall|j: int| 0 <= j < i ==> base as int <= (#[trigger] hand.same3@[j])@ < base + 9,
        decreases n3 - i,
    {
        let k = hand.same3[i].get()[0];
        if k < base || k >= base + 9 {
            proof {
                assert(!blocks_in_suit(*hand, base as int));
            }
            return Ok((name, false, 0));
        }
        i += 1;
    }
    let nq = hand.sequential3.len();
    let mut j: usize = 0;
    while j < nq
        invariant
            j <= nq,
            nq == hand.sequential3@.len(),
            base == 0 || base == 9 || base == 18,
            (base != 0 ==> !blocks_in_suit(*hand, 0)),
            (base != 9 ==> !blocks_in_suit(*hand, 9)),
            (base != 18 ==> !blocks_in_suit(*hand, 18)),
            forall|q: int| 0 <= q < j ==> (base as int <= (#[trigger] hand.sequential3@[q])@
                && hand.sequential3@[q]@ + 2 < base + 9),
        decreases nq - j,
    {
        let tiles = hand.sequential3[j].get();
        if tiles[0] < base || tiles[2] >= base + 9 {
            proof {
                assert(!blocks_in_suit(*hand, base as int));
            }
            return Ok((name, false, 0));
        }
        j += 1;
    }
    let n2 = hand.same2.len();
    let mut k2: usize = 0;
    while k2 < n2
        invariant
            k2 <= n2,
            n2 == hand.same2@.len(),
            base == 0 || base == 9 || base == 18,
            (base != 0 ==> !blocks_in_suit(*hand, 0)),
            (base != 9 ==> !blocks_in_suit(*hand, 9)),
            (base != 18 ==> !blocks_in_suit(*hand, 18)),
            forall|q: int| 0 <= q < k2 ==> base as int <= (#[trigger] hand.same2@[q])@ < base + 9,
        decreases n2 - k2,
    {
        let k = hand.same2[k2].get()[0];
        if k < base || k >= base + 9 {
            proof {
                assert(!blocks_in_suit(*hand, base as int));
            }
            return Ok((name, false, 0));
        }
        k2 += 1;
    }

    // tally the decomposition's tiles
    let mut counts: Vec<u32> = Vec::new();
    let mut z: usize = 0;
    while z < 34
        invariant
            z <= 34,
            counts@.len() == z,
            forall|k: int| 0 <= k < z ==> counts@[k] == 0,
        decreases 34 - z,
    {
        counts.push(0);
        z += 1;
    }

    let mut i3: usize = 0;
    while i3 < n3
        invariant
            i3 <= n3,
            n3 == hand.same3@.len() <= 4,
            counts@.len() == 34,
            forall|k: int| 0 <= k < 34 ==> counts@[k] as int == count3_tiles(
                hand.same3@.take(i3 as int),
                k,
            ),
        decreases n3 - i3,
    {
        let k = hand.same3[i3].get()[0];
        let ghost before = counts@;
        let c = counts[k as usize];
        proof {
            lemma_count3_range(hand.same3@.take(i3 as int), k as int);
        }
        counts.set(k as usize, c + 3);
        proof {
            assert(hand.same3@.take(i3 + 1).drop_last() =~= hand.same3@.take(i3 as int));
            assert forall|q: int| 0 <= q < 34 implies counts@[q] as int == count3_tiles(
                hand.same3@.take(i3 + 1),
                q,
            ) by {
                lemma_count3_range(hand.same3@.take(i3 as int), q);
            }
        }
        i3 += 1;
    }
    proof {
        assert(hand.same3@.take(n3 as int) =~= hand.same3@);
    }

    let mut jq: usize = 0;
    while jq < nq
        invariant
            jq <= nq,
            nq == hand.sequential3@.len() <= 4,
            n3 == hand.same3@.len() <= 4,
            counts@.len() == 34,
            forall|k: int| 0 <= k < 34 ==> counts@[k] as int == count3_tiles(hand.same3@, k)
                + countq_tiles(hand.sequential3@.take(jq as int), k),
        decreases nq - jq,
    {
        let tiles = hand.sequential3[jq].get();
        proof {
            lemma_count3_range(hand.same3@, tiles[0] as int);
            lemma_count3_range(hand.same3@, tiles[1] as int);
            lemma_count3_range(hand.same3@, tiles[2] as int);
            lemma_countq_range(hand.sequential3@.take(jq as int), tiles[0] as int);
            lemma_countq_range(hand.sequential3@.take(jq as int), tiles[1] as int);
            lemma_countq_range(hand.sequential3@.take(jq as int), tiles[2] as int);
        }
        let ghost b0 = counts@;
        let c0 = counts[tiles[0] as usize];
        counts.set(tiles[0] as usize, c0 + 1);
        let ghost b1 = counts@;
        let c1 = counts[tiles[1] as usize];
        counts.set(tiles[1] as usize, c1 + 1);
        let ghost b2 = counts@;
        let c2 = counts[tiles[2] as usize];
        counts.set(tiles[2] as usize, c2 + 1);
        proof {
            assert(hand.sequential3@.take(jq + 1).drop_last() =~= hand.sequential3@.take(
                jq as int,
            ));
            let low = hand.sequential3@[jq as int]@;
            assert forall|q: int| 0 <= q < 34 implies counts@[q] as int == count3_tiles(
                hand.same3@,
                q,
            ) + countq_tiles(hand.sequential3@.take(jq + 1), q) by {
                assert(countq_tiles(hand.sequential3@.take(jq + 1), q) == countq_tiles(
                    hand.sequential3@.take(jq as int),
                    q,
                ) + (if low <= q <= low + 2 {
                    1int
                } else {
                    0int
                }));
                if q == low {
                    assert(counts@[q] as int == b0[q] + 1);
                } else if q == low + 1 {
                    assert(counts@[q] as int == b1[q] + 1);
                } else if q == low + 2 {
                    assert(counts@[q] as int == b2[q] + 1);
                } else {
                    assert(counts@[q] == b0[q]);
                }
            }
        }
        jq += 1;
    }
    proof {
        assert(hand.sequential3@.take(nq as int) =~= hand.sequential3@);
    }

    let mut kk: usize = 0;
    while kk < n2
        invariant
            kk <= n2,
            n2 == hand.same2@.len() <= 1,
            n3 == hand.same3@.len() <= 4,
            nq == hand.sequential3@.len() <= 4,
            counts@.len() == 34,
            forall|k: int| 0 <= k < 34 ==> counts@[k] as int == count3_tiles(hand.same3@, k)
                + countq_tiles(hand.sequential3@, k) + count2_tiles(
                hand.same2@.take(kk as int),
                k,
            ),
        decreases n2 - kk,
    {
        let k = hand.same2[kk].get()[0];
        let ghost before = counts@;
        let c = counts[k as usize];
        proof {
            lemma_count3_range(hand.same3@, k as int);
            lemma_countq_range(hand.sequential3@, k as int);
            lemma_count2_range(hand.same2@.take(kk as int), k as int);
        }
        counts.set(k as usize, c + 2);
        proof {
            assert(hand.same2@.take(kk + 1).drop_last() =~= hand.same2@.take(kk as int));
            assert forall|q: int| 0 <= q < 34 implies counts@[q] as int == count3_tiles(
                hand.same3@,
                q,
            ) + countq_tiles(hand.sequential3@, q) + count2_tiles(hand.same2@.take(kk + 1), q) by {
                lemma_count2_range(hand.same2@.take(kk as int), q);
            }
        }
        kk += 1;
    }
    proof {
        assert(hand.same2@.take(n2 as int) =~= hand.same2@);
        assert(forall|k: int| 0 <= k < 34 ==> counts@[k] as int == decomp_count(*hand, k));
    }

    // the gates: three 1s, three 9s, and every rank between
    if counts[base as usize] < 3 {
        proof {
            assert(!(decomp_count(*hand, base as int) >= 3));
        }
        return Ok((name, false, 0));
    }
    if counts[(base + 8) as usize] < 3 {
        return Ok((name, false, 0));
    }
    let mut r9: usize = 1;
    while r9 < 8
        invariant
            1 <= r9 <= 8,
            base == 0 || base == 9 || base == 18,
            (base != 0 ==> !blocks_in_suit(*hand, 0)),
            (base != 9 ==> !blocks_in_suit(*hand, 9)),
            (base != 18 ==> !blocks_in_suit(*hand, 18)),
            counts@.len() == 34,
            forall|k: int| 0 <= k < 34 ==> counts@[k] as int == decomp_count(*hand, k),
            forall|q: int| 1 <= q < r9 ==> #[trigger] decomp_count(*hand, base + q) >= 1,
        decreases 8 - r9,
    {
        if counts[base as usize + r9] == 0 {
            proof {
                assert(decomp_count(*hand, base + r9) == 0);
            }
            return Ok((name, false, 0));
        }
        r9 += 1;
    }
    proof {
        assert(blocks_in_suit(*hand, base as int));
        assert(decomp_count(*hand, base as int) >= 3);
        assert(decomp_count(*hand, base + 8) >= 3);
        assert(nine_gates_met(*hand));
    }
    Ok((name, true, 13))
}

/// Four kans. Its rule is not coded yet.
pub fn check_four_kans(hand: &HandAnalyzer, status: &Status, settings: &Settings) -> (r: Result<
    (&'static str, bool, u32),
    HandError,
>)
    ensures
        !spec_has_won(*hand) ==> (r matches Ok(t) && t.1 == false && t.2 == 0),
        spec_has_won(*hand) ==> (r matches Err(e) && e == HandError::NotImplemented(
            WinningHandKind::FourKans,
        )),
{
    let name = get_winning_hand_name(
        WinningHandKind::FourKans,
        status.has_claimed_open,
        settings.display_lang,
    );
    if hand.shanten != -1 {
        return Ok((name, false, 0));
    }
    Err(HandError::NotImplemented(WinningHandKind::FourKans))
}

/// Heavenly hand. Its rule is not coded yet.
pub fn check_heavenly_hand(hand: &HandAnalyzer, status: &Status, settings: &Settings) -> (r:
    Result<(&'static str, bool, u32), HandError>)
    ensures
        !spec_has_won(*hand) ==> (r matches Ok(t) && t.1 == false && t.2 == 0),
        spec_has_won(*hand) ==> (r matches Err(e) && e == HandError::NotImplemented(
            WinningHandKind::HeavenlyHand,
        )),
{
    let name = get_winning_hand_name(
        WinningHandKind::HeavenlyHand,
        status.has_claimed_open,
        settings.display_lang,
    );
    if hand.shanten != -1 {
        return Ok((name, false, 0));
    }
    Err(HandError::NotImplemented(WinningHandKind::HeavenlyHand))
}

/// Hand of earth. Its rule is not coded yet.
pub fn check_hand_of_earth(hand: &HandAnalyzer, status: &Status, settings: &Settings) -> (r:
    Result<(&'static str, bool, u32), HandError>)
    ensures
        !spec_has_won(*hand) ==> (r matches Ok(t) && t.1 == false && t.2 == 0),
        spec_has_won(*hand) ==> (r matches Err(e) && e == HandError::NotImplemented(
            WinningHandKind::HandOfEarth,
        )),
{
    let name = get_winning_hand_name(
        WinningHandKind::HandOfEarth,
        status.has_claimed_open,
        settings.display_lang,
    );
    if hand.shanten != -1 {
        return Ok((name, false, 0));
    }
    Err(HandError::NotImplemented(WinningHandKind::HandOfEarth))
}

} // verus!
