use vstd::prelude::*;

use crate::error::HandError;
use crate::hand_info::block::BlockProperty;
use crate::hand_info::hand_analyzer::{spec_has_won, HandAnalyzer};
use crate::hand_info::status::Status;
use crate::settings::Settings;
use crate::tile::{is_bamboo_kind, is_character_kind, is_circle_kind, is_terminal_kind};
use crate::winning_hand::name::{get_winning_hand_name, WinningHandKind};

verus! {

/// Two runs at positions `i < j` have the same low kind.
pub open spec fn seq3_eq_pair(hand: HandAnalyzer, i: int, j: int) -> bool {
    0 <= i < j < hand.sequential3@.len() && hand.sequential3@[i]@ == hand.sequential3@[j]@
}

/// Two sets of identical sequences: two pairs of equal runs on four
/// distinct positions, in a closed hand.
pub open spec fn two_sets_of_identical_sequences_met(hand: HandAnalyzer, status: Status) -> bool {
    &&& spec_has_won(hand)
    &&& !status.has_claimed_open
    &&& exists|i: int, j: int, k: int, l: int|
        #![trigger seq3_eq_pair(hand, i, j), seq3_eq_pair(hand, k, l)]
        seq3_eq_pair(hand, i, j) && seq3_eq_pair(hand, k, l) && i != k && i != l && j != k && j
            != l
}

/// Every block of the decomposition touches a terminal; honors fail this,
/// as no honor is a terminal.
pub open spec fn junchan_blocks(hand: HandAnalyzer) -> bool {
    &&& forall|i: int| 0 <= i < hand.same3@.len() ==> is_terminal_kind((#[trigger] hand.same3@[i])@)
    &&& forall|i: int| 0 <= i < hand.sequential3@.len() ==> (is_terminal_kind(
        (#[trigger] hand.sequential3@[i])@,
    ) || is_terminal_kind(hand.sequential3@[i]@ + 2))
    &&& forall|i: int| 0 <= i < hand.same2@.len() ==> is_terminal_kind((#[trigger] hand.same2@[i])@)
}

/// Terminal in each set (junchan): every block touches a terminal, and at
/// least one run is present (else it is the all terminals pattern).
pub open spec fn terminal_in_each_set_met(hand: HandAnalyzer) -> bool {
    spec_has_won(hand) && hand.sequential3@.len() > 0 && junchan_blocks(hand)
}

/// A block of the man suit is present.
pub open spec fn blocks_have_character(hand: HandAnalyzer) -> bool {
    (exists|i: int| 0 <= i < hand.same3@.len() && is_character_kind((#[trigger] hand.same3@[i])@))
        || (exists|i: int|
        0 <= i < hand.sequential3@.len() && is_character_kind((#[trigger] hand.sequential3@[i])@))
        || (exists|i: int|
        0 <= i < hand.same2@.len() && is_character_kind((#[trigger] hand.same2@[i])@))
}

/// A block of the pin suit is present.
pub open spec fn blocks_have_circle(hand: HandAnalyzer) -> bool {
    (exists|i: int| 0 <= i < hand.same3@.len() && is_circle_kind((#[trigger] hand.same3@[i])@)) || (
    exists|i: int|
        0 <= i < hand.sequential3@.len() && is_circle_kind((#[trigger] hand.sequential3@[i])@)) || (
    exists|i: int| 0 <= i < hand.same2@.len() && is_circle_kind((#[trigger] hand.same2@[i])@))
}

/// A block of the sou suit is present.
pub open spec fn blocks_have_bamboo(hand: HandAnalyzer) -> bool {
    (exists|i: int| 0 <= i < hand.same3@.len() && is_bamboo_kind((#[trigger] hand.same3@[i])@)) || (
    exists|i: int|
        0 <= i < hand.sequential3@.len() && is_bamboo_kind((#[trigger] hand.sequential3@[i])@)) || (
    exists|i: int| 0 <= i < hand.same2@.len() && is_bamboo_kind((#[trigger] hand.same2@[i])@))
}

/// Exactly one of the three suits appears among the blocks.
pub open spec fn exactly_one_suit(hand: HandAnalyzer) -> bool {
    (blocks_have_character(hand) && !blocks_have_circle(hand) && !blocks_have_bamboo(hand)) || (
    !blocks_have_character(hand) && blocks_have_circle(hand) && !blocks_have_bamboo(hand)) || (
    !blocks_have_character(hand) && !blocks_have_circle(hand) && blocks_have_bamboo(hand))
}

/// Half flush: one suit only, honors allowed.
pub open spec fn half_flush_met(hand: HandAnalyzer) -> bool {
    spec_has_won(hand) && exactly_one_suit(hand)
}

/// Chanta and junchan never both hold of one decomposition: chanta needs
/// an honor in a triplet or the head, and junchan makes every such block a
/// terminal, which no honor is.
pub proof fn lemma_chanta_junchan_exclusive(hand: HandAnalyzer)
    ensures
        !(crate::winning_hand::check_2_han::terminal_or_honor_in_each_set_met(hand)
            && terminal_in_each_set_met(hand)),
{
    if crate::winning_hand::check_2_han::terminal_or_honor_in_each_set_met(hand)
        && terminal_in_each_set_met(hand) {
        if exists|i: int|
            0 <= i < hand.same3@.len() && crate::tile::is_honor_kind(
                (#[trigger] hand.same3@[i])@,
            ) {
            let i = choose|i: int|
                0 <= i < hand.same3@.len() && crate::tile::is_honor_kind(
                    (#[trigger] hand.same3@[i])@,
                );
            assert(is_terminal_kind(hand.same3@[i]@));
            assert(false);
        } else {
            let i = choose|i: int|
                0 <= i < hand.same2@.len() && crate::tile::is_honor_kind(
                    (#[trigger] hand.same2@[i])@,
                );
            assert(is_terminal_kind(hand.same2@[i]@));
            assert(false);
        }
    }
}

/// Junchan and the all terminals pattern never both hold of one
/// decomposition: the first demands a run, the second forbids one.
pub proof fn lemma_junchan_all_terminals_exclusive(hand: HandAnalyzer)
    ensures
        !(terminal_in_each_set_met(hand)
            && crate::winning_hand::check_yakuman::all_terminals_met(hand)),
{
}

/// Looks for a pair of equal runs on positions other than `a` and `b`.
fn find_second_pair(hand: &HandAnalyzer, a: usize, b: usize) -> (r: bool)
    ensures
        r == exists|k: int, l: int|
            #![trigger seq3_eq_pair(*hand, k, l)]
            seq3_eq_pair(*hand, k, l) && k != a && k != b && l != a && l != b,
{
    let n = hand.sequential3.len();
    let mut k: usize = 0;
    while k < n
        invariant
            k <= n,
            n == hand.sequential3@.len(),
            forall|k1: int, l1: int|
                0 <= k1 < k && #[trigger] seq3_eq_pair(*hand, k1, l1) ==> !(k1 != a && k1 != b
                    && l1 != a && l1 != b),
        decreases n - k,
    {
        if k != a && k != b {
            let vk = hand.sequential3[k].get();
            let mut l: usize = k + 1;
            while l < n
                invariant
                    k < l <= n,
                    k < n,
                    n == hand.sequential3@.len(),
                    k != a && k != b,
                    vk[0] as int == hand.sequential3@[k as int]@,
                    forall|l1: int|
                        k < l1 < l && #[trigger] seq3_eq_pair(*hand, k as int, l1) ==> !(l1 != a
                            && l1 != b),
                decreases n - l,
            {
                if l != a && l != b {
                    let vl = hand.sequential3[l].get();
                    if vk[0] == vl[0] {
                        proof {
                            assert(seq3_eq_pair(*hand, k as int, l as int));
                        }
                        return true;
                    }
                }
                l += 1;
            }
        }
        k += 1;
    }
    false
}

/// Two sets of identical sequences (ryanpeikou).
pub fn check_two_sets_of_identical_sequences(
    hand: &HandAnalyzer,
    status: &Status,
    settings: &Settings,
) -> (r: Result<(&'static str, bool, u32), HandError>)
    ensures
        r matches Ok(t) && t.1 == two_sets_of_identical_sequences_met(*hand, *status) && t.2 == (
        if t.1 {
            3u32
        } else {
            0u32
        }),
{
    let name = get_winning_hand_name(
        WinningHandKind::TwoSetsOfIdenticalSequences,
        status.has_claimed_open,
        settings.display_lang,
    );
    if hand.shanten != -1 {
        return Ok((name, false, 0));
    }
    if status.has_claimed_open {
        return Ok((name, false, 0));
    }
    let n = hand.sequential3.len();
    if n < 4 {
        return Ok((name, false, 0));
    }
    let mut i: usize = 0;
    while i < n
        invariant
            i <= n,
            n == hand.sequential3@.len(),
            hand.shanten == -1,
            !status.has_claimed_open,
            forall|i1: int, j1: int|
                0 <= i1 < i && #[trigger] seq3_eq_pair(*hand, i1, j1) ==> !(exists|k: int, l: int|
                    #![trigger seq3_eq_pair(*hand, k, l)]
                    seq3_eq_pair(*hand, k, l) && k != i1 && k != j1 && l != i1 && l != j1),
        decreases n - i,
    {
        let vi = hand.sequential3[i].get();
        let mut j: usize = i + 1;
        while j < n
            invariant
                i < j <= n,
                i < n,
                n == hand.sequential3@.len(),
                hand.shanten == -1,
                !status.has_claimed_open,
                vi[0] as int == hand.sequential3@[i as int]@,
                forall|j1: int|
                    i < j1 < j && #[trigger] seq3_eq_pair(*hand, i as int, j1) ==> !(exists|
                        k: int,
                        l: int,
                    |
                        #![trigger seq3_eq_pair(*hand, k, l)]
                        seq3_eq_pair(*hand, k, l) && k != i as int && k != j1 && l != i as int && l
                            != j1),
            decreases n - j,
        {
            let vj = hand.sequential3[j].get();
            if vi[0] == vj[0] {
                proof {
                    assert(seq3_eq_pair(*hand, i as int, j as int));
                }
                if find_second_pair(hand, i, j) {
                    return Ok((name, true, 3));
                }
            }
            j += 1;
        }
        i += 1;
    }
    Ok((name, false, 0))
}

/// Terminal in each set (junchan).
pub fn check_terminal_in_each_set(hand: &HandAnalyzer, status: &Status, settings: &Settings) -> (r:
    Result<(&'static str, bool, u32), HandError>)
    ensures
        r matches Ok(t) && t.1 == terminal_in_each_set_met(*hand) && t.2 == (if t.1 {
            if status.has_claimed_open {
                2u32
            } else {
                3u32
            }
        } else {
            0u32
        }),
{
    let name = get_winning_hand_name(
        WinningHandKind::TerminalInEachSet,
        status.has_claimed_open,
        settings.display_lang,
    );
    if hand.shanten != -1 {
        return Ok((name, false, 0));
    }
    // Never together with all terminals: a run must be present.
    if hand.sequential3.len() == 0 {
        return Ok((name, false, 0));
    }
    let mut no_1_9 = false;

    let n3 = hand.same3.len();
    let mut i: usize = 0;
    while i < n3
        invariant
            i <= n3,
            n3 == hand.same3@.len(),
            no_1_9 ==> !junchan_blocks(*hand),
            !no_1_9 ==> forall|j: int| 0 <= j < i ==> is_terminal_kind((#[trigger] hand.same3@[j])@),
        decreases n3 - i,
    {
        let same = hand.same3[i];
        if !same.has_1_or_9()? {
            no_1_9 = true;
        }
        i += 1;
    }

    let nq = hand.sequential3.len();
    let mut j: usize = 0;
    while j < nq
        invariant
            j <= nq,
            nq == hand.sequential3@.len(),
            no_1_9 ==> !junchan_blocks(*hand),
            !no_1_9 ==> forall|k: int| 0 <= k < hand.same3@.len() ==> is_terminal_kind(
                (#[trigger] hand.same3@[k])@,
            ),
            !no_1_9 ==> forall|k: int| 0 <= k < j ==> (is_terminal_kind(
                (#[trigger] hand.sequential3@[k])@,
            ) || is_terminal_kind(hand.sequential3@[k]@ + 2)),
        decreases nq - j,
    {
        let seq = hand.sequential3[j];
        if !seq.has_1_or_9()? {
            no_1_9 = true;
        }
        j += 1;
    }

    let n2 = hand.same2.len();
    let mut k: usize = 0;
    while k < n2
        invariant
            k <= n2,
            n2 == hand.same2@.len(),
            no_1_9 ==> !junchan_blocks(*hand),
            !no_1_9 ==> forall|q: int| 0 <= q < hand.same3@.len() ==> is_terminal_kind(
                (#[trigger] hand.same3@[q])@,
            ),
            !no_1_9 ==> forall|q: int| 0 <= q < hand.sequential3@.len() ==> (is_terminal_kind(
                (#[trigger] hand.sequential3@[q])@,
            ) || is_terminal_kind(hand.sequential3@[q]@ + 2)),
            !no_1_9 ==> forall|q: int| 0 <= q < k ==> is_terminal_kind(
                (#[trigger] hand.same2@[q])@,
            ),
        decreases n2 - k,
    {
        let head = hand.same2[k];
        if !head.has_1_or_9()? {
            no_1_9 = true;
        }
        k += 1;
    }

    if no_1_9 {
        return Ok((name, false, 0));
    }
    if status.has_claimed_open {
        Ok((name, true, 2))
    } else {
        Ok((name, true, 3))
    }
}

/// Half flush (honitsu).
pub fn check_half_flush(hand: &HandAnalyzer, status: &Status, settings: &Settings) -> (r: Result<
    (&'static str, bool, u32),
    HandError,
>)
    ensures
        r matches Ok(t) && t.1 == half_flush_met(*hand) && t.2 == (if t.1 {
            if status.has_claimed_open {
                2u32
            } else {
                3u32
            }
        } else {
            0u32
        }),
{
    let name = get_winning_hand_name(
        WinningHandKind::HalfFlush,
        status.has_claimed_open,
        settings.display_lang,
    );
    if hand.shanten != -1 {
        return Ok((name, false, 0));
    }
    let (has_char, has_circle, has_bamboo) = suit_flags(hand)?;
    let suits: u32 = (if has_char {
        1
    } else {
        0
    }) + (if has_circle {
        1
    } else {
        0
    }) + (if has_bamboo {
        1
    } else {
        0
    });
    if suits == 1 {
        if status.has_claimed_open {
            Ok((name, true, 2))
        } else {
            Ok((name, true, 3))
        }
    } else {
        Ok((name, false, 0))
    }
}

/// Computes which suits appear among the blocks of the decomposition.
pub(crate) fn suit_flags(hand: &HandAnalyzer) -> (r: Result<(bool, bool, bool), HandError>)
    ensures
        r matches Ok(f) && f.0 == blocks_have_character(*hand) && f.1 == blocks_have_circle(*hand)
            && f.2 == blocks_have_bamboo(*hand),
{
    let mut has_char = false;
    let mut has_circle = false;
    let mut has_bamboo = false;

    let n3 = hand.same3.len();
    let mut i: usize = 0;
    while i < n3
        invariant
            i <= n3,
            n3 == hand.same3@.len(),
            has_char ==> blocks_have_character(*hand),
            !has_char ==> forall|j: int| 0 <= j < i ==> !is_character_kind(
                (#[trigger] hand.same3@[j])@,
            ),
            has_circle ==> blocks_have_circle(*hand),
            !has_circle ==> forall|j: int| 0 <= j < i ==> !is_circle_kind(
                (#[trigger] hand.same3@[j])@,
            ),
            has_bamboo ==> blocks_have_bamboo(*hand),
            !has_bamboo ==> forall|j: int| 0 <= j < i ==> !is_bamboo_kind(
                (#[trigger] hand.same3@[j])@,
            ),
        decreases n3 - i,
    {
        let same = hand.same3[i];
        if same.is_character()? {
            has_char = true;
        }
        if same.is_circle()? {
            has_circle = true;
        }
        if same.is_bamboo()? {
            has_bamboo = true;
        }
        i += 1;
    }

    let nq = hand.sequential3.len();
    let mut j: usize = 0;
    while j < nq
        invariant
            j <= nq,
            nq == hand.sequential3@.len(),
            has_char ==> blocks_have_character(*hand),
            !has_char ==> forall|k: int| 0 <= k < hand.same3@.len() ==> !is_character_kind(
                (#[trigger] hand.same3@[k])@,
            ),
            !has_char ==> forall|k: int| 0 <= k < j ==> !is_character_kind(
                (#[trigger] hand.sequential3@[k])@,
            ),
            has_circle ==> blocks_have_circle(*hand),
            !has_circle ==> forall|k: int| 0 <= k < hand.same3@.len() ==> !is_circle_kind(
                (#[trigger] hand.same3@[k])@,
            ),
            !has_circle ==> forall|k: int| 0 <= k < j ==> !is_circle_kind(
                (#[trigger] hand.sequential3@[k])@,
            ),
            has_bamboo ==> blocks_have_bamboo(*hand),
            !has_bamboo ==> forall|k: int| 0 <= k < hand.same3@.len() ==> !is_bamboo_kind(
                (#[trigger] hand.same3@[k])@,
            ),
            !has_bamboo ==> forall|k: int| 0 <= k < j ==> !is_bamboo_kind(
                (#[trigger] hand.sequential3@[k])@,
            ),
        decreases nq - j,
    {
        let seq = hand.sequential3[j];
        if seq.is_character()? {
            has_char = true;
        }
        if seq.is_circle()? {
            has_circle = true;
        }
        if seq.is_bamboo()? {
            has_bamboo = true;
        }
        j += 1;
    }

    let n2 = hand.same2.len();
    let mut k: usize = 0;
    while k < n2
        invariant
            k <= n2,
            n2 == hand.same2@.len(),
            has_char ==> blocks_have_character(*hand),
            !has_char ==> forall|q: int| 0 <= q < hand.same3@.len() ==> !is_character_kind(
                (#[trigger] hand.same3@[q])@,
            ),
            !has_char ==> forall|q: int| 0 <= q < hand.sequential3@.len() ==> !is_character_kind(
                (#[trigger] hand.sequential3@[q])@,
            ),
            !has_char ==> forall|q: int| 0 <= q < k ==> !is_character_kind(
                (#[trigger] hand.same2@[q])@,
            ),
            has_circle ==> blocks_have_circle(*hand),
            !has_circle ==> forall|q: int| 0 <= q < hand.same3@.len() ==> !is_circle_kind(
                (#[trigger] hand.same3@[q])@,
            ),
            !has_circle ==> forall|q: int| 0 <= q < hand.sequential3@.len() ==> !is_circle_kind(
                (#[trigger] hand.sequential3@[q])@,
            ),
            !has_circle ==> forall|q: int| 0 <= q < k ==> !is_circle_kind(
                (#[trigger] hand.same2@[q])@,
            ),
            has_bamboo ==> blocks_have_bamboo(*hand),
            !has_bamboo ==> forall|q: int| 0 <= q < hand.same3@.len() ==> !is_bamboo_kind(
                (#[trigger] hand.same3@[q])@,
            ),
            !has_bamboo ==> forall|q: int| 0 <= q < hand.sequential3@.len() ==> !is_bamboo_kind(
                (#[trigger] hand.sequential3@[q])@,
            ),
            !has_bamboo ==> forall|q: int| 0 <= q < k ==> !is_bamboo_kind(
                (#[trigger] hand.same2@[q])@,
            ),
        decreases n2 - k,
    {
        let pair = hand.same2[k];
        if pair.is_character()? {
            has_char = true;
        }
        if pair.is_circle()? {
            has_circle = true;
        }
        if pair.is_bamboo()? {
            has_bamboo = true;
        }
        k += 1;
    }

    Ok((has_char, has_circle, has_bamboo))
}

} // verus!
