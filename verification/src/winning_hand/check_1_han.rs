use vstd::prelude::*;

use crate::error::HandError;
use crate::hand_info::block::BlockProperty;
use crate::hand_info::hand_analyzer::{has_same3, spec_has_won, HandAnalyzer};
use crate::hand_info::status::Status;
use crate::settings::Settings;
use crate::tile::{is_terminal_kind, is_terminal_or_honor_kind, Dragon};
use crate::winning_hand::name::{get_winning_hand_name, WinningHandKind};

verus! {

/// Ready hand: a closed hand that declared ready.
pub open spec fn ready_hand_met(hand: HandAnalyzer, status: Status) -> bool {
    spec_has_won(hand) && !status.has_claimed_open && status.has_claimed_ready
}

/// Self pick: a closed hand whose winning tile was self-drawn.
pub open spec fn self_pick_met(hand: HandAnalyzer, status: Status) -> bool {
    spec_has_won(hand) && !status.has_claimed_open && status.is_self_picked
}

/// One shot: ready hand won inside the one-shot window.
pub open spec fn one_shot_met(hand: HandAnalyzer, status: Status) -> bool {
    ready_hand_met(hand, status) && status.is_one_shot
}

/// No block of the decomposition touches a terminal or an honor.
pub open spec fn all_simples_blocks(hand: HandAnalyzer) -> bool {
    &&& forall|i: int| 0 <= i < hand.same3@.len() ==> !is_terminal_or_honor_kind(
        (#[trigger] hand.same3@[i])@,
    )
    &&& forall|i: int| 0 <= i < hand.sequential3@.len() ==> !(is_terminal_kind(
        (#[trigger] hand.sequential3@[i])@,
    ) || is_terminal_kind(hand.sequential3@[i]@ + 2))
    &&& forall|i: int| 0 <= i < hand.same2@.len() ==> !is_terminal_or_honor_kind(
        (#[trigger] hand.same2@[i])@,
    )
}

/// All simples: no terminal or honor anywhere; an open hand qualifies only
/// where the table allows open all-simples.
pub open spec fn all_simples_met(hand: HandAnalyzer, status: Status, settings: Settings) -> bool {
    spec_has_won(hand) && !(!settings.openned_all_simples && status.has_claimed_open)
        && all_simples_blocks(hand)
}

/// Seat wind: a triplet of the player's own wind.
pub open spec fn players_wind_met(hand: HandAnalyzer, status: Status) -> bool {
    spec_has_won(hand) && has_same3(hand, status.player_wind.spec_tile())
}

/// Round wind: a triplet of the round's wind.
pub open spec fn prevailing_wind_met(hand: HandAnalyzer, status: Status) -> bool {
    spec_has_won(hand) && has_same3(hand, status.prevailing_wind.spec_tile())
}

/// A dragon triplet.
pub open spec fn dragon_met(hand: HandAnalyzer, dragon: Dragon) -> bool {
    spec_has_won(hand) && has_same3(hand, dragon.spec_tile())
}

/// One set of identical sequences: two runs of one low kind in a closed
/// hand.
pub open spec fn one_set_of_identical_sequences_met(hand: HandAnalyzer, status: Status) -> bool {
    &&& spec_has_won(hand)
    &&& !status.has_claimed_open
    &&& exists|i: int, j: int|
        #![trigger hand.sequential3@[i], hand.sequential3@[j]]
        0 <= i < j < hand.sequential3@.len() && hand.sequential3@[i]@ == hand.sequential3@[j]@
}

/// Last tile from the wall (haitei). Its rule is not coded yet: a complete
/// hand is answered with `NotImplemented`, never with a silent "not met".
pub fn check_last_tile_from_the_wall(
    hand: &HandAnalyzer,
    status: &Status,
    settings: &Settings,
) -> (r: Result<(&'static str, bool, u32), HandError>)
    ensures
        !spec_has_won(*hand) ==> (r matches Ok(t) && t.1 == false && t.2 == 0),
        spec_has_won(*hand) ==> (r matches Err(e) && e == HandError::NotImplemented(
            WinningHandKind::LastTileFromTheWall,
        )),
{
    let name = get_winning_hand_name(
        WinningHandKind::LastTileFromTheWall,
        status.has_claimed_open,
        settings.display_lang,
    );
    if hand.shanten != -1 {
        return Ok((name, false, 0));
    }
    Err(HandError::NotImplemented(WinningHandKind::LastTileFromTheWall))
}

/// Last discard (houtei). Its rule is not coded yet.
pub fn check_last_discard(hand: &HandAnalyzer, status: &Status, settings: &Settings) -> (r: Result<
    (&'static str, bool, u32),
    HandError,
>)
    ensures
        !spec_has_won(*hand) ==> (r matches Ok(t) && t.1 == false && t.2 == 0),
        spec_has_won(*hand) ==> (r matches Err(e) && e == HandError::NotImplemented(
            WinningHandKind::LastDiscard,
        )),
{
    let name = get_winning_hand_name(
        WinningHandKind::LastDiscard,
        status.has_claimed_open,
        settings.display_lang,
    );
    if hand.shanten != -1 {
        return Ok((name, false, 0));
    }
    Err(HandError::NotImplemented(WinningHandKind::LastDiscard))
}

/// Dead wall draw (rinshan). Its rule is not coded yet.
pub fn check_dead_wall_draw(hand: &HandAnalyzer, status: &Status, settings: &Settings) -> (r:
    Result<(&'static str, bool, u32), HandError>)
    ensures
        !spec_has_won(*hand) ==> (r matches Ok(t) && t.1 == false && t.2 == 0),
        spec_has_won(*hand) ==> (r matches Err(e) && e == HandError::NotImplemented(
            WinningHandKind::DeadWallDraw,
        )),
{
    let name = get_winning_hand_name(
        WinningHandKind::DeadWallDraw,
        status.has_claimed_open,
        settings.display_lang,
    );
    if hand.shanten != -1 {
        return Ok((name, false, 0));
    }
    Err(HandError::NotImplemented(WinningHandKind::DeadWallDraw))
}

/// Robbing a quad (chankan). Its rule is not coded yet.
pub fn check_robbing_a_quad(hand: &HandAnalyzer, status: &Status, settings: &Settings) -> (r:
    Result<(&'static str, bool, u32), HandError>)
    ensures
        !spec_has_won(*hand) ==> (r matches Ok(t) && t.1 == false && t.2 == 0),
        spec_has_won(*hand) ==> (r matches Err(e) && e == HandError::NotImplemented(
            WinningHandKind::RobbingAQuad,
        )),
{
    let name = get_winning_hand_name(
        WinningHandKind::RobbingAQuad,
        status.has_claimed_open,
        settings.display_lang,
    );
    if hand.shanten != -1 {
        return Ok((name, false, 0));
    }
    Err(HandError::NotImplemented(WinningHandKind::RobbingAQuad))
}

/// No points hand (pinfu). Its rule is not coded yet.
pub fn check_no_points_hand(hand: &HandAnalyzer, status: &Status, settings: &Settings) -> (r:
    Result<(&'static str, bool, u32), HandError>)
    ensures
        !spec_has_won(*hand) ==> (r matches Ok(t) && t.1 == false && t.2 == 0),
        spec_has_won(*hand) ==> (r matches Err(e) && e == HandError::NotImplemented(
            WinningHandKind::NoPointsHand,
        )),
{
    let name = get_winning_hand_name(
        WinningHandKind::NoPointsHand,
        status.has_claimed_open,
        settings.display_lang,
    );
    if hand.shanten != -1 {
        return Ok((name, false, 0));
    }
    Err(HandError::NotImplemented(WinningHandKind::NoPointsHand))
}

/// Ready hand (riichi).
pub fn check_ready_hand(hand: &HandAnalyzer, status: &Status, settings: &Settings) -> (r: Result<
    (&'static str, bool, u32),
    HandError,
>)
    ensures
        r matches Ok(t) && t.1 == ready_hand_met(*hand, *status) && t.2 == (if t.1 {
            1u32
        } else {
            0u32
        }),
{
    let name = get_winning_hand_name(
        WinningHandKind::ReadyHand,
        status.has_claimed_open,
        settings.display_lang,
    );
    if hand.shanten != -1 {
        return Ok((name, false, 0));
    }
    if status.has_claimed_open {
        return Ok((name, false, 0));
    }
    if status.has_claimed_ready {
        Ok((name, true, 1))
    } else {
        Ok((name, false, 0))
    }
}

/// Self pick (menzen tsumo).
pub fn check_self_pick(hand: &HandAnalyzer, status: &Status, settings: &Settings) -> (r: Result<
    (&'static str, bool, u32),
    HandError,
>)
    ensures
        r matches Ok(t) && t.1 == self_pick_met(*hand, *status) && t.2 == (if t.1 {
            1u32
        } else {
            0u32
        }),
{
    let name = get_winning_hand_name(
        WinningHandKind::SelfPick,
        status.has_claimed_open,
        settings.display_lang,
    );
    if hand.shanten != -1 {
        return Ok((name, false, 0));
    }
    if !status.has_claimed_open && status.is_self_picked {
        return Ok((name, true, 1));
    }
    Ok((name, false, 0))
}

/// One shot (ippatsu).
pub fn check_one_shot(hand: &HandAnalyzer, status: &Status, settings: &Settings) -> (r: Result<
    (&'static str, bool, u32),
    HandError,
>)
    ensures
        r matches Ok(t) && t.1 == one_shot_met(*hand, *status) && t.2 == (if t.1 {
            1u32
        } else {
            0u32
        }),
{
    let name = get_winning_hand_name(
        WinningHandKind::OneShot,
        status.has_claimed_open,
        settings.display_lang,
    );
    if hand.shanten != -1 {
        return Ok((name, false, 0));
    }
    let ready = check_ready_hand(hand, status, settings)?;
    if !ready.1 {
        return Ok((name, false, 0));
    }
    if status.is_one_shot {
        return Ok((name, true, 1));
    }
    Ok((name, false, 0))
}

/// All simples (tanyao).
pub fn check_all_simples(hand: &HandAnalyzer, status: &Status, settings: &Settings) -> (r: Result<
    (&'static str, bool, u32),
    HandError,
>)
    ensures
        r matches Ok(t) && t.1 == all_simples_met(*hand, *status, *settings) && t.2 == (if t.1 {
            1u32
        } else {
            0u32
        }),
{
    let name = get_winning_hand_name(
        WinningHandKind::AllSimples,
        status.has_claimed_open,
        settings.display_lang,
    );
    if hand.shanten != -1 {
        return Ok((name, false, 0));
    }
    // Without the open all-simples rule an open hand fails at once.
    if !settings.openned_all_simples && status.has_claimed_open {
        return Ok((name, false, 0));
    }
    let mut has_1_9_honor = false;

    let n3 = hand.same3.len();
    let mut i: usize = 0;
    while i < n3
        invariant
            i <= n3,
            n3 == hand.same3@.len(),
            has_1_9_honor ==> !all_simples_blocks(*hand),
            !has_1_9_honor ==> forall|j: int| 0 <= j < i ==> !is_terminal_or_honor_kind(
                (#[trigger] hand.same3@[j])@,
            ),
        decreases n3 - i,
    {
        let same = hand.same3[i];
        if same.has_1_or_9()? || same.has_honor()? {
            has_1_9_honor = true;
        }
        i += 1;
    }

    let nq = hand.sequential3.len();
    let mut j: usize = 0;
    while j < nq
        invariant
            j <= nq,
            nq == hand.sequential3@.len(),
            has_1_9_honor ==> !all_simples_blocks(*hand),
            !has_1_9_honor ==> forall|k: int| 0 <= k < hand.same3@.len()
                ==> !is_terminal_or_honor_kind((#[trigger] hand.same3@[k])@),
            !has_1_9_honor ==> forall|k: int| 0 <= k < j ==> !(is_terminal_kind(
                (#[trigger] hand.sequential3@[k])@,
            ) || is_terminal_kind(hand.sequential3@[k]@ + 2)),
        decreases nq - j,
    {
        let seq = hand.sequential3[j];
        if seq.has_1_or_9()? {
            has_1_9_honor = true;
        }
        j += 1;
    }

    let n2 = hand.same2.len();
    let mut k: usize = 0;
    while k < n2
        invariant
            k <= n2,
            n2 == hand.same2@.len(),
            has_1_9_honor ==> !all_simples_blocks(*hand),
            !has_1_9_honor ==> forall|q: int| 0 <= q < hand.same3@.len()
                ==> !is_terminal_or_honor_kind((#[trigger] hand.same3@[q])@),
            !has_1_9_honor ==> forall|q: int| 0 <= q < hand.sequential3@.len() ==> !(
            is_terminal_kind((#[trigger] hand.sequential3@[q])@) || is_terminal_kind(
                hand.sequential3@[q]@ + 2,
            )),
            !has_1_9_honor ==> forall|q: int| 0 <= q < k ==> !is_terminal_or_honor_kind(
                (#[trigger] hand.same2@[q])@,
            ),
        decreases n2 - k,
    {
        let head = hand.same2[k];
        if head.has_1_or_9()? || head.has_honor()? {
            has_1_9_honor = true;
        }
        k += 1;
    }

    if has_1_9_honor {
        return Ok((name, false, 0));
    }
    Ok((name, true, 1))
}

/// Seat wind triplet.
pub fn check_honor_tiles_players_wind(
    hand: &HandAnalyzer,
    status: &Status,
    settings: &Settings,
) -> (r: Result<(&'static str, bool, u32), HandError>)
    ensures
        r matches Ok(t) && t.1 == players_wind_met(*hand, *status) && t.2 == (if t.1 {
            1u32
        } else {
            0u32
        }),
{
    let name = get_winning_hand_name(
        WinningHandKind::HonorTilesPlayersWind,
        status.has_claimed_open,
        settings.display_lang,
    );
    if hand.shanten != -1 {
        return Ok((name, false, 0));
    }
    let mut has_player_wind = false;
    let n3 = hand.same3.len();
    let mut i: usize = 0;
    while i < n3
        invariant
            i <= n3,
            n3 == hand.same3@.len(),
            has_player_wind ==> has_same3(*hand, status.player_wind.spec_tile()),
            !has_player_wind ==> forall|j: int| 0 <= j < i ==> (#[trigger] hand.same3@[j])@
                != status.player_wind.spec_tile(),
        decreases n3 - i,
    {
        let same = hand.same3[i];
        if same.has_wind(status.player_wind)? {
            has_player_wind = true;
        }
        i += 1;
    }
    if has_player_wind {
        Ok((name, true, 1))
    } else {
        Ok((name, false, 0))
    }
}

/// Round wind triplet.
pub fn check_honor_tiles_prevailing_wind(
    hand: &HandAnalyzer,
    status: &Status,
    settings: &Settings,
) -> (r: Result<(&'static str, bool, u32), HandError>)
    ensures
        r matches Ok(t) && t.1 == prevailing_wind_met(*hand, *status) && t.2 == (if t.1 {
            1u32
        } else {
            0u32
        }),
{
    let name = get_winning_hand_name(
        WinningHandKind::HonorTilesPrevailingWind,
        status.has_claimed_open,
        settings.display_lang,
    );
    if hand.shanten != -1 {
        return Ok((name, false, 0));
    }
    let mut has_prevailing_wind = false;
    let n3 = hand.same3.len();
    let mut i: usize = 0;
    while i < n3
        invariant
            i <= n3,
            n3 == hand.same3@.len(),
            has_prevailing_wind ==> has_same3(*hand, status.prevailing_wind.spec_tile()),
            !has_prevailing_wind ==> forall|j: int| 0 <= j < i ==> (#[trigger] hand.same3@[j])@
                != status.prevailing_wind.spec_tile(),
        decreases n3 - i,
    {
        let same = hand.same3[i];
        if same.has_wind(status.prevailing_wind)? {
            has_prevailing_wind = true;
        }
        i += 1;
    }
    if has_prevailing_wind {
        Ok((name, true, 1))
    } else {
        Ok((name, false, 0))
    }
}

/// Whether the decomposition holds a triplet of the given dragon.
fn check_honor_tiles_dragons(hand: &HandAnalyzer, dragon: Dragon) -> (r: Result<bool, HandError>)
    ensures
        r matches Ok(b) && b == dragon_met(*hand, dragon),
{
    if hand.shanten != -1 {
        return Ok(false);
    }
    let mut has_dragon = false;
    let n3 = hand.same3.len();
    let mut i: usize = 0;
    while i < n3
        invariant
            i <= n3,
            n3 == hand.same3@.len(),
            has_dragon ==> has_same3(*hand, dragon.spec_tile()),
            !has_dragon ==> forall|j: int| 0 <= j < i ==> (#[trigger] hand.same3@[j])@
                != dragon.spec_tile(),
        decreases n3 - i,
    {
        let same = hand.same3[i];
        if same.has_dragon(dragon)? {
            has_dragon = true;
        }
        i += 1;
    }
    Ok(has_dragon)
}

/// White dragon triplet.
pub fn check_honor_tiles_white_dragon(
    hand: &HandAnalyzer,
    status: &Status,
    settings: &Settings,
) -> (r: Result<(&'static str, bool, u32), HandError>)
    ensures
        r matches Ok(t) && t.1 == dragon_met(*hand, Dragon::White) && t.2 == (if t.1 {
            1u32
        } else {
            0u32
        }),
{
    let name = get_winning_hand_name(
        WinningHandKind::HonorTilesWhiteDragon,
        status.has_claimed_open,
        settings.display_lang,
    );
    if check_honor_tiles_dragons(hand, Dragon::White)? {
        Ok((name, true, 1))
    } else {
        Ok((name, false, 0))
    }
}

/// Green dragon triplet.
pub fn check_honor_tiles_green_dragon(
    hand: &HandAnalyzer,
    status: &Status,
    settings: &Settings,
) -> (r: Result<(&'static str, bool, u32), HandError>)
    ensures
        r matches Ok(t) && t.1 == dragon_met(*hand, Dragon::Green) && t.2 == (if t.1 {
            1u32
        } else {
            0u32
        }),
{
    let name = get_winning_hand_name(
        WinningHandKind::HonorTilesGreenDragon,
        status.has_claimed_open,
        settings.display_lang,
    );
    if check_honor_tiles_dragons(hand, Dragon::Green)? {
        Ok((name, true, 1))
    } else {
        Ok((name, false, 0))
    }
}

/// Red dragon triplet.
pub fn check_honor_tiles_red_dragon(
    hand: &HandAnalyzer,
    status: &Status,
    settings: &Settings,
) -> (r: Result<(&'static str, bool, u32), HandError>)
    ensures
        r matches Ok(t) && t.1 == dragon_met(*hand, Dragon::Red) && t.2 == (if t.1 {
            1u32
        } else {
            0u32
        }),
{
    let name = get_winning_hand_name(
        WinningHandKind::HonorTilesRedDragon,
        status.has_claimed_open,
        settings.display_lang,
    );
    if check_honor_tiles_dragons(hand, Dragon::Red)? {
        Ok((name, true, 1))
    } else {
        Ok((name, false, 0))
    }
}

/// One set of identical sequences (iipeikou).
pub fn check_one_set_of_identical_sequences(
    hand: &HandAnalyzer,
    status: &Status,
    settings: &Settings,
) -> (r: Result<(&'static str, bool, u32), HandError>)
    ensures
        r matches Ok(t) && t.1 == one_set_of_identical_sequences_met(*hand, *status) && t.2 == (
        if t.1 {
            1u32
        } else {
            0u32
        }),
{
    let name = get_winning_hand_name(
        WinningHandKind::OneSetOfIdenticalSequences,
        status.has_claimed_open,
        settings.display_lang,
    );
    if hand.shanten != -1 {
        return Ok((name, false, 0));
    }
    // Open hands never score it.
    if status.has_claimed_open {
        return Ok((name, false, 0));
    }
    let n = hand.sequential3.len();
    if n < 2 {
        return Ok((name, false, 0));
    }
    let mut i: usize = 0;
    while i < n - 1
        invariant
            i <= n - 1,
            n == hand.sequential3@.len(),
            n >= 2,
            hand.shanten == -1,
            !status.has_claimed_open,
            forall|a: int, b: int|
                #![trigger hand.sequential3@[a], hand.sequential3@[b]]
                0 <= a < b < n && a < i ==> hand.sequential3@[a]@ != hand.sequential3@[b]@,
        decreases n - i,
    {
        let v = hand.sequential3[i].get();
        let mut j: usize = i + 1;
        while j < n
            invariant
                i < j <= n,
                i < n,
                n == hand.sequential3@.len(),
                hand.shanten == -1,
                !status.has_claimed_open,
                v[0] as int == hand.sequential3@[i as int]@,
                forall|b: int| i < b < j ==> (#[trigger] hand.sequential3@[b])@
                    != hand.sequential3@[i as int]@,
            decreases n - j,
        {
            let v2 = hand.sequential3[j].get();
            if v[0] == v2[0] {
                proof {
                    assert(hand.sequential3@[i as int]@ == hand.sequential3@[j as int]@);
                }
                return Ok((name, true, 1));
            }
            j += 1;
        }
        i += 1;
    }
    Ok((name, false, 0))
}

} // verus!
