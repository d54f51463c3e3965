use vstd::prelude::*;

use crate::tile::{TileSummarize, TileType, Wind};

verus! {

/// The table-side state of a hand: what was claimed and where the player
/// sits. The evaluator reads it, never writes it.
#[derive(Debug, Clone, Copy)]
pub struct Status {
    /// Whether ready (riichi) was declared.
    pub has_claimed_ready: bool,
    /// Whether any meld was claimed: the hand is open.
    pub has_claimed_open: bool,
    /// Whether the winning tile was self-drawn.
    pub is_self_picked: bool,
    /// Whether the one-shot window after declaring ready is still open.
    pub is_one_shot: bool,
    /// The player's seat wind.
    pub player_wind: Wind,
    /// The round wind.
    pub prevailing_wind: Wind,
}

impl Status {
    /// A closed, unclaimed hand of an east-seat player in an east round.
    pub fn new() -> (s: Status)
        ensures
            !s.has_claimed_ready,
            !s.has_claimed_open,
            !s.is_self_picked,
            !s.is_one_shot,
            s.player_wind == Wind::East,
            s.prevailing_wind == Wind::East,
    {
        Status {
            has_claimed_ready: false,
            has_claimed_open: false,
            is_self_picked: false,
            is_one_shot: false,
            player_wind: Wind::East,
            prevailing_wind: Wind::East,
        }
    }
}

/// Whether waiting on this tile completes a run open at both ends: the two
/// ranks below or the two ranks above are held, and the completed run is not
/// the edge run 123 or 789 seen from the waiting side.
pub open spec fn spec_two_sided_wait(t: int, c: Seq<u32>) -> bool {
    if !(0 <= t < 27) {
        false
    } else {
        let offset = t % 9 + 1;
        ((offset >= 3 && c[t - 1] > 0 && c[t - 2] > 0 && offset != 3 && offset != 9) || (offset
            <= 7 && c[t + 1] > 0 && c[t + 2] > 0 && offset != 1 && offset != 7))
    }
}

/// Decides whether the wait on `tile` is two-sided, given the counts of the
/// rest of the hand.
pub fn is_two_sided_wait(tile: TileType, counts: &TileSummarize) -> (r: bool)
    requires
        counts@.len() == 34,
    ensures
        r == spec_two_sided_wait(tile as int, counts@),
{
    // An honor can never sit in a run.
    if tile >= 27 {
        return false;
    }
    let offset = tile % 9 + 1;

    // held below: [tile-2][tile-1] + tile, not completing 123 or 789
    if offset >= 3 && counts[(tile - 1) as usize] > 0 && counts[(tile - 2) as usize] > 0 && offset
        != 3 && offset != 9 {
        return true;
    }

    // held above: tile + [tile+1][tile+2], not completing 123 or 789
    if offset <= 7 && counts[(tile + 1) as usize] > 0 && counts[(tile + 2) as usize] > 0 && offset
        != 1 && offset != 7 {
        return true;
    }

    false
}

} // verus!
