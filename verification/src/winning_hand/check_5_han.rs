use vstd::prelude::*;

use crate::error::HandError;
use crate::hand_info::hand_analyzer::{spec_has_won, HandAnalyzer};
use crate::hand_info::status::Status;
use crate::settings::Settings;
use crate::winning_hand::name::{get_winning_hand_name, WinningHandKind};

verus! {

/// Nagashi mangan. Its rule is not coded yet: a complete hand is answered
/// with `NotImplemented`, never with a silent "not met".
pub fn check_nagashi_mangan(hand: &HandAnalyzer, status: &Status, settings: &Settings) -> (r:
    Result<(&'static str, bool, u32), HandError>)
    ensures
        !spec_has_won(*hand) ==> (r matches Ok(t) && t.1 == false && t.2 == 0),
        spec_has_won(*hand) ==> (r matches Err(e) && e == HandError::NotImplemented(
            WinningHandKind::NagashiMangan,
        )),
{
    let name = get_winning_hand_name(
        WinningHandKind::NagashiMangan,
        status.has_claimed_open,
        settings.display_lang,
    );
    if hand.shanten != -1 {
        return Ok((name, false, 0));
    }
    Err(HandError::NotImplemented(WinningHandKind::NagashiMangan))
}

} // verus!
