use vstd::prelude::*;

use crate::winning_hand::name::WinningHandKind;

verus! {

/// An error reported by the hand evaluator.
#[derive(Debug, Clone, Copy, PartialEq, Eq, Structural)]
pub enum HandError {
    /// A block constructor was handed tiles that cannot form that block:
    /// kinds that differ in a pair or triplet, ranks out of order or out of
    /// suit in a run, or an honor in a run.
    InvalidBlockComposition,
    /// The rule for this pattern is not coded yet; the caller must not read
    /// this as "the rule did not apply".
    NotImplemented(WinningHandKind),
}

} // verus!
