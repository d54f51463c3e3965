/// Validated block value types: pairs, triplets, runs and proto-runs.
pub mod block;
/// The shanten engine: block decomposition search over the tallied hand.
pub mod hand_analyzer;
/// The shanten selector: the least distance over the three winning forms.
pub mod shanten;
/// The table-side state of a hand, and the wait-shape test.
pub mod status;
