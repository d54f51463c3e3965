//! A Japanese-mahjong hand evaluator: shanten (distance to a winning shape)
//! across the three legal winning forms, the block decomposition retained by
//! the standard-form search, and the named scoring patterns (yaku) that a
//! completed hand satisfies.

/// Tile kinds and per-tile predicates.
pub mod tile;
/// Table rules and display language.
pub mod settings;
/// A hand: concealed tiles, melds and the drawn tile.
pub mod hand;
/// Errors reported by block construction and the rule evaluator.
pub mod error;
/// Hand analysis: blocks, the shanten search and table status.
pub mod hand_info;
/// The yaku rule evaluator and the names of the winning patterns.
pub mod winning_hand;
