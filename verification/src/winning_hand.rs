/// The names and kinds of the winning patterns.
pub mod name;
/// The evaluator that judges every pattern at once.
pub mod checker;
/// The one-value patterns: ready hand, self pick, all simples and the like.
pub mod check_1_han;
/// The two-value patterns: seven pairs, straights, triplet hands and the like.
pub mod check_2_han;
/// The three-value patterns: ryanpeikou, junchan and half flush.
pub mod check_3_han;
/// The limit-hand mangan patterns.
pub mod check_5_han;
/// The six-value pattern: the full flush.
pub mod check_6_han;
/// The limit (yakuman) patterns.
pub mod check_yakuman;
