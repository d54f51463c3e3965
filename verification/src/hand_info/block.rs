use vstd::prelude::*;

use crate::error::HandError;
use crate::tile::{
    is_bamboo_kind, is_character_kind, is_circle_kind, is_honor_kind, is_same_suit_kind,
    is_terminal_kind, Dragon, TileType, Wind,
};

verus! {

/// Behaviour shared by the block value types (pair, triplet, run and
/// proto-run): the queries that the rule evaluator asks of a block.
///
/// Each query has a spec-level twin that the implementations define, so that
/// contracts can speak of what a block contains.
pub trait BlockProperty {
    /// Whether the block contains a terminal (a 1 or a 9 of a suit).
    spec fn spec_has_1_or_9(&self) -> bool;

    /// Whether the block contains an honor.
    spec fn spec_has_honor(&self) -> bool;

    /// Whether the block contains the given wind.
    spec fn spec_has_wind(&self, wind: Wind) -> bool;

    /// Whether the block contains the given dragon.
    spec fn spec_has_dragon(&self, dragon: Dragon) -> bool;

    /// Whether the block belongs to the man suit.
    spec fn spec_is_character(&self) -> bool;

    /// Whether the block belongs to the pin suit.
    spec fn spec_is_circle(&self) -> bool;

    /// Whether the block belongs to the sou suit.
    spec fn spec_is_bamboo(&self) -> bool;

    /// Whether a terminal is among the block's tiles.
    fn has_1_or_9(&self) -> (r: Result<bool, HandError>)
        ensures
            r matches Ok(b) && b == self.spec_has_1_or_9(),
    ;

    /// Whether an honor is among the block's tiles.
    fn has_honor(&self) -> (r: Result<bool, HandError>)
        ensures
            r matches Ok(b) && b == self.spec_has_honor(),
    ;

    /// Whether the given wind is among the block's tiles.
    fn has_wind(&self, wind: Wind) -> (r: Result<bool, HandError>)
        ensures
            r matches Ok(b) && b == self.spec_has_wind(wind),
    ;

    /// Whether the given dragon is among the block's tiles.
    fn has_dragon(&self, dragon: Dragon) -> (r: Result<bool, HandError>)
        ensures
            r matches Ok(b) && b == self.spec_has_dragon(dragon),
    ;

    /// Whether the block is of the man suit.
    fn is_character(&self) -> (r: Result<bool, HandError>)
        ensures
            r matches Ok(b) && b == self.spec_is_character(),
    ;

    /// Whether the block is of the pin suit.
    fn is_circle(&self) -> (r: Result<bool, HandError>)
        ensures
            r matches Ok(b) && b == self.spec_is_circle(),
    ;

    /// Whether the block is of the sou suit.
    fn is_bamboo(&self) -> (r: Result<bool, HandError>)
        ensures
            r matches Ok(b) && b == self.spec_is_bamboo(),
    ;
}

fn is_proper_tile(tile: TileType) -> (r: Result<(), HandError>)
    ensures
        r is Ok <==> tile < 34,
        r matches Err(e) ==> e == HandError::InvalidBlockComposition,
{
    if tile < 34 {
        Ok(())
    } else {
        Err(HandError::InvalidBlockComposition)
    }
}

fn has_1_or_9(t: TileType) -> (r: Result<bool, HandError>)
    ensures
        r is Ok <==> t < 34,
        r matches Ok(b) ==> b == is_terminal_kind(t as int),
        r matches Err(e) ==> e == HandError::InvalidBlockComposition,
{
    is_proper_tile(t)?;
    Ok(t == 0 || t == 8 || t == 9 || t == 17 || t == 18 || t == 26)
}

fn has_honor(t: TileType) -> (r: Result<bool, HandError>)
    ensures
        r is Ok <==> t < 34,
        r matches Ok(b) ==> b == is_honor_kind(t as int),
        r matches Err(e) ==> e == HandError::InvalidBlockComposition,
{
    is_proper_tile(t)?;
    Ok(27 <= t && t <= 33)
}

fn has_wind(t: TileType, wind: Wind) -> (r: Result<bool, HandError>)
    ensures
        r is Ok <==> t < 34,
        r matches Ok(b) ==> b == (t as int == wind.spec_tile()),
        r matches Err(e) ==> e == HandError::InvalidBlockComposition,
{
    is_proper_tile(t)?;
    if let Some(w) = Wind::is_tile_type(t) {
        Ok(w == wind)
    } else {
        Ok(false)
    }
}

fn has_dragon(t: TileType, dragon: Dragon) -> (r: Result<bool, HandError>)
    ensures
        r is Ok <==> t < 34,
        r matches Ok(b) ==> b == (t as int == dragon.spec_tile()),
        r matches Err(e) ==> e == HandError::InvalidBlockComposition,
{
    is_proper_tile(t)?;
    if let Some(d) = Dragon::is_tile_type(t) {
        Ok(d == dragon)
    } else {
        Ok(false)
    }
}

fn is_character(t: TileType) -> (r: Result<bool, HandError>)
    ensures
        r is Ok <==> t < 34,
        r matches Ok(b) ==> b == is_character_kind(t as int),
        r matches Err(e) ==> e == HandError::InvalidBlockComposition,
{
    is_proper_tile(t)?;
    Ok(t <= 8)
}

fn is_circle(t: TileType) -> (r: Result<bool, HandError>)
    ensures
        r is Ok <==> t < 34,
        r matches Ok(b) ==> b == is_circle_kind(t as int),
        r matches Err(e) ==> e == HandError::InvalidBlockComposition,
{
    is_proper_tile(t)?;
    Ok(9 <= t && t <= 17)
}

fn is_bamboo(t: TileType) -> (r: Result<bool, HandError>)
    ensures
        r is Ok <==> t < 34,
        r matches Ok(b) ==> b == is_bamboo_kind(t as int),
        r matches Err(e) ==> e == HandError::InvalidBlockComposition,
{
    is_proper_tile(t)?;
    Ok(18 <= t && t <= 26)
}

fn is_same_suit(t1: TileType, t2: TileType) -> (r: Result<bool, HandError>)
    ensures
        r is Ok <==> t1 < 34 && t2 < 34,
        r matches Ok(b) ==> b == is_same_suit_kind(t1 as int, t2 as int),
        r matches Err(e) ==> e == HandError::InvalidBlockComposition,
{
    is_proper_tile(t1)?;
    is_proper_tile(t2)?;
    if t1 <= 8 {
        Ok(t2 <= 8)
    } else if t1 <= 17 {
        Ok(9 <= t2 && t2 <= 17)
    } else if t1 <= 26 {
        Ok(18 <= t2 && t2 <= 26)
    } else {
        Ok(27 <= t2 && t2 <= 33)
    }
}

/// A pair: two tiles of one kind. Its view is that kind.
#[derive(Debug, Eq, Clone, Copy, PartialEq)]
pub struct Same2 {
    tiles: [TileType; 2],
}

impl View for Same2 {
    type V = int;

    closed spec fn view(&self) -> int {
        self.tiles[0] as int
    }
}

impl Same2 {
    #[verifier::type_invariant]
    spec fn inv(self) -> bool {
        self.tiles[0] < 34 && self.tiles[1] == self.tiles[0]
    }

    /// Builds a pair out of two tiles; the tiles must be proper and of one
    /// kind, else `InvalidBlockComposition`.
    pub fn new(tile1: TileType, tile2: TileType) -> (r: Result<Same2, HandError>)
        ensures
            r is Ok <==> tile1 < 34 && tile2 < 34 && tile1 == tile2,
            r matches Ok(b) ==> b@ == tile1 as int,
            r matches Err(e) ==> e == HandError::InvalidBlockComposition,
    {
        is_proper_tile(tile1)?;
        is_proper_tile(tile2)?;
        if tile1 != tile2 {
            return Err(HandError::InvalidBlockComposition);
        }
        Ok(Same2 { tiles: [tile1, tile2] })
    }

    /// The two tiles of the pair.
    pub fn get(&self) -> (r: [TileType; 2])
        ensures
            r[0] as int == self@ && r[1] as int == self@,
            r[0] < 34,
    {
        proof {
            use_type_invariant(self);
        }
        self.tiles
    }
}

impl BlockProperty for Same2 {
    open spec fn spec_has_1_or_9(&self) -> bool {
        is_terminal_kind(self@)
    }

    open spec fn spec_has_honor(&self) -> bool {
        is_honor_kind(self@)
    }

    open spec fn spec_has_wind(&self, wind: Wind) -> bool {
        self@ == wind.spec_tile()
    }

    open spec fn spec_has_dragon(&self, dragon: Dragon) -> bool {
        self@ == dragon.spec_tile()
    }

    open spec fn spec_is_character(&self) -> bool {
        is_character_kind(self@)
    }

    open spec fn spec_is_circle(&self) -> bool {
        is_circle_kind(self@)
    }

    open spec fn spec_is_bamboo(&self) -> bool {
        is_bamboo_kind(self@)
    }

    fn has_1_or_9(&self) -> (r: Result<bool, HandError>) {
        proof {
            use_type_invariant(self);
        }
        // The two tiles are of one kind, so the first settles it.
        has_1_or_9(self.tiles[0])
    }

    fn has_honor(&self) -> (r: Result<bool, HandError>) {
        proof {
            use_type_invariant(self);
        }
        has_honor(self.tiles[0])
    }

    fn has_wind(&self, wind: Wind) -> (r: Result<bool, HandError>) {
        proof {
            use_type_invariant(self);
        }
        has_wind(self.tiles[0], wind)
    }

    fn has_dragon(&self, dragon: Dragon) -> (r: Result<bool, HandError>) {
        proof {
            use_type_invariant(self);
        }
        has_dragon(self.tiles[0], dragon)
    }

    fn is_character(&self) -> (r: Result<bool, HandError>) {
        proof {
            use_type_invariant(self);
        }
        is_character(self.tiles[0])
    }

    fn is_circle(&self) -> (r: Result<bool, HandError>) {
        proof {
            use_type_invariant(self);
        }
        is_circle(self.tiles[0])
    }

    fn is_bamboo(&self) -> (r: Result<bool, HandError>) {
        proof {
            use_type_invariant(self);
        }
        is_bamboo(self.tiles[0])
    }
}

/// A triplet: three tiles of one kind. Its view is that kind.
#[derive(Debug, Eq, Clone, Copy, PartialEq)]
pub struct Same3 {
    tiles: [TileType; 3],
}

impl View for Same3 {
    type V = int;

    closed spec fn view(&self) -> int {
        self.tiles[0] as int
    }
}

impl Same3 {
    #[verifier::type_invariant]
    spec fn inv(self) -> bool {
        self.tiles[0] < 34 && self.tiles[1] == self.tiles[0] && self.tiles[2] == self.tiles[0]
    }

    /// Builds a triplet out of three tiles; the tiles must be proper and of
    /// one kind, else `InvalidBlockComposition`.
    pub fn new(tile1: TileType, tile2: TileType, tile3: TileType) -> (r: Result<Same3, HandError>)
        ensures
            r is Ok <==> tile1 < 34 && tile2 < 34 && tile3 < 34 && tile1 == tile2 && tile1 == tile3,
            r matches Ok(b) ==> b@ == tile1 as int,
            r matches Err(e) ==> e == HandError::InvalidBlockComposition,
    {
        is_proper_tile(tile1)?;
        is_proper_tile(tile2)?;
        is_proper_tile(tile3)?;
        if tile1 != tile2 || tile1 != tile3 {
            return Err(HandError::InvalidBlockComposition);
        }
        Ok(Same3 { tiles: [tile1, tile2, tile3] })
    }

    /// The three tiles of the triplet.
    pub fn get(&self) -> (r: [TileType; 3])
        ensures
            r[0] as int == self@ && r[1] as int == self@ && r[2] as int == self@,
            r[0] < 34,
    {
        proof {
            use_type_invariant(self);
        }
        self.tiles
    }
}

impl BlockProperty for Same3 {
    open spec fn spec_has_1_or_9(&self) -> bool {
        is_terminal_kind(self@)
    }

    open spec fn spec_has_honor(&self) -> bool {
        is_honor_kind(self@)
    }

    open spec fn spec_has_wind(&self, wind: Wind) -> bool {
        self@ == wind.spec_tile()
    }

    open spec fn spec_has_dragon(&self, dragon: Dragon) -> bool {
        self@ == dragon.spec_tile()
    }

    open spec fn spec_is_character(&self) -> bool {
        is_character_kind(self@)
    }

    open spec fn spec_is_circle(&self) -> bool {
        is_circle_kind(self@)
    }

    open spec fn spec_is_bamboo(&self) -> bool {
        is_bamboo_kind(self@)
    }

    fn has_1_or_9(&self) -> (r: Result<bool, HandError>) {
        proof {
            use_type_invariant(self);
        }
        // The three tiles are of one kind, so the first settles it.
        has_1_or_9(self.tiles[0])
    }

    fn has_honor(&self) -> (r: Result<bool, HandError>) {
        proof {
            use_type_invariant(self);
        }
        has_honor(self.tiles[0])
    }

    fn has_wind(&self, wind: Wind) -> (r: Result<bool, HandError>) {
        proof {
            use_type_invariant(self);
        }
        has_wind(self.tiles[0], wind)
    }

    fn has_dragon(&self, dragon: Dragon) -> (r: Result<bool, HandError>) {
        proof {
            use_type_invariant(self);
        }
        has_dragon(self.tiles[0], dragon)
    }

    fn is_character(&self) -> (r: Result<bool, HandError>) {
        proof {
            use_type_invariant(self);
        }
        is_character(self.tiles[0])
    }

    fn is_circle(&self) -> (r: Result<bool, HandError>) {
        proof {
            use_type_invariant(self);
        }
        is_circle(self.tiles[0])
    }

    fn is_bamboo(&self) -> (r: Result<bool, HandError>) {
        proof {
            use_type_invariant(self);
        }
        is_bamboo(self.tiles[0])
    }
}

/// A proto-run: two tiles of one suit whose ranks differ by 1 (adjacent) or
/// by 2 (a gap wait). Its view is the pair of kinds, low first.
#[derive(Debug, Eq, Clone, Copy, PartialEq)]
pub struct Sequential2 {
    tiles: [TileType; 2],
}

impl View for Sequential2 {
    type V = (int, int);

    closed spec fn view(&self) -> (int, int) {
        (self.tiles[0] as int, self.tiles[1] as int)
    }
}

impl Sequential2 {
    #[verifier::type_invariant]
    spec fn inv(self) -> bool {
        &&& self.tiles[0] < 27
        &&& self.tiles[1] < 27
        &&& (self.tiles[1] == self.tiles[0] + 1 || self.tiles[1] == self.tiles[0] + 2)
        &&& is_same_suit_kind(self.tiles[0] as int, self.tiles[1] as int)
    }

    /// Builds a proto-run; the tiles must be proper, of one suit, not
    /// honors, and 1 or 2 ranks apart, else `InvalidBlockComposition`.
    pub fn new(tile1: TileType, tile2: TileType) -> (r: Result<Sequential2, HandError>)
        ensures
            r is Ok <==> tile1 < 27 && tile2 < 27 && (tile2 == tile1 + 1 || tile2 == tile1 + 2)
                && is_same_suit_kind(tile1 as int, tile2 as int),
            r matches Ok(b) ==> b@ == (tile1 as int, tile2 as int),
            r matches Err(e) ==> e == HandError::InvalidBlockComposition,
    {
        is_proper_tile(tile1)?;
        is_proper_tile(tile2)?;
        if !(tile2 == tile1 + 1 || tile2 == tile1 + 2) {
            return Err(HandError::InvalidBlockComposition);
        }
        if has_honor(tile1)? || has_honor(tile2)? {
            return Err(HandError::InvalidBlockComposition);
        }
        if !is_same_suit(tile1, tile2)? {
            return Err(HandError::InvalidBlockComposition);
        }
        Ok(Sequential2 { tiles: [tile1, tile2] })
    }

    /// The two tiles of the proto-run, low first.
    pub fn get(&self) -> (r: [TileType; 2])
        ensures
            (r[0] as int, r[1] as int) == self@,
            r[0] < 27 && r[1] < 27,
    {
        proof {
            use_type_invariant(self);
        }
        self.tiles
    }
}

impl BlockProperty for Sequential2 {
    open spec fn spec_has_1_or_9(&self) -> bool {
        is_terminal_kind(self@.0) || is_terminal_kind(self@.1)
    }

    open spec fn spec_has_honor(&self) -> bool {
        false
    }

    open spec fn spec_has_wind(&self, wind: Wind) -> bool {
        false
    }

    open spec fn spec_has_dragon(&self, dragon: Dragon) -> bool {
        false
    }

    open spec fn spec_is_character(&self) -> bool {
        is_character_kind(self@.0)
    }

    open spec fn spec_is_circle(&self) -> bool {
        is_circle_kind(self@.0)
    }

    open spec fn spec_is_bamboo(&self) -> bool {
        is_bamboo_kind(self@.0)
    }

    fn has_1_or_9(&self) -> (r: Result<bool, HandError>) {
        proof {
            use_type_invariant(self);
        }
        Ok(has_1_or_9(self.tiles[0])? || has_1_or_9(self.tiles[1])?)
    }

    fn has_honor(&self) -> (r: Result<bool, HandError>) {
        // Honors never sit in a proto-run.
        Ok(false)
    }

    fn has_wind(&self, _wind: Wind) -> (r: Result<bool, HandError>) {
        Ok(false)
    }

    fn has_dragon(&self, _dragon: Dragon) -> (r: Result<bool, HandError>) {
        Ok(false)
    }

    fn is_character(&self) -> (r: Result<bool, HandError>) {
        proof {
            use_type_invariant(self);
        }
        is_character(self.tiles[0])
    }

    fn is_circle(&self) -> (r: Result<bool, HandError>) {
        proof {
            use_type_invariant(self);
        }
        is_circle(self.tiles[0])
    }

    fn is_bamboo(&self) -> (r: Result<bool, HandError>) {
        proof {
            use_type_invariant(self);
        }
        is_bamboo(self.tiles[0])
    }
}

/// A run: three consecutive ranks of one suit. Its view is the low kind.
#[derive(Debug, Eq, Clone, Copy, PartialEq)]
pub struct Sequential3 {
    tiles: [TileType; 3],
}

impl View for Sequential3 {
    type V = int;

    closed spec fn view(&self) -> int {
        self.tiles[0] as int
    }
}

impl Sequential3 {
    #[verifier::type_invariant]
    spec fn inv(self) -> bool {
        &&& self.tiles[0] < 27
        &&& self.tiles[1] == self.tiles[0] + 1
        &&& self.tiles[2] == self.tiles[0] + 2
        &&& is_same_suit_kind(self.tiles[0] as int, self.tiles[2] as int)
    }

    /// Builds a run; the tiles must be proper, consecutive, of one suit and
    /// not honors, else `InvalidBlockComposition`.
    pub fn new(tile1: TileType, tile2: TileType, tile3: TileType) -> (r: Result<
        Sequential3,
        HandError,
    >)
        ensures
            r is Ok <==> tile1 < 27 && tile2 == tile1 + 1 && tile3 == tile1 + 2 && tile3 < 27
                && is_same_suit_kind(tile1 as int, tile3 as int),
            r matches Ok(b) ==> b@ == tile1 as int,
            r matches Err(e) ==> e == HandError::InvalidBlockComposition,
    {
        is_proper_tile(tile1)?;
        is_proper_tile(tile2)?;
        is_proper_tile(tile3)?;
        if tile2 != tile1 + 1 || tile3 != tile2 + 1 {
            return Err(HandError::InvalidBlockComposition);
        }
        if has_honor(tile1)? || has_honor(tile2)? || has_honor(tile3)? {
            return Err(HandError::InvalidBlockComposition);
        }
        if !is_same_suit(tile1, tile2)? || !is_same_suit(tile2, tile3)? {
            return Err(HandError::InvalidBlockComposition);
        }
        Ok(Sequential3 { tiles: [tile1, tile2, tile3] })
    }

    /// The three tiles of the run, ascending.
    pub fn get(&self) -> (r: [TileType; 3])
        ensures
            r[0] as int == self@ && r[1] as int == self@ + 1 && r[2] as int == self@ + 2,
            r[0] < 27 && r[2] < 27,
    {
        proof {
            use_type_invariant(self);
        }
        self.tiles
    }
}

impl BlockProperty for Sequential3 {
    open spec fn spec_has_1_or_9(&self) -> bool {
        is_terminal_kind(self@) || is_terminal_kind(self@ + 2)
    }

    open spec fn spec_has_honor(&self) -> bool {
        false
    }

    open spec fn spec_has_wind(&self, wind: Wind) -> bool {
        false
    }

    open spec fn spec_has_dragon(&self, dragon: Dragon) -> bool {
        false
    }

    open spec fn spec_is_character(&self) -> bool {
        is_character_kind(self@)
    }

    open spec fn spec_is_circle(&self) -> bool {
        is_circle_kind(self@)
    }

    open spec fn spec_is_bamboo(&self) -> bool {
        is_bamboo_kind(self@)
    }

    fn has_1_or_9(&self) -> (r: Result<bool, HandError>) {
        proof {
            use_type_invariant(self);
        }
        // Only the ends of a run can be terminals.
        Ok(has_1_or_9(self.tiles[0])? || has_1_or_9(self.tiles[2])?)
    }

    fn has_honor(&self) -> (r: Result<bool, HandError>) {
        // Honors never sit in a run.
        Ok(false)
    }

    fn has_wind(&self, _wind: Wind) -> (r: Result<bool, HandError>) {
        Ok(false)
    }

    fn has_dragon(&self, _dragon: Dragon) -> (r: Result<bool, HandError>) {
        Ok(false)
    }

    fn is_character(&self) -> (r: Result<bool, HandError>) {
        proof {
            use_type_invariant(self);
        }
        is_character(self.tiles[0])
    }

    fn is_circle(&self) -> (r: Result<bool, HandError>) {
        proof {
            use_type_invariant(self);
        }
        is_circle(self.tiles[0])
    }

    fn is_bamboo(&self) -> (r: Result<bool, HandError>) {
        proof {
            use_type_invariant(self);
        }
        is_bamboo(self.tiles[0])
    }
}

} // verus!
