use vstd::prelude::*;

verus! {

/// The integer code of a tile kind.
///
/// `0..=8` are the characters (man) 1m..9m, `9..=17` the circles (pin)
/// 1p..9p, `18..=26` the bamboos (sou) 1s..9s, `27..=30` the four winds
/// 1z..4z and `31..=33` the three dragons 5z..7z.
pub type TileType = u32;

/// The per-kind tally of a whole hand: one slot for each of the 34 kinds.
pub type TileSummarize = Vec<TileType>;

/// The kind is one of the nine ranks of the man suit.
pub open spec fn is_character_kind(k: int) -> bool {
    0 <= k <= 8
}

/// The kind is one of the nine ranks of the pin suit.
pub open spec fn is_circle_kind(k: int) -> bool {
    9 <= k <= 17
}

/// The kind is one of the nine ranks of the sou suit.
pub open spec fn is_bamboo_kind(k: int) -> bool {
    18 <= k <= 26
}

/// The kind is one of the four winds.
pub open spec fn is_wind_kind(k: int) -> bool {
    27 <= k <= 30
}

/// The kind is one of the three dragons.
pub open spec fn is_dragon_kind(k: int) -> bool {
    31 <= k <= 33
}

/// The kind is an honor: a wind or a dragon.
pub open spec fn is_honor_kind(k: int) -> bool {
    27 <= k <= 33
}

/// The kind is a terminal: the rank 1 or 9 of one of the three suits.
pub open spec fn is_terminal_kind(k: int) -> bool {
    k == 0 || k == 8 || k == 9 || k == 17 || k == 18 || k == 26
}

/// The kind is a terminal or an honor.
pub open spec fn is_terminal_or_honor_kind(k: int) -> bool {
    is_terminal_kind(k) || is_honor_kind(k)
}

/// The two kinds belong to the same suit, or are both honors.
pub open spec fn is_same_suit_kind(a: int, b: int) -> bool {
    (is_character_kind(a) && is_character_kind(b)) || (is_circle_kind(a) && is_circle_kind(b)) || (
    is_bamboo_kind(a) && is_bamboo_kind(b)) || (is_honor_kind(a) && is_honor_kind(b))
}

/// `a` and `b` are adjacent ranks of one suit, so that they can extend to a
/// run. Honors never count, and rank 1 has no predecessor and rank 9 no
/// successor within a suit.
pub open spec fn is_sequential_kind(a: int, b: int) -> bool {
    if is_honor_kind(a) {
        false
    } else if (a == 0 || a == 9 || a == 18) && a == b + 1 {
        false
    } else if (a == 8 || a == 17 || a == 26) && a == b - 1 {
        false
    } else {
        a == b - 1 || a == b + 1
    }
}

/// The sum of the slots of a count vector from slot `i` on.
pub open spec fn total_from(s: Seq<u32>, i: int) -> int
    decreases s.len() - i,
{
    if i < 0 || i >= s.len() {
        0
    } else {
        s[i] + total_from(s, i + 1)
    }
}

/// The sum of all slots of a count vector: the number of tiles it tallies.
pub open spec fn counts_total(s: Seq<u32>) -> int {
    total_from(s, 0)
}

/// Two count vectors that agree from slot `i` on have the same tail sum.
pub proof fn lemma_total_agree(s: Seq<u32>, t: Seq<u32>, i: int)
    requires
        s.len() == t.len(),
        forall|j: int| i <= j < s.len() ==> s[j] == t[j],
    ensures
        total_from(s, i) == total_from(t, i),
    decreases s.len() - i,
{
    if 0 <= i && i < s.len() {
        lemma_total_agree(s, t, i + 1);
    }
}

/// Overwriting one slot moves the tail sum by the difference.
pub proof fn lemma_total_update(s: Seq<u32>, j: int, v: u32, i: int)
    requires
        0 <= i <= j < s.len(),
    ensures
        total_from(s.update(j, v), i) == total_from(s, i) - s[j] + v,
    decreases j - i,
{
    if i == j {
        lemma_total_agree(s.update(j, v), s, i + 1);
    } else {
        lemma_total_update(s, j, v, i + 1);
    }
}

/// A tail sum of a count vector is never negative.
pub proof fn lemma_total_nonneg(s: Seq<u32>, i: int)
    ensures
        total_from(s, i) >= 0,
    decreases s.len() - i,
{
    if 0 <= i && i < s.len() {
        lemma_total_nonneg(s, i + 1);
    }
}

/// Every slot is at most the whole sum: the slots are non-negative.
pub proof fn lemma_slot_le_total(s: Seq<u32>, j: int, i: int)
    requires
        0 <= i <= j < s.len(),
    ensures
        s[j] <= total_from(s, i),
    decreases j - i,
{
    if i < j {
        lemma_slot_le_total(s, j, i + 1);
    } else {
        lemma_total_nonneg(s, i + 1);
    }
}

/// The suit letter of the kind's two-character name.
pub open spec fn tile_suit_char(k: int) -> char {
    if k < 9 {
        'm'
    } else if k < 18 {
        'p'
    } else if k < 27 {
        's'
    } else {
        'z'
    }
}

/// The code point of the rank digit of the kind's two-character name.
pub open spec fn tile_rank_code(k: int) -> int {
    ('1' as int) + (if k < 27 {
        k % 9
    } else {
        k - 27
    })
}

/// The code-point offset of a suit letter within the kind space.
pub open spec fn suit_char_offset(c: char) -> int {
    if c == 'm' {
        0
    } else if c == 'p' {
        9
    } else if c == 's' {
        18
    } else {
        27
    }
}

/// Whether the character sequence is a two-character tile name: a rank digit
/// followed by a suit letter, with honor ranks capped at 7.
pub open spec fn ascii_name_valid(s: Seq<char>) -> bool {
    &&& s.len() == 2
    &&& '1' as int <= s[0] as int <= '9' as int
    &&& (s[1] == 'm' || s[1] == 'p' || s[1] == 's' || s[1] == 'z')
    &&& (s[1] == 'z' ==> s[0] as int <= '7' as int)
}

/// The kind named by a valid two-character tile name.
pub open spec fn ascii_name_kind(s: Seq<char>) -> int {
    suit_char_offset(s[1]) + (s[0] as int - '1' as int)
}

/// The single-character picture of the kind.
pub open spec fn tile_emoji(k: int) -> char {
    if k == 0 { '🀇' } else if k == 1 { '🀈' } else if k == 2 { '🀉' } else if k == 3 { '🀊' }
    else if k == 4 { '🀋' } else if k == 5 { '🀌' } else if k == 6 { '🀍' } else if k == 7 { '🀎' }
    else if k == 8 { '🀏' } else if k == 9 { '🀙' } else if k == 10 { '🀚' } else if k == 11 { '🀛' }
    else if k == 12 { '🀜' } else if k == 13 { '🀝' } else if k == 14 { '🀞' } else if k == 15 { '🀟' }
    else if k == 16 { '🀠' } else if k == 17 { '🀡' } else if k == 18 { '🀐' } else if k == 19 { '🀑' }
    else if k == 20 { '🀒' } else if k == 21 { '🀓' } else if k == 22 { '🀔' } else if k == 23 { '🀕' }
    else if k == 24 { '🀖' } else if k == 25 { '🀗' } else if k == 26 { '🀘' } else if k == 27 { '🀀' }
    else if k == 28 { '🀁' } else if k == 29 { '🀂' } else if k == 30 { '🀃' } else if k == 31 { '🀆' }
    else if k == 32 { '🀅' } else { '🀄' }
}

/// The kind whose picture the character is, or -1 when it is none.
pub open spec fn emoji_kind(c: char) -> int {
    if c == '🀇' { 0 } else if c == '🀈' { 1 } else if c == '🀉' { 2 } else if c == '🀊' { 3 }
    else if c == '🀋' { 4 } else if c == '🀌' { 5 } else if c == '🀍' { 6 } else if c == '🀎' { 7 }
    else if c == '🀏' { 8 } else if c == '🀙' { 9 } else if c == '🀚' { 10 } else if c == '🀛' { 11 }
    else if c == '🀜' { 12 } else if c == '🀝' { 13 } else if c == '🀞' { 14 } else if c == '🀟' { 15 }
    else if c == '🀠' { 16 } else if c == '🀡' { 17 } else if c == '🀐' { 18 } else if c == '🀑' { 19 }
    else if c == '🀒' { 20 } else if c == '🀓' { 21 } else if c == '🀔' { 22 } else if c == '🀕' { 23 }
    else if c == '🀖' { 24 } else if c == '🀗' { 25 } else if c == '🀘' { 26 } else if c == '🀀' { 27 }
    else if c == '🀁' { 28 } else if c == '🀂' { 29 } else if c == '🀃' { 30 } else if c == '🀆' { 31 }
    else if c == '🀅' { 32 } else if c == '🀄' { 33 } else { -1 }
}

/// Relies on `String::push`: appends exactly the one character.
#[verifier::external_body]
pub(crate) fn push_char(s: &mut String, c: char)
    ensures
        final(s)@ == old(s)@.push(c),
{
    s.push(c);
}

/// One of the four winds, ordered as the seats are.
#[derive(Debug, Clone, Copy, PartialEq, Eq, Structural)]
pub enum Wind {
    /// East, tile 1z.
    East,
    /// South, tile 2z.
    South,
    /// West, tile 3z.
    West,
    /// North, tile 4z.
    North,
}

impl Wind {
    /// The tile kind that this wind is played with.
    pub open spec fn spec_tile(self) -> int {
        match self {
            Wind::East => 27,
            Wind::South => 28,
            Wind::West => 29,
            Wind::North => 30,
        }
    }

    /// Returns the wind that the given tile kind stands for, if any.
    pub fn is_tile_type(t: TileType) -> (r: Option<Wind>)
        ensures
            r matches Some(w) ==> w.spec_tile() == t,
            r is None ==> !is_wind_kind(t as int),
            is_wind_kind(t as int) ==> r is Some,
    {
        if t == 27 {
            Some(Wind::East)
        } else if t == 28 {
            Some(Wind::South)
        } else if t == 29 {
            Some(Wind::West)
        } else if t == 30 {
            Some(Wind::North)
        } else {
            None
        }
    }
}

/// One of the three dragons.
#[derive(Debug, Clone, Copy, PartialEq, Eq, Structural)]
pub enum Dragon {
    /// White (haku), tile 5z.
    White,
    /// Green (hatsu), tile 6z.
    Green,
    /// Red (chun), tile 7z.
    Red,
}

impl Dragon {
    /// The tile kind that this dragon is played with.
    pub open spec fn spec_tile(self) -> int {
        match self {
            Dragon::White => 31,
            Dragon::Green => 32,
            Dragon::Red => 33,
        }
    }

    /// Returns the dragon that the given tile kind stands for, if any.
    pub fn is_tile_type(t: TileType) -> (r: Option<Dragon>)
        ensures
            r matches Some(d) ==> d.spec_tile() == t,
            r is None ==> !is_dragon_kind(t as int),
            is_dragon_kind(t as int) ==> r is Some,
    {
        if t == 31 {
            Some(Dragon::White)
        } else if t == 32 {
            Some(Dragon::Green)
        } else if t == 33 {
            Some(Dragon::Red)
        } else {
            None
        }
    }
}

/// One physical tile: a kind, and whether it is the red five of its suit.
#[derive(Debug, Clone, Copy, Eq, Ord, PartialEq, PartialOrd, Hash)]
pub struct Tile {
    index: TileType,
    red_dora: bool,
}

impl View for Tile {
    type V = int;

    closed spec fn view(&self) -> int {
        self.index as int
    }
}

impl Tile {
    /// 1m
    pub const M1: TileType = 0;

    /// 2m
    pub const M2: TileType = 1;

    /// 3m
    pub const M3: TileType = 2;

    /// 4m
    pub const M4: TileType = 3;

    /// 5m
    pub const M5: TileType = 4;

    /// 6m
    pub const M6: TileType = 5;

    /// 7m
    pub const M7: TileType = 6;

    /// 8m
    pub const M8: TileType = 7;

    /// 9m
    pub const M9: TileType = 8;

    /// 1p
    pub const P1: TileType = 9;

    /// 2p
    pub const P2: TileType = 10;

    /// 3p
    pub const P3: TileType = 11;

    /// 4p
    pub const P4: TileType = 12;

    /// 5p
    pub const P5: TileType = 13;

    /// 6p
    pub const P6: TileType = 14;

    /// 7p
    pub const P7: TileType = 15;

    /// 8p
    pub const P8: TileType = 16;

    /// 9p
    pub const P9: TileType = 17;

    /// 1s
    pub const S1: TileType = 18;

    /// 2s
    pub const S2: TileType = 19;

    /// 3s
    pub const S3: TileType = 20;

    /// 4s
    pub const S4: TileType = 21;

    /// 5s
    pub const S5: TileType = 22;

    /// 6s
    pub const S6: TileType = 23;

    /// 7s
    pub const S7: TileType = 24;

    /// 8s
    pub const S8: TileType = 25;

    /// 9s
    pub const S9: TileType = 26;

    /// East wind
    pub const Z1: TileType = 27;

    /// South wind
    pub const Z2: TileType = 28;

    /// West wind
    pub const Z3: TileType = 29;

    /// North wind
    pub const Z4: TileType = 30;

    /// White dragon
    pub const Z5: TileType = 31;

    /// Green dragon
    pub const Z6: TileType = 32;

    /// Red dragon
    pub const Z7: TileType = 33;

    /// The number of tile kinds; every kind code is below it.
    pub const LEN: usize = 34;

    #[verifier::type_invariant]
    spec fn inv(self) -> bool {
        self.index < 34
    }

    /// Makes the plain (non-red) tile of the given kind.
    pub fn new(tile_type: TileType) -> (t: Tile)
        requires
            tile_type < 34,
        ensures
            t@ == tile_type as int,
    {
        Tile { index: tile_type, red_dora: false }
    }

    /// The kind code of this tile.
    pub fn get(&self) -> (k: TileType)
        ensures
            k as int == self@,
            k < 34,
    {
        proof {
            use_type_invariant(self);
        }
        self.index
    }

    /// Whether this tile belongs to the man suit.
    pub fn is_character(&self) -> (r: bool)
        ensures
            r == is_character_kind(self@),
    {
        self.index <= 8
    }

    /// Whether this tile belongs to the pin suit.
    pub fn is_circle(&self) -> (r: bool)
        ensures
            r == is_circle_kind(self@),
    {
        9 <= self.index && self.index <= 17
    }

    /// Whether this tile belongs to the sou suit.
    pub fn is_bamboo(&self) -> (r: bool)
        ensures
            r == is_bamboo_kind(self@),
    {
        18 <= self.index && self.index <= 26
    }

    /// Whether this tile is a wind.
    pub fn is_wind(&self) -> (r: bool)
        ensures
            r == is_wind_kind(self@),
    {
        27 <= self.index && self.index <= 30
    }

    /// Whether this tile is a dragon.
    pub fn is_dragon(&self) -> (r: bool)
        ensures
            r == is_dragon_kind(self@),
    {
        31 <= self.index && self.index <= 33
    }

    /// Whether this tile is an honor: a wind or a dragon.
    pub fn is_honor(&self) -> (r: bool)
        ensures
            r == is_honor_kind(self@),
    {
        self.is_wind() || self.is_dragon()
    }

    /// Whether this tile is a terminal: a 1 or a 9 of a suit.
    pub fn is_1_or_9(&self) -> (r: bool)
        ensures
            r == is_terminal_kind(self@),
    {
        self.index == 0 || self.index == 8 || self.index == 9 || self.index == 17 || self.index
            == 18 || self.index == 26
    }

    /// Whether this tile is a terminal or an honor.
    pub fn is_1_9_honor(&self) -> (r: bool)
        ensures
            r == is_terminal_or_honor_kind(self@),
    {
        self.is_1_or_9() || self.is_honor()
    }

    /// Whether the two tiles are of one kind, so that they form a pair.
    pub fn is_same_to(&self, tile: Tile) -> (r: bool)
        ensures
            r == (self@ == tile@),
    {
        self.get() == tile.get()
    }

    /// Whether the two tiles are adjacent ranks of one suit, so that they
    /// form a proto-run.
    pub fn is_sequential_to(&self, tile: Tile) -> (r: bool)
        ensures
            r == is_sequential_kind(self@, tile@),
    {
        let a = self.get();
        let b = tile.get();
        if self.is_honor() {
            return false;
        }
        if (a == 0 || a == 9 || a == 18) && a == b + 1 {
            return false;
        }
        if (a == 8 || a == 17 || a == 26) && a + 1 == b {
            return false;
        }
        a + 1 == b || a == b + 1
    }

    /// The one-character picture of this tile.
    pub fn to_char(&self) -> (c: char)
        ensures
            c == tile_emoji(self@),
    {
        proof {
            use_type_invariant(self);
        }
        let k = self.index;
        if k == 0 { '🀇' } else if k == 1 { '🀈' } else if k == 2 { '🀉' } else if k == 3 { '🀊' }
        else if k == 4 { '🀋' } else if k == 5 { '🀌' } else if k == 6 { '🀍' } else if k == 7 { '🀎' }
        else if k == 8 { '🀏' } else if k == 9 { '🀙' } else if k == 10 { '🀚' } else if k == 11 { '🀛' }
        else if k == 12 { '🀜' } else if k == 13 { '🀝' } else if k == 14 { '🀞' } else if k == 15 { '🀟' }
        else if k == 16 { '🀠' } else if k == 17 { '🀡' } else if k == 18 { '🀐' } else if k == 19 { '🀑' }
        else if k == 20 { '🀒' } else if k == 21 { '🀓' } else if k == 22 { '🀔' } else if k == 23 { '🀕' }
        else if k == 24 { '🀖' } else if k == 25 { '🀗' } else if k == 26 { '🀘' } else if k == 27 { '🀀' }
        else if k == 28 { '🀁' } else if k == 29 { '🀂' } else if k == 30 { '🀃' } else if k == 31 { '🀆' }
        else if k == 32 { '🀅' } else { '🀄' }
    }

    /// The two-character name of this tile: a rank digit and a suit letter.
    pub fn to_string(&self) -> (r: String)
        ensures
            r@.len() == 2,
            r@[0] as int == tile_rank_code(self@),
            r@[1] == tile_suit_char(self@),
    {
        proof {
            use_type_invariant(self);
        }
        let k = self.index;
        let rank: u8 = if k < 27 {
            (k % 9) as u8 + 49
        } else {
            (k - 27) as u8 + 49
        };
        let suit: char = if k < 9 {
            'm'
        } else if k < 18 {
            'p'
        } else if k < 27 {
            's'
        } else {
            'z'
        };
        let mut r = String::new();
        push_char(&mut r, rank as char);
        push_char(&mut r, suit);
        r
    }

    /// Reads a tile from its two-character name or its one-character
    /// picture; any other string names no tile.
    pub fn from(tile_name: &str) -> (t: Tile)
        requires
            ascii_name_valid(tile_name@) || (tile_name@.len() == 1 && emoji_kind(tile_name@[0])
                >= 0),
        ensures
            ascii_name_valid(tile_name@) ==> t@ == ascii_name_kind(tile_name@),
            tile_name@.len() == 1 ==> t@ == emoji_kind(tile_name@[0]),
    {
        let n = tile_name.unicode_len();
        if n == 2 {
            let c0 = tile_name.get_char(0);
            let c1 = tile_name.get_char(1);
            let offset: u32 = if c1 == 'm' {
                0
            } else if c1 == 'p' {
                9
            } else if c1 == 's' {
                18
            } else {
                27
            };
            let rank: u32 = c0 as u32 - 49;
            Tile::new(offset + rank)
        } else {
            let c = tile_name.get_char(0);
            let k: u32 =
            if c == '🀇' { 0 } else if c == '🀈' { 1 } else if c == '🀉' { 2 } else if c == '🀊' { 3 }
            else if c == '🀋' { 4 } else if c == '🀌' { 5 } else if c == '🀍' { 6 } else if c == '🀎' { 7 }
            else if c == '🀏' { 8 } else if c == '🀙' { 9 } else if c == '🀚' { 10 } else if c == '🀛' { 11 }
            else if c == '🀜' { 12 } else if c == '🀝' { 13 } else if c == '🀞' { 14 } else if c == '🀟' { 15 }
            else if c == '🀠' { 16 } else if c == '🀡' { 17 } else if c == '🀐' { 18 } else if c == '🀑' { 19 }
            else if c == '🀒' { 20 } else if c == '🀓' { 21 } else if c == '🀔' { 22 } else if c == '🀕' { 23 }
            else if c == '🀖' { 24 } else if c == '🀗' { 25 } else if c == '🀘' { 26 } else if c == '🀀' { 27 }
            else if c == '🀁' { 28 } else if c == '🀂' { 29 } else if c == '🀃' { 30 } else if c == '🀆' { 31 }
            else if c == '🀅' { 32 } else { 33 };
            Tile::new(k)
        }
    }
}

} // verus!
