use vstd::prelude::*;
use vstd::string::StrSliceExecFns;
use vstd::string::StringExecFns;

use crate::tile::{counts_total, lemma_slot_le_total, lemma_total_update, push_char, total_from,
    Tile, TileSummarize};

verus! {

/// The kind of a claimed meld.
#[derive(Debug, Clone, Copy, Eq, PartialEq)]
pub enum OpenType {
    /// A claimed run.
    Chi,
    /// A claimed triplet.
    Pon,
    /// A quad.
    Kan,
}

/// The player that the claimed tile came from.
#[derive(Debug, Clone, Copy, Eq, PartialEq)]
pub enum OpenFrom {
    /// The player to the left.
    Previous,
    /// The player themselves (a concealed quad).
    Myself,
    /// The player to the right.
    Following,
    /// The player across.
    Opposite,
    /// Not recorded.
    Unknown,
}

/// One claimed meld: three tiles (a quad also stores three, the fourth being
/// implied), the kind of claim and its source.
#[derive(Debug, Clone, Copy)]
pub struct OpenTiles {
    /// The three stored tiles.
    pub tiles: [Tile; 3],
    /// The kind of claim.
    pub category: OpenType,
    /// Who the claimed tile came from.
    pub from: OpenFrom,
}

/// How many tiles of kind `k` the sequence holds.
pub open spec fn count_kind(s: Seq<Tile>, k: int) -> int
    decreases s.len(),
{
    if s.len() == 0 {
        0
    } else {
        count_kind(s.drop_last(), k) + (if s.last()@ == k {
            1int
        } else {
            0int
        })
    }
}

/// How many tiles of kind `k` one meld stores.
pub open spec fn meld_count_kind(o: OpenTiles, k: int) -> int {
    (if o.tiles[0]@ == k {
        1int
    } else {
        0int
    }) + (if o.tiles[1]@ == k {
        1int
    } else {
        0int
    }) + (if o.tiles[2]@ == k {
        1int
    } else {
        0int
    })
}

/// How many tiles of kind `k` the melds together store.
pub open spec fn count_kind_melds(s: Seq<OpenTiles>, k: int) -> int
    decreases s.len(),
{
    if s.len() == 0 {
        0
    } else {
        count_kind_melds(s.drop_last(), k) + meld_count_kind(s.last(), k)
    }
}

/// A hand: the concealed tiles, the claimed melds, and the drawn tile if one
/// was just taken.
pub struct Hand {
    tiles: Vec<Tile>,
    opened: Vec<OpenTiles>,
    drawn: Option<Tile>,
}

/// Bumps the slot of the tile's kind by one.
fn add_one(counts: &mut TileSummarize, t: Tile)
    requires
        old(counts)@.len() == 34,
        counts_total(old(counts)@) < 0xffff_ffff,
    ensures
        0 <= t@ < 34,
        old(counts)@[t@] < 0xffff_ffff,
        final(counts)@ == old(counts)@.update(t@, (old(counts)@[t@] + 1) as u32),
        counts_total(final(counts)@) == counts_total(old(counts)@) + 1,
{
    let idx = t.get() as usize;
    proof {
        lemma_slot_le_total(counts@, t@, 0);
    }
    let c = counts[idx];
    counts.set(idx, c + 1);
    proof {
        lemma_total_update(old(counts)@, t@, (c + 1) as u32, 0);
    }
}

impl Hand {
    /// The concealed tiles.
    pub closed spec fn spec_tiles(self) -> Seq<Tile> {
        self.tiles@
    }

    /// The claimed melds.
    pub closed spec fn spec_opened(self) -> Seq<OpenTiles> {
        self.opened@
    }

    /// The drawn tile.
    pub closed spec fn spec_drawn(self) -> Option<Tile> {
        self.drawn
    }

    /// How many tiles of kind `k` the whole hand holds, melds and the drawn
    /// tile included.
    pub open spec fn spec_count_of(self, k: int) -> int {
        count_kind(self.spec_tiles(), k) + count_kind_melds(self.spec_opened(), k) + (
        match self.spec_drawn() {
            Some(t) => if t@ == k {
                1int
            } else {
                0int
            },
            None => 0int,
        })
    }

    /// The 34-slot tally of the whole hand, as a mathematical value.
    pub open spec fn spec_counts(self) -> Seq<u32> {
        Seq::new(34, |k: int| self.spec_count_of(k) as u32)
    }

    /// How many tiles the whole hand holds.
    pub open spec fn spec_total(self) -> int {
        self.spec_tiles().len() + 3 * self.spec_opened().len() + (
        if self.spec_drawn() is Some {
            1int
        } else {
            0int
        })
    }

    /// Makes a hand with no melds.
    pub fn new(tiles: Vec<Tile>, drawn: Option<Tile>) -> (h: Hand)
        ensures
            h.spec_tiles() == tiles@,
            h.spec_opened() =~= Seq::<OpenTiles>::empty(),
            h.spec_drawn() == drawn,
    {
        Hand::new_with_opened(tiles, Vec::new(), drawn)
    }

    /// Makes a hand out of concealed tiles, melds and the drawn tile.
    pub fn new_with_opened(tiles: Vec<Tile>, opened: Vec<OpenTiles>, drawn: Option<Tile>) -> (h:
        Hand)
        ensures
            h.spec_tiles() == tiles@,
            h.spec_opened() == opened@,
            h.spec_drawn() == drawn,
    {
        Hand { tiles, drawn, opened }
    }

    /// Tallies the whole hand into the 34-slot count vector: slot `k` holds
    /// how many tiles of kind `k` the hand has, melds and the drawn tile
    /// included.
    pub fn summarize_tiles(&self) -> (r: TileSummarize)
        requires
            self.spec_total() <= 0xffff_ffff,
        ensures
            r@.len() == 34,
            forall|k: int| 0 <= k < 34 ==> r@[k] as int == self.spec_count_of(k),
            counts_total(r@) == self.spec_total(),
            r@ == self.spec_counts(),
    {
        let mut result: TileSummarize = Vec::new();
        let mut z: usize = 0;
        while z < 34
            invariant
                z <= 34,
                result@.len() == z,
                forall|k: int| 0 <= k < z ==> result@[k] == 0,
                counts_total(result@) == 0,
            decreases 34 - z,
        {
            let ghost before = result@;
            result.push(0);
            proof {
                lemma_total_push(before, 0);
            }
            z += 1;
        }

        let n = self.tiles.len();
        let mut i: usize = 0;
        while i < n
            invariant
                i <= n,
                n == self.spec_tiles().len(),
                result@.len() == 34,
                self.spec_total() <= 0xffff_ffff,
                counts_total(result@) == i as int,
                forall|k: int| 0 <= k < 34 ==> result@[k] as int == count_kind(
                    self.spec_tiles().take(i as int),
                    k,
                ),
            decreases n - i,
        {
            let t = self.tiles[i];
            let ghost before = result@;
            add_one(&mut result, t);
            proof {
                assert(self.spec_tiles().take(i + 1).drop_last() =~= self.spec_tiles().take(
                    i as int,
                ));
                assert(self.spec_tiles().take(i + 1).last() == self.spec_tiles()[i as int]);
                assert forall|k: int| 0 <= k < 34 implies result@[k] as int == count_kind(
                    self.spec_tiles().take(i + 1),
                    k,
                ) by {
                    if k == t@ {
                        assert(result@[k] as int == before[k] + 1);
                    } else {
                        assert(result@[k] == before[k]);
                    }
                }
            }
            i += 1;
        }
        proof {
            assert(self.spec_tiles().take(n as int) =~= self.spec_tiles());
        }

        let m = self.opened.len();
        let mut j: usize = 0;
        while j < m
            invariant
                j <= m,
                m == self.spec_opened().len(),
                n == self.spec_tiles().len(),
                result@.len() == 34,
                self.spec_total() <= 0xffff_ffff,
                counts_total(result@) == n + 3 * (j as int),
                forall|k: int| 0 <= k < 34 ==> result@[k] as int == count_kind(
                    self.spec_tiles(),
                    k,
                ) + count_kind_melds(self.spec_opened().take(j as int), k),
            decreases m - j,
        {
            let o = self.opened[j];
            let ghost b0 = result@;
            add_one(&mut result, o.tiles[0]);
            let ghost b1 = result@;
            add_one(&mut result, o.tiles[1]);
            let ghost b2 = result@;
            add_one(&mut result, o.tiles[2]);
            proof {
                assert(self.spec_opened().take(j + 1).drop_last() =~= self.spec_opened().take(
                    j as int,
                ));
                assert(self.spec_opened().take(j + 1).last() == self.spec_opened()[j as int]);
                assert forall|k: int| 0 <= k < 34 implies result@[k] as int == count_kind(
                    self.spec_tiles(),
                    k,
                ) + count_kind_melds(self.spec_opened().take(j + 1), k) by {
                    assert(result@[k] as int == b2[k] + (if o.tiles[2]@ == k {
                        1int
                    } else {
                        0int
                    }));
                    assert(b2[k] as int == b1[k] + (if o.tiles[1]@ == k {
                        1int
                    } else {
                        0int
                    }));
                    assert(b1[k] as int == b0[k] + (if o.tiles[0]@ == k {
                        1int
                    } else {
                        0int
                    }));
                }
            }
            j += 1;
        }
        proof {
            assert(self.spec_opened().take(m as int) =~= self.spec_opened());
        }

        if let Some(t) = self.drawn {
            add_one(&mut result, t);
        }
        proof {
            assert(result@ =~= self.spec_counts());
        }
        result
    }

    /// Renders the hand as tile pictures: the concealed tiles, then each
    /// meld after a space, then the drawn tile after a space.
    pub fn to_emoji(&self) -> String {
        let mut result = String::new();
        let n = self.tiles.len();
        let mut i: usize = 0;
        while i < n
            invariant
                n == self.spec_tiles().len(),
            decreases n - i,
        {
            push_char(&mut result, self.tiles[i].to_char());
            i += 1;
        }
        let m = self.opened.len();
        let mut j: usize = 0;
        while j < m
            invariant
                m == self.spec_opened().len(),
            decreases m - j,
        {
            push_char(&mut result, ' ');
            push_char(&mut result, self.opened[j].tiles[0].to_char());
            push_char(&mut result, self.opened[j].tiles[1].to_char());
            push_char(&mut result, self.opened[j].tiles[2].to_char());
            j += 1;
        }
        if let Some(tsumo) = self.drawn {
            push_char(&mut result, ' ');
            push_char(&mut result, tsumo.to_char());
        }
        result
    }

    /// Renders the hand with every tile written as its full two-character
    /// name, `1m2m3m...`; a quad meld shows its fourth tile too.
    pub fn to_string(&self) -> String {
        let mut result = String::new();
        let n = self.tiles.len();
        let mut i: usize = 0;
        while i < n
            invariant
                n == self.spec_tiles().len(),
            decreases n - i,
        {
            let name = self.tiles[i].to_string();
            result.append(name.as_str());
            i += 1;
        }
        let m = self.opened.len();
        let mut j: usize = 0;
        while j < m
            invariant
                m == self.spec_opened().len(),
            decreases m - j,
        {
            push_char(&mut result, ' ');
            let o = self.opened[j];
            let n0 = o.tiles[0].to_string();
            result.append(n0.as_str());
            let n1 = o.tiles[1].to_string();
            result.append(n1.as_str());
            let n2 = o.tiles[2].to_string();
            result.append(n2.as_str());
            if matches!(o.category, OpenType::Kan) {
                // The fourth tile of a quad is of the same kind.
                let n3 = o.tiles[0].to_string();
                result.append(n3.as_str());
            }
            j += 1;
        }
        if let Some(tsumo) = self.drawn {
            push_char(&mut result, ' ');
            let name = tsumo.to_string();
            result.append(name.as_str());
        }
        result
    }

    /// Renders the concealed tiles with runs of one suit compressed,
    /// `123m123p...`, with the drawn tile after a space.
    pub fn to_short_string(&self) -> String {
        let mut tiles: Vec<Tile> = Vec::new();
        let n = self.tiles.len();
        let mut i: usize = 0;
        while i < n
            invariant
                n == self.spec_tiles().len(),
            decreases n - i,
        {
            tiles.push(self.tiles[i]);
            i += 1;
        }
        let mut result = Hand::make_short_str(tiles);
        if let Some(tsumo) = self.drawn {
            push_char(&mut result, ' ');
            let name = tsumo.to_string();
            result.append(name.as_str());
        }
        result
    }

    /// Sorts the tiles by kind and writes each rank digit, closing each
    /// stretch of one suit with that suit's letter.
    fn make_short_str(tiles: Vec<Tile>) -> String {
        let mut tiles = tiles;
        sort_tiles(&mut tiles);
        let mut result = String::new();
        let n = tiles.len();
        let mut i: usize = 0;
        while i < n
            invariant
                n == tiles@.len(),
            decreases n - i,
        {
            let name = tiles[i].to_string();
            push_char(&mut result, name.as_str().get_char(0));
            let last_of_suit = if i + 1 == n {
                true
            } else {
                let next = tiles[i + 1].to_string();
                next.as_str().get_char(1) as u32 != name.as_str().get_char(1) as u32
            };
            if last_of_suit {
                push_char(&mut result, name.as_str().get_char(1));
            }
            i += 1;
        }
        result
    }

    /// Reads the tiles written in a run of text: rank digits queue up until
    /// a suit letter closes them, as in `123m55z`; anything else is passed
    /// over, and the honor ranks 8 and 9 name no tile.
    pub fn str_to_tiles(hand_str: &str) -> (r: Vec<Tile>) {
        let n = hand_str.unicode_len();
        let mut result: Vec<Tile> = Vec::new();
        let mut stack: Vec<char> = Vec::new();
        let mut i: usize = 0;
        while i < n
            invariant
                n == hand_str@.len(),
                forall|q: int| 0 <= q < stack@.len() ==> 49 <= #[trigger] stack@[q] as u32 <= 57,
            decreases n - i,
        {
            let c = hand_str.get_char(i);
            let cu = c as u32;
            if 49 <= cu && cu <= 57 {
                stack.push(c);
            } else if c == 'm' || c == 'p' || c == 's' || c == 'z' {
                let offset: u32 = if c == 'm' {
                    0
                } else if c == 'p' {
                    9
                } else if c == 's' {
                    18
                } else {
                    27
                };
                let sn = stack.len();
                let mut j: usize = 0;
                while j < sn
                    invariant
                        sn == stack@.len(),
                        offset == 0 || offset == 9 || offset == 18 || offset == 27,
                        forall|q: int| 0 <= q < stack@.len() ==> 49 <= #[trigger] stack@[q] as u32
                            <= 57,
                    decreases sn - j,
                {
                    let d = stack[j] as u32;
                    if offset != 27 || d <= 55 {
                        result.push(Tile::new(offset + (d - 49)));
                    }
                    j += 1;
                }
                stack = Vec::new();
            }
            i += 1;
        }
        result
    }

    /// Reads a hand from text: the first run of tiles is the concealed
    /// hand, a later run of three tiles (or four of one kind) is a meld,
    /// and a run of one tile is the drawn tile.
    pub fn from(hand_str: &str) -> (h: Hand) {
        let n = hand_str.unicode_len();
        let mut concealed: Vec<Tile> = Vec::new();
        let mut melds: Vec<OpenTiles> = Vec::new();
        let mut drawn: Option<Tile> = None;
        let mut first = true;
        let mut start: usize = 0;
        let mut i: usize = 0;
        while i < n
            invariant
                n == hand_str@.len(),
                start <= i <= n,
            decreases n - i,
        {
            if hand_str.get_char(i) == ' ' {
                let group = hand_str.substring_char(start, i);
                Hand::take_group(group, first, &mut concealed, &mut melds, &mut drawn);
                first = false;
                start = i + 1;
            }
            i += 1;
        }
        let group = hand_str.substring_char(start, n);
        Hand::take_group(group, first, &mut concealed, &mut melds, &mut drawn);
        Hand::new_with_opened(concealed, melds, drawn)
    }

    /// Sorts one space-separated run of tiles into the hand being read.
    fn take_group(
        group: &str,
        first: bool,
        concealed: &mut Vec<Tile>,
        melds: &mut Vec<OpenTiles>,
        drawn: &mut Option<Tile>,
    ) {
        let tiles = Hand::str_to_tiles(group);
        if first || tiles.len() == 0 {
            append_tiles(concealed, &tiles);
        } else if tiles.len() == 1 {
            *drawn = Some(tiles[0]);
        } else if tiles.len() == 3 || (tiles.len() == 4 && tiles[0].get() == tiles[3].get()) {
            let category = if tiles[0].get() == tiles[1].get() {
                if tiles.len() == 4 {
                    OpenType::Kan
                } else {
                    OpenType::Pon
                }
            } else {
                OpenType::Chi
            };
            melds.push(
                OpenTiles {
                    tiles: [tiles[0], tiles[1], tiles[2]],
                    category,
                    from: OpenFrom::Previous,
                },
            );
        } else {
            append_tiles(concealed, &tiles);
        }
    }
}

/// Sorts the tiles in place by kind, ascending.
fn sort_tiles(v: &mut Vec<Tile>)
    ensures
        final(v)@.len() == old(v)@.len(),
{
    let n = v.len();
    let mut i: usize = 0;
    while i < n
        invariant
            v@.len() == n,
            i <= n,
        decreases n - i,
    {
        let mut min: usize = i;
        let mut j: usize = i + 1;
        while j < n
            invariant
                v@.len() == n,
                i <= min < n,
                i < j,
            decreases n - j,
        {
            if v[j].get() < v[min].get() {
                min = j;
            }
            j += 1;
        }
        let a = v[i];
        let b = v[min];
        v.set(i, b);
        v.set(min, a);
        i += 1;
    }
}

/// Appends every tile of `src` to `dst`.
fn append_tiles(dst: &mut Vec<Tile>, src: &Vec<Tile>)
    ensures
        final(dst)@ == old(dst)@ + src@,
{
    let n = src.len();
    let mut i: usize = 0;
    while i < n
        invariant
            n == src@.len(),
            i <= n,
            dst@ == old(dst)@ + src@.take(i as int),
        decreases n - i,
    {
        dst.push(src[i]);
        proof {
            assert(old(dst)@ + src@.take(i + 1) =~= (old(dst)@ + src@.take(i as int)).push(
                src@[i as int],
            ));
        }
        i += 1;
    }
    proof {
        assert(src@.take(n as int) =~= src@);
    }
}

/// Appending a slot adds its value to the sum.
proof fn lemma_total_push_from(s: Seq<u32>, v: u32, i: int)
    requires
        0 <= i <= s.len(),
    ensures
        total_from(s.push(v), i) == total_from(s, i) + v,
    decreases s.len() - i,
{
    if i < s.len() {
        lemma_total_push_from(s, v, i + 1);
    } else {
        assert(s.push(v).len() == s.len() + 1);
        assert(s.push(v)[i] == v);
        assert(total_from(s.push(v), i + 1) == 0);
        assert(total_from(s, i) == 0);
    }
}

proof fn lemma_total_push(s: Seq<u32>, v: u32)
    ensures
        counts_total(s.push(v)) == counts_total(s) + v,
{
    lemma_total_push_from(s, v, 0);
}

} // verus!
