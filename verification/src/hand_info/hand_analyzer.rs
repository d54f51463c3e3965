use vstd::prelude::*;

use crate::hand::Hand;
use crate::hand_info::block::{Same2, Same3, Sequential2, Sequential3};
use crate::tile::{
    counts_total, is_terminal_or_honor_kind, lemma_total_nonneg, lemma_total_update, total_from,
    TileSummarize, TileType,
};
use vstd::math::min;
use crate::winning_hand::name::WinningHandForm;

verus! {

/// The sum of the first `i` slots of a count vector.
pub open spec fn sum_to(s: Seq<u32>, i: int) -> int
    decreases i,
{
    if i <= 0 {
        0
    } else {
        sum_to(s, i - 1) + s[i - 1]
    }
}

/// The prefix sum and the tail sum together make the whole sum.
pub proof fn lemma_prefix_suffix(s: Seq<u32>, i: int)
    requires
        0 <= i <= s.len(),
    ensures
        sum_to(s, i) + total_from(s, i) == counts_total(s),
    decreases i,
{
    if i > 0 {
        lemma_prefix_suffix(s, i - 1);
    }
}

/// How many of the first `i` kinds hold at least one pair.
pub open spec fn sp_pairs(s: Seq<u32>, i: int) -> nat
    decreases i,
{
    if i <= 0 {
        0
    } else {
        sp_pairs(s, i - 1) + (if s[i - 1] >= 2 {
            1nat
        } else {
            0nat
        })
    }
}

/// How many of the first `i` kinds are present at all.
pub open spec fn sp_kinds(s: Seq<u32>, i: int) -> nat
    decreases i,
{
    if i <= 0 {
        0
    } else {
        sp_kinds(s, i - 1) + (if s[i - 1] > 0 {
            1nat
        } else {
            0nat
        })
    }
}

/// The seven pairs distance: one short of the pairs still wanted, also
/// counting the distinct kinds a short hand must spread to. A kind with four
/// copies still counts as one pair.
pub open spec fn seven_pairs_distance(s: Seq<u32>) -> int {
    7 - sp_pairs(s, 34) + (if sp_kinds(s, 34) < 7 {
        7 - sp_kinds(s, 34)
    } else {
        0int
    }) - 1
}

/// Every counted pair takes two tiles of the prefix.
pub proof fn lemma_sp_pairs_bound(s: Seq<u32>, i: int)
    requires
        0 <= i <= s.len(),
    ensures
        2 * sp_pairs(s, i) <= sum_to(s, i),
        sp_pairs(s, i) <= sp_kinds(s, i),
        sp_kinds(s, i) <= sum_to(s, i),
    decreases i,
{
    if i > 0 {
        lemma_sp_pairs_bound(s, i - 1);
    }
}

/// How many of the first `i` kinds are terminals or honors and present.
pub open spec fn to_kinds(s: Seq<u32>, i: int) -> nat
    decreases i,
{
    if i <= 0 {
        0
    } else {
        to_kinds(s, i - 1) + (if is_terminal_or_honor_kind(i - 1) && s[i - 1] > 0 {
            1nat
        } else {
            0nat
        })
    }
}

/// Whether a pair sits among the first `i` kinds that are terminals or
/// honors.
pub open spec fn to_has_pair(s: Seq<u32>, i: int) -> bool
    decreases i,
{
    if i <= 0 {
        false
    } else {
        to_has_pair(s, i - 1) || (is_terminal_or_honor_kind(i - 1) && s[i - 1] >= 2)
    }
}

/// How many of the first `i` kinds are terminals or honors at all.
pub open spec fn orphan_kind_count(i: int) -> nat
    decreases i,
{
    if i <= 0 {
        0
    } else {
        orphan_kind_count(i - 1) + (if is_terminal_or_honor_kind(i - 1) {
            1nat
        } else {
            0nat
        })
    }
}

/// The thirteen orphans distance: one short of the missing kinds of the
/// thirteen, less one when a pair is already among them.
pub open spec fn thirteen_orphans_distance(s: Seq<u32>) -> int {
    14 - to_kinds(s, 34) - (if to_has_pair(s, 34) {
        1int
    } else {
        0int
    }) - 1
}

/// At most thirteen kinds are terminals or honors.
pub proof fn lemma_to_kinds_bound(s: Seq<u32>, i: int)
    requires
        0 <= i <= 34,
    ensures
        to_kinds(s, i) <= orphan_kind_count(i),
        to_has_pair(s, i) ==> to_kinds(s, i) >= 1,
    decreases i,
{
    if i > 0 {
        lemma_to_kinds_bound(s, i - 1);
    }
}

proof fn lemma_orphan_kind_count_34()
    ensures
        orphan_kind_count(34) == 13,
{
    reveal_with_fuel(orphan_kind_count, 35);
}

/// The kinds, ascending, whose count affords a pair: the pair list that the
/// seven pairs analysis retains.
pub open spec fn sp_pair_kinds(s: Seq<u32>, i: int) -> Seq<int>
    decreases i,
{
    if i <= 0 {
        Seq::empty()
    } else {
        sp_pair_kinds(s, i - 1) + (if s[i - 1] >= 2 {
            seq![i - 1]
        } else {
            Seq::<int>::empty()
        })
    }
}

/// What a kind leaves over once the seven pairs analysis takes its pair.
pub open spec fn sp_rest(s: Seq<u32>, k: int) -> int {
    if s[k] >= 2 {
        s[k] - 2
    } else {
        s[k] as int
    }
}

/// The leftover tiles of the seven pairs analysis, ascending, with
/// multiplicity.
pub open spec fn sp_singles(s: Seq<u32>, i: int) -> Seq<u32>
    decreases i,
{
    if i <= 0 {
        Seq::empty()
    } else {
        sp_singles(s, i - 1) + Seq::new(sp_rest(s, i - 1) as nat, |x: int| (i - 1) as u32)
    }
}

proof fn lemma_sp_counters_agree(s1: Seq<u32>, s2: Seq<u32>, i: int)
    requires
        0 <= i <= 34,
        s1.len() == 34,
        s2.len() == 34,
        forall|k: int| 0 <= k < 34 ==> ((s1[k] >= 2) == (s2[k] >= 2) && (s1[k] > 0) == (s2[k]
            > 0)),
    ensures
        sp_pairs(s1, i) == sp_pairs(s2, i),
        sp_kinds(s1, i) == sp_kinds(s2, i),
    decreases i,
{
    if i > 0 {
        lemma_sp_counters_agree(s1, s2, i - 1);
    }
}

/// The seven pairs distance reads only whether each kind is present and
/// whether it affords a pair, never how many copies beyond two it has: a
/// kind held four times counts exactly as a kind held twice, one pair.
pub proof fn lemma_seven_pairs_distance_ignores_extras(s1: Seq<u32>, s2: Seq<u32>)
    requires
        s1.len() == 34,
        s2.len() == 34,
        forall|k: int| 0 <= k < 34 ==> ((s1[k] >= 2) == (s2[k] >= 2) && (s1[k] > 0) == (s2[k]
            > 0)),
    ensures
        seven_pairs_distance(s1) == seven_pairs_distance(s2),
{
    lemma_sp_counters_agree(s1, s2, 34);
}

/// A quad is never credited as two pairs: cutting a kind's four copies down
/// to two leaves the seven pairs distance unchanged.
pub proof fn lemma_seven_pairs_quad_counts_once(s: Seq<u32>, k: int)
    requires
        s.len() == 34,
        0 <= k < 34,
        s[k] == 4,
    ensures
        seven_pairs_distance(s) == seven_pairs_distance(s.update(k, 2)),
{
    lemma_seven_pairs_distance_ignores_extras(s, s.update(k, 2));
}

/// The seven pairs analysis is a function of the tallied hand: two
/// analyses of hands with one tally agree field by field, the retained
/// pairs compared by their kinds.
pub proof fn lemma_seven_pairs_analysis_deterministic(a: HandAnalyzer, b: HandAnalyzer, h: Hand)
    requires
        is_seven_pairs_result(a, h),
        is_seven_pairs_result(b, h),
    ensures
        a.shanten == b.shanten,
        a.form == b.form,
        a.same3@ == b.same3@,
        a.sequential3@ == b.sequential3@,
        a.same2@.map_values(|bb: Same2| bb@) == b.same2@.map_values(|bb: Same2| bb@),
        a.sequential2@ == b.sequential2@,
        a.single@ == b.single@,
{
    assert(a.same3@ =~= b.same3@);
    assert(a.sequential3@ =~= b.sequential3@);
    assert(a.sequential2@ =~= b.sequential2@);
}

/// The thirteen orphans analysis is a function of the tallied hand: two
/// analyses of hands with one tally agree field by field.
pub proof fn lemma_thirteen_orphans_analysis_deterministic(
    a: HandAnalyzer,
    b: HandAnalyzer,
    h: Hand,
)
    requires
        is_thirteen_orphans_result(a, h),
        is_thirteen_orphans_result(b, h),
    ensures
        a.shanten == b.shanten,
        a.form == b.form,
        a.same3@ == b.same3@,
        a.sequential3@ == b.sequential3@,
        a.same2@ == b.same2@,
        a.sequential2@ == b.sequential2@,
        a.single@ == b.single@,
{
    assert(a.same3@ =~= b.same3@);
    assert(a.sequential3@ =~= b.sequential3@);
    assert(a.same2@ =~= b.same2@);
    assert(a.sequential2@ =~= b.sequential2@);
    assert(a.single@ =~= b.single@);
}

/// The standard-form distance and form are functions of the tallied hand:
/// two analyses of one hand agree on them. The retained decomposition is
/// pinned only up to the consistency the search states, not to the bit.
pub proof fn lemma_normal_analysis_value_deterministic(a: HandAnalyzer, b: HandAnalyzer, h: Hand)
    requires
        is_normal_result(a, h),
        is_normal_result(b, h),
    ensures
        a.shanten == b.shanten,
        a.form == b.form,
{
}

/// Whether an analysis found a complete hand.
pub open spec fn spec_has_won(hand: HandAnalyzer) -> bool {
    hand.shanten == -1
}

/// Whether the retained decomposition holds a triplet of kind `k`.
pub open spec fn has_same3(hand: HandAnalyzer, k: int) -> bool {
    exists|i: int| 0 <= i < hand.same3@.len() && hand.same3@[i]@ == k
}

/// Whether the retained decomposition holds a run whose low kind is `k`.
pub open spec fn has_seq3(hand: HandAnalyzer, k: int) -> bool {
    exists|i: int| 0 <= i < hand.sequential3@.len() && hand.sequential3@[i]@ == k
}

/// Whether the retained decomposition holds a pair of kind `k`.
pub open spec fn has_same2(hand: HandAnalyzer, k: int) -> bool {
    exists|i: int| 0 <= i < hand.same2@.len() && hand.same2@[i]@ == k
}

/// Whether a complete hand was found.
pub fn has_won(hand: &HandAnalyzer) -> (r: bool)
    ensures
        r == spec_has_won(*hand),
{
    hand.shanten == -1
}

/// Looks for a triplet of kind `k` in the retained decomposition.
pub fn same3_contains(hand: &HandAnalyzer, k: TileType) -> (r: bool)
    ensures
        r == has_same3(*hand, k as int),
{
    let n = hand.same3.len();
    let mut i: usize = 0;
    let mut found = false;
    while i < n
        invariant
            i <= n,
            n == hand.same3@.len(),
            found ==> has_same3(*hand, k as int),
            !found ==> forall|j: int| 0 <= j < i ==> hand.same3@[j]@ != k as int,
        decreases n - i,
    {
        if hand.same3[i].get()[0] == k {
            found = true;
        }
        i += 1;
    }
    found
}

/// Looks for a run of low kind `k` in the retained decomposition.
pub fn seq3_contains(hand: &HandAnalyzer, k: TileType) -> (r: bool)
    ensures
        r == has_seq3(*hand, k as int),
{
    let n = hand.sequential3.len();
    let mut i: usize = 0;
    let mut found = false;
    while i < n
        invariant
            i <= n,
            n == hand.sequential3@.len(),
            found ==> has_seq3(*hand, k as int),
            !found ==> forall|j: int| 0 <= j < i ==> hand.sequential3@[j]@ != k as int,
        decreases n - i,
    {
        if hand.sequential3[i].get()[0] == k {
            found = true;
        }
        i += 1;
    }
    found
}

/// Looks for a pair of kind `k` in the retained decomposition.
pub fn same2_contains(hand: &HandAnalyzer, k: TileType) -> (r: bool)
    ensures
        r == has_same2(*hand, k as int),
{
    let n = hand.same2.len();
    let mut i: usize = 0;
    let mut found = false;
    while i < n
        invariant
            i <= n,
            n == hand.same2@.len(),
            found ==> has_same2(*hand, k as int),
            !found ==> forall|j: int| 0 <= j < i ==> hand.same2@[j]@ != k as int,
        decreases n - i,
    {
        if hand.same2[i].get()[0] == k {
            found = true;
        }
        i += 1;
    }
    found
}

/// The block decomposition at which a hand's distance to a winning shape is
/// least, for one winning form.
///
/// For the standard form the retained blocks are the first decomposition,
/// in search order, that reaches the least distance; for seven pairs the
/// pairs and leftovers are retained; for thirteen orphans only the distance
/// is meaningful.
#[derive(Debug)]
pub struct HandAnalyzer {
    /// The distance to a winning hand: 0 is tenpai, -1 is complete.
    pub shanten: i32,
    /// The winning form this analysis aimed at.
    pub form: WinningHandForm,
    /// The triplets of the retained decomposition.
    pub same3: Vec<Same3>,
    /// The runs of the retained decomposition.
    pub sequential3: Vec<Sequential3>,
    /// The pairs of the retained decomposition.
    pub same2: Vec<Same2>,
    /// The proto-runs of the retained decomposition.
    pub sequential2: Vec<Sequential2>,
    /// The tiles of the hand that no block took.
    pub single: Vec<TileType>,
}

/// What the seven pairs analysis of a hand must hand back.
pub open spec fn is_seven_pairs_result(r: HandAnalyzer, h: Hand) -> bool {
    &&& r.form == WinningHandForm::SevenPairs
    &&& r.shanten as int == seven_pairs_distance(h.spec_counts())
    &&& r.same3@.len() == 0
    &&& r.sequential3@.len() == 0
    &&& r.sequential2@.len() == 0
    &&& r.same2@.map_values(|b: Same2| b@) == sp_pair_kinds(h.spec_counts(), 34)
    &&& r.single@ == sp_singles(h.spec_counts(), 34)
}

/// What the thirteen orphans analysis of a hand must hand back.
pub open spec fn is_thirteen_orphans_result(r: HandAnalyzer, h: Hand) -> bool {
    &&& r.form == WinningHandForm::ThirteenOrphens
    &&& r.shanten as int == thirteen_orphans_distance(h.spec_counts())
    &&& r.same3@.len() == 0
    &&& r.sequential3@.len() == 0
    &&& r.same2@.len() == 0
    &&& r.sequential2@.len() == 0
    &&& r.single@.len() == 0
}

/// What the standard form search of a hand must hand back: the distance in
/// its proven range, and a decomposition that takes each tile of the hand
/// exactly once.
pub open spec fn is_normal_result(r: HandAnalyzer, h: Hand) -> bool {
    &&& r.form == WinningHandForm::Normal
    &&& -1 <= r.shanten as int <= 8
    &&& 3 * (r.same3@.len() + r.sequential3@.len()) + 2 * (r.same2@.len() + r.sequential2@.len())
        + r.single@.len() == h.spec_total()
    &&& r.shanten as int == normal_tally(
        (r.same3@.len() + r.sequential3@.len()) as int,
        (r.same2@.len() + r.sequential2@.len()) as int,
        r.same2@.len() > 0,
    )
    &&& forall|k: int| 0 <= k < 34 ==> decomposition_kind_tiles(r, k) == h.spec_count_of(k)
    &&& r.shanten as int == standard_form_distance(h.spec_counts())
    &&& block_views_ok(r.same3@, r.sequential3@, r.same2@, r.sequential2@)
    &&& singles_ok(r.single@)
}

/// A standard-form analysis of a full fourteen-tile hand that reports the
/// hand complete retained a true winning shape: exactly four melds, one
/// head pair, and not a single loose tile.
pub proof fn lemma_complete_normal_hand_shape(r: HandAnalyzer, h: Hand)
    requires
        is_normal_result(r, h),
        r.shanten == -1,
        h.spec_total() == 14,
    ensures
        r.same3@.len() + r.sequential3@.len() == 4,
        r.same2@.len() == 1,
        r.sequential2@.len() == 0,
        r.single@.len() == 0,
{
}

impl HandAnalyzer {
    /// Analyzes the hand against each of the three winning forms and keeps
    /// the outcome whose distance is least; on a tie seven pairs beats
    /// thirteen orphans beats the standard form.
    pub fn new(hand: &Hand) -> (r: HandAnalyzer)
        requires
            hand.spec_total() <= 14,
        ensures
            is_seven_pairs_result(r, *hand) || is_thirteen_orphans_result(r, *hand)
                || is_normal_result(r, *hand),
            r.shanten as int == min(
                min(
                    seven_pairs_distance(hand.spec_counts()),
                    thirteen_orphans_distance(hand.spec_counts()),
                ),
                standard_form_distance(hand.spec_counts()),
            ),
            r.form == WinningHandForm::SevenPairs <==> (seven_pairs_distance(hand.spec_counts())
                <= thirteen_orphans_distance(hand.spec_counts()) && seven_pairs_distance(
                hand.spec_counts(),
            ) <= standard_form_distance(hand.spec_counts())),
            r.form == WinningHandForm::ThirteenOrphens <==> (thirteen_orphans_distance(
                hand.spec_counts(),
            ) < seven_pairs_distance(hand.spec_counts()) && thirteen_orphans_distance(
                hand.spec_counts(),
            ) <= standard_form_distance(hand.spec_counts())),
            r.form == WinningHandForm::Normal <==> (standard_form_distance(hand.spec_counts())
                < seven_pairs_distance(hand.spec_counts()) && standard_form_distance(
                hand.spec_counts(),
            ) < thirteen_orphans_distance(hand.spec_counts())),
            -1 <= r.shanten <= 8,
    {
        let sp = HandAnalyzer::calc_seven_pairs(hand);
        let to = HandAnalyzer::calc_thirteen_orphens(hand);
        let normal = HandAnalyzer::calc_normal_form(hand);
        let m1 = if sp.shanten <= to.shanten {
            sp
        } else {
            to
        };
        if m1.shanten <= normal.shanten {
            m1
        } else {
            normal
        }
    }

    /// Analyzes the hand against the one winning form asked for.
    pub fn new_by_form(hand: &Hand, form: WinningHandForm) -> (r: HandAnalyzer)
        requires
            hand.spec_total() <= 14,
        ensures
            form == WinningHandForm::SevenPairs ==> is_seven_pairs_result(r, *hand),
            form == WinningHandForm::ThirteenOrphens ==> is_thirteen_orphans_result(r, *hand),
            form == WinningHandForm::Normal ==> is_normal_result(r, *hand),
            -1 <= r.shanten,
    {
        match form {
            WinningHandForm::SevenPairs => HandAnalyzer::calc_seven_pairs(hand),
            WinningHandForm::ThirteenOrphens => HandAnalyzer::calc_thirteen_orphens(hand),
            WinningHandForm::Normal => HandAnalyzer::calc_normal_form(hand),
        }
    }

    /// Counts the distance to seven pairs and retains the pairs found; a
    /// kind with four copies affords only one pair.
    fn calc_seven_pairs(hand: &Hand) -> (r: HandAnalyzer)
        requires
            hand.spec_total() <= 14,
        ensures
            is_seven_pairs_result(r, *hand),
            r.shanten as int >= -1,
    {
        let ghost c = hand.spec_counts();
        let mut pair: u32 = 0;
        let mut kind: u32 = 0;
        let mut t = hand.summarize_tiles();
        let mut same2: Vec<Same2> = Vec::new();

        let mut i: usize = 0;
        while i < 34
            invariant
                i <= 34,
                t@.len() == 34,
                c.len() == 34,
                pair == sp_pairs(c, i as int),
                kind == sp_kinds(c, i as int),
                pair <= kind <= i,
                same2@.map_values(|b: Same2| b@) == sp_pair_kinds(c, i as int),
                forall|k: int| 0 <= k < i ==> t@[k] as int == sp_rest(c, k),
                forall|k: int| i <= k < 34 ==> t@[k] == c[k],
                2 * pair <= sum_to(c, i as int),
                sum_to(c, i as int) <= counts_total(c),
                counts_total(c) == hand.spec_total(),
            decreases 34 - i,
        {
            proof {
                lemma_prefix_suffix(c, i as int);
                crate::tile::lemma_total_nonneg(c, i as int);
                crate::tile::lemma_slot_le_total(c, i as int, i as int);
            }
            if t[i] > 0 {
                kind += 1;
                if t[i] >= 2 {
                    pair += 1;
                    let ghost before = same2@;
                    match Same2::new(i as u32, i as u32) {
                        Ok(b) => {
                            same2.push(b);
                            proof {
                                assert(same2@.map_values(|bb: Same2| bb@) =~= before.map_values(
                                    |bb: Same2| bb@,
                                ).push(b@));
                                assert(sp_pair_kinds(c, i + 1) =~= sp_pair_kinds(c, i as int)
                                    + seq![i as int]);
                                assert(same2@.map_values(|bb: Same2| bb@) =~= sp_pair_kinds(
                                    c,
                                    i + 1,
                                ));
                            }
                        },
                        Err(_) => {
                            proof {
                                assert(false);
                            }
                        },
                    }
                    let cur = t[i];
                    t.set(i, cur - 2);
                }
            }
            proof {
                if !(c[i as int] >= 2) {
                    assert(sp_pair_kinds(c, i + 1) =~= sp_pair_kinds(c, i as int));
                }
            }
            i += 1;
        }
        let num_to_win: i32 = 7 - (pair as i32) + (if kind < 7 {
            7 - (kind as i32)
        } else {
            0
        });
        let mut single: Vec<TileType> = Vec::new();
        let mut j: usize = 0;
        while j < 34
            invariant
                j <= 34,
                t@.len() == 34,
                c.len() == 34,
                forall|k: int| 0 <= k < 34 ==> t@[k] as int == sp_rest(c, k),
                single@ == sp_singles(c, j as int),
            decreases 34 - j,
        {
            let cnt = t[j];
            let ghost before = single@;
            push_copies(&mut single, j as u32, cnt);
            proof {
                assert(single@ =~= sp_singles(c, j + 1));
            }
            j += 1;
        }
        proof {
            lemma_sp_pairs_bound(c, 34);
        }
        HandAnalyzer {
            shanten: num_to_win - 1,
            form: WinningHandForm::SevenPairs,
            same3: Vec::new(),
            sequential3: Vec::new(),
            same2,
            sequential2: Vec::new(),
            single,
        }
    }

    /// Counts the distance to thirteen orphans over the fixed thirteen-kind
    /// set; no decomposition is retained.
    fn calc_thirteen_orphens(hand: &Hand) -> (r: HandAnalyzer)
        requires
            hand.spec_total() <= 14,
        ensures
            is_thirteen_orphans_result(r, *hand),
            r.shanten as int >= -1,
    {
        let ghost c = hand.spec_counts();
        let mut pair: u32 = 0;
        let mut kind: u32 = 0;
        let t = hand.summarize_tiles();

        let mut i: usize = 0;
        while i < 34
            invariant
                i <= 34,
                t@.len() == 34,
                c.len() == 34,
                t@ == c,
                kind == to_kinds(c, i as int),
                (pair > 0) == to_has_pair(c, i as int),
                pair <= kind <= i,
                kind <= orphan_kind_count(i as int),
            decreases 34 - i,
        {
            if (i == 0 || i == 8 || i == 9 || i == 17 || i == 18 || i == 26 || i >= 27) && t[i]
                > 0 {
                kind += 1;
                if t[i] >= 2 {
                    pair += 1;
                }
            }
            i += 1;
        }
        proof {
            lemma_orphan_kind_count_34();
            lemma_to_kinds_bound(c, 34);
        }
        let num_to_win: i32 = 14 - (kind as i32) - (if pair > 0 {
            1
        } else {
            0
        });
        HandAnalyzer {
            shanten: num_to_win - 1,
            form: WinningHandForm::ThirteenOrphens,
            same3: Vec::new(),
            sequential3: Vec::new(),
            same2: Vec::new(),
            sequential2: Vec::new(),
            single: Vec::new(),
        }
    }

    /// Searches the standard form: see the search functions below.
    fn calc_normal_form(hand: &Hand) -> (r: HandAnalyzer)
        requires
            hand.spec_total() <= 14,
        ensures
            is_normal_result(r, *hand),
    {
        let t = hand.summarize_tiles();
        normal_form_search(t, Ghost(hand.spec_total()))
    }
}

/// Appends `c` copies of the kind `k`.
fn push_copies(v: &mut Vec<u32>, k: u32, c: u32)
    ensures
        final(v)@ == old(v)@ + Seq::new(c as nat, |x: int| k),
{
    let mut j: u32 = 0;
    while j < c
        invariant
            j <= c,
            v@ == old(v)@ + Seq::new(j as nat, |x: int| k),
        decreases c - j,
    {
        v.push(k);
        proof {
            assert(old(v)@ + Seq::new((j + 1) as nat, |x: int| k) =~= (old(v)@ + Seq::new(
                j as nat,
                |x: int| k,
            )).push(k));
        }
        j += 1;
    }
}

/// The distance read off one search state: `m` melds and `p` filler blocks,
/// the fillers capped so that at most five blocks count, and one more
/// exchange owed when five blocks stand but none is a pair.
pub open spec fn normal_tally(m: int, p: int, has_pair: bool) -> int {
    let cap = if 5 - m >= 0 {
        5 - m
    } else {
        0int
    };
    let pc = if p <= cap {
        p
    } else {
        cap
    };
    8 - 2 * m - pc + (if m + pc == 5 && !has_pair {
        1int
    } else {
        0int
    })
}

/// How many tiles of kind `k` a list of triplets contributes.
pub open spec fn count3_tiles(s: Seq<Same3>, k: int) -> int
    decreases s.len(),
{
    if s.len() == 0 {
        0
    } else {
        count3_tiles(s.drop_last(), k) + (if s.last()@ == k {
            3int
        } else {
            0int
        })
    }
}

/// How many tiles of kind `k` a list of runs contributes.
pub open spec fn countq_tiles(s: Seq<Sequential3>, k: int) -> int
    decreases s.len(),
{
    if s.len() == 0 {
        0
    } else {
        countq_tiles(s.drop_last(), k) + (if s.last()@ <= k <= s.last()@ + 2 {
            1int
        } else {
            0int
        })
    }
}

/// How many tiles of kind `k` a list of pairs contributes.
pub open spec fn count2_tiles(s: Seq<Same2>, k: int) -> int
    decreases s.len(),
{
    if s.len() == 0 {
        0
    } else {
        count2_tiles(s.drop_last(), k) + (if s.last()@ == k {
            2int
        } else {
            0int
        })
    }
}

/// How many tiles of kind `k` a list of proto-runs contributes.
pub open spec fn countq2_tiles(s: Seq<Sequential2>, k: int) -> int
    decreases s.len(),
{
    if s.len() == 0 {
        0
    } else {
        countq2_tiles(s.drop_last(), k) + (if s.last()@.0 == k {
            1int
        } else {
            0int
        }) + (if s.last()@.1 == k {
            1int
        } else {
            0int
        })
    }
}

/// How many entries of a list of loose tiles are of kind `k`.
pub open spec fn count_u32(s: Seq<u32>, k: int) -> int
    decreases s.len(),
{
    if s.len() == 0 {
        0
    } else {
        count_u32(s.drop_last(), k) + (if s.last() as int == k {
            1int
        } else {
            0int
        })
    }
}

/// How many tiles of kind `k` a search state commits: the pre-committed
/// blocks and the working block lists together.
pub open spec fn search_kind_tiles(
    i_s3: Seq<Same3>,
    i_q3: Seq<Sequential3>,
    s3: Seq<Same3>,
    q3: Seq<Sequential3>,
    s2: Seq<Same2>,
    q2: Seq<Sequential2>,
    k: int,
) -> int {
    count3_tiles(i_s3, k) + countq_tiles(i_q3, k) + count3_tiles(s3, k) + countq_tiles(q3, k)
        + count2_tiles(s2, k) + countq2_tiles(q2, k)
}

/// How many tiles of kind `k` a retained decomposition holds, loose tiles
/// and pre-committed blocks included.
pub open spec fn retained_kind_tiles(
    s3r: Seq<Same3>,
    q3r: Seq<Sequential3>,
    s2r: Seq<Same2>,
    q2r: Seq<Sequential2>,
    singles: Seq<u32>,
    i_s3: Seq<Same3>,
    i_q3: Seq<Sequential3>,
    k: int,
) -> int {
    count3_tiles(s3r, k) + countq_tiles(q3r, k) + count2_tiles(s2r, k) + countq2_tiles(q2r, k)
        + count_u32(singles, k) + count3_tiles(i_s3, k) + countq_tiles(i_q3, k)
}

/// The view of a proto-run names a real proto-run: an in-suit adjacent
/// pair or a one-gap pair.
pub open spec fn proto_run_ok(v: (int, int)) -> bool {
    0 <= v.0 && ((v.1 == v.0 + 1 && adjacent_low_ok(v.0)) || (v.1 == v.0 + 2 && run_low_ok(v.0)))
}

/// Every block view of the four lists is in range: triplet and pair kinds
/// below 34, run lows at in-suit run starts, proto-runs well shaped.
pub open spec fn block_views_ok(
    s3: Seq<Same3>,
    q3: Seq<Sequential3>,
    s2: Seq<Same2>,
    q2: Seq<Sequential2>,
) -> bool {
    &&& forall|i: int| 0 <= i < s3.len() ==> 0 <= (#[trigger] s3[i])@ < 34
    &&& forall|i: int| 0 <= i < q3.len() ==> (0 <= (#[trigger] q3[i])@ && run_low_ok(q3[i]@))
    &&& forall|i: int| 0 <= i < s2.len() ==> 0 <= (#[trigger] s2[i])@ < 34
    &&& forall|i: int| 0 <= i < q2.len() ==> proto_run_ok((#[trigger] q2[i])@)
}

/// Every loose tile is a kind code below 34.
pub open spec fn singles_ok(sg: Seq<u32>) -> bool {
    forall|i: int| 0 <= i < sg.len() ==> (#[trigger] sg[i]) < 34
}

/// How many tiles of kind `k` a finished analysis holds over all its
/// blocks and loose tiles.
pub open spec fn decomposition_kind_tiles(r: HandAnalyzer, k: int) -> int {
    count3_tiles(r.same3@, k) + countq_tiles(r.sequential3@, k) + count2_tiles(r.same2@, k)
        + countq2_tiles(r.sequential2@, k) + count_u32(r.single@, k)
}

proof fn lemma_count_u32_repeat(a: Seq<u32>, v: u32, n: nat, k: int)
    ensures
        count_u32(a + Seq::new(n, |x: int| v), k) == count_u32(a, k) + (if v as int == k {
            n as int
        } else {
            0int
        }),
    decreases n,
{
    if n == 0 {
        assert(a + Seq::new(0, |x: int| v) =~= a);
    } else {
        lemma_count_u32_repeat(a, v, (n - 1) as nat, k);
        assert(a + Seq::new(n, |x: int| v) =~= (a + Seq::new((n - 1) as nat, |x: int| v)).push(v));
        assert((a + Seq::new((n - 1) as nat, |x: int| v)).push(v).drop_last() =~= a + Seq::new(
            (n - 1) as nat,
            |x: int| v,
        ));
    }
}

proof fn lemma_count_expand(s: Seq<u32>, i: int, k: int)
    requires
        0 <= i <= 34,
    ensures
        count_u32(expand_counts(s, i), k) == (if 0 <= k < i {
            s[k] as int
        } else {
            0int
        }),
    decreases i,
{
    if i > 0 {
        lemma_count_expand(s, i - 1, k);
        lemma_count_u32_repeat(expand_counts(s, i - 1), (i - 1) as u32, s[i - 1] as nat, k);
    }
}

proof fn lemma_count3_concat(a: Seq<Same3>, b: Seq<Same3>, k: int)
    ensures
        count3_tiles(a + b, k) == count3_tiles(a, k) + count3_tiles(b, k),
    decreases b.len(),
{
    if b.len() == 0 {
        assert(a + b =~= a);
    } else {
        lemma_count3_concat(a, b.drop_last(), k);
        assert((a + b).drop_last() =~= a + b.drop_last());
        assert((a + b).last() == b.last());
    }
}

proof fn lemma_countq_concat(a: Seq<Sequential3>, b: Seq<Sequential3>, k: int)
    ensures
        countq_tiles(a + b, k) == countq_tiles(a, k) + countq_tiles(b, k),
    decreases b.len(),
{
    if b.len() == 0 {
        assert(a + b =~= a);
    } else {
        lemma_countq_concat(a, b.drop_last(), k);
        assert((a + b).drop_last() =~= a + b.drop_last());
        assert((a + b).last() == b.last());
    }
}

proof fn lemma_count_u32_concat(a: Seq<u32>, b: Seq<u32>, k: int)
    ensures
        count_u32(a + b, k) == count_u32(a, k) + count_u32(b, k),
    decreases b.len(),
{
    if b.len() == 0 {
        assert(a + b =~= a);
    } else {
        lemma_count_u32_concat(a, b.drop_last(), k);
        assert((a + b).drop_last() =~= a + b.drop_last());
        assert((a + b).last() == b.last());
    }
}

/// The standard-form distance of a tallied hand, as the search defines it:
/// isolated triplets, runs and singles are stripped first, then the least
/// tally over every extraction sequence is taken, once per candidate head
/// pair and once with no head.
pub open spec fn standard_form_distance(c: Seq<u32>) -> int {
    let c1 = strip3_counts(c, 34);
    let c2 = sqs_pass(c1, 2).0;
    let c3 = strip1_counts(c2, 34);
    let m = (strip3_kinds(c, 34).len() + sqs_pass(c1, 2).1.len()) as int;
    min(best_with_heads(c3, 34, m), best_from(c3, 0, m, 0, false))
}

/// The tally read off a retained decomposition, the pre-committed blocks
/// counted among the melds.
pub open spec fn retained_tally(
    s3r: Seq<Same3>,
    q3r: Seq<Sequential3>,
    s2r: Seq<Same2>,
    q2r: Seq<Sequential2>,
    i_s3: Seq<Same3>,
    i_q3: Seq<Sequential3>,
) -> int {
    normal_tally(
        (s3r.len() + q3r.len() + i_s3.len() + i_q3.len()) as int,
        (s2r.len() + q2r.len()) as int,
        s2r.len() > 0,
    )
}

/// A triplet of kind `i` can be taken from the counts.
pub open spec fn can_take_triplet(c: Seq<u32>, i: int) -> bool {
    0 <= i < c.len() && c[i] >= 3
}

/// `i` is an in-suit rank from which a full run can start.
pub open spec fn run_low_ok(i: int) -> bool {
    i <= 6 || (9 <= i && i <= 15) || (18 <= i && i <= 24)
}

/// `i` is an in-suit rank from which an adjacent proto-run can start: any
/// rank with a successor in its suit, up to 8.
pub open spec fn adjacent_low_ok(i: int) -> bool {
    i <= 7 || (9 <= i && i <= 16) || (18 <= i && i <= 25)
}

/// A run starting at kind `i` can be taken from the counts.
pub open spec fn can_take_run(c: Seq<u32>, i: int) -> bool {
    0 <= i && i + 2 < c.len() && run_low_ok(i) && c[i] >= 1 && c[i + 1] >= 1 && c[i + 2] >= 1
}

/// A filler pair of kind `i` can be taken: the count is exactly two.
pub open spec fn can_take_pair(c: Seq<u32>, i: int) -> bool {
    0 <= i < c.len() && c[i] == 2
}

/// An adjacent proto-run starting at kind `i` can be taken.
pub open spec fn can_take_adjacent(c: Seq<u32>, i: int) -> bool {
    0 <= i && i + 1 < c.len() && adjacent_low_ok(i) && c[i] >= 1 && c[i + 1] >= 1
}

/// A gap proto-run starting at kind `i` can be taken: the middle rank is
/// absent.
pub open spec fn can_take_gap(c: Seq<u32>, i: int) -> bool {
    0 <= i && i + 2 < c.len() && run_low_ok(i) && c[i] >= 1 && c[i + 1] == 0 && c[i + 2] >= 1
}

/// The counts with one tile of kind `i` removed.
pub open spec fn dec1(c: Seq<u32>, i: int) -> Seq<u32> {
    c.update(i, (c[i] - 1) as u32)
}

/// The counts with a triplet of kind `i` removed.
pub open spec fn take_triplet(c: Seq<u32>, i: int) -> Seq<u32> {
    c.update(i, (c[i] - 3) as u32)
}

/// The counts with the run `i, i+1, i+2` removed.
pub open spec fn take_run(c: Seq<u32>, i: int) -> Seq<u32> {
    dec1(dec1(dec1(c, i), i + 1), i + 2)
}

/// The counts with a pair of kind `i` removed.
pub open spec fn take_pair(c: Seq<u32>, i: int) -> Seq<u32> {
    c.update(i, (c[i] - 2) as u32)
}

/// The counts with the adjacent proto-run `i, i+1` removed.
pub open spec fn take_adjacent(c: Seq<u32>, i: int) -> Seq<u32> {
    dec1(dec1(c, i), i + 1)
}

/// The counts with the gap proto-run `i, i+2` removed.
pub open spec fn take_gap(c: Seq<u32>, i: int) -> Seq<u32> {
    dec1(dec1(c, i), i + 2)
}

/// The least distance the search can reach from this state: every meld or
/// filler extraction the counts allow from `idx` up is tried in turn, and
/// the state's own tally always counts. `m` melds and `p` fillers are
/// already committed, `hp` says whether one of them is a pair; 100 stands
/// for "no candidate".
pub open spec fn best_from(c: Seq<u32>, idx: int, m: int, p: int, hp: bool) -> int
    decreases counts_total(c), 2int, 0int,
    via best_from_decreases
{
    min(
        min(best_melds_from(c, idx, m, p, hp), best_fillers_from(c, idx, idx, m, p, hp)),
        normal_tally(m, p, hp),
    )
}

/// The least distance over every meld extraction at a kind `i` or above:
/// a triplet of `i`, then a run from `i`, each recursing from `i` itself.
pub open spec fn best_melds_from(c: Seq<u32>, i: int, m: int, p: int, hp: bool) -> int
    decreases counts_total(c), 1int, 34 - i,
    via best_melds_from_decreases
{
    if i >= 34 {
        100
    } else {
        let with_triplet = if can_take_triplet(c, i) {
            best_from(take_triplet(c, i), i, m + 1, p, hp)
        } else {
            100int
        };
        let with_run = if can_take_run(c, i) {
            best_from(take_run(c, i), i, m + 1, p, hp)
        } else {
            100int
        };
        min(min(with_triplet, with_run), best_melds_from(c, i + 1, m, p, hp))
    }
}

/// The least distance over every filler extraction at a kind `i` or above:
/// a pair, an adjacent proto-run or a gap proto-run, each recursing from
/// `idx` again.
pub open spec fn best_fillers_from(c: Seq<u32>, idx: int, i: int, m: int, p: int, hp: bool) -> int
    decreases counts_total(c), 1int, 34 - i,
    via best_fillers_from_decreases
{
    if i >= 34 {
        100
    } else {
        let with_pair = if can_take_pair(c, i) {
            best_from(take_pair(c, i), idx, m, p + 1, true)
        } else {
            100int
        };
        let with_adjacent = if can_take_adjacent(c, i) {
            best_from(take_adjacent(c, i), idx, m, p + 1, hp)
        } else {
            100int
        };
        let with_gap = if can_take_gap(c, i) {
            best_from(take_gap(c, i), idx, m, p + 1, hp)
        } else {
            100int
        };
        min(min(min(with_pair, with_adjacent), with_gap), best_fillers_from(c, idx, i + 1, m, p, hp))
    }
}

#[via_fn]
proof fn best_from_decreases(c: Seq<u32>, idx: int, m: int, p: int, hp: bool) {
}

#[via_fn]
proof fn best_melds_from_decreases(c: Seq<u32>, i: int, m: int, p: int, hp: bool) {
    if i < 34 {
        if can_take_triplet(c, i) {
            lemma_total_update(c, i, (c[i] - 3) as u32, 0);
            lemma_total_nonneg(take_triplet(c, i), 0);
        }
        if can_take_run(c, i) {
            lemma_total_update(c, i, (c[i] - 1) as u32, 0);
            lemma_total_update(dec1(c, i), i + 1, (dec1(c, i)[i + 1] - 1) as u32, 0);
            lemma_total_update(
                dec1(dec1(c, i), i + 1),
                i + 2,
                (dec1(dec1(c, i), i + 1)[i + 2] - 1) as u32,
                0,
            );
            lemma_total_nonneg(take_run(c, i), 0);
        }
    }
}

#[via_fn]
proof fn best_fillers_from_decreases(c: Seq<u32>, idx: int, i: int, m: int, p: int, hp: bool) {
    if i < 34 {
        if can_take_pair(c, i) {
            lemma_total_update(c, i, (c[i] - 2) as u32, 0);
            lemma_total_nonneg(take_pair(c, i), 0);
        }
        if can_take_adjacent(c, i) {
            lemma_total_update(c, i, (c[i] - 1) as u32, 0);
            lemma_total_update(dec1(c, i), i + 1, (dec1(c, i)[i + 1] - 1) as u32, 0);
            lemma_total_nonneg(take_adjacent(c, i), 0);
        }
        if can_take_gap(c, i) {
            lemma_total_update(c, i, (c[i] - 1) as u32, 0);
            lemma_total_update(dec1(c, i), i + 2, (dec1(c, i)[i + 2] - 1) as u32, 0);
            lemma_total_nonneg(take_gap(c, i), 0);
        }
    }
}

/// The least distance over the runs with a head pair pre-committed: one
/// run per kind below `i` whose count affords a pair.
pub open spec fn best_with_heads(c: Seq<u32>, i: int, m: int) -> int
    decreases i,
{
    if i <= 0 {
        100
    } else {
        let here = if 0 <= i - 1 < c.len() && c[i - 1] >= 2 {
            best_from(take_pair(c, i - 1), 0, m, 1, true)
        } else {
            100int
        };
        min(here, best_with_heads(c, i - 1, m))
    }
}

/// Any state a 14-tile hand affords tallies between complete and eight away.
pub proof fn lemma_tally_range(m: int, p: int, has_pair: bool)
    requires
        m >= 0,
        p >= 0,
        3 * m + 2 * p <= 14,
    ensures
        -1 <= normal_tally(m, p, has_pair) <= 8,
{
}

/// All tiles of a count vector laid out singly, ascending, with
/// multiplicity.
pub open spec fn expand_counts(s: Seq<u32>, i: int) -> Seq<u32>
    decreases i,
{
    if i <= 0 {
        Seq::empty()
    } else {
        expand_counts(s, i - 1) + Seq::new(s[i - 1] as nat, |x: int| (i - 1) as u32)
    }
}

proof fn lemma_expand_len(s: Seq<u32>, i: int)
    requires
        0 <= i,
    ensures
        expand_counts(s, i).len() == sum_to(s, i),
    decreases i,
{
    if i > 0 {
        lemma_expand_len(s, i - 1);
    }
}

/// Overwrites `dst` with the tiles of the count vector laid out singly.
fn refill_singles(dst: &mut Vec<u32>, counts: &TileSummarize)
    requires
        counts@.len() == 34,
    ensures
        final(dst)@ == expand_counts(counts@, 34),
        final(dst)@.len() == counts_total(counts@),
        forall|k: int| 0 <= k < 34 ==> count_u32(final(dst)@, k) == counts@[k] as int,
        singles_ok(final(dst)@),
{
    *dst = Vec::new();
    let mut i: usize = 0;
    while i < 34
        invariant
            i <= 34,
            counts@.len() == 34,
            dst@ == expand_counts(counts@, i as int),
            singles_ok(dst@),
        decreases 34 - i,
    {
        let ghost before_push = dst@;
        push_copies(dst, i as u32, counts[i]);
        proof {
            assert forall|q: int| 0 <= q < dst@.len() implies (#[trigger] dst@[q]) < 34 by {
                if q < before_push.len() {
                    assert(dst@[q] == before_push[q]);
                }
            }
        }
        i += 1;
    }
    proof {
        lemma_expand_len(counts@, 34);
        lemma_prefix_suffix(counts@, 34);
        assert forall|k: int| 0 <= k < 34 implies count_u32(dst@, k) == counts@[k] as int by {
            lemma_count_expand(counts@, 34, k);
        }
    }
}

/// Overwrites `dst` with a copy of `src`.
fn overwrite_vec<T: Copy>(dst: &mut Vec<T>, src: &Vec<T>)
    ensures
        final(dst)@ == src@,
{
    *dst = Vec::new();
    let n = src.len();
    let mut i: usize = 0;
    while i < n
        invariant
            i <= n,
            n == src@.len(),
            dst@ == src@.take(i as int),
        decreases n - i,
    {
        dst.push(src[i]);
        proof {
            assert(src@.take(i + 1) =~= src@.take(i as int).push(src@[i as int]));
        }
        i += 1;
    }
    proof {
        assert(src@.take(n as int) =~= src@);
    }
}

/// Appends a copy of every element of `src` to `dst`.
fn append_vec<T: Copy>(dst: &mut Vec<T>, src: &Vec<T>)
    ensures
        final(dst)@ == old(dst)@ + src@,
{
    let n = src.len();
    let mut i: usize = 0;
    while i < n
        invariant
            i <= n,
            n == src@.len(),
            dst@ == old(dst)@ + src@.take(i as int),
        decreases n - i,
    {
        dst.push(src[i]);
        proof {
            assert(old(dst)@ + src@.take(i + 1) =~= (old(dst)@ + src@.take(i as int)).push(
                src@[i as int],
            ));
        }
        i += 1;
    }
    proof {
        assert(src@.take(n as int) =~= src@);
    }
}

/// Reads the distance off the current search state.
fn calc_normal_shanten(
    independent_same3: &Vec<Same3>,
    independent_sequential3: &Vec<Sequential3>,
    same3: &Vec<Same3>,
    sequential3: &Vec<Sequential3>,
    same2: &Vec<Same2>,
    sequential2: &Vec<Sequential2>,
) -> (r: i32)
    requires
        3 * (independent_same3@.len() + independent_sequential3@.len() + same3@.len()
            + sequential3@.len()) + 2 * (same2@.len() + sequential2@.len()) <= 14,
    ensures
        r as int == normal_tally(
            (independent_same3@.len() + independent_sequential3@.len() + same3@.len()
                + sequential3@.len()) as int,
            (same2@.len() + sequential2@.len()) as int,
            same2@.len() > 0,
        ),
        -1 <= r <= 8,
{
    let m = independent_same3.len() + independent_sequential3.len() + same3.len()
        + sequential3.len();
    let p = same2.len() + sequential2.len();
    let cap: usize = if m <= 5 {
        5 - m
    } else {
        0
    };
    let pc: usize = if p <= cap {
        p
    } else {
        cap
    };
    let mut sh: i32 = 8 - 2 * (m as i32) - (pc as i32);
    if m + pc == 5 && same2.len() == 0 {
        sh = sh + 1;
    }
    proof {
        lemma_tally_range(m as int, p as int, same2@.len() > 0);
    }
    sh
}

/// One step of the search: at each kind from `idx` up, take a triplet or a
/// run if the counts allow one, recurse on the rest, and put the tiles back.
///
/// `remaining` is the number of tiles still uncommitted, and `total` counts
/// those plus the tiles inside all committed blocks; the retained result
/// lists are rewritten whenever the search finds a strictly better state.
#[verifier::rlimit(60)]
fn count_same_or_sequential_3(
    idx: u32,
    independent_same3: &Vec<Same3>,
    independent_sequential3: &Vec<Sequential3>,
    same3: &mut Vec<Same3>,
    sequential3: &mut Vec<Sequential3>,
    same2: &mut Vec<Same2>,
    sequential2: &mut Vec<Sequential2>,
    summarized_hand: &mut TileSummarize,
    shanten_min: &mut i32,
    same3_result: &mut Vec<Same3>,
    sequential3_result: &mut Vec<Sequential3>,
    same2_result: &mut Vec<Same2>,
    sequential2_result: &mut Vec<Sequential2>,
    single_result: &mut Vec<TileType>,
    Ghost(total): Ghost<int>,
    Ghost(remaining): Ghost<int>,
    Ghost(base): Ghost<Seq<int>>,
)
    requires
        idx <= 34,
        old(summarized_hand)@.len() == 34,
        remaining == counts_total(old(summarized_hand)@),
        3 * (independent_same3@.len() + independent_sequential3@.len() + old(same3)@.len() + old(sequential3)@.len()) + 2 * (old(same2)@.len() + old(sequential2)@.len()) + remaining == total,
        total <= 14,
        -1 <= *old(shanten_min) <= 100,
        block_views_ok(old(same3)@, old(sequential3)@, old(same2)@, old(sequential2)@),
        forall|k: int| 0 <= k < 34 ==> search_kind_tiles(
            independent_same3@,
            independent_sequential3@,
            old(same3)@,
            old(sequential3)@,
            old(same2)@,
            old(sequential2)@,
            k,
        ) + old(summarized_hand)@[k] as int == base[k],
    ensures
        final(summarized_hand)@ == old(summarized_hand)@,
        final(same3)@ == old(same3)@,
        final(sequential3)@ == old(sequential3)@,
        final(same2)@ == old(same2)@,
        final(sequential2)@ == old(sequential2)@,
        -1 <= *final(shanten_min) <= *old(shanten_min),
        *final(shanten_min) == *old(shanten_min) ==> (final(same3_result)@ == old(same3_result)@
            && final(sequential3_result)@ == old(sequential3_result)@ && final(same2_result)@
            == old(same2_result)@ && final(sequential2_result)@ == old(sequential2_result)@
            && final(single_result)@ == old(single_result)@),
        *final(shanten_min) < *old(shanten_min) ==> 3 * (final(same3_result)@.len() + final(sequential3_result)@.len() + independent_same3@.len() + independent_sequential3@.len()) + 2 * (final(same2_result)@.len() + final(sequential2_result)@.len()) + final(single_result)@.len() == total,
        *final(shanten_min) < *old(shanten_min) ==> (block_views_ok(
            final(same3_result)@,
            final(sequential3_result)@,
            final(same2_result)@,
            final(sequential2_result)@,
        ) && singles_ok(final(single_result)@)),
        *final(shanten_min) < *old(shanten_min) ==> *final(shanten_min) as int == retained_tally(
            final(same3_result)@,
            final(sequential3_result)@,
            final(same2_result)@,
            final(sequential2_result)@,
            independent_same3@,
            independent_sequential3@,
        ),
        *final(shanten_min) < *old(shanten_min) ==> forall|k: int| 0 <= k < 34
            ==> retained_kind_tiles(
            final(same3_result)@,
            final(sequential3_result)@,
            final(same2_result)@,
            final(sequential2_result)@,
            final(single_result)@,
            independent_same3@,
            independent_sequential3@,
            k,
        ) == base[k],
        *final(shanten_min) as int == min(
            *old(shanten_min) as int,
            best_melds_from(
                old(summarized_hand)@,
                idx as int,
                (independent_same3@.len() + independent_sequential3@.len() + old(same3)@.len()
                    + old(sequential3)@.len()) as int,
                (old(same2)@.len() + old(sequential2)@.len()) as int,
                old(same2)@.len() > 0,
            ),
        ),
    decreases remaining, 0int,
{
    let ghost entry_counts = old(summarized_hand)@;
    let ghost entry_min = *old(shanten_min);
    let ghost gm = (independent_same3@.len() + independent_sequential3@.len() + old(same3)@.len()
        + old(sequential3)@.len()) as int;
    let ghost gp = (old(same2)@.len() + old(sequential2)@.len()) as int;
    let ghost ghp = old(same2)@.len() > 0;
    let mut i = idx;
    while i < 34
        invariant
            idx <= i <= 34,
            summarized_hand@.len() == 34,
            summarized_hand@ == entry_counts,
            entry_counts == old(summarized_hand)@,
            remaining == counts_total(entry_counts),
            same3@ == old(same3)@,
            sequential3@ == old(sequential3)@,
            same2@ == old(same2)@,
            sequential2@ == old(sequential2)@,
            3 * (independent_same3@.len() + independent_sequential3@.len() + same3@.len()
                + sequential3@.len()) + 2 * (same2@.len() + sequential2@.len()) + remaining
                == total,
            total <= 14,
            entry_min == *old(shanten_min),
            -1 <= *shanten_min <= entry_min,
            -1 <= entry_min <= 100,
            gm == (independent_same3@.len() + independent_sequential3@.len() + old(same3)@.len()
                + old(sequential3)@.len()) as int,
            gp == (old(same2)@.len() + old(sequential2)@.len()) as int,
            ghp == (old(same2)@.len() > 0),
            block_views_ok(old(same3)@, old(sequential3)@, old(same2)@, old(sequential2)@),
            min(*shanten_min as int, best_melds_from(entry_counts, i as int, gm, gp, ghp)) == min(
                entry_min as int,
                best_melds_from(entry_counts, idx as int, gm, gp, ghp),
            ),
            *shanten_min == entry_min ==> (same3_result@ == old(same3_result)@
                && sequential3_result@ == old(sequential3_result)@ && same2_result@ == old(same2_result)@ && sequential2_result@ == old(sequential2_result)@ && single_result@ == old(single_result)@),
            *shanten_min < entry_min ==> 3 * (same3_result@.len() + sequential3_result@.len()
                + independent_same3@.len() + independent_sequential3@.len()) + 2 * (
            same2_result@.len() + sequential2_result@.len()) + single_result@.len() == total,
            *shanten_min < entry_min ==> (block_views_ok(
                same3_result@,
                sequential3_result@,
                same2_result@,
                sequential2_result@,
            ) && singles_ok(single_result@)),
            *shanten_min < entry_min ==> *shanten_min as int == retained_tally(
                same3_result@,
                sequential3_result@,
                same2_result@,
                sequential2_result@,
                independent_same3@,
                independent_sequential3@,
            ),
            forall|k: int| 0 <= k < 34 ==> search_kind_tiles(
                independent_same3@,
                independent_sequential3@,
                same3@,
                sequential3@,
                same2@,
                sequential2@,
                k,
            ) + summarized_hand@[k] as int == base[k],
            *shanten_min < entry_min ==> forall|k: int| 0 <= k < 34 ==> retained_kind_tiles(
                same3_result@,
                sequential3_result@,
                same2_result@,
                sequential2_result@,
                single_result@,
                independent_same3@,
                independent_sequential3@,
                k,
            ) == base[k],
        decreases 34 - i,
    {
        let ghost a_start = *shanten_min;
        // a triplet of this kind
        if summarized_hand[i as usize] >= 3 {
            match Same3::new(i, i, i) {
                Ok(b) => {
                    same3.push(b);
                },
                Err(_) => {
                    proof {
                        assert(false);
                    }
                },
            }
            let cur = summarized_hand[i as usize];
            summarized_hand.set(i as usize, cur - 3);
            let ghost cc = summarized_hand@;
            let ghost apre = *shanten_min;
            proof {
                lemma_total_update(entry_counts, i as int, (cur - 3) as u32, 0);
                crate::tile::lemma_total_nonneg(summarized_hand@, 0);
                assert(cc =~= take_triplet(entry_counts, i as int));
                assert(same3@.drop_last() =~= old(same3)@);
                assert forall|q: int| 0 <= q < same3@.len() implies 0 <= (#[trigger] same3@[q])@
                    < 34 by {
                    if q < same3@.len() - 1 {
                        assert(same3@[q] == old(same3)@[q]);
                    } else {
                        assert(same3@[q] == same3@.last());
                        assert(same3@.last()@ == i as int);
                    }
                }
                assert(block_views_ok(same3@, sequential3@, same2@, sequential2@));
                assert forall|k: int| 0 <= k < 34 implies search_kind_tiles(
                    independent_same3@,
                    independent_sequential3@,
                    same3@,
                    sequential3@,
                    same2@,
                    sequential2@,
                    k,
                ) + summarized_hand@[k] as int == base[k] by {
                    assert(count3_tiles(same3@, k) == count3_tiles(old(same3)@, k) + (
                    if same3@.last()@ == k {
                        3int
                    } else {
                        0int
                    }));
                }
            }
            count_normal_shanten_recursively(
                i,
                independent_same3,
                independent_sequential3,
                same3,
                sequential3,
                same2,
                sequential2,
                summarized_hand,
                shanten_min,
                same3_result,
                sequential3_result,
                same2_result,
                sequential2_result,
                single_result,
                Ghost(total),
                Ghost(remaining - 3),
                Ghost(base),
            );
            proof {
                assert(*shanten_min as int == min(
                    apre as int,
                    best_from(
                        cc,
                        i as int,
                        (independent_same3@.len() + independent_sequential3@.len()
                            + same3@.len() + sequential3@.len()) as int,
                        (same2@.len() + sequential2@.len()) as int,
                        same2@.len() > 0,
                    ),
                ));
                assert((independent_same3@.len() + independent_sequential3@.len() + same3@.len()
                    + sequential3@.len()) as int == gm + 1);
                assert((same2@.len() + sequential2@.len()) as int == gp);
                assert((same2@.len() > 0) == ghp);
                assert(cc == take_triplet(entry_counts, i as int));
                assert(*shanten_min as int == min(
                    a_start as int,
                    best_from(take_triplet(entry_counts, i as int), i as int, gm + 1, gp, ghp),
                ));
            }
            let back = summarized_hand[i as usize];
            summarized_hand.set(i as usize, back + 3);
            same3.pop();
            proof {
                assert(summarized_hand@ =~= entry_counts);
                assert(same3@ =~= old(same3)@);
            }
        }
        let ghost a_mid = *shanten_min;
        // a run starting at this kind
        if (i <= 6 || (9 <= i && i <= 15) || (18 <= i && i <= 24)) && summarized_hand[i as usize]
            >= 1 && summarized_hand[(i + 1) as usize] >= 1 && summarized_hand[(i + 2) as usize]
            >= 1 {
            match Sequential3::new(i, i + 1, i + 2) {
                Ok(b) => {
                    sequential3.push(b);
                },
                Err(_) => {
                    proof {
                        assert(false);
                    }
                },
            }
            let c0 = summarized_hand[i as usize];
            summarized_hand.set(i as usize, c0 - 1);
            proof {
                lemma_total_update(entry_counts, i as int, (c0 - 1) as u32, 0);
            }
            let ghost mid1 = summarized_hand@;
            let c1 = summarized_hand[(i + 1) as usize];
            summarized_hand.set((i + 1) as usize, c1 - 1);
            proof {
                lemma_total_update(mid1, i + 1, (c1 - 1) as u32, 0);
            }
            let ghost mid2 = summarized_hand@;
            let c2 = summarized_hand[(i + 2) as usize];
            summarized_hand.set((i + 2) as usize, c2 - 1);
            let ghost cc = summarized_hand@;
            let ghost apre = *shanten_min;
            proof {
                lemma_total_update(mid2, i + 2, (c2 - 1) as u32, 0);
                crate::tile::lemma_total_nonneg(summarized_hand@, 0);
                assert(cc =~= take_run(entry_counts, i as int));
                assert(sequential3@.drop_last() =~= old(sequential3)@);
                assert forall|q: int| 0 <= q < sequential3@.len() implies (0 <= (
                #[trigger] sequential3@[q])@ && run_low_ok(sequential3@[q]@)) by {
                    if q < sequential3@.len() - 1 {
                        assert(sequential3@[q] == old(sequential3)@[q]);
                    } else {
                        assert(sequential3@[q] == sequential3@.last());
                        assert(sequential3@.last()@ == i as int);
                    }
                }
                assert(block_views_ok(same3@, sequential3@, same2@, sequential2@));
                assert forall|k: int| 0 <= k < 34 implies search_kind_tiles(
                    independent_same3@,
                    independent_sequential3@,
                    same3@,
                    sequential3@,
                    same2@,
                    sequential2@,
                    k,
                ) + summarized_hand@[k] as int == base[k] by {
                    assert(countq_tiles(sequential3@, k) == countq_tiles(
                        old(sequential3)@,
                        k,
                    ) + (if sequential3@.last()@ <= k <= sequential3@.last()@ + 2 {
                        1int
                    } else {
                        0int
                    }));
                }
            }
            count_normal_shanten_recursively(
                i,
                independent_same3,
                independent_sequential3,
                same3,
                sequential3,
                same2,
                sequential2,
                summarized_hand,
                shanten_min,
                same3_result,
                sequential3_result,
                same2_result,
                sequential2_result,
                single_result,
                Ghost(total),
                Ghost(remaining - 3),
                Ghost(base),
            );
            proof {
                assert(*shanten_min as int == min(
                    apre as int,
                    best_from(
                        cc,
                        i as int,
                        (independent_same3@.len() + independent_sequential3@.len()
                            + same3@.len() + sequential3@.len()) as int,
                        (same2@.len() + sequential2@.len()) as int,
                        same2@.len() > 0,
                    ),
                ));
                assert((independent_same3@.len() + independent_sequential3@.len() + same3@.len()
                    + sequential3@.len()) as int == gm + 1);
                assert((same2@.len() + sequential2@.len()) as int == gp);
                assert((same2@.len() > 0) == ghp);
                assert(cc == take_run(entry_counts, i as int));
                assert(*shanten_min as int == min(
                    a_mid as int,
                    best_from(take_run(entry_counts, i as int), i as int, gm + 1, gp, ghp),
                ));
            }
            let b0 = summarized_hand[i as usize];
            summarized_hand.set(i as usize, b0 + 1);
            let b1 = summarized_hand[(i + 1) as usize];
            summarized_hand.set((i + 1) as usize, b1 + 1);
            let b2 = summarized_hand[(i + 2) as usize];
            summarized_hand.set((i + 2) as usize, b2 + 1);
            sequential3.pop();
            proof {
                assert(summarized_hand@ =~= entry_counts);
                assert(sequential3@ =~= old(sequential3)@);
            }
        }
        proof {
            let c = entry_counts;
            let ii = i as int;
            let wt = if can_take_triplet(c, ii) {
                best_from(take_triplet(c, ii), ii, gm + 1, gp, ghp)
            } else {
                100int
            };
            let wr = if can_take_run(c, ii) {
                best_from(take_run(c, ii), ii, gm + 1, gp, ghp)
            } else {
                100int
            };
            assert(a_mid as int == min(a_start as int, wt));
            assert(*shanten_min as int == min(a_mid as int, wr));
            assert(best_melds_from(c, ii, gm, gp, ghp) == min(
                min(wt, wr),
                best_melds_from(c, ii + 1, gm, gp, ghp),
            ));
        }
        i += 1;
    }
    proof {
        assert(best_melds_from(entry_counts, 34, gm, gp, ghp) == 100);
    }
}

/// One step of the search: at each kind from `idx` up, take a pair, an
/// adjacent proto-run or a gap proto-run if the counts allow one, recurse on
/// the rest, and put the tiles back.
#[verifier::rlimit(60)]
fn count_same_or_sequential_2(
    idx: u32,
    independent_same3: &Vec<Same3>,
    independent_sequential3: &Vec<Sequential3>,
    same3: &mut Vec<Same3>,
    sequential3: &mut Vec<Sequential3>,
    same2: &mut Vec<Same2>,
    sequential2: &mut Vec<Sequential2>,
    summarized_hand: &mut TileSummarize,
    shanten_min: &mut i32,
    same3_result: &mut Vec<Same3>,
    sequential3_result: &mut Vec<Sequential3>,
    same2_result: &mut Vec<Same2>,
    sequential2_result: &mut Vec<Sequential2>,
    single_result: &mut Vec<TileType>,
    Ghost(total): Ghost<int>,
    Ghost(remaining): Ghost<int>,
    Ghost(base): Ghost<Seq<int>>,
)
    requires
        idx <= 34,
        old(summarized_hand)@.len() == 34,
        remaining == counts_total(old(summarized_hand)@),
        3 * (independent_same3@.len() + independent_sequential3@.len() + old(same3)@.len() + old(sequential3)@.len()) + 2 * (old(same2)@.len() + old(sequential2)@.len()) + remaining == total,
        total <= 14,
        -1 <= *old(shanten_min) <= 100,
        block_views_ok(old(same3)@, old(sequential3)@, old(same2)@, old(sequential2)@),
        forall|k: int| 0 <= k < 34 ==> search_kind_tiles(
            independent_same3@,
            independent_sequential3@,
            old(same3)@,
            old(sequential3)@,
            old(same2)@,
            old(sequential2)@,
            k,
        ) + old(summarized_hand)@[k] as int == base[k],
    ensures
        final(summarized_hand)@ == old(summarized_hand)@,
        final(same3)@ == old(same3)@,
        final(sequential3)@ == old(sequential3)@,
        final(same2)@ == old(same2)@,
        final(sequential2)@ == old(sequential2)@,
        -1 <= *final(shanten_min) <= *old(shanten_min),
        *final(shanten_min) == *old(shanten_min) ==> (final(same3_result)@ == old(same3_result)@
            && final(sequential3_result)@ == old(sequential3_result)@ && final(same2_result)@
            == old(same2_result)@ && final(sequential2_result)@ == old(sequential2_result)@
            && final(single_result)@ == old(single_result)@),
        *final(shanten_min) < *old(shanten_min) ==> 3 * (final(same3_result)@.len() + final(sequential3_result)@.len() + independent_same3@.len() + independent_sequential3@.len()) + 2 * (final(same2_result)@.len() + final(sequential2_result)@.len()) + final(single_result)@.len() == total,
        *final(shanten_min) < *old(shanten_min) ==> (block_views_ok(
            final(same3_result)@,
            final(sequential3_result)@,
            final(same2_result)@,
            final(sequential2_result)@,
        ) && singles_ok(final(single_result)@)),
        *final(shanten_min) < *old(shanten_min) ==> *final(shanten_min) as int == retained_tally(
            final(same3_result)@,
            final(sequential3_result)@,
            final(same2_result)@,
            final(sequential2_result)@,
            independent_same3@,
            independent_sequential3@,
        ),
        *final(shanten_min) < *old(shanten_min) ==> forall|k: int| 0 <= k < 34
            ==> retained_kind_tiles(
            final(same3_result)@,
            final(sequential3_result)@,
            final(same2_result)@,
            final(sequential2_result)@,
            final(single_result)@,
            independent_same3@,
            independent_sequential3@,
            k,
        ) == base[k],
        *final(shanten_min) as int == min(
            *old(shanten_min) as int,
            best_fillers_from(
                old(summarized_hand)@,
                idx as int,
                idx as int,
                (independent_same3@.len() + independent_sequential3@.len() + old(same3)@.len()
                    + old(sequential3)@.len()) as int,
                (old(same2)@.len() + old(sequential2)@.len()) as int,
                old(same2)@.len() > 0,
            ),
        ),
    decreases remaining, 0int,
{
    let ghost entry_counts = old(summarized_hand)@;
    let ghost entry_min = *old(shanten_min);
    let ghost gm = (independent_same3@.len() + independent_sequential3@.len() + old(same3)@.len()
        + old(sequential3)@.len()) as int;
    let ghost gp = (old(same2)@.len() + old(sequential2)@.len()) as int;
    let ghost ghp = old(same2)@.len() > 0;
    let mut i = idx;
    while i < 34
        invariant
            idx <= i <= 34,
            summarized_hand@.len() == 34,
            summarized_hand@ == entry_counts,
            entry_counts == old(summarized_hand)@,
            remaining == counts_total(entry_counts),
            same3@ == old(same3)@,
            sequential3@ == old(sequential3)@,
            same2@ == old(same2)@,
            sequential2@ == old(sequential2)@,
            3 * (independent_same3@.len() + independent_sequential3@.len() + same3@.len()
                + sequential3@.len()) + 2 * (same2@.len() + sequential2@.len()) + remaining
                == total,
            total <= 14,
            entry_min == *old(shanten_min),
            -1 <= *shanten_min <= entry_min,
            -1 <= entry_min <= 100,
            gm == (independent_same3@.len() + independent_sequential3@.len() + old(same3)@.len()
                + old(sequential3)@.len()) as int,
            gp == (old(same2)@.len() + old(sequential2)@.len()) as int,
            ghp == (old(same2)@.len() > 0),
            block_views_ok(old(same3)@, old(sequential3)@, old(same2)@, old(sequential2)@),
            min(
                *shanten_min as int,
                best_fillers_from(entry_counts, idx as int, i as int, gm, gp, ghp),
            ) == min(
                entry_min as int,
                best_fillers_from(entry_counts, idx as int, idx as int, gm, gp, ghp),
            ),
            *shanten_min == entry_min ==> (same3_result@ == old(same3_result)@
                && sequential3_result@ == old(sequential3_result)@ && same2_result@ == old(same2_result)@ && sequential2_result@ == old(sequential2_result)@ && single_result@ == old(single_result)@),
            *shanten_min < entry_min ==> 3 * (same3_result@.len() + sequential3_result@.len()
                + independent_same3@.len() + independent_sequential3@.len()) + 2 * (
            same2_result@.len() + sequential2_result@.len()) + single_result@.len() == total,
            *shanten_min < entry_min ==> (block_views_ok(
                same3_result@,
                sequential3_result@,
                same2_result@,
                sequential2_result@,
            ) && singles_ok(single_result@)),
            *shanten_min < entry_min ==> *shanten_min as int == retained_tally(
                same3_result@,
                sequential3_result@,
                same2_result@,
                sequential2_result@,
                independent_same3@,
                independent_sequential3@,
            ),
            forall|k: int| 0 <= k < 34 ==> search_kind_tiles(
                independent_same3@,
                independent_sequential3@,
                same3@,
                sequential3@,
                same2@,
                sequential2@,
                k,
            ) + summarized_hand@[k] as int == base[k],
            *shanten_min < entry_min ==> forall|k: int| 0 <= k < 34 ==> retained_kind_tiles(
                same3_result@,
                sequential3_result@,
                same2_result@,
                sequential2_result@,
                single_result@,
                independent_same3@,
                independent_sequential3@,
                k,
            ) == base[k],
        decreases 34 - i,
    {
        let ghost a_start = *shanten_min;
        // a pair of this kind
        if summarized_hand[i as usize] == 2 {
            match Same2::new(i, i) {
                Ok(b) => {
                    same2.push(b);
                },
                Err(_) => {
                    proof {
                        assert(false);
                    }
                },
            }
            let cur = summarized_hand[i as usize];
            summarized_hand.set(i as usize, cur - 2);
            proof {
                lemma_total_update(entry_counts, i as int, (cur - 2) as u32, 0);
                crate::tile::lemma_total_nonneg(summarized_hand@, 0);
                assert(same2@.drop_last() =~= old(same2)@);
                assert forall|q: int| 0 <= q < same2@.len() implies 0 <= (#[trigger] same2@[q])@
                    < 34 by {
                    if q < same2@.len() - 1 {
                        assert(same2@[q] == old(same2)@[q]);
                    } else {
                        assert(same2@[q] == same2@.last());
                        assert(same2@.last()@ == i as int);
                    }
                }
                assert(block_views_ok(same3@, sequential3@, same2@, sequential2@));
                assert forall|k: int| 0 <= k < 34 implies search_kind_tiles(
                    independent_same3@,
                    independent_sequential3@,
                    same3@,
                    sequential3@,
                    same2@,
                    sequential2@,
                    k,
                ) + summarized_hand@[k] as int == base[k] by {
                    assert(count2_tiles(same2@, k) == count2_tiles(old(same2)@, k) + (
                    if same2@.last()@ == k {
                        2int
                    } else {
                        0int
                    }));
                }
            }
            let ghost cc = summarized_hand@;
            let ghost apre = *shanten_min;
            count_normal_shanten_recursively(
                idx,
                independent_same3,
                independent_sequential3,
                same3,
                sequential3,
                same2,
                sequential2,
                summarized_hand,
                shanten_min,
                same3_result,
                sequential3_result,
                same2_result,
                sequential2_result,
                single_result,
                Ghost(total),
                Ghost(remaining - 2),
                Ghost(base),
            );
            proof {
                assert(*shanten_min as int == min(
                    apre as int,
                    best_from(
                        cc,
                        idx as int,
                        (independent_same3@.len() + independent_sequential3@.len()
                            + same3@.len() + sequential3@.len()) as int,
                        (same2@.len() + sequential2@.len()) as int,
                        same2@.len() > 0,
                    ),
                ));
                assert((independent_same3@.len() + independent_sequential3@.len() + same3@.len()
                    + sequential3@.len()) as int == gm);
                assert((same2@.len() + sequential2@.len()) as int == gp + 1);
                assert(same2@.len() > 0);
                assert(cc == take_pair(entry_counts, i as int));
                assert(*shanten_min as int == min(
                    a_start as int,
                    best_from(take_pair(entry_counts, i as int), idx as int, gm, gp + 1, true),
                ));
            }
            let back = summarized_hand[i as usize];
            summarized_hand.set(i as usize, back + 2);
            same2.pop();
            proof {
                assert(summarized_hand@ =~= entry_counts);
                assert(same2@ =~= old(same2)@);
            }
        }
        let ghost a_mid = *shanten_min;
        // an adjacent proto-run: any in-suit low rank up to 8
        if i <= 7 || (9 <= i && i <= 16) || (18 <= i && i <= 25) {
            if summarized_hand[i as usize] >= 1 && summarized_hand[(i + 1) as usize] >= 1 {
                match Sequential2::new(i, i + 1) {
                    Ok(b) => {
                        sequential2.push(b);
                    },
                    Err(_) => {
                        proof {
                            assert(false);
                        }
                    },
                }
                let c0 = summarized_hand[i as usize];
                summarized_hand.set(i as usize, c0 - 1);
                proof {
                    lemma_total_update(entry_counts, i as int, (c0 - 1) as u32, 0);
                }
                let ghost mid1 = summarized_hand@;
                let c1 = summarized_hand[(i + 1) as usize];
                summarized_hand.set((i + 1) as usize, c1 - 1);
                proof {
                    lemma_total_update(mid1, i + 1, (c1 - 1) as u32, 0);
                    crate::tile::lemma_total_nonneg(summarized_hand@, 0);
                    assert(sequential2@.drop_last() =~= old(sequential2)@);
                    assert forall|q: int| 0 <= q < sequential2@.len() implies proto_run_ok(
                        (#[trigger] sequential2@[q])@,
                    ) by {
                        if q < sequential2@.len() - 1 {
                            assert(sequential2@[q] == old(sequential2)@[q]);
                        } else {
                            assert(sequential2@[q] == sequential2@.last());
                        }
                    }
                    assert(block_views_ok(same3@, sequential3@, same2@, sequential2@));
                assert forall|k: int| 0 <= k < 34 implies search_kind_tiles(
                    independent_same3@,
                    independent_sequential3@,
                    same3@,
                    sequential3@,
                    same2@,
                    sequential2@,
                    k,
                ) + summarized_hand@[k] as int == base[k] by {
                    assert(countq2_tiles(sequential2@, k) == countq2_tiles(
                        old(sequential2)@,
                        k,
                    ) + (if sequential2@.last()@.0 == k {
                        1int
                    } else {
                        0int
                    }) + (if sequential2@.last()@.1 == k {
                        1int
                    } else {
                        0int
                    }));
                }
                }
                let ghost cc = summarized_hand@;
                let ghost apre = *shanten_min;
                count_normal_shanten_recursively(
                    idx,
                    independent_same3,
                    independent_sequential3,
                    same3,
                    sequential3,
                    same2,
                    sequential2,
                    summarized_hand,
                    shanten_min,
                    same3_result,
                    sequential3_result,
                    same2_result,
                    sequential2_result,
                    single_result,
                    Ghost(total),
                    Ghost(remaining - 2),
                    Ghost(base),
                );
                proof {
                    assert(*shanten_min as int == min(
                        apre as int,
                        best_from(
                            cc,
                            idx as int,
                            (independent_same3@.len() + independent_sequential3@.len()
                                + same3@.len() + sequential3@.len()) as int,
                            (same2@.len() + sequential2@.len()) as int,
                            same2@.len() > 0,
                        ),
                    ));
                    assert((independent_same3@.len() + independent_sequential3@.len()
                        + same3@.len() + sequential3@.len()) as int == gm);
                    assert((same2@.len() + sequential2@.len()) as int == gp + 1);
                    assert((same2@.len() > 0) == ghp);
                    assert(cc == take_adjacent(entry_counts, i as int));
                    assert(apre == a_mid);
                    assert(*shanten_min as int == min(
                        a_mid as int,
                        best_from(
                            take_adjacent(entry_counts, i as int),
                            idx as int,
                            gm,
                            gp + 1,
                            ghp,
                        ),
                    ));
                }
                let b0 = summarized_hand[i as usize];
                summarized_hand.set(i as usize, b0 + 1);
                let b1 = summarized_hand[(i + 1) as usize];
                summarized_hand.set((i + 1) as usize, b1 + 1);
                sequential2.pop();
                proof {
                    assert(summarized_hand@ =~= entry_counts);
                    assert(sequential2@ =~= old(sequential2)@);
                }
            }
        }
        let ghost a_mid2 = *shanten_min;
        // a gap proto-run: the middle rank absent
        if i <= 6 || (9 <= i && i <= 15) || (18 <= i && i <= 24) {
            if summarized_hand[i as usize] >= 1 && summarized_hand[(i + 1) as usize] == 0
                && summarized_hand[(i + 2) as usize] >= 1 {
                match Sequential2::new(i, i + 2) {
                    Ok(b) => {
                        sequential2.push(b);
                    },
                    Err(_) => {
                        proof {
                            assert(false);
                        }
                    },
                }
                let c0 = summarized_hand[i as usize];
                summarized_hand.set(i as usize, c0 - 1);
                proof {
                    lemma_total_update(entry_counts, i as int, (c0 - 1) as u32, 0);
                }
                let ghost mid1 = summarized_hand@;
                let c2 = summarized_hand[(i + 2) as usize];
                summarized_hand.set((i + 2) as usize, c2 - 1);
                proof {
                    lemma_total_update(mid1, i + 2, (c2 - 1) as u32, 0);
                    crate::tile::lemma_total_nonneg(summarized_hand@, 0);
                    assert(sequential2@.drop_last() =~= old(sequential2)@);
                    assert forall|q: int| 0 <= q < sequential2@.len() implies proto_run_ok(
                        (#[trigger] sequential2@[q])@,
                    ) by {
                        if q < sequential2@.len() - 1 {
                            assert(sequential2@[q] == old(sequential2)@[q]);
                        } else {
                            assert(sequential2@[q] == sequential2@.last());
                        }
                    }
                    assert(block_views_ok(same3@, sequential3@, same2@, sequential2@));
                assert forall|k: int| 0 <= k < 34 implies search_kind_tiles(
                    independent_same3@,
                    independent_sequential3@,
                    same3@,
                    sequential3@,
                    same2@,
                    sequential2@,
                    k,
                ) + summarized_hand@[k] as int == base[k] by {
                    assert(countq2_tiles(sequential2@, k) == countq2_tiles(
                        old(sequential2)@,
                        k,
                    ) + (if sequential2@.last()@.0 == k {
                        1int
                    } else {
                        0int
                    }) + (if sequential2@.last()@.1 == k {
                        1int
                    } else {
                        0int
                    }));
                }
                }
                let ghost cc = summarized_hand@;
                let ghost apre = *shanten_min;
                count_normal_shanten_recursively(
                    idx,
                    independent_same3,
                    independent_sequential3,
                    same3,
                    sequential3,
                    same2,
                    sequential2,
                    summarized_hand,
                    shanten_min,
                    same3_result,
                    sequential3_result,
                    same2_result,
                    sequential2_result,
                    single_result,
                    Ghost(total),
                    Ghost(remaining - 2),
                    Ghost(base),
                );
                proof {
                    assert(*shanten_min as int == min(
                        apre as int,
                        best_from(
                            cc,
                            idx as int,
                            (independent_same3@.len() + independent_sequential3@.len()
                                + same3@.len() + sequential3@.len()) as int,
                            (same2@.len() + sequential2@.len()) as int,
                            same2@.len() > 0,
                        ),
                    ));
                    assert((independent_same3@.len() + independent_sequential3@.len()
                        + same3@.len() + sequential3@.len()) as int == gm);
                    assert((same2@.len() + sequential2@.len()) as int == gp + 1);
                    assert((same2@.len() > 0) == ghp);
                    assert(cc == take_gap(entry_counts, i as int));
                    assert(apre == a_mid2);
                    assert(*shanten_min as int == min(
                        a_mid2 as int,
                        best_from(take_gap(entry_counts, i as int), idx as int, gm, gp + 1, ghp),
                    ));
                }
                let b0 = summarized_hand[i as usize];
                summarized_hand.set(i as usize, b0 + 1);
                let b2 = summarized_hand[(i + 2) as usize];
                summarized_hand.set((i + 2) as usize, b2 + 1);
                sequential2.pop();
                proof {
                    assert(summarized_hand@ =~= entry_counts);
                    assert(sequential2@ =~= old(sequential2)@);
                }
            }
        }
        proof {
            let c = entry_counts;
            let ii = i as int;
            let wp = if can_take_pair(c, ii) {
                best_from(take_pair(c, ii), idx as int, gm, gp + 1, true)
            } else {
                100int
            };
            let wa = if can_take_adjacent(c, ii) {
                best_from(take_adjacent(c, ii), idx as int, gm, gp + 1, ghp)
            } else {
                100int
            };
            let wg = if can_take_gap(c, ii) {
                best_from(take_gap(c, ii), idx as int, gm, gp + 1, ghp)
            } else {
                100int
            };
            assert(a_mid as int == min(a_start as int, wp));
            assert(a_mid2 as int == min(a_mid as int, wa));
            assert(*shanten_min as int == min(a_mid2 as int, wg));
            assert(best_fillers_from(c, idx as int, ii, gm, gp, ghp) == min(
                min(min(wp, wa), wg),
                best_fillers_from(c, idx as int, ii + 1, gm, gp, ghp),
            ));
        }
        i += 1;
    }
    proof {
        assert(best_fillers_from(entry_counts, idx as int, 34, gm, gp, ghp) == 100);
    }
}

/// The heart of the search: tries every extraction the counts allow from
/// `idx` up, then reads the distance off the state as it stands; on a
/// strict improvement the state is retained as the decomposition. The least
/// distance seen so far is returned.
fn count_normal_shanten_recursively(
    idx: u32,
    independent_same3: &Vec<Same3>,
    independent_sequential3: &Vec<Sequential3>,
    same3: &mut Vec<Same3>,
    sequential3: &mut Vec<Sequential3>,
    same2: &mut Vec<Same2>,
    sequential2: &mut Vec<Sequential2>,
    summarized_hand: &mut TileSummarize,
    shanten_min: &mut i32,
    same3_result: &mut Vec<Same3>,
    sequential3_result: &mut Vec<Sequential3>,
    same2_result: &mut Vec<Same2>,
    sequential2_result: &mut Vec<Sequential2>,
    single_result: &mut Vec<TileType>,
    Ghost(total): Ghost<int>,
    Ghost(remaining): Ghost<int>,
    Ghost(base): Ghost<Seq<int>>,
) -> (r: i32)
    requires
        idx <= 34,
        old(summarized_hand)@.len() == 34,
        remaining == counts_total(old(summarized_hand)@),
        3 * (independent_same3@.len() + independent_sequential3@.len() + old(same3)@.len() + old(sequential3)@.len()) + 2 * (old(same2)@.len() + old(sequential2)@.len()) + remaining == total,
        total <= 14,
        -1 <= *old(shanten_min) <= 100,
        block_views_ok(old(same3)@, old(sequential3)@, old(same2)@, old(sequential2)@),
        forall|k: int| 0 <= k < 34 ==> search_kind_tiles(
            independent_same3@,
            independent_sequential3@,
            old(same3)@,
            old(sequential3)@,
            old(same2)@,
            old(sequential2)@,
            k,
        ) + old(summarized_hand)@[k] as int == base[k],
    ensures
        final(summarized_hand)@ == old(summarized_hand)@,
        final(same3)@ == old(same3)@,
        final(sequential3)@ == old(sequential3)@,
        final(same2)@ == old(same2)@,
        final(sequential2)@ == old(sequential2)@,
        r == *final(shanten_min),
        -1 <= *final(shanten_min) <= *old(shanten_min),
        *final(shanten_min) <= 8,
        *final(shanten_min) == *old(shanten_min) ==> (final(same3_result)@ == old(same3_result)@
            && final(sequential3_result)@ == old(sequential3_result)@ && final(same2_result)@
            == old(same2_result)@ && final(sequential2_result)@ == old(sequential2_result)@
            && final(single_result)@ == old(single_result)@),
        *final(shanten_min) < *old(shanten_min) ==> 3 * (final(same3_result)@.len() + final(sequential3_result)@.len() + independent_same3@.len() + independent_sequential3@.len()) + 2 * (final(same2_result)@.len() + final(sequential2_result)@.len()) + final(single_result)@.len() == total,
        *final(shanten_min) < *old(shanten_min) ==> (block_views_ok(
            final(same3_result)@,
            final(sequential3_result)@,
            final(same2_result)@,
            final(sequential2_result)@,
        ) && singles_ok(final(single_result)@)),
        *final(shanten_min) < *old(shanten_min) ==> *final(shanten_min) as int == retained_tally(
            final(same3_result)@,
            final(sequential3_result)@,
            final(same2_result)@,
            final(sequential2_result)@,
            independent_same3@,
            independent_sequential3@,
        ),
        *final(shanten_min) < *old(shanten_min) ==> forall|k: int| 0 <= k < 34
            ==> retained_kind_tiles(
            final(same3_result)@,
            final(sequential3_result)@,
            final(same2_result)@,
            final(sequential2_result)@,
            final(single_result)@,
            independent_same3@,
            independent_sequential3@,
            k,
        ) == base[k],
        *final(shanten_min) as int == min(
            *old(shanten_min) as int,
            best_from(
                old(summarized_hand)@,
                idx as int,
                (independent_same3@.len() + independent_sequential3@.len() + old(same3)@.len()
                    + old(sequential3)@.len()) as int,
                (old(same2)@.len() + old(sequential2)@.len()) as int,
                old(same2)@.len() > 0,
            ),
        ),
    decreases remaining, 1int,
{
    proof {
        crate::tile::lemma_total_nonneg(old(summarized_hand)@, 0);
    }
    count_same_or_sequential_3(
        idx,
        independent_same3,
        independent_sequential3,
        same3,
        sequential3,
        same2,
        sequential2,
        summarized_hand,
        shanten_min,
        same3_result,
        sequential3_result,
        same2_result,
        sequential2_result,
        single_result,
        Ghost(total),
        Ghost(remaining),
        Ghost(base),
    );
    count_same_or_sequential_2(
        idx,
        independent_same3,
        independent_sequential3,
        same3,
        sequential3,
        same2,
        sequential2,
        summarized_hand,
        shanten_min,
        same3_result,
        sequential3_result,
        same2_result,
        sequential2_result,
        single_result,
        Ghost(total),
        Ghost(remaining),
        Ghost(base),
    );
    let shanten = calc_normal_shanten(
        independent_same3,
        independent_sequential3,
        same3,
        sequential3,
        same2,
        sequential2,
    );
    if shanten < *shanten_min {
        *shanten_min = shanten;
        overwrite_vec(same3_result, same3);
        overwrite_vec(sequential3_result, sequential3);
        overwrite_vec(same2_result, same2);
        overwrite_vec(sequential2_result, sequential2);
        refill_singles(single_result, summarized_hand);
        proof {
            assert forall|k: int| 0 <= k < 34 implies retained_kind_tiles(
                same3_result@,
                sequential3_result@,
                same2_result@,
                sequential2_result@,
                single_result@,
                independent_same3@,
                independent_sequential3@,
                k,
            ) == base[k] by {}
        }
    }
    *shanten_min
}

/// The kind `i` holds an isolated triplet: count at least three and every
/// in-suit rank within two steps absent (honors need only the count).
pub open spec fn isolated3_at(s: Seq<u32>, i: int) -> bool {
    &&& 0 <= i < s.len()
    &&& s[i] >= 3
    &&& (i >= 27 || ((i % 9 < 1 || s[i - 1] == 0) && (i % 9 < 2 || s[i - 2] == 0) && (i % 9 > 7
        || s[i + 1] == 0) && (i % 9 > 6 || s[i + 2] == 0)))
}

/// The counts after sweeping kinds below `i` for isolated triplets,
/// ascending, each hit stripped as the sweep goes.
pub open spec fn strip3_counts(s: Seq<u32>, i: int) -> Seq<u32>
    decreases i,
{
    if i <= 0 {
        s
    } else {
        let prev = strip3_counts(s, i - 1);
        if isolated3_at(prev, i - 1) {
            prev.update(i - 1, (prev[i - 1] - 3) as u32)
        } else {
            prev
        }
    }
}

/// The kinds the isolated-triplet sweep strips, ascending.
pub open spec fn strip3_kinds(s: Seq<u32>, i: int) -> Seq<int>
    decreases i,
{
    if i <= 0 {
        Seq::empty()
    } else {
        strip3_kinds(s, i - 1) + (if isolated3_at(strip3_counts(s, i - 1), i - 1) {
            seq![i - 1]
        } else {
            Seq::<int>::empty()
        })
    }
}

/// The kind `i` holds an isolated single: count exactly one and every
/// in-suit rank within two steps absent (honors need only the count).
pub open spec fn isolated1_at(s: Seq<u32>, i: int) -> bool {
    &&& 0 <= i < s.len()
    &&& s[i] == 1
    &&& (i >= 27 || ((i % 9 < 1 || s[i - 1] == 0) && (i % 9 < 2 || s[i - 2] == 0) && (i % 9 > 7
        || s[i + 1] == 0) && (i % 9 > 6 || s[i + 2] == 0)))
}

/// The counts after sweeping kinds below `i` for isolated singles.
pub open spec fn strip1_counts(s: Seq<u32>, i: int) -> Seq<u32>
    decreases i,
{
    if i <= 0 {
        s
    } else {
        let prev = strip1_counts(s, i - 1);
        if isolated1_at(prev, i - 1) {
            prev.update(i - 1, 0u32)
        } else {
            prev
        }
    }
}

/// The kinds the isolated-single sweep strips, ascending.
pub open spec fn strip1_kinds(s: Seq<u32>, i: int) -> Seq<u32>
    decreases i,
{
    if i <= 0 {
        Seq::empty()
    } else {
        strip1_kinds(s, i - 1) + (if isolated1_at(strip1_counts(s, i - 1), i - 1) {
            seq![(i - 1) as u32]
        } else {
            Seq::<u32>::empty()
        })
    }
}

/// `mult` copies of the run at `l` (rank index `k` of its suit) stand
/// isolated: the flanking in-suit ranks are absent and the three counts are
/// exactly `mult`.
pub open spec fn run_isolated_at(s: Seq<u32>, l: int, k: int, mult: int) -> bool {
    &&& 0 <= l && l + 2 < s.len()
    &&& !((k >= 2 && s[l - 2] > 0) || (k >= 1 && s[l - 1] > 0) || (k <= 5 && s[l + 3] > 0) || (k
        <= 4 && s[l + 4] > 0))
    &&& s[l] as int == mult && s[l + 1] as int == mult && s[l + 2] as int == mult
}

/// One step of the isolated-run sweep at pass `pass`, suit block `jb`,
/// rank index `k`: the state is the counts so far and the low kinds of the
/// runs stripped so far.
pub open spec fn sqs_step(st: (Seq<u32>, Seq<int>), pass: int, jb: int, k: int) -> (
    Seq<u32>,
    Seq<int>,
) {
    let l = 9 * jb + k;
    let mult = 2 - pass;
    if run_isolated_at(st.0, l, k, mult) {
        (
            st.0.update(l, 0u32).update(l + 1, 0u32).update(l + 2, 0u32),
            st.1 + (if mult == 2 {
                seq![l, l]
            } else {
                seq![l]
            }),
        )
    } else {
        st
    }
}

/// The sweep state after `pass` full passes, `jb` suit blocks of the
/// current pass, and `k` rank steps of the current block.
pub open spec fn sqs_k(s: Seq<u32>, pass: int, jb: int, k: int) -> (Seq<u32>, Seq<int>)
    decreases pass, 1 + (if jb <= 0 { 0int } else { jb }), 1 + (if k <= 0 { 0int } else { k }),
{
    if k <= 0 {
        sqs_jb(s, pass, jb)
    } else {
        sqs_step(sqs_k(s, pass, jb, k - 1), pass, jb, k - 1)
    }
}

/// The sweep state after `pass` full passes and `jb` suit blocks.
pub open spec fn sqs_jb(s: Seq<u32>, pass: int, jb: int) -> (Seq<u32>, Seq<int>)
    decreases pass, 1 + (if jb <= 0 { 0int } else { jb }), 0int,
{
    if jb <= 0 {
        sqs_pass(s, pass)
    } else {
        sqs_k(s, pass, jb - 1, 7)
    }
}

/// The sweep state after `pass` full passes: the doubled runs are sought
/// on the first pass, single runs on the second.
pub open spec fn sqs_pass(s: Seq<u32>, pass: int) -> (Seq<u32>, Seq<int>)
    decreases pass, 0int, 0int,
{
    if pass <= 0 {
        (s, Seq::empty())
    } else {
        sqs_jb(s, pass - 1, 3)
    }
}

/// Strips every triplet whose neighbouring ranks are absent: such a triplet
/// can sit in no run, so it belongs to every best decomposition.
fn count_independent_same_3(summarized_hand: &mut TileSummarize) -> (r: Vec<Same3>)
    requires
        old(summarized_hand)@.len() == 34,
        counts_total(old(summarized_hand)@) <= 14,
    ensures
        final(summarized_hand)@.len() == 34,
        3 * r@.len() + counts_total(final(summarized_hand)@) == counts_total(
            old(summarized_hand)@,
        ),
        counts_total(final(summarized_hand)@) <= counts_total(old(summarized_hand)@),
        forall|k: int| 0 <= k < 34 ==> count3_tiles(r@, k) + final(summarized_hand)@[k] as int
            == old(summarized_hand)@[k] as int,
        final(summarized_hand)@ == strip3_counts(old(summarized_hand)@, 34),
        r@.map_values(|b: Same3| b@) == strip3_kinds(old(summarized_hand)@, 34),
        forall|i: int| 0 <= i < r@.len() ==> 0 <= (#[trigger] r@[i])@ < 34,
{
    let mut result: Vec<Same3> = Vec::new();
    let mut i: usize = 0;
    while i < 34
        invariant
            i <= 34,
            summarized_hand@.len() == 34,
            3 * result@.len() + counts_total(summarized_hand@) == counts_total(
                old(summarized_hand)@,
            ),
            counts_total(summarized_hand@) <= counts_total(old(summarized_hand)@),
            forall|k: int| 0 <= k < 34 ==> count3_tiles(result@, k) + summarized_hand@[k] as int
                == old(summarized_hand)@[k] as int,
            summarized_hand@ == strip3_counts(old(summarized_hand)@, i as int),
            result@.map_values(|b: Same3| b@) == strip3_kinds(old(summarized_hand)@, i as int),
            forall|q: int| 0 <= q < result@.len() ==> 0 <= (#[trigger] result@[q])@ < 34,
        decreases 34 - i,
    {
        let ghost pre_counts = summarized_hand@;
        let ghost pre_kinds = result@.map_values(|b: Same3| b@);
        let free = if i >= 27 {
            summarized_hand[i] >= 3
        } else {
            let pos = i % 9;
            summarized_hand[i] >= 3 && (pos < 1 || summarized_hand[i - 1] == 0) && (pos < 2
                || summarized_hand[i - 2] == 0) && (pos > 7 || summarized_hand[i + 1] == 0) && (pos
                > 6 || summarized_hand[i + 2] == 0)
        };
        if free {
            let cur = summarized_hand[i];
            let ghost before = summarized_hand@;
            summarized_hand.set(i, cur - 3);
            proof {
                lemma_total_update(before, i as int, (cur - 3) as u32, 0);
            }
            let ghost prev = result@;
            match Same3::new(i as u32, i as u32, i as u32) {
                Ok(b) => {
                    result.push(b);
                },
                Err(_) => {
                    proof {
                        assert(false);
                    }
                },
            }
            proof {
                assert(result@.drop_last() =~= prev);
                assert(result@.map_values(|b: Same3| b@) =~= pre_kinds.push(i as int));
                assert forall|q: int| 0 <= q < result@.len() implies 0 <= (#[trigger] result@[q])@
                    < 34 by {
                    if q < result@.len() - 1 {
                        assert(result@[q] == prev[q]);
                    } else {
                        assert(result@[q] == result@.last());
                        assert(result@.last()@ == i as int);
                    }
                }
            }
        }
        proof {
            assert(free == isolated3_at(pre_counts, i as int));
            assert(summarized_hand@ == strip3_counts(old(summarized_hand)@, i + 1));
            assert(result@.map_values(|b: Same3| b@) =~= strip3_kinds(
                old(summarized_hand)@,
                i + 1,
            ));
        }
        i += 1;
    }
    result
}

/// Strips every run that no other block could share tiles with: runs whose
/// flanking ranks are absent and whose three counts are exactly equal (two
/// identical runs are stripped as a pair of runs first).
fn count_independent_sequential_3(summarized_hand: &mut TileSummarize) -> (r: Vec<Sequential3>)
    requires
        old(summarized_hand)@.len() == 34,
        counts_total(old(summarized_hand)@) <= 14,
    ensures
        final(summarized_hand)@.len() == 34,
        3 * r@.len() + counts_total(final(summarized_hand)@) == counts_total(
            old(summarized_hand)@,
        ),
        counts_total(final(summarized_hand)@) <= counts_total(old(summarized_hand)@),
        forall|k: int| 0 <= k < 34 ==> countq_tiles(r@, k) + final(summarized_hand)@[k] as int
            == old(summarized_hand)@[k] as int,
        final(summarized_hand)@ == sqs_pass(old(summarized_hand)@, 2).0,
        r@.map_values(|b: Sequential3| b@) == sqs_pass(old(summarized_hand)@, 2).1,
        forall|i: int| 0 <= i < r@.len() ==> (0 <= (#[trigger] r@[i])@ && run_low_ok(r@[i]@)),
{
    let mut result: Vec<Sequential3> = Vec::new();
    // the doubled runs first, so that twin runs are not missed
    let mut pass: u32 = 0;
    while pass < 2
        invariant
            pass <= 2,
            summarized_hand@.len() == 34,
            3 * result@.len() + counts_total(summarized_hand@) == counts_total(
                old(summarized_hand)@,
            ),
            counts_total(summarized_hand@) <= counts_total(old(summarized_hand)@),
            forall|k: int| 0 <= k < 34 ==> countq_tiles(result@, k) + summarized_hand@[k] as int
                == old(summarized_hand)@[k] as int,
            summarized_hand@ == sqs_pass(old(summarized_hand)@, pass as int).0,
            result@.map_values(|b: Sequential3| b@) == sqs_pass(old(summarized_hand)@, pass as int).1,
            forall|q: int| 0 <= q < result@.len() ==> (0 <= (#[trigger] result@[q])@ && run_low_ok(
                result@[q]@,
            )),
        decreases 2 - pass,
    {
        let mult = 2 - pass;
        let mut jb: usize = 0;
        while jb < 3
            invariant
                jb <= 3,
                1 <= mult <= 2,
                summarized_hand@.len() == 34,
                3 * result@.len() + counts_total(summarized_hand@) == counts_total(
                    old(summarized_hand)@,
                ),
                counts_total(summarized_hand@) <= counts_total(old(summarized_hand)@),
                forall|k: int| 0 <= k < 34 ==> countq_tiles(result@, k) + summarized_hand@[k] as int
                    == old(summarized_hand)@[k] as int,
                mult == 2 - pass,
                pass < 2,
                summarized_hand@ == sqs_jb(old(summarized_hand)@, pass as int, jb as int).0,
                result@.map_values(|b: Sequential3| b@) == sqs_jb(
                    old(summarized_hand)@,
                    pass as int,
                    jb as int,
                ).1,
                forall|q: int| 0 <= q < result@.len() ==> (0 <= (#[trigger] result@[q])@
                    && run_low_ok(result@[q]@)),
            decreases 3 - jb,
        {
            let j = 9 * jb;
            let mut k: usize = 0;
            while k < 7
                invariant
                    k <= 7,
                    j == 9 * jb,
                    jb < 3,
                    1 <= mult <= 2,
                    summarized_hand@.len() == 34,
                    3 * result@.len() + counts_total(summarized_hand@) == counts_total(
                        old(summarized_hand)@,
                    ),
                    counts_total(summarized_hand@) <= counts_total(old(summarized_hand)@),
                    forall|q: int| 0 <= q < 34 ==> countq_tiles(result@, q)
                        + summarized_hand@[q] as int == old(summarized_hand)@[q] as int,
                    mult == 2 - pass,
                    pass < 2,
                    summarized_hand@ == sqs_k(
                        old(summarized_hand)@,
                        pass as int,
                        jb as int,
                        k as int,
                    ).0,
                    result@.map_values(|b: Sequential3| b@) == sqs_k(
                        old(summarized_hand)@,
                        pass as int,
                        jb as int,
                        k as int,
                    ).1,
                    forall|q: int| 0 <= q < result@.len() ==> (0 <= (#[trigger] result@[q])@
                        && run_low_ok(result@[q]@)),
                decreases 7 - k,
            {
                let l = j + k;
                let ghost pre_counts = summarized_hand@;
                let ghost pre_runs = result@.map_values(|b: Sequential3| b@);
                let blocked = (k >= 2 && summarized_hand[l - 2] > 0) || (k >= 1
                    && summarized_hand[l - 1] > 0) || (k <= 5 && summarized_hand[l + 3] > 0) || (k
                    <= 4 && summarized_hand[l + 4] > 0);
                let taken = !blocked && summarized_hand[l] == mult && summarized_hand[l + 1]
                    == mult && summarized_hand[l + 2] == mult;
                proof {
                    assert(taken == run_isolated_at(pre_counts, l as int, k as int, mult as int));
                }
                if taken {
                    let ghost b0 = summarized_hand@;
                    summarized_hand.set(l, 0);
                    proof {
                        lemma_total_update(b0, l as int, 0u32, 0);
                    }
                    let ghost b1 = summarized_hand@;
                    summarized_hand.set(l + 1, 0);
                    proof {
                        lemma_total_update(b1, l + 1, 0u32, 0);
                    }
                    let ghost b2 = summarized_hand@;
                    summarized_hand.set(l + 2, 0);
                    proof {
                        lemma_total_update(b2, l + 2, 0u32, 0);
                    }
                    let ghost prev = result@;
                    match Sequential3::new(l as u32, (l + 1) as u32, (l + 2) as u32) {
                        Ok(b) => {
                            result.push(b);
                            proof {
                                assert(result@.drop_last() =~= prev);
                            }
                            if mult == 2 {
                                let ghost mid = result@;
                                result.push(b);
                                proof {
                                    assert(result@.drop_last() =~= mid);
                                }
                            }
                            proof {
                                assert forall|q: int| 0 <= q < 34 implies countq_tiles(result@, q)
                                    + summarized_hand@[q] as int == old(summarized_hand)@[q] as int by {
                                    if mult == 2 {
                                        assert(countq_tiles(result@, q) == countq_tiles(
                                            result@.drop_last(),
                                            q,
                                        ) + (if b@ <= q <= b@ + 2 {
                                            1int
                                        } else {
                                            0int
                                        }));
                                        assert(countq_tiles(result@.drop_last(), q) == countq_tiles(
                                            prev,
                                            q,
                                        ) + (if b@ <= q <= b@ + 2 {
                                            1int
                                        } else {
                                            0int
                                        }));
                                    } else {
                                        assert(countq_tiles(result@, q) == countq_tiles(prev, q) + (
                                        if b@ <= q <= b@ + 2 {
                                            1int
                                        } else {
                                            0int
                                        }));
                                    }
                                }
                            }
                        },
                        Err(_) => {
                            proof {
                                assert(false);
                            }
                        },
                    }
                }
                proof {
                    assert forall|q: int| 0 <= q < result@.len() implies (0 <= (
                    #[trigger] result@[q])@ && run_low_ok(result@[q]@)) by {
                        if q < pre_runs.len() {
                            assert(result@.map_values(|b: Sequential3| b@)[q] == pre_runs[q]);
                        } else {
                            assert(result@[q]@ == l as int);
                        }
                    }
                    if taken {
                        if mult == 2 {
                            assert(result@.map_values(|b: Sequential3| b@) =~= pre_runs + seq![
                                l as int,
                                l as int,
                            ]);
                        } else {
                            assert(result@.map_values(|b: Sequential3| b@) =~= pre_runs + seq![
                                l as int,
                            ]);
                        }
                        assert(summarized_hand@ =~= pre_counts.update(l as int, 0u32).update(
                            l + 1,
                            0u32,
                        ).update(l + 2, 0u32));
                    } else {
                        assert(result@.map_values(|b: Sequential3| b@) =~= pre_runs);
                    }
                    assert(summarized_hand@ == sqs_k(
                        old(summarized_hand)@,
                        pass as int,
                        jb as int,
                        k + 1,
                    ).0);
                    assert(result@.map_values(|b: Sequential3| b@) == sqs_k(
                        old(summarized_hand)@,
                        pass as int,
                        jb as int,
                        k + 1,
                    ).1);
                }
                k += 1;
            }
            jb += 1;
        }
        pass += 1;
    }
    result
}

/// Strips every lone tile that no block could take: its own count is one
/// and its whole neighbourhood is empty.
fn count_independent_single(summarized_hand: &mut TileSummarize) -> (r: Vec<TileType>)
    requires
        old(summarized_hand)@.len() == 34,
        counts_total(old(summarized_hand)@) <= 14,
    ensures
        final(summarized_hand)@.len() == 34,
        r@.len() + counts_total(final(summarized_hand)@) == counts_total(old(summarized_hand)@),
        counts_total(final(summarized_hand)@) <= counts_total(old(summarized_hand)@),
        forall|k: int| 0 <= k < 34 ==> count_u32(r@, k) + final(summarized_hand)@[k] as int == old(
            summarized_hand,
        )@[k] as int,
        final(summarized_hand)@ == strip1_counts(old(summarized_hand)@, 34),
        r@ == strip1_kinds(old(summarized_hand)@, 34),
        singles_ok(r@),
{
    let mut result: Vec<TileType> = Vec::new();
    let mut i: usize = 0;
    while i < 34
        invariant
            i <= 34,
            summarized_hand@.len() == 34,
            result@.len() + counts_total(summarized_hand@) == counts_total(old(summarized_hand)@),
            counts_total(summarized_hand@) <= counts_total(old(summarized_hand)@),
            forall|k: int| 0 <= k < 34 ==> count_u32(result@, k) + summarized_hand@[k] as int
                == old(summarized_hand)@[k] as int,
            summarized_hand@ == strip1_counts(old(summarized_hand)@, i as int),
            result@ == strip1_kinds(old(summarized_hand)@, i as int),
            singles_ok(result@),
        decreases 34 - i,
    {
        let ghost pre_counts = summarized_hand@;
        let ghost pre_kinds = result@;
        let free = if i >= 27 {
            summarized_hand[i] == 1
        } else {
            let pos = i % 9;
            summarized_hand[i] == 1 && (pos < 1 || summarized_hand[i - 1] == 0) && (pos < 2
                || summarized_hand[i - 2] == 0) && (pos > 7 || summarized_hand[i + 1] == 0) && (pos
                > 6 || summarized_hand[i + 2] == 0)
        };
        if free {
            let ghost before = summarized_hand@;
            summarized_hand.set(i, 0);
            proof {
                lemma_total_update(before, i as int, 0u32, 0);
            }
            let ghost prev = result@;
            result.push(i as u32);
            proof {
                assert(result@.drop_last() =~= prev);
                assert forall|q: int| 0 <= q < result@.len() implies (#[trigger] result@[q]) < 34 by {
                    if q < result@.len() - 1 {
                        assert(result@[q] == prev[q]);
                    } else {
                        assert(result@[q] == result@.last());
                    }
                }
            }
        }
        proof {
            assert(free == isolated1_at(pre_counts, i as int));
            assert(summarized_hand@ == strip1_counts(old(summarized_hand)@, i + 1));
            assert(result@ =~= strip1_kinds(old(summarized_hand)@, i + 1));
        }
        i += 1;
    }
    result
}

/// Runs the standard-form search on the tallied hand; `total` is the number
/// of tiles tallied.
///
/// Kinds that cannot mix into any competing block are stripped first, then
/// the search runs once per candidate head pair and once with no head, and
/// the least distance over all runs wins; on a tie the decomposition found
/// first is kept.
fn normal_form_search(t: TileSummarize, Ghost(total): Ghost<int>) -> (r: HandAnalyzer)
    requires
        t@.len() == 34,
        counts_total(t@) == total,
        total <= 14,
    ensures
        r.form == WinningHandForm::Normal,
        -1 <= r.shanten as int <= 8,
        3 * (r.same3@.len() + r.sequential3@.len()) + 2 * (r.same2@.len() + r.sequential2@.len())
            + r.single@.len() == total,
        r.shanten as int == normal_tally(
            (r.same3@.len() + r.sequential3@.len()) as int,
            (r.same2@.len() + r.sequential2@.len()) as int,
            r.same2@.len() > 0,
        ),
        forall|k: int| 0 <= k < 34 ==> decomposition_kind_tiles(r, k) == t@[k] as int,
        r.shanten as int == standard_form_distance(t@),
        block_views_ok(r.same3@, r.sequential3@, r.same2@, r.sequential2@),
        singles_ok(r.single@),
{
    let ghost orig = t@;
    let mut t = t;
    let mut shanten: i32 = 100;
    // the working block lists of the search
    let mut same3: Vec<Same3> = Vec::new();
    let mut sequential3: Vec<Sequential3> = Vec::new();
    let mut same2: Vec<Same2> = Vec::new();
    let mut sequential2: Vec<Sequential2> = Vec::new();
    // the retained decomposition
    let mut same3_result: Vec<Same3> = Vec::new();
    let mut sequential3_result: Vec<Sequential3> = Vec::new();
    let mut same2_result: Vec<Same2> = Vec::new();
    let mut sequential2_result: Vec<Sequential2> = Vec::new();
    let mut single_result: Vec<TileType> = Vec::new();

    // Kinds whose whole neighbourhood is empty cannot mix into any
    // competing block: commit them up front.
    let mut independent_same3 = count_independent_same_3(&mut t);
    let mut independent_sequential3 = count_independent_sequential_3(&mut t);
    let mut independent_single = count_independent_single(&mut t);

    let ghost stripped = t@;
    let ghost gm0 = (independent_same3@.len() + independent_sequential3@.len()) as int;
    let ghost search_total = counts_total(t@) + 3 * (independent_same3@.len()
        + independent_sequential3@.len());
    let ghost base = Seq::new(
        34,
        |k: int| count3_tiles(independent_same3@, k) + countq_tiles(independent_sequential3@, k)
            + t@[k] as int,
    );
    proof {
        crate::tile::lemma_total_nonneg(t@, 0);
        assert forall|k: int| 0 <= k < 34 implies base[k] == orig[k] - count_u32(
            independent_single@,
            k,
        ) by {}
    }

    // one run per candidate head pair
    let mut i: usize = 0;
    while i < 34
        invariant
            i <= 34,
            t@.len() == 34,
            counts_total(t@) + 3 * (independent_same3@.len() + independent_sequential3@.len())
                == search_total,
            search_total <= total,
            total <= 14,
            same3@.len() == 0,
            sequential3@.len() == 0,
            same2@.len() == 0,
            sequential2@.len() == 0,
            block_views_ok(same3@, sequential3@, same2@, sequential2@),
            -1 <= shanten <= 100,
            shanten == 100 ==> (same3_result@.len() == 0 && sequential3_result@.len() == 0
                && same2_result@.len() == 0 && sequential2_result@.len() == 0
                && single_result@.len() == 0),
            shanten < 100 ==> 3 * (same3_result@.len() + sequential3_result@.len()
                + independent_same3@.len() + independent_sequential3@.len()) + 2 * (
            same2_result@.len() + sequential2_result@.len()) + single_result@.len()
                == search_total,
            shanten < 100 ==> (block_views_ok(
                same3_result@,
                sequential3_result@,
                same2_result@,
                sequential2_result@,
            ) && singles_ok(single_result@)),
            shanten < 100 ==> shanten as int == retained_tally(
                same3_result@,
                sequential3_result@,
                same2_result@,
                sequential2_result@,
                independent_same3@,
                independent_sequential3@,
            ),
            forall|k: int| 0 <= k < 34 ==> count3_tiles(independent_same3@, k) + countq_tiles(
                independent_sequential3@,
                k,
            ) + t@[k] as int == base[k],
            shanten < 100 ==> forall|k: int| 0 <= k < 34 ==> retained_kind_tiles(
                same3_result@,
                sequential3_result@,
                same2_result@,
                sequential2_result@,
                single_result@,
                independent_same3@,
                independent_sequential3@,
                k,
            ) == base[k],
            t@ == stripped,
            gm0 == (independent_same3@.len() + independent_sequential3@.len()) as int,
            shanten as int == min(100, best_with_heads(stripped, i as int, gm0)),
        decreases 34 - i,
    {
        let ghost a_start = shanten;
        if t[i] >= 2 {
            let ghost entry_counts = t@;
            match Same2::new(i as u32, i as u32) {
                Ok(b) => {
                    same2.push(b);
                },
                Err(_) => {
                    proof {
                        assert(false);
                    }
                },
            }
            let cur = t[i];
            t.set(i, cur - 2);
            proof {
                lemma_total_update(entry_counts, i as int, (cur - 2) as u32, 0);
                crate::tile::lemma_total_nonneg(t@, 0);
                assert(same2@.drop_last() =~= Seq::<Same2>::empty());
                assert forall|q: int| 0 <= q < same2@.len() implies 0 <= (#[trigger] same2@[q])@
                    < 34 by {}
                assert(block_views_ok(same3@, sequential3@, same2@, sequential2@));
                assert forall|k: int| 0 <= k < 34 implies search_kind_tiles(
                    independent_same3@,
                    independent_sequential3@,
                    same3@,
                    sequential3@,
                    same2@,
                    sequential2@,
                    k,
                ) + t@[k] as int == base[k] by {
                    assert(count2_tiles(same2@.drop_last(), k) == 0);
                    assert(count2_tiles(same2@, k) == (if same2@.last()@ == k {
                        2int
                    } else {
                        0int
                    }));
                }
            }
            let ghost cc = t@;
            let ghost apre = shanten;
            count_normal_shanten_recursively(
                0,
                &independent_same3,
                &independent_sequential3,
                &mut same3,
                &mut sequential3,
                &mut same2,
                &mut sequential2,
                &mut t,
                &mut shanten,
                &mut same3_result,
                &mut sequential3_result,
                &mut same2_result,
                &mut sequential2_result,
                &mut single_result,
                Ghost(search_total),
                Ghost(counts_total(entry_counts) - 2),
                Ghost(base),
            );
            proof {
                assert(shanten as int == min(
                    apre as int,
                    best_from(
                        cc,
                        0,
                        (independent_same3@.len() + independent_sequential3@.len()
                            + same3@.len() + sequential3@.len()) as int,
                        (same2@.len() + sequential2@.len()) as int,
                        same2@.len() > 0,
                    ),
                ));
                assert((independent_same3@.len() + independent_sequential3@.len() + same3@.len()
                    + sequential3@.len()) as int == gm0);
                assert((same2@.len() + sequential2@.len()) as int == 1);
                assert(same2@.len() > 0);
                assert(cc == take_pair(stripped, i as int));
                assert(shanten as int == min(
                    a_start as int,
                    best_from(take_pair(stripped, i as int), 0, gm0, 1, true),
                ));
            }
            let back = t[i];
            t.set(i, back + 2);
            same2.pop();
            proof {
                assert(t@ =~= entry_counts);
                assert(same2@ =~= Seq::<Same2>::empty());
            }
        }
        proof {
            let here = if 0 <= (i as int) && (i as int) < stripped.len() && stripped[i as int]
                >= 2 {
                best_from(take_pair(stripped, i as int), 0, gm0, 1, true)
            } else {
                100int
            };
            assert(shanten as int == min(a_start as int, here));
            assert(best_with_heads(stripped, i + 1, gm0) == min(
                here,
                best_with_heads(stripped, i as int, gm0),
            ));
        }
        i += 1;
    }

    // one run with no head committed
    let ghost final_remaining = counts_total(t@);
    proof {
        assert forall|k: int| 0 <= k < 34 implies search_kind_tiles(
            independent_same3@,
            independent_sequential3@,
            same3@,
            sequential3@,
            same2@,
            sequential2@,
            k,
        ) + t@[k] as int == base[k] by {}
    }
    let ghost pre_final = shanten;
    shanten = count_normal_shanten_recursively(
        0,
        &independent_same3,
        &independent_sequential3,
        &mut same3,
        &mut sequential3,
        &mut same2,
        &mut sequential2,
        &mut t,
        &mut shanten,
        &mut same3_result,
        &mut sequential3_result,
        &mut same2_result,
        &mut sequential2_result,
        &mut single_result,
        Ghost(search_total),
        Ghost(final_remaining),
        Ghost(base),
    );
    proof {
        assert(shanten as int == min(
            pre_final as int,
            best_from(
                stripped,
                0,
                (independent_same3@.len() + independent_sequential3@.len() + same3@.len()
                    + sequential3@.len()) as int,
                (same2@.len() + sequential2@.len()) as int,
                same2@.len() > 0,
            ),
        ));
        assert((independent_same3@.len() + independent_sequential3@.len() + same3@.len()
            + sequential3@.len()) as int == gm0);
        assert((same2@.len() + sequential2@.len()) as int == 0);
        assert(best_from(stripped, 0, gm0, 0, false) <= normal_tally(gm0, 0, false));
        assert(normal_tally(gm0, 0, false) <= 8);
        assert(shanten as int == min(
            min(100, best_with_heads(stripped, 34, gm0)),
            best_from(stripped, 0, gm0, 0, false),
        ));
        assert(stripped == strip1_counts(sqs_pass(strip3_counts(orig, 34), 2).0, 34));
        assert(gm0 == (strip3_kinds(orig, 34).len() + sqs_pass(strip3_counts(orig, 34), 2).1.len())
            as int);
        assert(shanten as int == standard_form_distance(orig));
    }

    // fold the pre-committed blocks and loose tiles back in
    let ghost s3r0 = same3_result@;
    let ghost q3r0 = sequential3_result@;
    let ghost sg0 = single_result@;
    proof {
        assert forall|k: int| 0 <= k < 34 implies retained_kind_tiles(
            s3r0,
            q3r0,
            same2_result@,
            sequential2_result@,
            sg0,
            independent_same3@,
            independent_sequential3@,
            k,
        ) == base[k] by {}
    }
    append_vec(&mut same3_result, &independent_same3);
    append_vec(&mut sequential3_result, &independent_sequential3);
    append_vec(&mut single_result, &independent_single);
    proof {
        assert forall|k: int| 0 <= k < 34 implies count3_tiles(same3_result@, k) + countq_tiles(
            sequential3_result@,
            k,
        ) + count2_tiles(same2_result@, k) + countq2_tiles(sequential2_result@, k) + count_u32(
            single_result@,
            k,
        ) == orig[k] as int by {
            lemma_count3_concat(s3r0, independent_same3@, k);
            lemma_countq_concat(q3r0, independent_sequential3@, k);
            lemma_count_u32_concat(sg0, independent_single@, k);
            assert(retained_kind_tiles(
                s3r0,
                q3r0,
                same2_result@,
                sequential2_result@,
                sg0,
                independent_same3@,
                independent_sequential3@,
                k,
            ) == base[k]);
            assert(base[k] == orig[k] - count_u32(independent_single@, k));
        }
        assert forall|q: int| 0 <= q < same3_result@.len() implies 0 <= (
        #[trigger] same3_result@[q])@ < 34 by {
            if q < s3r0.len() {
                assert(same3_result@[q] == s3r0[q]);
            } else {
                assert(same3_result@[q] == independent_same3@[q - s3r0.len()]);
            }
        }
        assert forall|q: int| 0 <= q < sequential3_result@.len() implies (0 <= (
        #[trigger] sequential3_result@[q])@ && run_low_ok(sequential3_result@[q]@)) by {
            if q < q3r0.len() {
                assert(sequential3_result@[q] == q3r0[q]);
            } else {
                assert(sequential3_result@[q] == independent_sequential3@[q - q3r0.len()]);
            }
        }
        assert forall|q: int| 0 <= q < single_result@.len() implies (#[trigger] single_result@[q])
            < 34 by {
            if q < sg0.len() {
                assert(single_result@[q] == sg0[q]);
            } else {
                assert(single_result@[q] == independent_single@[q - sg0.len()]);
            }
        }
    }

    HandAnalyzer {
        shanten,
        form: WinningHandForm::Normal,
        same3: same3_result,
        sequential3: sequential3_result,
        same2: same2_result,
        sequential2: sequential2_result,
        single: single_result,
    }
}

} // verus!
