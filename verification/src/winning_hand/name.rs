use vstd::prelude::*;

use crate::settings::Lang;

verus! {

/// The topology of a completed (or aimed-for) hand.
#[derive(Debug, Clone, Copy, PartialEq, Eq, Structural)]
pub enum WinningHandForm {
    /// Seven distinct pairs.
    SevenPairs,
    /// Thirteen orphans: one of each terminal and honor plus one duplicate.
    ThirteenOrphens,
    /// The standard shape: four melds and one head pair.
    Normal,
}

/// A named winning pattern (yaku).
///
/// English names follow <https://en.wikipedia.org/wiki/Japanese_Mahjong_yaku>.
#[derive(Debug, Clone, Copy, PartialEq, Eq, Hash, Structural)]
pub enum WinningHandKind {
    /// Riichi
    ReadyHand,
    /// Chiitoitsu
    SevenPairs,
    /// Nagashi mangan
    NagashiMangan,
    /// Menzen tsumo
    SelfPick,
    /// Ippatsu
    OneShot,
    /// Haitei
    LastTileFromTheWall,
    /// Houtei
    LastDiscard,
    /// Rinshan kaihou
    DeadWallDraw,
    /// Chankan
    RobbingAQuad,
    /// Double riichi
    DoubleReady,
    /// Pinfu
    NoPointsHand,
    /// Iipeikou
    OneSetOfIdenticalSequences,
    /// Sanshoku doujun
    ThreeColourStraight,
    /// Ittsuu
    Straight,
    /// Ryanpeikou
    TwoSetsOfIdenticalSequences,
    /// Toitoi
    AllTripletHand,
    /// Sanankou
    ThreeClosedTriplets,
    /// Sanshoku doukou
    ThreeColourTriplets,
    /// Tanyao
    AllSimples,
    /// Seat wind triplet
    HonorTilesPlayersWind,
    /// Round wind triplet
    HonorTilesPrevailingWind,
    /// White dragon triplet
    HonorTilesWhiteDragon,
    /// Green dragon triplet
    HonorTilesGreenDragon,
    /// Red dragon triplet
    HonorTilesRedDragon,
    /// Chanta
    TerminalOrHonorInEachSet,
    /// Junchan
    TerminalInEachSet,
    /// Honroutou
    AllTerminalsAndHonors,
    /// Shousangen
    LittleThreeDragons,
    /// Honitsu
    HalfFlush,
    /// Chinitsu
    Flush,
    /// Kokushi musou
    ThirteenOrphans,
    /// Suuankou
    FourConcealedTriplets,
    /// Daisangen
    BigThreeDragons,
    /// Shousuushii
    LittleFourWinds,
    /// Daisuushii
    BigFourWinds,
    /// Tsuuiisou
    AllHonors,
    /// Chinroutou
    AllTerminals,
    /// Ryuuiisou
    AllGreen,
    /// Chuuren poutou
    NineGates,
    /// Suukantsu
    FourKans,
    /// Tenhou
    HeavenlyHand,
    /// Chiihou
    HandOfEarth,
}

/// Returns the display name of a winning pattern.
///
/// For the patterns whose value drops when the hand is open, passing
/// `has_openned == true` appends an "open" marker to the name.
pub fn get_winning_hand_name(hand_kind: WinningHandKind, has_openned: bool, lang: Lang) -> &'static str {
    match lang {
        Lang::En => get_winning_hand_name_en(hand_kind, has_openned),
        Lang::Ja => get_winning_hand_name_ja(hand_kind, has_openned),
    }
}

fn get_winning_hand_name_en(hand_kind: WinningHandKind, has_openned: bool) -> &'static str {
    match hand_kind {
        WinningHandKind::ReadyHand => "Ready Hand",
        WinningHandKind::SevenPairs => "Seven Pairs",
        WinningHandKind::NagashiMangan => "Nagashi Mangan",
        WinningHandKind::SelfPick => "Self Pick",
        WinningHandKind::OneShot => "One Shot",
        WinningHandKind::LastTileFromTheWall => "Last Tile From The Wall",
        WinningHandKind::LastDiscard => "Last Discard",
        WinningHandKind::DeadWallDraw => "Dead Wall Draw",
        WinningHandKind::RobbingAQuad => "Robbing A Quad",
        WinningHandKind::DoubleReady => "Double Ready",
        WinningHandKind::NoPointsHand => "No Points Hand",
        WinningHandKind::OneSetOfIdenticalSequences => "One Set Of Identical Sequences",
        WinningHandKind::ThreeColourStraight => if has_openned {
            "Three Colour Straight (Open)"
        } else {
            "Three Colour Straight"
        },
        WinningHandKind::Straight => if has_openned {
            "Straight (Open)"
        } else {
            "Straight"
        },
        WinningHandKind::TwoSetsOfIdenticalSequences => "Two Sets Of Identical Sequences",
        WinningHandKind::AllTripletHand => "All Triplet Hand",
        WinningHandKind::ThreeClosedTriplets => "Three Closed Triplets",
        WinningHandKind::ThreeColourTriplets => "Three Colour Triplets",
        WinningHandKind::AllSimples => "All Simples",
        WinningHandKind::HonorTilesPlayersWind => "Honor Tiles (Players Wind)",
        WinningHandKind::HonorTilesPrevailingWind => "Honor Tiles (Prevailing Wind)",
        WinningHandKind::HonorTilesWhiteDragon => "Honor Tiles (White Dragon)",
        WinningHandKind::HonorTilesGreenDragon => "Honor Tiles (Green Dragon)",
        WinningHandKind::HonorTilesRedDragon => "Honor Tiles (Red Dragon)",
        WinningHandKind::TerminalOrHonorInEachSet => if has_openned {
            "Terminal Or Honor In Each Set (Open)"
        } else {
            "Terminal Or Honor In Each Set"
        },
        WinningHandKind::TerminalInEachSet => if has_openned {
            "Terminal In Each Set (Open)"
        } else {
            "Terminal In Each Set"
        },
        WinningHandKind::AllTerminalsAndHonors => "All Terminals And Honors",
        WinningHandKind::LittleThreeDragons => "Little Three Dragons",
        WinningHandKind::HalfFlush => if has_openned {
            "Half Flush (Open)"
        } else {
            "Half Flush"
        },
        WinningHandKind::Flush => if has_openned {
            "Flush (Open)"
        } else {
            "Flush"
        },
        WinningHandKind::ThirteenOrphans => "Thirteen Orphans",
        WinningHandKind::FourConcealedTriplets => "Four Concealed Triplets",
        WinningHandKind::BigThreeDragons => "Big Three Dragons",
        WinningHandKind::LittleFourWinds => "Little Four Winds",
        WinningHandKind::BigFourWinds => "Big Four Winds",
        WinningHandKind::AllHonors => "All Honors",
        WinningHandKind::AllTerminals => "All Terminals",
        WinningHandKind::AllGreen => "All Green",
        WinningHandKind::NineGates => "Nine Gates",
        WinningHandKind::FourKans => "Four Kans",
        WinningHandKind::HeavenlyHand => "Heavenly Hand",
        WinningHandKind::HandOfEarth => "Hand Of Earth",
    }
}

fn get_winning_hand_name_ja(hand_kind: WinningHandKind, has_openned: bool) -> &'static str {
    match hand_kind {
        WinningHandKind::ReadyHand => "立直",
        WinningHandKind::SevenPairs => "七対子",
        WinningHandKind::NagashiMangan => "流し満貫",
        WinningHandKind::SelfPick => "門前清自摸和",
        WinningHandKind::OneShot => "一発",
        WinningHandKind::LastTileFromTheWall => "海底撈月",
        WinningHandKind::LastDiscard => "河底撈魚",
        WinningHandKind::DeadWallDraw => "嶺上開花",
        WinningHandKind::RobbingAQuad => "搶槓",
        WinningHandKind::DoubleReady => "ダブル立直",
        WinningHandKind::NoPointsHand => "平和",
        WinningHandKind::OneSetOfIdenticalSequences => "一盃口",
        WinningHandKind::ThreeColourStraight => if has_openned {
            "三色同順（鳴）"
        } else {
            "三色同順"
        },
        WinningHandKind::Straight => if has_openned {
            "一気通貫（鳴）"
        } else {
            "一気通貫"
        },
        WinningHandKind::TwoSetsOfIdenticalSequences => "二盃口",
        WinningHandKind::AllTripletHand => "対々和",
        WinningHandKind::ThreeClosedTriplets => "三暗刻",
        WinningHandKind::ThreeColourTriplets => "三色同刻",
        WinningHandKind::AllSimples => "断么九",
        WinningHandKind::HonorTilesPlayersWind => "役牌（自風牌）",
        WinningHandKind::HonorTilesPrevailingWind => "役牌（場風牌）",
        WinningHandKind::HonorTilesWhiteDragon => "役牌（白）",
        WinningHandKind::HonorTilesGreenDragon => "役牌（發）",
        WinningHandKind::HonorTilesRedDragon => "役牌（中）",
        WinningHandKind::TerminalOrHonorInEachSet => if has_openned {
            "混全帯么九（鳴）"
        } else {
            "混全帯么九"
        },
        WinningHandKind::TerminalInEachSet => if has_openned {
            "純全帯么九（鳴）"
        } else {
            "純全帯么九"
        },
        WinningHandKind::AllTerminalsAndHonors => "混老頭",
        WinningHandKind::LittleThreeDragons => "小三元",
        WinningHandKind::HalfFlush => if has_openned {
            "混一色（鳴）"
        } else {
            "混一色"
        },
        WinningHandKind::Flush => if has_openned {
            "清一色（鳴）"
        } else {
            "清一色"
        },
        WinningHandKind::ThirteenOrphans => "国士無双",
        WinningHandKind::FourConcealedTriplets => "四暗刻",
        WinningHandKind::BigThreeDragons => "大三元",
        WinningHandKind::LittleFourWinds => "小四喜",
        WinningHandKind::BigFourWinds => "大四喜",
        WinningHandKind::AllHonors => "字一色",
        WinningHandKind::AllTerminals => "清老頭",
        WinningHandKind::AllGreen => "緑一色",
        WinningHandKind::NineGates => "九蓮宝燈",
        WinningHandKind::FourKans => "四槓子",
        WinningHandKind::HeavenlyHand => "天和",
        WinningHandKind::HandOfEarth => "地和",
    }
}

} // verus!
