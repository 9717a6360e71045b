//! Yaku star map.
//!
//! Facts the rules determine: three shanten tracks, ukeire, a wait bitmap, and for each of
//! 42 yaku whether it is structurally reachable and whether it is confirmed on every wait.

use vstd::prelude::*;
use crate::mahjong::agari::{ukeire_for, ukeire_kinds, with_tile};
use crate::mahjong::hand::{lemma_kinds_below, TileCounts};
use crate::mahjong::meld::Meld;
use crate::mahjong::rules::RiichiRuleProfile;
use crate::mahjong::shanten::{
    chiitoitsu_value, kokushi_value, shanten_chiitoitsu, shanten_kokushi, shanten_standard, shanten_standard_3p,
    standard_value, TENPAI,
};
use crate::mahjong::tile::{Suit, Tile};
use crate::mahjong::yaku::{
    can_evaluate, clone_melds, count_group_melds, evaluate, evaluated, group_meld_count, is_green_kind, kan_count, min3,
    WinFacts, Yaku, YakuContext, YakuResult, YakuhaiKind, YakumanKind,
};

verus! {

pub const YAKU_STAR_COUNT: usize = 42;

/// The order of the 42 slots is part of the output contract.
#[derive(Debug, Clone, Copy, PartialEq, Eq, Hash, Structural)]
pub enum YakuStarId {
    MenzenTsumo,
    Riichi,
    Ippatsu,
    DoubleRiichi,
    Haitei,
    Houtei,
    Rinshan,
    Chankan,
    Tanyao,
    Pinfu,
    Iipeikou,
    Ryanpeikou,
    SanshokuDoujun,
    Ittsuu,
    Chanta,
    Junchan,
    Honitsu,
    Chinitsu,
    Chuuren,
    YakuhaiRound,
    YakuhaiSeat,
    Haku,
    Hatsu,
    Chun,
    SanshokuDoukou,
    Toitoi,
    Sanankou,
    Suuankou,
    Sankantsu,
    Suukantsu,
    Chiitoitsu,
    Honroutou,
    Chinroutou,
    Kokushi,
    Shousangen,
    Daisangen,
    Shousuushi,
    Daisuushi,
    Tsuuiisou,
    Ryuuiisou,
    Tenhou,
    Chiihou,
}

impl YakuStarId {
    pub open spec fn spec_index(self) -> usize {
        match self {
            YakuStarId::MenzenTsumo => 0,
            YakuStarId::Riichi => 1,
            YakuStarId::Ippatsu => 2,
            YakuStarId::DoubleRiichi => 3,
            YakuStarId::Haitei => 4,
            YakuStarId::Houtei => 5,
            YakuStarId::Rinshan => 6,
            YakuStarId::Chankan => 7,
            YakuStarId::Tanyao => 8,
            YakuStarId::Pinfu => 9,
            YakuStarId::Iipeikou => 10,
            YakuStarId::Ryanpeikou => 11,
            YakuStarId::SanshokuDoujun => 12,
            YakuStarId::Ittsuu => 13,
            YakuStarId::Chanta => 14,
            YakuStarId::Junchan => 15,
            YakuStarId::Honitsu => 16,
            YakuStarId::Chinitsu => 17,
            YakuStarId::Chuuren => 18,
            YakuStarId::YakuhaiRound => 19,
            YakuStarId::YakuhaiSeat => 20,
            YakuStarId::Haku => 21,
            YakuStarId::Hatsu => 22,
            YakuStarId::Chun => 23,
            YakuStarId::SanshokuDoukou => 24,
            YakuStarId::Toitoi => 25,
            YakuStarId::Sanankou => 26,
            YakuStarId::Suuankou => 27,
            YakuStarId::Sankantsu => 28,
            YakuStarId::Suukantsu => 29,
            YakuStarId::Chiitoitsu => 30,
            YakuStarId::Honroutou => 31,
            YakuStarId::Chinroutou => 32,
            YakuStarId::Kokushi => 33,
            YakuStarId::Shousangen => 34,
            YakuStarId::Daisangen => 35,
            YakuStarId::Shousuushi => 36,
            YakuStarId::Daisuushi => 37,
            YakuStarId::Tsuuiisou => 38,
            YakuStarId::Ryuuiisou => 39,
            YakuStarId::Tenhou => 40,
            YakuStarId::Chiihou => 41,
        }
    }

    /// Slot of the yaku, `0..42`.
    #[verifier::when_used_as_spec(spec_index)]
    pub fn index(self) -> (r: usize)
        ensures
            r == self.index(),
            r < 42,
    {
        match self {
            YakuStarId::MenzenTsumo => 0,
            YakuStarId::Riichi => 1,
            YakuStarId::Ippatsu => 2,
            YakuStarId::DoubleRiichi => 3,
            YakuStarId::Haitei => 4,
            YakuStarId::Houtei => 5,
            YakuStarId::Rinshan => 6,
            YakuStarId::Chankan => 7,
            YakuStarId::Tanyao => 8,
            YakuStarId::Pinfu => 9,
            YakuStarId::Iipeikou => 10,
            YakuStarId::Ryanpeikou => 11,
            YakuStarId::SanshokuDoujun => 12,
            YakuStarId::Ittsuu => 13,
            YakuStarId::Chanta => 14,
            YakuStarId::Junchan => 15,
            YakuStarId::Honitsu => 16,
            YakuStarId::Chinitsu => 17,
            YakuStarId::Chuuren => 18,
            YakuStarId::YakuhaiRound => 19,
            YakuStarId::YakuhaiSeat => 20,
            YakuStarId::Haku => 21,
            YakuStarId::Hatsu => 22,
            YakuStarId::Chun => 23,
            YakuStarId::SanshokuDoukou => 24,
            YakuStarId::Toitoi => 25,
            YakuStarId::Sanankou => 26,
            YakuStarId::Suuankou => 27,
            YakuStarId::Sankantsu => 28,
            YakuStarId::Suukantsu => 29,
            YakuStarId::Chiitoitsu => 30,
            YakuStarId::Honroutou => 31,
            YakuStarId::Chinroutou => 32,
            YakuStarId::Kokushi => 33,
            YakuStarId::Shousangen => 34,
            YakuStarId::Daisangen => 35,
            YakuStarId::Shousuushi => 36,
            YakuStarId::Daisuushi => 37,
            YakuStarId::Tsuuiisou => 38,
            YakuStarId::Ryuuiisou => 39,
            YakuStarId::Tenhou => 40,
            YakuStarId::Chiihou => 41,
        }
    }

    pub open spec fn spec_at(i: usize) -> YakuStarId {
        if i == 0 { YakuStarId::MenzenTsumo } else if i == 1 { YakuStarId::Riichi } else if i == 2 { YakuStarId::Ippatsu } else if i == 3 { YakuStarId::DoubleRiichi } else if i == 4 { YakuStarId::Haitei } else if i == 5 { YakuStarId::Houtei } else if i == 6 { YakuStarId::Rinshan } else if i == 7 { YakuStarId::Chankan } else if i == 8 { YakuStarId::Tanyao } else if i == 9 { YakuStarId::Pinfu } else if i == 10 { YakuStarId::Iipeikou } else if i == 11 { YakuStarId::Ryanpeikou } else if i == 12 { YakuStarId::SanshokuDoujun } else if i == 13 { YakuStarId::Ittsuu } else if i == 14 { YakuStarId::Chanta } else if i == 15 { YakuStarId::Junchan } else if i == 16 { YakuStarId::Honitsu } else if i == 17 { YakuStarId::Chinitsu } else if i == 18 { YakuStarId::Chuuren } else if i == 19 { YakuStarId::YakuhaiRound } else if i == 20 { YakuStarId::YakuhaiSeat } else if i == 21 { YakuStarId::Haku } else if i == 22 { YakuStarId::Hatsu } else if i == 23 { YakuStarId::Chun } else if i == 24 { YakuStarId::SanshokuDoukou } else if i == 25 { YakuStarId::Toitoi } else if i == 26 { YakuStarId::Sanankou } else if i == 27 { YakuStarId::Suuankou } else if i == 28 { YakuStarId::Sankantsu } else if i == 29 { YakuStarId::Suukantsu } else if i == 30 { YakuStarId::Chiitoitsu } else if i == 31 { YakuStarId::Honroutou } else if i == 32 { YakuStarId::Chinroutou } else if i == 33 { YakuStarId::Kokushi } else if i == 34 { YakuStarId::Shousangen } else if i == 35 { YakuStarId::Daisangen } else if i == 36 { YakuStarId::Shousuushi } else if i == 37 { YakuStarId::Daisuushi } else if i == 38 { YakuStarId::Tsuuiisou } else if i == 39 { YakuStarId::Ryuuiisou } else if i == 40 { YakuStarId::Tenhou } else { YakuStarId::Chiihou }
    }

    /// The yaku of a slot.
    #[verifier::when_used_as_spec(spec_at)]
    pub fn at(i: usize) -> (r: YakuStarId)
        requires
            i < 42,
        ensures
            r == YakuStarId::at(i),
            r.index() == i,
    {
        match i {
            0 => YakuStarId::MenzenTsumo,
            1 => YakuStarId::Riichi,
            2 => YakuStarId::Ippatsu,
            3 => YakuStarId::DoubleRiichi,
            4 => YakuStarId::Haitei,
            5 => YakuStarId::Houtei,
            6 => YakuStarId::Rinshan,
            7 => YakuStarId::Chankan,
            8 => YakuStarId::Tanyao,
            9 => YakuStarId::Pinfu,
            10 => YakuStarId::Iipeikou,
            11 => YakuStarId::Ryanpeikou,
            12 => YakuStarId::SanshokuDoujun,
            13 => YakuStarId::Ittsuu,
            14 => YakuStarId::Chanta,
            15 => YakuStarId::Junchan,
            16 => YakuStarId::Honitsu,
            17 => YakuStarId::Chinitsu,
            18 => YakuStarId::Chuuren,
            19 => YakuStarId::YakuhaiRound,
            20 => YakuStarId::YakuhaiSeat,
            21 => YakuStarId::Haku,
            22 => YakuStarId::Hatsu,
            23 => YakuStarId::Chun,
            24 => YakuStarId::SanshokuDoukou,
            25 => YakuStarId::Toitoi,
            26 => YakuStarId::Sanankou,
            27 => YakuStarId::Suuankou,
            28 => YakuStarId::Sankantsu,
            29 => YakuStarId::Suukantsu,
            30 => YakuStarId::Chiitoitsu,
            31 => YakuStarId::Honroutou,
            32 => YakuStarId::Chinroutou,
            33 => YakuStarId::Kokushi,
            34 => YakuStarId::Shousangen,
            35 => YakuStarId::Daisangen,
            36 => YakuStarId::Shousuushi,
            37 => YakuStarId::Daisuushi,
            38 => YakuStarId::Tsuuiisou,
            39 => YakuStarId::Ryuuiisou,
            40 => YakuStarId::Tenhou,
            _ => YakuStarId::Chiihou,
        }
    }
}

pub open spec fn spec_yaku_star_id(yaku: Yaku) -> Option<YakuStarId> {
    match yaku {
        Yaku::MenzenTsumo => Some(YakuStarId::MenzenTsumo),
        Yaku::Riichi => Some(YakuStarId::Riichi),
        Yaku::Ippatsu => Some(YakuStarId::Ippatsu),
        Yaku::DoubleRiichi => Some(YakuStarId::DoubleRiichi),
        Yaku::Haitei => Some(YakuStarId::Haitei),
        Yaku::Houtei => Some(YakuStarId::Houtei),
        Yaku::Rinshan => Some(YakuStarId::Rinshan),
        Yaku::Chankan => Some(YakuStarId::Chankan),
        Yaku::Tanyao => Some(YakuStarId::Tanyao),
        Yaku::Pinfu => Some(YakuStarId::Pinfu),
        Yaku::Iipeikou => Some(YakuStarId::Iipeikou),
        Yaku::Ryanpeikou => Some(YakuStarId::Ryanpeikou),
        Yaku::Sanshoku => Some(YakuStarId::SanshokuDoujun),
        Yaku::Ittsuu => Some(YakuStarId::Ittsuu),
        Yaku::Chanta => Some(YakuStarId::Chanta),
        Yaku::Junchan => Some(YakuStarId::Junchan),
        Yaku::Honitsu => Some(YakuStarId::Honitsu),
        Yaku::Chinitsu => Some(YakuStarId::Chinitsu),
        Yaku::Yakuhai(YakuhaiKind::Bakaze) => Some(YakuStarId::YakuhaiRound),
        Yaku::Yakuhai(YakuhaiKind::Jikaze) => Some(YakuStarId::YakuhaiSeat),
        Yaku::Yakuhai(YakuhaiKind::Haku) => Some(YakuStarId::Haku),
        Yaku::Yakuhai(YakuhaiKind::Hatsu) => Some(YakuStarId::Hatsu),
        Yaku::Yakuhai(YakuhaiKind::Chun) => Some(YakuStarId::Chun),
        Yaku::Yakuhai(YakuhaiKind::Pei) => None,
        Yaku::SanshokuDoukou => Some(YakuStarId::SanshokuDoukou),
        Yaku::Toitoi => Some(YakuStarId::Toitoi),
        Yaku::Sanankou => Some(YakuStarId::Sanankou),
        Yaku::Sankantsu => Some(YakuStarId::Sankantsu),
        Yaku::Chiitoitsu => Some(YakuStarId::Chiitoitsu),
        Yaku::Honroutou => Some(YakuStarId::Honroutou),
        Yaku::Shousangen => Some(YakuStarId::Shousangen),
        Yaku::Yakuman(kind) => Some(yakuman_star_id(kind)),
    }
}

/// Slot of a yaku or yakuman. North as yakuhai has none.
#[verifier::when_used_as_spec(spec_yaku_star_id)]
pub fn yaku_star_id(yaku: Yaku) -> (r: Option<YakuStarId>)
    ensures
        r == yaku_star_id(yaku),
{
    match yaku {
        Yaku::MenzenTsumo => Some(YakuStarId::MenzenTsumo),
        Yaku::Riichi => Some(YakuStarId::Riichi),
        Yaku::Ippatsu => Some(YakuStarId::Ippatsu),
        Yaku::DoubleRiichi => Some(YakuStarId::DoubleRiichi),
        Yaku::Haitei => Some(YakuStarId::Haitei),
        Yaku::Houtei => Some(YakuStarId::Houtei),
        Yaku::Rinshan => Some(YakuStarId::Rinshan),
        Yaku::Chankan => Some(YakuStarId::Chankan),
        Yaku::Tanyao => Some(YakuStarId::Tanyao),
        Yaku::Pinfu => Some(YakuStarId::Pinfu),
        Yaku::Iipeikou => Some(YakuStarId::Iipeikou),
        Yaku::Ryanpeikou => Some(YakuStarId::Ryanpeikou),
        Yaku::Sanshoku => Some(YakuStarId::SanshokuDoujun),
        Yaku::Ittsuu => Some(YakuStarId::Ittsuu),
        Yaku::Chanta => Some(YakuStarId::Chanta),
        Yaku::Junchan => Some(YakuStarId::Junchan),
        Yaku::Honitsu => Some(YakuStarId::Honitsu),
        Yaku::Chinitsu => Some(YakuStarId::Chinitsu),
        Yaku::Yakuhai(YakuhaiKind::Bakaze) => Some(YakuStarId::YakuhaiRound),
        Yaku::Yakuhai(YakuhaiKind::Jikaze) => Some(YakuStarId::YakuhaiSeat),
        Yaku::Yakuhai(YakuhaiKind::Haku) => Some(YakuStarId::Haku),
        Yaku::Yakuhai(YakuhaiKind::Hatsu) => Some(YakuStarId::Hatsu),
        Yaku::Yakuhai(YakuhaiKind::Chun) => Some(YakuStarId::Chun),
        Yaku::Yakuhai(YakuhaiKind::Pei) => None,
        Yaku::SanshokuDoukou => Some(YakuStarId::SanshokuDoukou),
        Yaku::Toitoi => Some(YakuStarId::Toitoi),
        Yaku::Sanankou => Some(YakuStarId::Sanankou),
        Yaku::Sankantsu => Some(YakuStarId::Sankantsu),
        Yaku::Chiitoitsu => Some(YakuStarId::Chiitoitsu),
        Yaku::Honroutou => Some(YakuStarId::Honroutou),
        Yaku::Shousangen => Some(YakuStarId::Shousangen),
        Yaku::Yakuman(kind) => Some(yakuman_star_id(kind)),
    }
}

pub open spec fn spec_yakuman_star_id(kind: YakumanKind) -> YakuStarId {
    match kind {
        YakumanKind::KokushiMusou | YakumanKind::KokushiMusouJuusanmen => YakuStarId::Kokushi,
        YakumanKind::Suuankou | YakumanKind::SuuankouTanki => YakuStarId::Suuankou,
        YakumanKind::Daisangen => YakuStarId::Daisangen,
        YakumanKind::Shousuushi => YakuStarId::Shousuushi,
        YakumanKind::Daisuushi => YakuStarId::Daisuushi,
        YakumanKind::Tsuuiisou => YakuStarId::Tsuuiisou,
        YakumanKind::Chinroutou => YakuStarId::Chinroutou,
        YakumanKind::Ryuuiisou => YakuStarId::Ryuuiisou,
        YakumanKind::ChuurenPoutou | YakumanKind::JunseiChuuren => YakuStarId::Chuuren,
        YakumanKind::Suukantsu => YakuStarId::Suukantsu,
        YakumanKind::Tenhou => YakuStarId::Tenhou,
        YakumanKind::Chiihou => YakuStarId::Chiihou,
    }
}

/// Double-yakuman variants share the slot of their base yakuman.
#[verifier::when_used_as_spec(spec_yakuman_star_id)]
pub fn yakuman_star_id(kind: YakumanKind) -> (r: YakuStarId)
    ensures
        r == yakuman_star_id(kind),
{
    match kind {
        YakumanKind::KokushiMusou | YakumanKind::KokushiMusouJuusanmen => YakuStarId::Kokushi,
        YakumanKind::Suuankou | YakumanKind::SuuankouTanki => YakuStarId::Suuankou,
        YakumanKind::Daisangen => YakuStarId::Daisangen,
        YakumanKind::Shousuushi => YakuStarId::Shousuushi,
        YakumanKind::Daisuushi => YakuStarId::Daisuushi,
        YakumanKind::Tsuuiisou => YakuStarId::Tsuuiisou,
        YakumanKind::Chinroutou => YakuStarId::Chinroutou,
        YakumanKind::Ryuuiisou => YakuStarId::Ryuuiisou,
        YakumanKind::ChuurenPoutou | YakumanKind::JunseiChuuren => YakuStarId::Chuuren,
        YakumanKind::Suukantsu => YakuStarId::Suukantsu,
        YakumanKind::Tenhou => YakuStarId::Tenhou,
        YakumanKind::Chiihou => YakuStarId::Chiihou,
    }
}

pub open spec fn spec_yaku_3p_not_applicable(id: YakuStarId) -> bool {
    false
}

/// The three-player game keeps all 42 rows.
#[verifier::when_used_as_spec(spec_yaku_3p_not_applicable)]
pub fn yaku_3p_not_applicable(id: YakuStarId) -> (r: bool)
    ensures
        r == yaku_3p_not_applicable(id),
{
    false
}

pub open spec fn spec_static_identity_han(id: YakuStarId) -> u8 {
    match id {
        YakuStarId::DoubleRiichi
        | YakuStarId::Honitsu
        | YakuStarId::Toitoi
        | YakuStarId::Sanankou
        | YakuStarId::Sankantsu
        | YakuStarId::Chanta
        | YakuStarId::Shousangen
        | YakuStarId::Honroutou => 2,
        YakuStarId::Ryanpeikou => 3,
        YakuStarId::Chinitsu => 5,
        YakuStarId::Chuuren
        | YakuStarId::Suuankou
        | YakuStarId::Suukantsu
        | YakuStarId::Chinroutou
        | YakuStarId::Kokushi
        | YakuStarId::Daisangen
        | YakuStarId::Shousuushi
        | YakuStarId::Daisuushi
        | YakuStarId::Tsuuiisou
        | YakuStarId::Ryuuiisou
        | YakuStarId::Tenhou
        | YakuStarId::Chiihou => 13,
        _ => 1,
    }
}

#[verifier::when_used_as_spec(spec_static_identity_han)]
pub fn static_identity_han(id: YakuStarId) -> (r: u8)
    ensures
        r == static_identity_han(id),
{
    match id {
        YakuStarId::DoubleRiichi
        | YakuStarId::Honitsu
        | YakuStarId::Toitoi
        | YakuStarId::Sanankou
        | YakuStarId::Sankantsu
        | YakuStarId::Chanta
        | YakuStarId::Shousangen
        | YakuStarId::Honroutou => 2,
        YakuStarId::Ryanpeikou => 3,
        YakuStarId::Chinitsu => 5,
        YakuStarId::Chuuren
        | YakuStarId::Suuankou
        | YakuStarId::Suukantsu
        | YakuStarId::Chinroutou
        | YakuStarId::Kokushi
        | YakuStarId::Daisangen
        | YakuStarId::Shousuushi
        | YakuStarId::Daisuushi
        | YakuStarId::Tsuuiisou
        | YakuStarId::Ryuuiisou
        | YakuStarId::Tenhou
        | YakuStarId::Chiihou => 13,
        _ => 1,
    }
}

/// Yaku status; precedence is `Blocked > Confirmed > Possible`.
#[derive(Debug, Clone, Copy, PartialEq, Eq, Structural)]
pub enum YakuStarStatus {
    Blocked,
    Possible,
    Confirmed,
    NotApplicable,
}

/// Hand-wide standard-form facts.
///
/// The chiitoitsu and kokushi tracks are [`i8::MAX`] when the hand is open or has
/// called groups, meaning the track is unavailable. Nukidora neither count as groups
/// nor open the hand. `wait_mask` is non-zero only when `shanten_min == 0`.
#[derive(Debug, Clone, Copy, PartialEq, Eq, Structural)]
pub struct StandardShapeFacts {
    pub shanten_normal: i8,
    pub shanten_chiitoi: i8,
    pub shanten_kokushi: i8,
    pub shanten_min: i8,
    pub ukeire_kinds: u8,
    pub ukeire_unseen: u16,
    pub wait_mask: u64,
}

#[derive(Debug, Clone, Copy, PartialEq, Eq, Structural)]
pub struct YakuStarRow {
    pub status: YakuStarStatus,
    pub structural_reachable: bool,
    pub static_identity_han: u8,
    pub ron_wait_mask: u64,
    pub tsumo_wait_mask: u64,
}

#[derive(Debug, Clone, Copy, PartialEq, Eq)]
pub struct YakuStarState {
    pub facts: StandardShapeFacts,
    pub rows: [YakuStarRow; 42],
}

/// Table facts needed by the star map. Four-player callers set `nuki_count` to 0 and
/// `pei_is_yakuhai` to false.
#[derive(Debug, Clone, Copy, PartialEq, Eq, Structural)]
pub struct YakuStarContext {
    pub rule_profile: RiichiRuleProfile,
    pub bakaze: Tile,
    pub jikaze: Tile,
    pub menzen: bool,
    pub total_declared_kans: u8,
    pub has_legal_kan_candidate: bool,
    pub riichi: bool,
    pub double_riichi: bool,
    pub ippatsu: bool,
    pub haitei: bool,
    pub houtei: bool,
    pub rinshan: bool,
    pub chankan: bool,
    /// Tenhou still possible (the dealer has not discarded yet and no call interrupted the first turn).
    pub tenhou: bool,
    /// Chiihou still possible (the player has not discarded yet and no call interrupted the first turn).
    pub chiihou: bool,
    pub nuki_count: u8,
    pub pei_is_yakuhai: bool,
}

// What the called melds allow.

/// Number of closed kans.
pub open spec fn ankan_count(melds: Seq<Meld>) -> nat
    decreases melds.len(),
{
    if melds.len() == 0 { 0 } else { ankan_count(melds.drop_last()) + if melds.last() is Ankan { 1nat } else { 0 } }
}

/// Number of pons.
pub open spec fn pon_count(melds: Seq<Meld>) -> nat
    decreases melds.len(),
{
    if melds.len() == 0 { 0 } else { pon_count(melds.drop_last()) + if melds.last() is Pon { 1nat } else { 0 } }
}

/// The tile of a pon or kan, red five folded.
pub open spec fn triplet_tile(m: Meld) -> Option<Tile> {
    match m {
        Meld::Pon { tile, .. } => Some(tile.deaka()),
        Meld::Daiminkan { tile, .. } => Some(tile.deaka()),
        Meld::Kakan { tile, .. } => Some(tile.deaka()),
        Meld::Ankan { tile } => Some(tile.deaka()),
        _ => None,
    }
}

/// The lowest kind of a chi.
pub open spec fn chi_start(m: Meld) -> Option<int> {
    match m {
        Meld::Chi { tiles, .. } => Some(
            min3(tiles@[0].kind() as int, tiles@[1].kind() as int, tiles@[2].kind() as int),
        ),
        _ => None,
    }
}

/// The properties of tiles that yaku ask for.
#[derive(Clone, Copy, PartialEq, Eq, Structural)]
pub enum TileTest {
    Yaochuu,
    Honor,
    NotYaochuu,
    NotTerminal,
    NotHonor,
    NotGreen,
}

pub open spec fn passes(test: TileTest, t: Tile) -> bool {
    match test {
        TileTest::Yaochuu => t.is_yaochuu(),
        TileTest::Honor => t.is_honor(),
        TileTest::NotYaochuu => !t.is_yaochuu(),
        TileTest::NotTerminal => !t.is_terminal(),
        TileTest::NotHonor => !t.is_honor(),
        TileTest::NotGreen => !is_green_kind(t.kind() as int),
    }
}

pub open spec fn has_chi(melds: Seq<Meld>) -> bool {
    exists|i: int| 0 <= i < melds.len() && (#[trigger] melds[i]) is Chi
}

/// Whether a pon, an open kan or an added kan is among the melds.
pub open spec fn has_open_triplet(melds: Seq<Meld>) -> bool {
    exists|i: int|
        0 <= i < melds.len() && ((#[trigger] melds[i]) is Pon || melds[i] is Daiminkan || melds[i] is Kakan)
}

/// Whether a pon or kan passes a test.
pub open spec fn triplet_passes(melds: Seq<Meld>, test: TileTest) -> bool {
    exists|i: int|
        0 <= i < melds.len() && triplet_tile(#[trigger] melds[i]) is Some && passes(test, triplet_tile(melds[i])->0)
}

/// Whether a pon or kan is of a kind.
pub open spec fn has_triplet_of(melds: Seq<Meld>, k: int) -> bool {
    exists|i: int|
        0 <= i < melds.len() && triplet_tile(#[trigger] melds[i]) is Some && triplet_tile(melds[i])->0.kind() == k
}

pub open spec fn has_triplet(melds: Seq<Meld>) -> bool {
    exists|i: int| 0 <= i < melds.len() && triplet_tile(#[trigger] melds[i]) is Some
}

/// Whether a chi begins at a kind.
pub open spec fn has_chi_at(melds: Seq<Meld>, k: int) -> bool {
    exists|i: int| 0 <= i < melds.len() && chi_start(#[trigger] melds[i]) == Some(k)
}

/// Whether a sequence holds a terminal.
pub open spec fn run_has_terminal(k: int) -> bool {
    0 <= k < 27 && (k % 9 == 0 || k % 9 == 6)
}

pub open spec fn has_middle_chi(melds: Seq<Meld>) -> bool {
    exists|i: int|
        0 <= i < melds.len() && chi_start(#[trigger] melds[i]) is Some && !run_has_terminal(chi_start(melds[i])->0)
}

/// Whether a tile of a meld passes a test; nukidora do not count.
pub open spec fn meld_passes(m: Meld, test: TileTest) -> bool {
    match m {
        Meld::Chi { tiles, .. } => passes(test, tiles@[0]) || passes(test, tiles@[1]) || passes(test, tiles@[2]),
        Meld::Nukidora { .. } => false,
        _ => passes(test, triplet_tile(m)->0),
    }
}

pub open spec fn some_tile_passes(melds: Seq<Meld>, test: TileTest) -> bool {
    exists|i: int| 0 <= i < melds.len() && meld_passes(#[trigger] melds[i], test)
}

/// The suit of a meld that is a group: of a chi by its first tile.
pub open spec fn meld_suit(m: Meld) -> Option<Suit> {
    match m {
        Meld::Chi { tiles, .. } => Some(tiles@[0].suit()),
        Meld::Nukidora { .. } => None,
        _ => Some(triplet_tile(m)->0.suit()),
    }
}

pub open spec fn has_suit(melds: Seq<Meld>, suit: Suit) -> bool {
    exists|i: int| 0 <= i < melds.len() && meld_suit(#[trigger] melds[i]) == Some(suit)
}

pub open spec fn as_count(b: bool) -> int {
    if b { 1 } else { 0 }
}

/// Number of number suits among the melds.
pub open spec fn number_suits(melds: Seq<Meld>) -> int {
    as_count(has_suit(melds, Suit::Man)) + as_count(has_suit(melds, Suit::Pin)) + as_count(has_suit(melds, Suit::Sou))
}

/// Groups that are still to be formed.
pub open spec fn groups_left(melds: Seq<Meld>) -> int {
    if group_meld_count(melds) > 4 { 0 } else { 4 - group_meld_count(melds) }
}

/// A yaku of kans is out of reach: too few kans can still be declared.
pub open spec fn kan_yaku_out(melds: Seq<Meld>, ctx: YakuStarContext, target: int) -> bool {
    let own = kan_count(melds);
    let most = own + pon_count(melds) + groups_left(melds);
    own < target && (ctx.total_declared_kans >= 4 || (most < target && !(ctx.has_legal_kan_candidate && most + 1
        >= target)))
}

pub open spec fn yakuhai_out(melds: Seq<Meld>, k: int) -> bool {
    !has_triplet_of(melds, k) && group_meld_count(melds) >= 4
}

/// Number of the kinds from `lo` to `hi` that are called as triplets.
pub open spec fn called_triplets(melds: Seq<Meld>, lo: int, hi: int) -> int
    decreases hi - lo + 1,
{
    if lo > hi { 0 } else { as_count(has_triplet_of(melds, hi)) + called_triplets(melds, lo, hi - 1) }
}

pub open spec fn triplets_out(melds: Seq<Meld>, lo: int, hi: int, required: int) -> bool {
    required - called_triplets(melds, lo, hi) > groups_left(melds)
}

/// Chi at three kinds.
pub open spec fn chi_at_three(melds: Seq<Meld>, a: int, b: int, c: int) -> int {
    as_count(has_chi_at(melds, a)) + as_count(has_chi_at(melds, b)) + as_count(has_chi_at(melds, c))
}

pub open spec fn triplets_at_three(melds: Seq<Meld>, a: int, b: int, c: int) -> int {
    as_count(has_triplet_of(melds, a)) + as_count(has_triplet_of(melds, b)) + as_count(has_triplet_of(melds, c))
}

/// No sequence can still come in all three suits.
pub open spec fn sanshoku_out(melds: Seq<Meld>) -> bool {
    forall|r: int| 0 <= r <= 6 ==> 3 - #[trigger] chi_at_three(melds, r, 9 + r, 18 + r) > groups_left(melds)
}

/// No suit can still have 123, 456 and 789.
pub open spec fn straight_out(melds: Seq<Meld>) -> bool {
    forall|s: int| 0 <= s < 3 ==> 3 - #[trigger] chi_at_three(melds, s * 9, s * 9 + 3, s * 9 + 6) > groups_left(melds)
}

/// No triplet can still come in all three suits.
pub open spec fn sanshoku_triplets_out(melds: Seq<Meld>) -> bool {
    forall|r: int| 0 <= r < 9 ==> 3 - #[trigger] triplets_at_three(melds, r, 9 + r, 18 + r) > groups_left(melds)
}

/// The called melds rule a yaku out.
pub open spec fn is_blocked(id: YakuStarId, melds: Seq<Meld>, ctx: YakuStarContext) -> bool {
    let fixed = group_meld_count(melds);
    fixed > 4 || match id {
        YakuStarId::Riichi => !ctx.menzen,
        YakuStarId::DoubleRiichi => !ctx.menzen,
        YakuStarId::Ippatsu => !ctx.menzen,
        YakuStarId::MenzenTsumo => !ctx.menzen,
        YakuStarId::Pinfu => !ctx.menzen || has_triplet(melds),
        YakuStarId::Iipeikou => !ctx.menzen || fixed - ankan_count(melds) > 2,
        YakuStarId::Ryanpeikou => !ctx.menzen || fixed > 0,
        YakuStarId::Chiitoitsu => !ctx.menzen || fixed > 0,
        YakuStarId::Kokushi => !ctx.menzen || fixed > 0,
        YakuStarId::Chuuren => !ctx.menzen || fixed > 0,
        YakuStarId::Tanyao => some_tile_passes(melds, TileTest::Yaochuu),
        YakuStarId::Honitsu => number_suits(melds) > 1,
        YakuStarId::Chinitsu => some_tile_passes(melds, TileTest::Honor) || number_suits(melds) > 1,
        YakuStarId::Chanta => has_middle_chi(melds) || triplet_passes(melds, TileTest::NotYaochuu),
        YakuStarId::Junchan => has_middle_chi(melds) || triplet_passes(melds, TileTest::NotTerminal),
        YakuStarId::Honroutou => has_chi(melds) || some_tile_passes(melds, TileTest::NotYaochuu),
        YakuStarId::Chinroutou => has_chi(melds) || some_tile_passes(melds, TileTest::NotTerminal),
        YakuStarId::Tsuuiisou => some_tile_passes(melds, TileTest::NotHonor),
        YakuStarId::Ryuuiisou => some_tile_passes(melds, TileTest::NotGreen),
        YakuStarId::Toitoi => has_chi(melds),
        YakuStarId::Suuankou => !ctx.menzen || has_chi(melds) || has_open_triplet(melds),
        YakuStarId::Sanankou => ankan_count(melds) + groups_left(melds) < 3,
        YakuStarId::Sankantsu => kan_yaku_out(melds, ctx, 3),
        YakuStarId::Suukantsu => kan_yaku_out(melds, ctx, 4),
        YakuStarId::SanshokuDoujun => sanshoku_out(melds),
        YakuStarId::Ittsuu => straight_out(melds),
        YakuStarId::SanshokuDoukou => sanshoku_triplets_out(melds),
        YakuStarId::YakuhaiRound => yakuhai_out(melds, ctx.bakaze.kind() as int),
        YakuStarId::YakuhaiSeat => yakuhai_out(melds, ctx.jikaze.kind() as int),
        YakuStarId::Haku => yakuhai_out(melds, 31),
        YakuStarId::Hatsu => yakuhai_out(melds, 32),
        YakuStarId::Chun => yakuhai_out(melds, 33),
        YakuStarId::Daisangen => triplets_out(melds, 31, 33, 3),
        YakuStarId::Shousangen => triplets_out(melds, 31, 33, 2),
        YakuStarId::Daisuushi => triplets_out(melds, 27, 30, 4),
        YakuStarId::Shousuushi => triplets_out(melds, 27, 30, 3),
        YakuStarId::Tenhou => !ctx.tenhou,
        YakuStarId::Chiihou => !ctx.chiihou,
        _ => false,
    }
}

/// The counts and properties of the called melds that bear on many yaku.
struct MeldFacts {
    fixed: usize,
    kans: usize,
    ankans: usize,
    pons: usize,
    chi: bool,
    open_triplet: bool,
    triplet: bool,
    middle_chi: bool,
    man: bool,
    pin: bool,
    sou: bool,
}

fn suit_of_meld(m: &Meld) -> (r: Option<Suit>)
    ensures
        r == meld_suit(*m),
{
    match m {
        Meld::Chi { tiles, .. } => Some(tiles[0].suit()),
        Meld::Pon { tile, .. } | Meld::Daiminkan { tile, .. } | Meld::Kakan { tile, .. } | Meld::Ankan { tile } => Some(
            tile.suit(),
        ),
        Meld::Nukidora { .. } => None,
    }
}

fn tile_of_triplet(m: &Meld) -> (r: Option<Tile>)
    ensures
        r == triplet_tile(*m),
{
    match m {
        Meld::Pon { tile, .. } | Meld::Daiminkan { tile, .. } | Meld::Kakan { tile, .. } | Meld::Ankan { tile } => Some(
            tile.deaka(),
        ),
        _ => None,
    }
}

fn start_of_chi(m: &Meld) -> (r: Option<usize>)
    ensures
        match r {
            Some(k) => chi_start(*m) == Some(k as int),
            None => chi_start(*m) is None,
        },
{
    match m {
        Meld::Chi { tiles, .. } => {
            let a: usize = tiles[0].kind();
            let b: usize = tiles[1].kind();
            let c: usize = tiles[2].kind();
            Some(if a <= b && a <= c { a } else if b <= c { b } else { c })
        },
        _ => None,
    }
}

fn count_ankans(melds: &Vec<Meld>) -> (n: usize)
    ensures
        n == ankan_count(melds@),
        n <= melds.len(),
{
    let mut n: usize = 0;
    let mut i: usize = 0;
    while i < melds.len()
        invariant
            i <= melds.len(),
            n <= i,
            n == ankan_count(melds@.subrange(0, i as int)),
        decreases melds.len() - i,
    {
        assert(melds@.subrange(0, i + 1).drop_last() =~= melds@.subrange(0, i as int));
        if matches!(melds[i], Meld::Ankan { .. }) {
            n = n + 1;
        }
        i = i + 1;
    }
    assert(melds@.subrange(0, i as int) =~= melds@);
    n
}

fn count_pons(melds: &Vec<Meld>) -> (n: usize)
    ensures
        n == pon_count(melds@),
        n <= melds.len(),
{
    let mut n: usize = 0;
    let mut i: usize = 0;
    while i < melds.len()
        invariant
            i <= melds.len(),
            n <= i,
            n == pon_count(melds@.subrange(0, i as int)),
        decreases melds.len() - i,
    {
        assert(melds@.subrange(0, i + 1).drop_last() =~= melds@.subrange(0, i as int));
        if matches!(melds[i], Meld::Pon { .. }) {
            n = n + 1;
        }
        i = i + 1;
    }
    assert(melds@.subrange(0, i as int) =~= melds@);
    n
}

fn count_own_kans(melds: &Vec<Meld>) -> (n: usize)
    ensures
        n == kan_count(melds@),
        n <= melds.len(),
{
    let mut n: usize = 0;
    let mut i: usize = 0;
    while i < melds.len()
        invariant
            i <= melds.len(),
            n <= i,
            n == kan_count(melds@.subrange(0, i as int)),
        decreases melds.len() - i,
    {
        assert(melds@.subrange(0, i + 1).drop_last() =~= melds@.subrange(0, i as int));
        if melds[i].is_kan() {
            n = n + 1;
        }
        i = i + 1;
    }
    assert(melds@.subrange(0, i as int) =~= melds@);
    n
}

fn meld_facts(melds: &Vec<Meld>) -> (r: MeldFacts)
    ensures
        r.fixed == group_meld_count(melds@),
        r.kans == kan_count(melds@),
        r.ankans == ankan_count(melds@),
        r.pons == pon_count(melds@),
        r.chi == has_chi(melds@),
        r.open_triplet == has_open_triplet(melds@),
        r.triplet == has_triplet(melds@),
        r.middle_chi == has_middle_chi(melds@),
        r.man == has_suit(melds@, Suit::Man),
        r.pin == has_suit(melds@, Suit::Pin),
        r.sou == has_suit(melds@, Suit::Sou),
{
    let mut r = MeldFacts {
        fixed: count_group_melds(melds),
        kans: count_own_kans(melds),
        ankans: count_ankans(melds),
        pons: count_pons(melds),
        chi: false,
        open_triplet: false,
        triplet: false,
        middle_chi: false,
        man: false,
        pin: false,
        sou: false,
    };
    let mut i: usize = 0;
    while i < melds.len()
        invariant
            i <= melds.len(),
            r.fixed == group_meld_count(melds@),
            r.kans == kan_count(melds@),
            r.ankans == ankan_count(melds@),
            r.pons == pon_count(melds@),
            r.chi == exists|j: int| 0 <= j < i && (#[trigger] melds@[j]) is Chi,
            r.open_triplet == exists|j: int|
                0 <= j < i && ((#[trigger] melds@[j]) is Pon || melds@[j] is Daiminkan || melds@[j] is Kakan),
            r.triplet == exists|j: int| 0 <= j < i && triplet_tile(#[trigger] melds@[j]) is Some,
            r.middle_chi == exists|j: int|
                0 <= j < i && chi_start(#[trigger] melds@[j]) is Some && !run_has_terminal(chi_start(melds@[j])->0),
            r.man == exists|j: int| 0 <= j < i && meld_suit(#[trigger] melds@[j]) == Some(Suit::Man),
            r.pin == exists|j: int| 0 <= j < i && meld_suit(#[trigger] melds@[j]) == Some(Suit::Pin),
            r.sou == exists|j: int| 0 <= j < i && meld_suit(#[trigger] melds@[j]) == Some(Suit::Sou),
        decreases melds.len() - i,
    {
        let m = &melds[i];
        assert(melds@[i as int] == *m);
        if matches!(m, Meld::Chi { .. }) {
            r.chi = true;
        }
        if matches!(m, Meld::Pon { .. } | Meld::Daiminkan { .. } | Meld::Kakan { .. }) {
            r.open_triplet = true;
        }
        if tile_of_triplet(m).is_some() {
            r.triplet = true;
        }
        match start_of_chi(m) {
            Some(k) => {
                if !(k < 27 && (k % 9 == 0 || k % 9 == 6)) {
                    r.middle_chi = true;
                }
            },
            None => {},
        }
        match suit_of_meld(m) {
            Some(Suit::Man) => {
                r.man = true;
            },
            Some(Suit::Pin) => {
                r.pin = true;
            },
            Some(Suit::Sou) => {
                r.sou = true;
            },
            _ => {},
        }
        i = i + 1;
    }
    r
}

fn test_tile(test: TileTest, t: Tile) -> (r: bool)
    ensures
        r == passes(test, t),
{
    match test {
        TileTest::Yaochuu => t.is_yaochuu(),
        TileTest::Honor => t.is_honor(),
        TileTest::NotYaochuu => !t.is_yaochuu(),
        TileTest::NotTerminal => !t.is_terminal(),
        TileTest::NotHonor => !t.is_honor(),
        TileTest::NotGreen => !matches!(t.kind(), 19 | 20 | 21 | 23 | 25 | 32),
    }
}

fn fixed_tiles_any(melds: &Vec<Meld>, test: TileTest) -> (r: bool)
    ensures
        r == some_tile_passes(melds@, test),
{
    let mut i: usize = 0;
    while i < melds.len()
        invariant
            i <= melds.len(),
            forall|j: int| 0 <= j < i ==> !meld_passes(#[trigger] melds@[j], test),
        decreases melds.len() - i,
    {
        let m = &melds[i];
        let hit = match m {
            Meld::Chi { tiles, .. } => test_tile(test, tiles[0]) || test_tile(test, tiles[1]) || test_tile(test, tiles[2]),
            Meld::Nukidora { .. } => false,
            Meld::Pon { tile, .. } | Meld::Daiminkan { tile, .. } | Meld::Kakan { tile, .. } | Meld::Ankan { tile } =>
                test_tile(test, tile.deaka()),
        };
        assert(hit == meld_passes(melds@[i as int], test));
        if hit {
            return true;
        }
        i = i + 1;
    }
    false
}

fn triplet_kan_any(melds: &Vec<Meld>, test: TileTest) -> (r: bool)
    ensures
        r == triplet_passes(melds@, test),
{
    let mut i: usize = 0;
    while i < melds.len()
        invariant
            i <= melds.len(),
            forall|j: int|
                0 <= j < i ==> !(triplet_tile(#[trigger] melds@[j]) is Some && passes(test, triplet_tile(melds@[j])->0)),
        decreases melds.len() - i,
    {
        match tile_of_triplet(&melds[i]) {
            Some(t) => {
                if test_tile(test, t) {
                    assert(triplet_tile(melds@[i as int]) is Some);
                    return true;
                }
            },
            None => {},
        }
        i = i + 1;
    }
    false
}

fn triplet_contains(melds: &Vec<Meld>, k: usize) -> (r: bool)
    ensures
        r == has_triplet_of(melds@, k as int),
{
    let mut i: usize = 0;
    while i < melds.len()
        invariant
            i <= melds.len(),
            forall|j: int|
                0 <= j < i ==> !(triplet_tile(#[trigger] melds@[j]) is Some && triplet_tile(melds@[j])->0.kind() == k),
        decreases melds.len() - i,
    {
        match tile_of_triplet(&melds[i]) {
            Some(t) => {
                if t.kind() == k {
                    assert(triplet_tile(melds@[i as int]) is Some);
                    return true;
                }
            },
            None => {},
        }
        i = i + 1;
    }
    false
}

fn chi_starts_at(melds: &Vec<Meld>, k: usize) -> (r: bool)
    ensures
        r == has_chi_at(melds@, k as int),
{
    let mut i: usize = 0;
    while i < melds.len()
        invariant
            i <= melds.len(),
            forall|j: int| 0 <= j < i ==> chi_start(#[trigger] melds@[j]) != Some(k as int),
        decreases melds.len() - i,
    {
        match start_of_chi(&melds[i]) {
            Some(s) => {
                if s == k {
                    assert(chi_start(melds@[i as int]) == Some(k as int));
                    return true;
                }
            },
            None => {},
        }
        i = i + 1;
    }
    false
}

fn one_if(b: bool) -> (r: usize)
    ensures
        r == as_count(b),
{
    if b { 1 } else { 0 }
}

fn count_chi_at_three(melds: &Vec<Meld>, a: usize, b: usize, c: usize) -> (r: usize)
    ensures
        r == chi_at_three(melds@, a as int, b as int, c as int),
        r <= 3,
{
    one_if(chi_starts_at(melds, a)) + one_if(chi_starts_at(melds, b)) + one_if(chi_starts_at(melds, c))
}

fn count_triplets_at_three(melds: &Vec<Meld>, a: usize, b: usize, c: usize) -> (r: usize)
    ensures
        r == triplets_at_three(melds@, a as int, b as int, c as int),
        r <= 3,
{
    one_if(triplet_contains(melds, a)) + one_if(triplet_contains(melds, b)) + one_if(triplet_contains(melds, c))
}

fn sequence_pattern_blocked(melds: &Vec<Meld>, left: usize) -> (b: bool)
    requires
        left == groups_left(melds@),
        left <= 4,
    ensures
        b == sanshoku_out(melds@),
{
    let mut r: usize = 0;
    while r <= 6
        invariant
            r <= 7,
            left == groups_left(melds@),
            left <= 4,
            forall|q: int| 0 <= q < r ==> 3 - #[trigger] chi_at_three(melds@, q, 9 + q, 18 + q) > groups_left(melds@),
        decreases 7 - r,
    {
        let have: usize = count_chi_at_three(melds, r, 9 + r, 18 + r);
        if 3 - have <= left {
            assert(!(3 - chi_at_three(melds@, r as int, 9 + r, 18 + r) > groups_left(melds@)));
            return false;
        }
        r = r + 1;
    }
    true
}

fn ittsuu_blocked(melds: &Vec<Meld>, left: usize) -> (b: bool)
    requires
        left == groups_left(melds@),
        left <= 4,
    ensures
        b == straight_out(melds@),
{
    let mut s: usize = 0;
    while s < 3
        invariant
            s <= 3,
            left == groups_left(melds@),
            left <= 4,
            forall|q: int| 0 <= q < s ==> 3 - #[trigger] chi_at_three(melds@, q * 9, q * 9 + 3, q * 9 + 6) > groups_left(melds@),
        decreases 3 - s,
    {
        let have: usize = count_chi_at_three(melds, s * 9, s * 9 + 3, s * 9 + 6);
        if 3 - have <= left {
            assert(!(3 - chi_at_three(melds@, s * 9, s * 9 + 3, s * 9 + 6) > groups_left(melds@)));
            return false;
        }
        s = s + 1;
    }
    true
}

fn sanshoku_doukou_blocked(melds: &Vec<Meld>, left: usize) -> (b: bool)
    requires
        left == groups_left(melds@),
        left <= 4,
    ensures
        b == sanshoku_triplets_out(melds@),
{
    let mut r: usize = 0;
    while r < 9
        invariant
            r <= 9,
            left == groups_left(melds@),
            left <= 4,
            forall|q: int| 0 <= q < r ==> 3 - #[trigger] triplets_at_three(melds@, q, 9 + q, 18 + q) > groups_left(melds@),
        decreases 9 - r,
    {
        let have: usize = count_triplets_at_three(melds, r, 9 + r, 18 + r);
        if 3 - have <= left {
            assert(!(3 - triplets_at_three(melds@, r as int, 9 + r, 18 + r) > groups_left(melds@)));
            return false;
        }
        r = r + 1;
    }
    true
}

fn required_triplets_blocked(melds: &Vec<Meld>, lo: usize, hi: usize, required: usize, left: usize) -> (b: bool)
    requires
        lo <= hi < 34,
        required <= 4,
        left == groups_left(melds@),
        left <= 4,
    ensures
        b == triplets_out(melds@, lo as int, hi as int, required as int),
{
    let mut fixed: usize = 0;
    let mut k: usize = lo;
    proof { lemma_called_triplets_start(melds@, lo as int); }
    while k <= hi
        invariant
            lo <= k <= hi + 1,
            hi < 34,
            fixed == called_triplets(melds@, lo as int, k - 1),
            fixed <= k - lo,
        decreases hi + 1 - k,
    {
        fixed = fixed + one_if(triplet_contains(melds, k));
        k = k + 1;
    }
    required > fixed && required - fixed > left
}

proof fn lemma_called_triplets_start(melds: Seq<Meld>, lo: int)
    ensures
        called_triplets(melds, lo, lo - 1) == 0,
{
}

fn kan_yaku_blocked(f: &MeldFacts, melds: &Vec<Meld>, ctx: &YakuStarContext, target: usize, left: usize) -> (b: bool)
    requires
        f.kans == kan_count(melds@),
        f.pons == pon_count(melds@),
        f.kans <= 4,
        f.pons <= 4,
        left == groups_left(melds@),
        left <= 4,
        target <= 4,
    ensures
        b == kan_yaku_out(melds@, *ctx, target as int),
{
    if f.kans >= target {
        return false;
    }
    if ctx.total_declared_kans >= 4 {
        return true;
    }
    let most: usize = f.kans + f.pons + left;
    most < target && !(ctx.has_legal_kan_candidate && most + 1 >= target)
}

proof fn lemma_counts_within_groups(melds: Seq<Meld>)
    ensures
        ankan_count(melds) <= kan_count(melds),
        kan_count(melds) + pon_count(melds) <= group_meld_count(melds),
    decreases melds.len(),
{
    if melds.len() > 0 {
        lemma_counts_within_groups(melds.drop_last());
    }
}

fn structural_blocked(id: YakuStarId, f: &MeldFacts, melds: &Vec<Meld>, ctx: &YakuStarContext) -> (b: bool)
    requires
        f.fixed == group_meld_count(melds@),
        f.kans == kan_count(melds@),
        f.ankans == ankan_count(melds@),
        f.pons == pon_count(melds@),
        f.chi == has_chi(melds@),
        f.open_triplet == has_open_triplet(melds@),
        f.triplet == has_triplet(melds@),
        f.middle_chi == has_middle_chi(melds@),
        f.man == has_suit(melds@, Suit::Man),
        f.pin == has_suit(melds@, Suit::Pin),
        f.sou == has_suit(melds@, Suit::Sou),
    ensures
        b == is_blocked(id, melds@, *ctx),
{
    if f.fixed > 4 {
        return true;
    }
    proof { lemma_counts_within_groups(melds@); }
    let left: usize = 4 - f.fixed;
    let suits: usize = one_if(f.man) + one_if(f.pin) + one_if(f.sou);
    match id {
        YakuStarId::Riichi | YakuStarId::DoubleRiichi | YakuStarId::Ippatsu | YakuStarId::MenzenTsumo => !ctx.menzen,
        YakuStarId::Pinfu => !ctx.menzen || f.triplet,
        YakuStarId::Iipeikou => !ctx.menzen || f.fixed - f.ankans > 2,
        YakuStarId::Ryanpeikou | YakuStarId::Chiitoitsu | YakuStarId::Kokushi | YakuStarId::Chuuren => !ctx.menzen
            || f.fixed > 0,
        YakuStarId::Tanyao => fixed_tiles_any(melds, TileTest::Yaochuu),
        YakuStarId::Honitsu => suits > 1,
        YakuStarId::Chinitsu => fixed_tiles_any(melds, TileTest::Honor) || suits > 1,
        YakuStarId::Chanta => f.middle_chi || triplet_kan_any(melds, TileTest::NotYaochuu),
        YakuStarId::Junchan => f.middle_chi || triplet_kan_any(melds, TileTest::NotTerminal),
        YakuStarId::Honroutou => f.chi || fixed_tiles_any(melds, TileTest::NotYaochuu),
        YakuStarId::Chinroutou => f.chi || fixed_tiles_any(melds, TileTest::NotTerminal),
        YakuStarId::Tsuuiisou => fixed_tiles_any(melds, TileTest::NotHonor),
        YakuStarId::Ryuuiisou => fixed_tiles_any(melds, TileTest::NotGreen),
        YakuStarId::Toitoi => f.chi,
        YakuStarId::Suuankou => !ctx.menzen || f.chi || f.open_triplet,
        YakuStarId::Sanankou => f.ankans + left < 3,
        YakuStarId::Sankantsu => kan_yaku_blocked(f, melds, ctx, 3, left),
        YakuStarId::Suukantsu => kan_yaku_blocked(f, melds, ctx, 4, left),
        YakuStarId::SanshokuDoujun => sequence_pattern_blocked(melds, left),
        YakuStarId::Ittsuu => ittsuu_blocked(melds, left),
        YakuStarId::SanshokuDoukou => sanshoku_doukou_blocked(melds, left),
        YakuStarId::YakuhaiRound => !triplet_contains(melds, ctx.bakaze.kind()) && f.fixed >= 4,
        YakuStarId::YakuhaiSeat => !triplet_contains(melds, ctx.jikaze.kind()) && f.fixed >= 4,
        YakuStarId::Haku => !triplet_contains(melds, 31) && f.fixed >= 4,
        YakuStarId::Hatsu => !triplet_contains(melds, 32) && f.fixed >= 4,
        YakuStarId::Chun => !triplet_contains(melds, 33) && f.fixed >= 4,
        YakuStarId::Daisangen => required_triplets_blocked(melds, 31, 33, 3, left),
        YakuStarId::Shousangen => required_triplets_blocked(melds, 31, 33, 2, left),
        YakuStarId::Daisuushi => required_triplets_blocked(melds, 27, 30, 4, left),
        YakuStarId::Shousuushi => required_triplets_blocked(melds, 27, 30, 3, left),
        YakuStarId::Tenhou => !ctx.tenhou,
        YakuStarId::Chiihou => !ctx.chiihou,
        _ => false,
    }
}

// Masks.

/// Whether a kind is in a bitmap.
pub open spec fn has_bit(mask: u64, k: u64) -> bool {
    mask & (1u64 << k) != 0
}

proof fn lemma_set_bit(mask: u64, k: u64, j: u64)
    requires
        k < 64,
        j < 64,
    ensures
        has_bit(mask | (1u64 << k), j) == (has_bit(mask, j) || j == k),
{
    assert(((mask | (1u64 << k)) & (1u64 << j) != 0) == ((mask & (1u64 << j) != 0) || j == k)) by (bit_vector)
        requires
            k < 64,
            j < 64,
    ;
}

proof fn lemma_no_bits(j: u64)
    requires
        j < 64,
    ensures
        !has_bit(0, j),
{
    assert(0u64 & (1u64 << j) == 0) by (bit_vector);
}

proof fn lemma_zero_mask(mask: u64)
    requires
        forall|j: u64| j < 64 ==> !#[trigger] has_bit(mask, j),
    ensures
        mask == 0,
{
    lemma_nonzero_has_bit(mask, 0);
    assert(mask >> 0u64 == 0 ==> mask == 0) by (bit_vector);
}

proof fn lemma_nonzero_has_bit(mask: u64, from: u64)
    requires
        forall|j: u64| j < 64 ==> !#[trigger] has_bit(mask, j),
        from <= 64,
    ensures
        from < 64 ==> mask >> from == 0,
    decreases 64 - from,
{
    if from < 63 {
        lemma_nonzero_has_bit(mask, (from + 1) as u64);
        assert(!has_bit(mask, from));
        let next = (from + 1) as u64;
        assert(mask >> from == 0) by (bit_vector)
            requires
                from < 63,
                next == from + 1,
                mask >> next == 0,
                mask & (1u64 << from) == 0,
        ;
    } else if from == 63 {
        assert(!has_bit(mask, 63));
        assert(mask >> 63u64 == 0) by (bit_vector)
            requires
                mask & (1u64 << 63u64) == 0,
        ;
    }
}

/// A win on one more tile of a kind, as the star map sees it.
pub open spec fn star_win(c: Seq<u8>, k: int, melds: Seq<Meld>, star: YakuStarContext, is_tsumo: bool) -> WinFacts {
    WinFacts {
        rule_profile: star.rule_profile,
        concealed: with_tile(c, k),
        melds,
        win_tile: Tile::of(k),
        is_tsumo,
        menzen: star.menzen,
        bakaze: star.bakaze,
        jikaze: star.jikaze,
        riichi: star.riichi,
        double_riichi: star.double_riichi,
        ippatsu: star.ippatsu,
        haitei: is_tsumo && star.haitei,
        houtei: !is_tsumo && star.houtei,
        rinshan: is_tsumo && star.rinshan,
        chankan: !is_tsumo && star.chankan,
        tenhou: is_tsumo && star.tenhou,
        chiihou: is_tsumo && star.chiihou,
        nuki_count: star.nuki_count,
        pei_is_yakuhai: star.pei_is_yakuhai,
    }
}

/// Whether a yaku with a slot is in a list.
pub open spec fn lists_slot(yaku: Seq<(Yaku, u8)>, slot: int) -> bool {
    exists|i: int|
        0 <= i < yaku.len() && yaku_star_id((#[trigger] yaku[i]).0) is Some && yaku_star_id(yaku[i].0)->0.index() == slot
}

/// A win counts and has the yaku of a slot.
#[verifier::opaque]
pub open spec fn confirms(f: WinFacts, slot: int) -> bool {
    let r = evaluated(f);
    (r.han != 0 || r.yakuman != 0) && lists_slot(r.yaku, slot)
}

/// Groups called, as the shanten functions take the number.
pub open spec fn fixed_count(melds: Seq<Meld>) -> u8 {
    (group_meld_count(melds) % 256) as u8
}

pub open spec fn chiitoi_track(c: Seq<u8>, melds: Seq<Meld>, star: YakuStarContext) -> int {
    if star.menzen && fixed_count(melds) == 0 { chiitoitsu_value(c) } else { 127 }
}

pub open spec fn kokushi_track(c: Seq<u8>, melds: Seq<Meld>, star: YakuStarContext) -> int {
    if star.menzen && fixed_count(melds) == 0 { kokushi_value(c) } else { 127 }
}

pub open spec fn least_track(c: Seq<u8>, melds: Seq<Meld>, star: YakuStarContext, sanma: bool) -> int {
    min3(
        standard_value(c, fixed_count(melds), sanma),
        chiitoi_track(c, melds, star),
        kokushi_track(c, melds, star),
    )
}

/// Copies of the kinds that have not been seen.
pub open spec fn unseen(kinds: Seq<usize>, seen: Seq<u8>) -> nat
    decreases kinds.len(),
{
    if kinds.len() == 0 {
        0
    } else {
        unseen(kinds.drop_last(), seen) + if seen[kinds.last() as int] < 4 { (4 - seen[kinds.last() as int]) as nat } else { 0 }
    }
}

/// A kind the hand waits on.
pub open spec fn star_wait(c: Seq<u8>, melds: Seq<Meld>, star: YakuStarContext, sanma: bool, k: int) -> bool {
    least_track(c, melds, star, sanma) == TENPAI && ukeire_kinds(c, fixed_count(melds), sanma).contains(k as usize)
}

/// The facts of a hand as a whole.
pub open spec fn facts_hold(
    r: StandardShapeFacts,
    c: Seq<u8>,
    seen: Seq<u8>,
    melds: Seq<Meld>,
    star: YakuStarContext,
    sanma: bool,
) -> bool {
    let ukeire = ukeire_kinds(c, fixed_count(melds), sanma);
    &&& r.shanten_normal == standard_value(c, fixed_count(melds), sanma)
    &&& r.shanten_chiitoi == chiitoi_track(c, melds, star)
    &&& r.shanten_kokushi == kokushi_track(c, melds, star)
    &&& r.shanten_min == least_track(c, melds, star, sanma)
    &&& r.ukeire_kinds == ukeire.len()
    &&& r.ukeire_unseen == unseen(ukeire, seen)
    &&& forall|k: u64| k < 64 ==> (#[trigger] has_bit(r.wait_mask, k) <==> k < 34 && star_wait(c, melds, star, sanma, k as int))
}

/// A bitmap of the waits that carry a yaku.
pub open spec fn mask_holds(
    mask: u64,
    id: YakuStarId,
    c: Seq<u8>,
    melds: Seq<Meld>,
    star: YakuStarContext,
    sanma: bool,
    is_tsumo: bool,
) -> bool {
    forall|k: u64|
        k < 64 ==> (#[trigger] has_bit(mask, k) <==> k < 34 && star_wait(c, melds, star, sanma, k as int) && confirms(
            star_win(c, k as int, melds, star, is_tsumo),
            id.index() as int,
        ))
}

/// The row of a yaku, given the bitmap of the waits: blocked by the melds, else confirmed where
/// there are waits and every one carries it by ron or by tsumo, else possible.
pub open spec fn row_holds(
    row: YakuStarRow,
    id: YakuStarId,
    c: Seq<u8>,
    melds: Seq<Meld>,
    star: YakuStarContext,
    sanma: bool,
    wait_mask: u64,
) -> bool {
    &&& row.static_identity_han == static_identity_han(id)
    &&& is_blocked(id, melds, star) ==> row.status == YakuStarStatus::Blocked && !row.structural_reachable
        && row.ron_wait_mask == 0 && row.tsumo_wait_mask == 0
    &&& !is_blocked(id, melds, star) ==> {
        &&& row.structural_reachable
        &&& mask_holds(row.ron_wait_mask, id, c, melds, star, sanma, false)
        &&& mask_holds(row.tsumo_wait_mask, id, c, melds, star, sanma, true)
        &&& row.status == if wait_mask != 0 && (row.ron_wait_mask | row.tsumo_wait_mask) == wait_mask {
            YakuStarStatus::Confirmed
        } else {
            YakuStarStatus::Possible
        }
    }
}

/// The wins on all waits can be evaluated; a matter of course for a hand with few melds.
pub open spec fn star_can_evaluate(c: Seq<u8>, melds: Seq<Meld>, star: YakuStarContext, sanma: bool) -> bool {
    melds.len() <= 40 || forall|k: int, is_tsumo: bool|
        0 <= k < 34 && star_wait(c, melds, star, sanma, k) ==> can_evaluate(
            #[trigger] star_win(c, k, melds, star, is_tsumo),
        )
}

/// The masks of all slots after the kinds below `n`.
spec fn masks_hold(
    masks: Seq<u64>,
    c: Seq<u8>,
    melds: Seq<Meld>,
    star: YakuStarContext,
    sanma: bool,
    is_tsumo: bool,
    n: int,
) -> bool {
    masks.len() == 42 && forall|i: int, k: u64|
        0 <= i < 42 && k < 64 ==> (#[trigger] has_bit(masks[i], k) <==> k < n && star_wait(c, melds, star, sanma, k as int)
            && confirms(star_win(c, k as int, melds, star, is_tsumo), i))
}

/// The yaku of a win on a kind.
fn star_result(concealed: &TileCounts, kind: usize, melds: &Vec<Meld>, star: &YakuStarContext, is_tsumo: bool) -> (r: YakuResult)
    requires
        kind < 34,
        concealed@[kind as int] < 4,
        can_evaluate(star_win(concealed@, kind as int, melds@, *star, is_tsumo)),
    ensures
        r@ == evaluated(star_win(concealed@, kind as int, melds@, *star, is_tsumo)),
{
    let mut agari = *concealed;
    agari.0[kind] = agari.0[kind] + 1;
    assert(agari@ =~= with_tile(concealed@, kind as int));
    let ctx = YakuContext {
        rule_profile: star.rule_profile,
        concealed: agari.0,
        melds: clone_melds(melds),
        win_tile: Tile::from_id_unchecked(kind as u8),
        is_tsumo,
        menzen: star.menzen,
        bakaze: star.bakaze,
        jikaze: star.jikaze,
        riichi: star.riichi,
        double_riichi: star.double_riichi,
        ippatsu: star.ippatsu,
        haitei: is_tsumo && star.haitei,
        houtei: !is_tsumo && star.houtei,
        rinshan: is_tsumo && star.rinshan,
        chankan: !is_tsumo && star.chankan,
        tenhou: is_tsumo && star.tenhou,
        chiihou: is_tsumo && star.chiihou,
        nuki_count: star.nuki_count,
        pei_is_yakuhai: star.pei_is_yakuhai,
    };
    assert(ctx@ == star_win(concealed@, kind as int, melds@, *star, is_tsumo));
    evaluate(&ctx)
}

/// Sets the bit of a kind in the slots of the listed yaku.
fn mark_slots(yaku: &Vec<(Yaku, u8)>, kind: usize, masks: &mut [u64; 42])
    requires
        kind < 34,
    ensures
        forall|s: int, k: u64|
            0 <= s < 42 && k < 64 ==> (#[trigger] has_bit(final(masks)@[s], k) <==> has_bit(old(masks)@[s], k) || (k
                == kind && lists_slot(yaku@, s))),
{
    let ghost before = masks@;
    let w: u64 = kind as u64;
    let mut i: usize = 0;
    while i < yaku.len()
        invariant
            i <= yaku.len(),
            kind < 34,
            w == kind,
            forall|s: int, k: u64|
                0 <= s < 42 && k < 64 ==> (#[trigger] has_bit(masks@[s], k) <==> has_bit(before[s], k) || (k == w
                    && lists_slot(yaku@.subrange(0, i as int), s))),
        decreases yaku.len() - i,
    {
        let found = yaku_star_id(yaku[i].0);
        let ghost mid = masks@;
        let ghost shorter = yaku@.subrange(0, i as int);
        let ghost longer = yaku@.subrange(0, i + 1);
        proof {
            assert forall|s: int| #[trigger] lists_slot(longer, s) <==> lists_slot(shorter, s) || (found is Some && found->0.index() == s) by {
                if lists_slot(longer, s) {
                    let j = choose|j: int| 0 <= j < longer.len() && yaku_star_id((#[trigger] longer[j]).0) is Some
                        && yaku_star_id(longer[j].0)->0.index() == s;
                    if j < i {
                        assert(shorter[j] == longer[j]);
                    }
                }
                if lists_slot(shorter, s) {
                    let j = choose|j: int| 0 <= j < shorter.len() && yaku_star_id((#[trigger] shorter[j]).0) is Some
                        && yaku_star_id(shorter[j].0)->0.index() == s;
                    assert(shorter[j] == longer[j]);
                }
                if found is Some && found->0.index() == s {
                    assert(yaku_star_id(longer[i as int].0) == found);
                }
            }
        }
        match found {
            Some(id) => {
                let slot: usize = id.index();
                masks[slot] = masks[slot] | (1u64 << w);
                assert forall|s: int, k: u64| 0 <= s < 42 && k < 64 implies (#[trigger] has_bit(masks@[s], k) <==> has_bit(
                    before[s], k) || (k == w && lists_slot(longer, s))) by {
                    lemma_set_bit(mid[slot as int], w, k);
                    assert(has_bit(mid[s], k) <==> has_bit(before[s], k) || (k == w && lists_slot(shorter, s)));
                }
            },
            None => {
                assert forall|s: int, k: u64| 0 <= s < 42 && k < 64 implies (#[trigger] has_bit(masks@[s], k) <==> has_bit(
                    before[s], k) || (k == w && lists_slot(longer, s))) by {
                    assert(has_bit(mid[s], k) <==> has_bit(before[s], k) || (k == w && lists_slot(shorter, s)));
                }
            },
        }
        i = i + 1;
    }
    assert(yaku@.subrange(0, i as int) =~= yaku@);
}

/// Sets the bit of a kind in the slots that a win on it confirms.
fn mark_confirmed_slots(
    concealed: &TileCounts,
    kind: usize,
    melds: &Vec<Meld>,
    star: &YakuStarContext,
    is_tsumo: bool,
    masks: &mut [u64; 42],
    Ghost(sanma): Ghost<bool>,
)
    requires
        kind < 34,
        concealed@[kind as int] < 4,
        can_evaluate(star_win(concealed@, kind as int, melds@, *star, is_tsumo)),
        star_wait(concealed@, melds@, *star, sanma, kind as int),
        masks_hold(old(masks)@, concealed@, melds@, *star, sanma, is_tsumo, kind as int),
    ensures
        masks_hold(final(masks)@, concealed@, melds@, *star, sanma, is_tsumo, kind + 1),
{
    let ghost f = star_win(concealed@, kind as int, melds@, *star, is_tsumo);
    let result = star_result(concealed, kind, melds, star, is_tsumo);
    let ghost before = masks@;
    proof {
        assert forall|s: int| #[trigger] confirms(f, s) == ((result.han != 0 || result.yakuman != 0) && lists_slot(result.yaku@, s)) by {
            reveal(confirms);
        }
    }
    if result.han != 0 || result.yakuman != 0 {
        mark_slots(&result.yaku, kind, masks);
    }
    assert forall|s: int, k: u64| 0 <= s < 42 && k < 64 implies (#[trigger] has_bit(masks@[s], k) <==> k < kind + 1
        && star_wait(concealed@, melds@, *star, sanma, k as int) && confirms(
        star_win(concealed@, k as int, melds@, *star, is_tsumo), s)) by {
        assert(has_bit(before[s], k) <==> k < kind && star_wait(concealed@, melds@, *star, sanma, k as int) && confirms(
            star_win(concealed@, k as int, melds@, *star, is_tsumo), s));
        if k == kind {
            assert(f == star_win(concealed@, k as int, melds@, *star, is_tsumo));
        }
    }
}

fn mask_of(kinds: &Vec<usize>) -> (mask: u64)
    requires
        forall|i: int| 0 <= i < kinds@.len() ==> #[trigger] kinds@[i] < 34,
    ensures
        forall|k: u64| k < 64 ==> (#[trigger] has_bit(mask, k) <==> kinds@.contains(k as usize)),
{
    let mut mask: u64 = 0;
    let mut i: usize = 0;
    proof {
        assert forall|k: u64| k < 64 implies !#[trigger] has_bit(mask, k) by {
            lemma_no_bits(k);
        }
    }
    while i < kinds.len()
        invariant
            i <= kinds.len(),
            forall|j: int| 0 <= j < kinds@.len() ==> #[trigger] kinds@[j] < 34,
            forall|k: u64|
                k < 64 ==> (#[trigger] has_bit(mask, k) <==> exists|j: int| 0 <= j < i && #[trigger] kinds@[j] == k),
        decreases kinds.len() - i,
    {
        let w: u64 = kinds[i] as u64;
        assert(kinds@[i as int] < 34);
        let ghost before = mask;
        mask = mask | (1u64 << w);
        assert forall|k: u64| k < 64 implies (#[trigger] has_bit(mask, k) <==> exists|j: int|
            0 <= j < i + 1 && #[trigger] kinds@[j] == k) by {
            lemma_set_bit(before, w, k);
            assert(has_bit(before, k) <==> exists|j: int| 0 <= j < i && #[trigger] kinds@[j] == k);
            if k == w {
                assert(kinds@[i as int] == k);
            }
        }
        i = i + 1;
    }
    assert forall|k: u64| k < 64 implies (#[trigger] has_bit(mask, k) <==> kinds@.contains(k as usize)) by {
        if kinds@.contains(k as usize) {
            let j = choose|j: int| 0 <= j < kinds@.len() && kinds@[j] == k as usize;
            assert(kinds@[j] == k);
        }
    }
    mask
}

fn count_unseen(kinds: &Vec<usize>, seen: &TileCounts) -> (n: u16)
    requires
        kinds.len() <= 34,
        forall|i: int| 0 <= i < kinds@.len() ==> #[trigger] kinds@[i] < 34,
    ensures
        n == unseen(kinds@, seen@),
{
    let mut n: u16 = 0;
    let mut i: usize = 0;
    while i < kinds.len()
        invariant
            i <= kinds.len() <= 34,
            forall|j: int| 0 <= j < kinds@.len() ==> #[trigger] kinds@[j] < 34,
            n == unseen(kinds@.subrange(0, i as int), seen@),
            n <= 4 * i,
        decreases kinds.len() - i,
    {
        assert(kinds@.subrange(0, i + 1).drop_last() =~= kinds@.subrange(0, i as int));
        let s: u8 = seen.0[kinds[i]];
        n = n + if s < 4 { (4 - s) as u16 } else { 0 };
        i = i + 1;
    }
    assert(kinds@.subrange(0, i as int) =~= kinds@);
    n
}

fn shape_facts(
    concealed: &TileCounts,
    tiles_seen: &TileCounts,
    melds: &Vec<Meld>,
    ctx: &YakuStarContext,
    sanma: bool,
) -> (r: StandardShapeFacts)
    ensures
        facts_hold(r, concealed@, tiles_seen@, melds@, *ctx, sanma),
{
    let fixed: u8 = (count_group_melds(melds) % 256) as u8;
    let special = ctx.menzen && fixed == 0;
    let shanten_normal: i8 = if sanma { shanten_standard_3p(concealed, fixed) } else { shanten_standard(concealed, fixed) };
    let shanten_chiitoi: i8 = if special { shanten_chiitoitsu(concealed) } else { i8::MAX };
    let shanten_kokushi: i8 = if special { shanten_kokushi(concealed) } else { i8::MAX };
    let shanten_min: i8 = if shanten_normal <= shanten_chiitoi && shanten_normal <= shanten_kokushi {
        shanten_normal
    } else if shanten_chiitoi <= shanten_kokushi {
        shanten_chiitoi
    } else {
        shanten_kokushi
    };
    let ukeire = ukeire_for(concealed, fixed, sanma);
    proof {
        let p = |k: int| crate::mahjong::agari::advances(concealed@, fixed, sanma, k);
        lemma_kinds_below(34, p);
        assert forall|k: u64| 34 <= k < 64 implies !#[trigger] ukeire@.contains(k as usize) by {}
        assert forall|k: u64| k < 64 implies !#[trigger] has_bit(0, k) by {
            lemma_no_bits(k);
        }
    }
    let ukeire_unseen: u16 = count_unseen(&ukeire, tiles_seen);
    let wait_mask: u64 = if shanten_min == TENPAI { mask_of(&ukeire) } else { 0 };
    StandardShapeFacts {
        shanten_normal,
        shanten_chiitoi,
        shanten_kokushi,
        shanten_min,
        ukeire_kinds: ukeire.len() as u8,
        ukeire_unseen,
        wait_mask,
    }
}

proof fn lemma_star_win_ordinary(c: Seq<u8>, melds: Seq<Meld>, star: YakuStarContext, sanma: bool, k: int, is_tsumo: bool)
    requires
        c.len() == 34,
        0 <= k < 34,
        star_wait(c, melds, star, sanma, k),
        star_can_evaluate(c, melds, star, sanma),
    ensures
        c[k] < 4,
        can_evaluate(star_win(c, k, melds, star, is_tsumo)),
{
    let p = |j: int| crate::mahjong::agari::advances(c, fixed_count(melds), sanma, j);
    let u = ukeire_kinds(c, fixed_count(melds), sanma);
    lemma_kinds_below(34, p);
    let i = choose|i: int| 0 <= i < u.len() && u[i] == k as usize;
    assert(p(u[i] as int));
}

/// The masks of all slots, for ron or for tsumo.
fn confirmed_masks(
    concealed: &TileCounts,
    melds: &Vec<Meld>,
    ctx: &YakuStarContext,
    sanma: bool,
    is_tsumo: bool,
    facts: &StandardShapeFacts,
    Ghost(seen): Ghost<Seq<u8>>,
) -> (masks: [u64; 42])
    requires
        facts_hold(*facts, concealed@, seen, melds@, *ctx, sanma),
        star_can_evaluate(concealed@, melds@, *ctx, sanma),
    ensures
        masks_hold(masks@, concealed@, melds@, *ctx, sanma, is_tsumo, 34),
{
    let mut masks = [0u64; 42];
    proof {
        assert forall|i: int, k: u64| 0 <= i < 42 && k < 64 implies !#[trigger] has_bit(masks@[i], k) by {
            lemma_no_bits(k);
        }
    }
    let mut kind: usize = 0;
    while kind < 34
        invariant
            kind <= 34,
            facts_hold(*facts, concealed@, seen, melds@, *ctx, sanma),
            star_can_evaluate(concealed@, melds@, *ctx, sanma),
            masks_hold(masks@, concealed@, melds@, *ctx, sanma, is_tsumo, kind as int),
        decreases 34 - kind,
    {
        let w: u64 = kind as u64;
        let bit: u64 = 1u64 << w;
        assert(has_bit(facts.wait_mask, w) <==> star_wait(concealed@, melds@, *ctx, sanma, kind as int));
        if facts.wait_mask & bit != 0 {
            proof { lemma_star_win_ordinary(concealed@, melds@, *ctx, sanma, kind as int, is_tsumo); }
            mark_confirmed_slots(concealed, kind, melds, ctx, is_tsumo, &mut masks, Ghost(sanma));
        }
        kind = kind + 1;
    }
    masks
}

pub fn yaku_star_for(
    concealed: &TileCounts,
    tiles_seen: &TileCounts,
    melds: &[Meld],
    ctx: &YakuStarContext,
    sanma: bool,
) -> (r: YakuStarState)
    requires
        star_can_evaluate(concealed@, melds@, *ctx, sanma),
    ensures
        facts_hold(r.facts, concealed@, tiles_seen@, melds@, *ctx, sanma),
        forall|i: usize|
            i < 42 ==> row_holds(
                #[trigger] r.rows@[i as int],
                YakuStarId::at(i),
                concealed@,
                melds@,
                *ctx,
                sanma,
                r.facts.wait_mask,
            ),
{
    let owned = vstd::slice::slice_to_vec(melds);
    let f = meld_facts(&owned);
    let facts = shape_facts(concealed, tiles_seen, &owned, ctx, sanma);
    let ron = confirmed_masks(concealed, &owned, ctx, sanma, false, &facts, Ghost(tiles_seen@));
    let tsumo = confirmed_masks(concealed, &owned, ctx, sanma, true, &facts, Ghost(tiles_seen@));
    let mut rows = [YakuStarRow {
        status: YakuStarStatus::Possible,
        structural_reachable: true,
        static_identity_han: 1,
        ron_wait_mask: 0,
        tsumo_wait_mask: 0,
    }; 42];
    let mut i: usize = 0;
    while i < 42
        invariant
            i <= 42,
            owned@ == melds@,
            f.fixed == group_meld_count(melds@),
            f.kans == kan_count(melds@),
            f.ankans == ankan_count(melds@),
            f.pons == pon_count(melds@),
            f.chi == has_chi(melds@),
            f.open_triplet == has_open_triplet(melds@),
            f.triplet == has_triplet(melds@),
            f.middle_chi == has_middle_chi(melds@),
            f.man == has_suit(melds@, Suit::Man),
            f.pin == has_suit(melds@, Suit::Pin),
            f.sou == has_suit(melds@, Suit::Sou),
            masks_hold(ron@, concealed@, melds@, *ctx, sanma, false, 34),
            masks_hold(tsumo@, concealed@, melds@, *ctx, sanma, true, 34),
            forall|j: usize|
                j < i ==> row_holds(
                    #[trigger] rows@[j as int],
                    YakuStarId::at(j),
                    concealed@,
                    melds@,
                    *ctx,
                    sanma,
                    facts.wait_mask,
                ),
        decreases 42 - i,
    {
        let id = YakuStarId::at(i);
        let han: u8 = static_identity_han(id);
        let row = if sanma && yaku_3p_not_applicable(id) {
            YakuStarRow {
                status: YakuStarStatus::NotApplicable,
                structural_reachable: false,
                static_identity_han: han,
                ron_wait_mask: 0,
                tsumo_wait_mask: 0,
            }
        } else if structural_blocked(id, &f, &owned, ctx) {
            YakuStarRow {
                status: YakuStarStatus::Blocked,
                structural_reachable: false,
                static_identity_han: han,
                ron_wait_mask: 0,
                tsumo_wait_mask: 0,
            }
        } else {
            let r: u64 = ron[i];
            let t: u64 = tsumo[i];
            let every_wait = facts.wait_mask != 0 && (r | t) == facts.wait_mask;
            let status = if every_wait { YakuStarStatus::Confirmed } else { YakuStarStatus::Possible };
            assert(mask_holds(r, id, concealed@, melds@, *ctx, sanma, false));
            assert(mask_holds(t, id, concealed@, melds@, *ctx, sanma, true));
            YakuStarRow {
                status,
                structural_reachable: true,
                static_identity_han: han,
                ron_wait_mask: r,
                tsumo_wait_mask: t,
            }
        };
        assert(row_holds(row, id, concealed@, melds@, *ctx, sanma, facts.wait_mask));
        rows[i] = row;
        i = i + 1;
    }
    YakuStarState { facts, rows }
}

/// Four-player yaku star map.
pub fn yaku_star(concealed: &TileCounts, tiles_seen: &TileCounts, melds: &[Meld], ctx: &YakuStarContext) -> (r: YakuStarState)
    requires
        star_can_evaluate(concealed@, melds@, *ctx, false),
    ensures
        facts_hold(r.facts, concealed@, tiles_seen@, melds@, *ctx, false),
        forall|i: usize|
            i < 42 ==> row_holds(
                #[trigger] r.rows@[i as int],
                YakuStarId::at(i),
                concealed@,
                melds@,
                *ctx,
                false,
                r.facts.wait_mask,
            ),
{
    yaku_star_for(concealed, tiles_seen, melds, ctx, false)
}

/// Three-player yaku star map; ukeire and waits exclude 2m..8m.
pub fn yaku_star_3p(concealed: &TileCounts, tiles_seen: &TileCounts, melds: &[Meld], ctx: &YakuStarContext) -> (r: YakuStarState)
    requires
        star_can_evaluate(concealed@, melds@, *ctx, true),
    ensures
        facts_hold(r.facts, concealed@, tiles_seen@, melds@, *ctx, true),
        forall|i: usize|
            i < 42 ==> row_holds(
                #[trigger] r.rows@[i as int],
                YakuStarId::at(i),
                concealed@,
                melds@,
                *ctx,
                true,
                r.facts.wait_mask,
            ),
{
    yaku_star_for(concealed, tiles_seen, melds, ctx, true)
}

/// The slots are numbered without gaps or repetition.
pub proof fn star_slots_are_numbered(id: YakuStarId, i: usize)
    ensures
        id.index() < 42,
        YakuStarId::at(id.index()) == id,
        i < 42 ==> YakuStarId::at(i).index() == i,
{
}

/// Masks stay within the waits. A confirmed yaku is carried by every wait, by ron or by tsumo, and
/// there is a wait; a hand short of tenpai confirms nothing; and a blocked yaku is carried by no
/// wait.
pub proof fn star_masks_stay_within_waits(
    row: YakuStarRow,
    facts: StandardShapeFacts,
    id: YakuStarId,
    c: Seq<u8>,
    seen: Seq<u8>,
    melds: Seq<Meld>,
    star: YakuStarContext,
    sanma: bool,
)
    requires
        facts_hold(facts, c, seen, melds, star, sanma),
        row_holds(row, id, c, melds, star, sanma, facts.wait_mask),
    ensures
        forall|k: u64| k < 64 && #[trigger] has_bit(row.ron_wait_mask, k) ==> has_bit(facts.wait_mask, k),
        forall|k: u64| k < 64 && #[trigger] has_bit(row.tsumo_wait_mask, k) ==> has_bit(facts.wait_mask, k),
        facts.shanten_min != TENPAI ==> facts.wait_mask == 0 && row.status != YakuStarStatus::Confirmed,
        row.status == YakuStarStatus::Confirmed ==> {
            &&& row.structural_reachable
            &&& facts.wait_mask != 0
            &&& forall|k: u64|
                k < 64 && #[trigger] has_bit(facts.wait_mask, k) ==> has_bit(row.ron_wait_mask, k) || has_bit(
                    row.tsumo_wait_mask,
                    k,
                )
        },
        row.status == YakuStarStatus::Blocked ==> row.ron_wait_mask == 0 && row.tsumo_wait_mask == 0,
{
    assert forall|k: u64| k < 64 implies !#[trigger] has_bit(0, k) by {
        lemma_no_bits(k);
    }
    assert forall|k: u64| k < 64 && #[trigger] has_bit(row.ron_wait_mask, k) implies has_bit(facts.wait_mask, k) by {}
    assert forall|k: u64| k < 64 && #[trigger] has_bit(row.tsumo_wait_mask, k) implies has_bit(facts.wait_mask, k) by {}
    if facts.shanten_min != TENPAI {
        assert forall|k: u64| k < 64 implies !#[trigger] has_bit(facts.wait_mask, k) by {}
        lemma_zero_mask(facts.wait_mask);
    }
    if row.status == YakuStarStatus::Confirmed {
        assert forall|k: u64| k < 64 && #[trigger] has_bit(facts.wait_mask, k) implies has_bit(row.ron_wait_mask, k)
            || has_bit(row.tsumo_wait_mask, k) by {
            lemma_bit_of_either(row.ron_wait_mask, row.tsumo_wait_mask, k);
        }
    }
}

proof fn lemma_bit_of_either(a: u64, b: u64, k: u64)
    requires
        k < 64,
    ensures
        has_bit(a | b, k) == (has_bit(a, k) || has_bit(b, k)),
{
    assert(((a | b) & (1u64 << k) != 0) == ((a & (1u64 << k) != 0) || (b & (1u64 << k) != 0))) by (bit_vector)
        requires
            k < 64,
    ;
}

} // verus!
