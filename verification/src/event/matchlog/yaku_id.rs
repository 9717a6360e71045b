//! Tenhou yaku IDs, as the match log lists yaku by them.
//!
//! Tenhou has eight IDs for winds (seat wind 10..13, round wind 14..17). The ID of a wind
//! therefore takes the seat's and the round's wind, and the name of an ID tells seat wind from
//! round wind only. Nagashi mangan (36) is a draw, and dora (52 to 54) have fields of their
//! own: neither is in the table.

use vstd::prelude::*;
use crate::mahjong::tile::Tile;
use crate::mahjong::yaku::{Yaku, YakuhaiKind, YakumanKind};
use crate::text::owned;

verus! {

/// Wind offset in the yaku table (E=0 S=1 W=2 N=3).
pub open spec fn wind_offset_of(tile: Tile) -> Option<u8> {
    if 27 <= tile.id() <= 30 { Some((tile.id() - 27) as u8) } else { None }
}

fn wind_offset(tile: Tile) -> (r: Option<u8>)
    ensures
        r == wind_offset_of(tile),
{
    let id: u8 = tile.id();
    if 27 <= id && id <= 30 {
        Some(id - 27)
    } else {
        None
    }
}

pub open spec fn yakuman_id(k: YakumanKind) -> u8 {
    match k {
        YakumanKind::Tenhou => 37,
        YakumanKind::Chiihou => 38,
        YakumanKind::Daisangen => 39,
        YakumanKind::Suuankou => 40,
        YakumanKind::SuuankouTanki => 41,
        YakumanKind::Tsuuiisou => 42,
        YakumanKind::Ryuuiisou => 43,
        YakumanKind::Chinroutou => 44,
        YakumanKind::ChuurenPoutou => 45,
        YakumanKind::JunseiChuuren => 46,
        YakumanKind::KokushiMusou => 47,
        YakumanKind::KokushiMusouJuusanmen => 48,
        YakumanKind::Daisuushi => 49,
        YakumanKind::Shousuushi => 50,
        YakumanKind::Suukantsu => 51,
    }
}

/// The ID of a yaku.
pub open spec fn yaku_id_of(yaku: Yaku, jikaze: Tile, bakaze: Tile) -> Option<u8> {
    match yaku {
        Yaku::Yakuhai(YakuhaiKind::Jikaze) => match wind_offset_of(jikaze) {
            Some(o) => Some((10 + o) as u8),
            None => None,
        },
        Yaku::Yakuhai(YakuhaiKind::Bakaze) => match wind_offset_of(bakaze) {
            Some(o) => Some((14 + o) as u8),
            None => None,
        },
        Yaku::Yakuhai(YakuhaiKind::Pei) => None,
        Yaku::Yakuman(k) => Some(yakuman_id(k)),
        Yaku::MenzenTsumo => Some(0u8),
        Yaku::Riichi => Some(1u8),
        Yaku::Ippatsu => Some(2u8),
        Yaku::Chankan => Some(3u8),
        Yaku::Rinshan => Some(4u8),
        Yaku::Haitei => Some(5u8),
        Yaku::Houtei => Some(6u8),
        Yaku::Pinfu => Some(7u8),
        Yaku::Tanyao => Some(8u8),
        Yaku::Iipeikou => Some(9u8),
        Yaku::Yakuhai(YakuhaiKind::Haku) => Some(18u8),
        Yaku::Yakuhai(YakuhaiKind::Hatsu) => Some(19u8),
        Yaku::Yakuhai(YakuhaiKind::Chun) => Some(20u8),
        Yaku::DoubleRiichi => Some(21u8),
        Yaku::Chiitoitsu => Some(22u8),
        Yaku::Chanta => Some(23u8),
        Yaku::Ittsuu => Some(24u8),
        Yaku::Sanshoku => Some(25u8),
        Yaku::SanshokuDoukou => Some(26u8),
        Yaku::Sankantsu => Some(27u8),
        Yaku::Toitoi => Some(28u8),
        Yaku::Sanankou => Some(29u8),
        Yaku::Shousangen => Some(30u8),
        Yaku::Honroutou => Some(31u8),
        Yaku::Ryanpeikou => Some(32u8),
        Yaku::Junchan => Some(33u8),
        Yaku::Honitsu => Some(34u8),
        Yaku::Chinitsu => Some(35u8),
    }
}

fn yakuman_id_of(k: YakumanKind) -> (r: u8)
    ensures
        r == yakuman_id(k),
{
    match k {
        YakumanKind::Tenhou => 37,
        YakumanKind::Chiihou => 38,
        YakumanKind::Daisangen => 39,
        YakumanKind::Suuankou => 40,
        YakumanKind::SuuankouTanki => 41,
        YakumanKind::Tsuuiisou => 42,
        YakumanKind::Ryuuiisou => 43,
        YakumanKind::Chinroutou => 44,
        YakumanKind::ChuurenPoutou => 45,
        YakumanKind::JunseiChuuren => 46,
        YakumanKind::KokushiMusou => 47,
        YakumanKind::KokushiMusouJuusanmen => 48,
        YakumanKind::Daisuushi => 49,
        YakumanKind::Shousuushi => 50,
        YakumanKind::Suukantsu => 51,
    }
}

/// Tenhou's ID of a yaku. None for North as yakuhai, and for a wind where the given tile is no
/// wind.
pub fn tenhou_yaku_id(yaku: &Yaku, jikaze: Tile, bakaze: Tile) -> (r: Option<u8>)
    ensures
        r == yaku_id_of(*yaku, jikaze, bakaze),
{
    match *yaku {
        Yaku::Yakuhai(YakuhaiKind::Jikaze) => match wind_offset(jikaze) {
            Some(o) => Some(10 + o),
            None => None,
        },
        Yaku::Yakuhai(YakuhaiKind::Bakaze) => match wind_offset(bakaze) {
            Some(o) => Some(14 + o),
            None => None,
        },
        Yaku::Yakuhai(YakuhaiKind::Pei) => None,
        Yaku::Yakuman(k) => Some(yakuman_id_of(k)),
        Yaku::MenzenTsumo => Some(0u8),
        Yaku::Riichi => Some(1u8),
        Yaku::Ippatsu => Some(2u8),
        Yaku::Chankan => Some(3u8),
        Yaku::Rinshan => Some(4u8),
        Yaku::Haitei => Some(5u8),
        Yaku::Houtei => Some(6u8),
        Yaku::Pinfu => Some(7u8),
        Yaku::Tanyao => Some(8u8),
        Yaku::Iipeikou => Some(9u8),
        Yaku::Yakuhai(YakuhaiKind::Haku) => Some(18u8),
        Yaku::Yakuhai(YakuhaiKind::Hatsu) => Some(19u8),
        Yaku::Yakuhai(YakuhaiKind::Chun) => Some(20u8),
        Yaku::DoubleRiichi => Some(21u8),
        Yaku::Chiitoitsu => Some(22u8),
        Yaku::Chanta => Some(23u8),
        Yaku::Ittsuu => Some(24u8),
        Yaku::Sanshoku => Some(25u8),
        Yaku::SanshokuDoukou => Some(26u8),
        Yaku::Sankantsu => Some(27u8),
        Yaku::Toitoi => Some(28u8),
        Yaku::Sanankou => Some(29u8),
        Yaku::Shousangen => Some(30u8),
        Yaku::Honroutou => Some(31u8),
        Yaku::Ryanpeikou => Some(32u8),
        Yaku::Junchan => Some(33u8),
        Yaku::Honitsu => Some(34u8),
        Yaku::Chinitsu => Some(35u8),
    }
}

/// The name of an ID.
pub open spec fn id_yaku_name(id: u8) -> Option<Seq<char>> {
    if id == 0 { Some("MenzenTsumo"@) }
    else if id == 1 { Some("Riichi"@) }
    else if id == 2 { Some("Ippatsu"@) }
    else if id == 3 { Some("Chankan"@) }
    else if id == 4 { Some("Rinshan"@) }
    else if id == 5 { Some("Haitei"@) }
    else if id == 6 { Some("Houtei"@) }
    else if id == 7 { Some("Pinfu"@) }
    else if id == 8 { Some("Tanyao"@) }
    else if id == 9 { Some("Iipeikou"@) }
    else if 10 <= id <= 13 { Some("Yakuhai(Jikaze)"@) }
    else if 14 <= id <= 17 { Some("Yakuhai(Bakaze)"@) }
    else if id == 18 { Some("Yakuhai(Haku)"@) }
    else if id == 19 { Some("Yakuhai(Hatsu)"@) }
    else if id == 20 { Some("Yakuhai(Chun)"@) }
    else if id == 21 { Some("DoubleRiichi"@) }
    else if id == 22 { Some("Chiitoitsu"@) }
    else if id == 23 { Some("Chanta"@) }
    else if id == 24 { Some("Ittsuu"@) }
    else if id == 25 { Some("Sanshoku"@) }
    else if id == 26 { Some("SanshokuDoukou"@) }
    else if id == 27 { Some("Sankantsu"@) }
    else if id == 28 { Some("Toitoi"@) }
    else if id == 29 { Some("Sanankou"@) }
    else if id == 30 { Some("Shousangen"@) }
    else if id == 31 { Some("Honroutou"@) }
    else if id == 32 { Some("Ryanpeikou"@) }
    else if id == 33 { Some("Junchan"@) }
    else if id == 34 { Some("Honitsu"@) }
    else if id == 35 { Some("Chinitsu"@) }
    else if id == 37 { Some("Yakuman(Tenhou)"@) }
    else if id == 38 { Some("Yakuman(Chiihou)"@) }
    else if id == 39 { Some("Yakuman(Daisangen)"@) }
    else if id == 40 { Some("Yakuman(Suuankou)"@) }
    else if id == 41 { Some("Yakuman(SuuankouTanki)"@) }
    else if id == 42 { Some("Yakuman(Tsuuiisou)"@) }
    else if id == 43 { Some("Yakuman(Ryuuiisou)"@) }
    else if id == 44 { Some("Yakuman(Chinroutou)"@) }
    else if id == 45 { Some("Yakuman(ChuurenPoutou)"@) }
    else if id == 46 { Some("Yakuman(JunseiChuuren)"@) }
    else if id == 47 { Some("Yakuman(KokushiMusou)"@) }
    else if id == 48 { Some("Yakuman(KokushiMusouJuusanmen)"@) }
    else if id == 49 { Some("Yakuman(Daisuushi)"@) }
    else if id == 50 { Some("Yakuman(Shousuushi)"@) }
    else if id == 51 { Some("Yakuman(Suukantsu)"@) }
    else { None }
}

/// The yaku that an ID stands for; the winds as seat wind or round wind.
pub fn tenhou_yaku_name(id: u8) -> (r: Option<&'static str>)
    ensures
        match r {
            Some(s) => id_yaku_name(id) == Some(s@),
            None => id_yaku_name(id) is None,
        },
{
    match id {
        0 => Some("MenzenTsumo"),
        1 => Some("Riichi"),
        2 => Some("Ippatsu"),
        3 => Some("Chankan"),
        4 => Some("Rinshan"),
        5 => Some("Haitei"),
        6 => Some("Houtei"),
        7 => Some("Pinfu"),
        8 => Some("Tanyao"),
        9 => Some("Iipeikou"),
        10..=13 => Some("Yakuhai(Jikaze)"),
        14..=17 => Some("Yakuhai(Bakaze)"),
        18 => Some("Yakuhai(Haku)"),
        19 => Some("Yakuhai(Hatsu)"),
        20 => Some("Yakuhai(Chun)"),
        21 => Some("DoubleRiichi"),
        22 => Some("Chiitoitsu"),
        23 => Some("Chanta"),
        24 => Some("Ittsuu"),
        25 => Some("Sanshoku"),
        26 => Some("SanshokuDoukou"),
        27 => Some("Sankantsu"),
        28 => Some("Toitoi"),
        29 => Some("Sanankou"),
        30 => Some("Shousangen"),
        31 => Some("Honroutou"),
        32 => Some("Ryanpeikou"),
        33 => Some("Junchan"),
        34 => Some("Honitsu"),
        35 => Some("Chinitsu"),
        37 => Some("Yakuman(Tenhou)"),
        38 => Some("Yakuman(Chiihou)"),
        39 => Some("Yakuman(Daisangen)"),
        40 => Some("Yakuman(Suuankou)"),
        41 => Some("Yakuman(SuuankouTanki)"),
        42 => Some("Yakuman(Tsuuiisou)"),
        43 => Some("Yakuman(Ryuuiisou)"),
        44 => Some("Yakuman(Chinroutou)"),
        45 => Some("Yakuman(ChuurenPoutou)"),
        46 => Some("Yakuman(JunseiChuuren)"),
        47 => Some("Yakuman(KokushiMusou)"),
        48 => Some("Yakuman(KokushiMusouJuusanmen)"),
        49 => Some("Yakuman(Daisuushi)"),
        50 => Some("Yakuman(Shousuushi)"),
        51 => Some("Yakuman(Suukantsu)"),
        _ => None,
    }
}

pub open spec fn spec_is_dora_id(id: u8) -> bool {
    52 <= id <= 54
}

/// Whether the ID is of dora, ura dora or red dora.
#[verifier::when_used_as_spec(spec_is_dora_id)]
pub fn is_dora_id(id: u8) -> (r: bool)
    ensures
        r == is_dora_id(id),
{
    matches!(id, 52..=54)
}

/// The name of a yaku in the scheme of [`tenhou_yaku_name`].
pub open spec fn name_of_yaku(yaku: Yaku) -> Seq<char> {
    match yaku {
        Yaku::MenzenTsumo => "MenzenTsumo"@,
        Yaku::Riichi => "Riichi"@,
        Yaku::Ippatsu => "Ippatsu"@,
        Yaku::Chankan => "Chankan"@,
        Yaku::Rinshan => "Rinshan"@,
        Yaku::Haitei => "Haitei"@,
        Yaku::Houtei => "Houtei"@,
        Yaku::Pinfu => "Pinfu"@,
        Yaku::Tanyao => "Tanyao"@,
        Yaku::Iipeikou => "Iipeikou"@,
        Yaku::DoubleRiichi => "DoubleRiichi"@,
        Yaku::Chiitoitsu => "Chiitoitsu"@,
        Yaku::Chanta => "Chanta"@,
        Yaku::Ittsuu => "Ittsuu"@,
        Yaku::Sanshoku => "Sanshoku"@,
        Yaku::SanshokuDoukou => "SanshokuDoukou"@,
        Yaku::Sankantsu => "Sankantsu"@,
        Yaku::Toitoi => "Toitoi"@,
        Yaku::Sanankou => "Sanankou"@,
        Yaku::Shousangen => "Shousangen"@,
        Yaku::Honroutou => "Honroutou"@,
        Yaku::Ryanpeikou => "Ryanpeikou"@,
        Yaku::Junchan => "Junchan"@,
        Yaku::Honitsu => "Honitsu"@,
        Yaku::Chinitsu => "Chinitsu"@,
        Yaku::Yakuhai(YakuhaiKind::Haku) => "Yakuhai(Haku)"@,
        Yaku::Yakuhai(YakuhaiKind::Hatsu) => "Yakuhai(Hatsu)"@,
        Yaku::Yakuhai(YakuhaiKind::Chun) => "Yakuhai(Chun)"@,
        Yaku::Yakuhai(YakuhaiKind::Bakaze) => "Yakuhai(Bakaze)"@,
        Yaku::Yakuhai(YakuhaiKind::Jikaze) => "Yakuhai(Jikaze)"@,
        Yaku::Yakuhai(YakuhaiKind::Pei) => "Yakuhai(Pei)"@,
        Yaku::Yakuman(YakumanKind::Tenhou) => "Yakuman(Tenhou)"@,
        Yaku::Yakuman(YakumanKind::Chiihou) => "Yakuman(Chiihou)"@,
        Yaku::Yakuman(YakumanKind::Daisangen) => "Yakuman(Daisangen)"@,
        Yaku::Yakuman(YakumanKind::Suuankou) => "Yakuman(Suuankou)"@,
        Yaku::Yakuman(YakumanKind::SuuankouTanki) => "Yakuman(SuuankouTanki)"@,
        Yaku::Yakuman(YakumanKind::Tsuuiisou) => "Yakuman(Tsuuiisou)"@,
        Yaku::Yakuman(YakumanKind::Ryuuiisou) => "Yakuman(Ryuuiisou)"@,
        Yaku::Yakuman(YakumanKind::Chinroutou) => "Yakuman(Chinroutou)"@,
        Yaku::Yakuman(YakumanKind::ChuurenPoutou) => "Yakuman(ChuurenPoutou)"@,
        Yaku::Yakuman(YakumanKind::JunseiChuuren) => "Yakuman(JunseiChuuren)"@,
        Yaku::Yakuman(YakumanKind::KokushiMusou) => "Yakuman(KokushiMusou)"@,
        Yaku::Yakuman(YakumanKind::KokushiMusouJuusanmen) => "Yakuman(KokushiMusouJuusanmen)"@,
        Yaku::Yakuman(YakumanKind::Daisuushi) => "Yakuman(Daisuushi)"@,
        Yaku::Yakuman(YakumanKind::Shousuushi) => "Yakuman(Shousuushi)"@,
        Yaku::Yakuman(YakumanKind::Suukantsu) => "Yakuman(Suukantsu)"@,
    }
}

/// The name of a yaku in the scheme of [`tenhou_yaku_name`].
pub fn yaku_name(yaku: &Yaku) -> (r: String)
    ensures
        r@ == name_of_yaku(*yaku),
{
    let s: &'static str = match *yaku {
        Yaku::MenzenTsumo => "MenzenTsumo",
        Yaku::Riichi => "Riichi",
        Yaku::Ippatsu => "Ippatsu",
        Yaku::Chankan => "Chankan",
        Yaku::Rinshan => "Rinshan",
        Yaku::Haitei => "Haitei",
        Yaku::Houtei => "Houtei",
        Yaku::Pinfu => "Pinfu",
        Yaku::Tanyao => "Tanyao",
        Yaku::Iipeikou => "Iipeikou",
        Yaku::DoubleRiichi => "DoubleRiichi",
        Yaku::Chiitoitsu => "Chiitoitsu",
        Yaku::Chanta => "Chanta",
        Yaku::Ittsuu => "Ittsuu",
        Yaku::Sanshoku => "Sanshoku",
        Yaku::SanshokuDoukou => "SanshokuDoukou",
        Yaku::Sankantsu => "Sankantsu",
        Yaku::Toitoi => "Toitoi",
        Yaku::Sanankou => "Sanankou",
        Yaku::Shousangen => "Shousangen",
        Yaku::Honroutou => "Honroutou",
        Yaku::Ryanpeikou => "Ryanpeikou",
        Yaku::Junchan => "Junchan",
        Yaku::Honitsu => "Honitsu",
        Yaku::Chinitsu => "Chinitsu",
        Yaku::Yakuhai(YakuhaiKind::Haku) => "Yakuhai(Haku)",
        Yaku::Yakuhai(YakuhaiKind::Hatsu) => "Yakuhai(Hatsu)",
        Yaku::Yakuhai(YakuhaiKind::Chun) => "Yakuhai(Chun)",
        Yaku::Yakuhai(YakuhaiKind::Bakaze) => "Yakuhai(Bakaze)",
        Yaku::Yakuhai(YakuhaiKind::Jikaze) => "Yakuhai(Jikaze)",
        Yaku::Yakuhai(YakuhaiKind::Pei) => "Yakuhai(Pei)",
        Yaku::Yakuman(YakumanKind::Tenhou) => "Yakuman(Tenhou)",
        Yaku::Yakuman(YakumanKind::Chiihou) => "Yakuman(Chiihou)",
        Yaku::Yakuman(YakumanKind::Daisangen) => "Yakuman(Daisangen)",
        Yaku::Yakuman(YakumanKind::Suuankou) => "Yakuman(Suuankou)",
        Yaku::Yakuman(YakumanKind::SuuankouTanki) => "Yakuman(SuuankouTanki)",
        Yaku::Yakuman(YakumanKind::Tsuuiisou) => "Yakuman(Tsuuiisou)",
        Yaku::Yakuman(YakumanKind::Ryuuiisou) => "Yakuman(Ryuuiisou)",
        Yaku::Yakuman(YakumanKind::Chinroutou) => "Yakuman(Chinroutou)",
        Yaku::Yakuman(YakumanKind::ChuurenPoutou) => "Yakuman(ChuurenPoutou)",
        Yaku::Yakuman(YakumanKind::JunseiChuuren) => "Yakuman(JunseiChuuren)",
        Yaku::Yakuman(YakumanKind::KokushiMusou) => "Yakuman(KokushiMusou)",
        Yaku::Yakuman(YakumanKind::KokushiMusouJuusanmen) => "Yakuman(KokushiMusouJuusanmen)",
        Yaku::Yakuman(YakumanKind::Daisuushi) => "Yakuman(Daisuushi)",
        Yaku::Yakuman(YakumanKind::Shousuushi) => "Yakuman(Shousuushi)",
        Yaku::Yakuman(YakumanKind::Suukantsu) => "Yakuman(Suukantsu)",
    };
    owned(s)
}

/// The ID of a yaku has the yaku's name, and is neither nagashi mangan's nor one of dora.
pub proof fn id_and_yaku_share_a_name(yaku: Yaku, jikaze: Tile, bakaze: Tile)
    requires
        yaku_id_of(yaku, jikaze, bakaze) is Some,
    ensures
        id_yaku_name(yaku_id_of(yaku, jikaze, bakaze)->0) == Some(name_of_yaku(yaku)),
        yaku_id_of(yaku, jikaze, bakaze)->0 != 36,
        !is_dora_id(yaku_id_of(yaku, jikaze, bakaze)->0),
        yaku_id_of(yaku, jikaze, bakaze)->0 <= 54,
{
}

/// Two yaku with the same ID are the same.
pub proof fn id_determines_yaku(a: Yaku, b: Yaku, jikaze: Tile, bakaze: Tile)
    requires
        yaku_id_of(a, jikaze, bakaze) is Some,
        yaku_id_of(a, jikaze, bakaze) == yaku_id_of(b, jikaze, bakaze),
    ensures
        a == b,
{
}

/// Every yaku but North as yakuhai has an ID when the winds are winds.
pub proof fn every_yaku_has_an_id(yaku: Yaku, jikaze: Tile, bakaze: Tile)
    requires
        jikaze.is_wind(),
        bakaze.is_wind(),
    ensures
        yaku_id_of(yaku, jikaze, bakaze) is None <==> yaku == Yaku::Yakuhai(YakuhaiKind::Pei),
{
}

} // verus!
