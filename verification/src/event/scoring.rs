//! Win settlement details carried by wins, in both variants.

use vstd::prelude::*;

verus! {

/// Han breakdown: regular (han and fu) or yakuman (multiplier).
#[derive(Debug, Clone, Copy, PartialEq, Eq, Structural)]
pub enum HoraAgari {
    Normal { fu: u8, han: u8 },
    Yakuman { count: u8 },
}

/// Points for each payment case.
#[derive(Debug, Clone, Copy, PartialEq, Eq, Structural)]
pub struct HoraPoint {
    pub ron: i32,
    pub tsumo_ko: i32,
    pub tsumo_oya: i32,
}

impl Default for HoraPoint {
    fn default() -> (r: Self)
        ensures
            r == (HoraPoint { ron: 0, tsumo_ko: 0, tsumo_oya: 0 }),
    {
        HoraPoint { ron: 0, tsumo_ko: 0, tsumo_oya: 0 }
    }
}

/// Flags for yaku that come from the state of the game rather than the hand.
#[derive(Debug, Clone, Copy, PartialEq, Eq, Structural)]
pub struct HoraYakuFlags {
    pub riichi: bool,
    pub double_riichi: bool,
    pub ippatsu: bool,
    pub menzen_tsumo: bool,
    pub haitei: bool,
    pub houtei: bool,
    pub rinshan: bool,
    pub chankan: bool,
    pub tenhou: bool,
    pub chiihou: bool,
}

impl HoraYakuFlags {
    /// No flag set.
    pub open spec fn none() -> HoraYakuFlags {
        HoraYakuFlags {
            riichi: false,
            double_riichi: false,
            ippatsu: false,
            menzen_tsumo: false,
            haitei: false,
            houtei: false,
            rinshan: false,
            chankan: false,
            tenhou: false,
            chiihou: false,
        }
    }
}

impl Default for HoraYakuFlags {
    fn default() -> (r: Self)
        ensures
            r == HoraYakuFlags::none(),
    {
        HoraYakuFlags {
            riichi: false,
            double_riichi: false,
            ippatsu: false,
            menzen_tsumo: false,
            haitei: false,
            houtei: false,
            rinshan: false,
            chankan: false,
            tenhou: false,
            chiihou: false,
        }
    }
}

/// Full settlement details of a win.
#[derive(Debug, Clone, Copy, PartialEq, Eq, Structural)]
pub struct HoraScoring {
    pub agari: HoraAgari,
    pub point: HoraPoint,
    /// Han from yaku, without dora.
    pub additional_hans: u8,
    pub dora_han: u8,
    pub red_dora_han: u8,
    pub ura_dora_han: u8,
    /// Nukidora han, 0 in the four-player game.
    pub nuki_dora_han: u8,
    pub yaku_flags: HoraYakuFlags,
}

} // verus!
