//! Yaku detection and han counting.
//!
//! From a winning hand (concealed counts and melds) and its context (winds, tsumo or ron,
//! situational flags) to the yaku that apply and the total han or yakuman multiplier, over
//! the best decomposition. Shared by the four-player and the three-player game.

use vstd::prelude::*;
use crate::mahjong::decompose::{
    best_wait, decompose, hand_readings, is_reading, is_readings_list, is_seven_pairs, is_thirteen_orphans,
    lemma_readings_exist, reading_views, standard_parses, wait_shape, waits_of, Decomposition, MeldShape, Reading,
    StandardParse, WaitShape,
};
use crate::mahjong::hand::{expand, TileCounts};
use crate::mahjong::meld::Meld;
use crate::mahjong::rules::RiichiRuleProfile;
use crate::mahjong::shanten::is_yaochuu_kind;
use crate::mahjong::tile::{Suit, Tile};

verus! {

/// A single yaku. Han of open hands are reduced at evaluation.
#[derive(Debug, Clone, Copy, PartialEq, Eq, Structural)]
pub enum Yaku {
    Riichi,
    Ippatsu,
    MenzenTsumo,
    Pinfu,
    Tanyao,
    Iipeikou,
    Yakuhai(YakuhaiKind),
    Haitei,
    Houtei,
    Rinshan,
    Chankan,
    DoubleRiichi,
    Chiitoitsu,
    Sanshoku,
    SanshokuDoukou,
    Ittsuu,
    Chanta,
    Toitoi,
    Sanankou,
    Sankantsu,
    Honroutou,
    Shousangen,
    Honitsu,
    Junchan,
    Ryanpeikou,
    Chinitsu,
    Yakuman(YakumanKind),
}

#[derive(Debug, Clone, Copy, PartialEq, Eq, Structural)]
pub enum YakuhaiKind {
    Haku,
    Hatsu,
    Chun,
    Bakaze,
    Jikaze,
    /// North as yakuhai, an option of the three-player game.
    Pei,
}

#[derive(Debug, Clone, Copy, PartialEq, Eq, Structural)]
pub enum YakumanKind {
    KokushiMusou,
    KokushiMusouJuusanmen,
    Suuankou,
    SuuankouTanki,
    Daisangen,
    Shousuushi,
    Daisuushi,
    Tsuuiisou,
    Chinroutou,
    Ryuuiisou,
    ChuurenPoutou,
    JunseiChuuren,
    Suukantsu,
    Tenhou,
    Chiihou,
}

impl Yaku {
    pub open spec fn spec_name(self) -> Seq<char> {
        match self {
            Yaku::Riichi => "Riichi"@,
            Yaku::Ippatsu => "Ippatsu"@,
            Yaku::MenzenTsumo => "Menzen Tsumo"@,
            Yaku::Pinfu => "Pinfu"@,
            Yaku::Tanyao => "Tanyao"@,
            Yaku::Iipeikou => "Iipeikou"@,
            Yaku::Yakuhai(k) => k.spec_name(),
            Yaku::Haitei => "Haitei"@,
            Yaku::Houtei => "Houtei"@,
            Yaku::Rinshan => "Rinshan Kaihou"@,
            Yaku::Chankan => "Chankan"@,
            Yaku::DoubleRiichi => "Double Riichi"@,
            Yaku::Chiitoitsu => "Chiitoitsu"@,
            Yaku::Sanshoku => "Sanshoku Doujun"@,
            Yaku::SanshokuDoukou => "Sanshoku Doukou"@,
            Yaku::Ittsuu => "Ittsuu"@,
            Yaku::Chanta => "Chanta"@,
            Yaku::Toitoi => "Toitoi"@,
            Yaku::Sanankou => "Sanankou"@,
            Yaku::Sankantsu => "Sankantsu"@,
            Yaku::Honroutou => "Honroutou"@,
            Yaku::Shousangen => "Shousangen"@,
            Yaku::Honitsu => "Honitsu"@,
            Yaku::Junchan => "Junchan"@,
            Yaku::Ryanpeikou => "Ryanpeikou"@,
            Yaku::Chinitsu => "Chinitsu"@,
            Yaku::Yakuman(k) => k.spec_name(),
        }
    }

    /// Romanized name, for reports.
    pub fn name(self) -> (r: &'static str)
        ensures
            r@ == self.spec_name(),
    {
        match self {
            Yaku::Riichi => "Riichi",
            Yaku::Ippatsu => "Ippatsu",
            Yaku::MenzenTsumo => "Menzen Tsumo",
            Yaku::Pinfu => "Pinfu",
            Yaku::Tanyao => "Tanyao",
            Yaku::Iipeikou => "Iipeikou",
            Yaku::Yakuhai(k) => k.name(),
            Yaku::Haitei => "Haitei",
            Yaku::Houtei => "Houtei",
            Yaku::Rinshan => "Rinshan Kaihou",
            Yaku::Chankan => "Chankan",
            Yaku::DoubleRiichi => "Double Riichi",
            Yaku::Chiitoitsu => "Chiitoitsu",
            Yaku::Sanshoku => "Sanshoku Doujun",
            Yaku::SanshokuDoukou => "Sanshoku Doukou",
            Yaku::Ittsuu => "Ittsuu",
            Yaku::Chanta => "Chanta",
            Yaku::Toitoi => "Toitoi",
            Yaku::Sanankou => "Sanankou",
            Yaku::Sankantsu => "Sankantsu",
            Yaku::Honroutou => "Honroutou",
            Yaku::Shousangen => "Shousangen",
            Yaku::Honitsu => "Honitsu",
            Yaku::Junchan => "Junchan",
            Yaku::Ryanpeikou => "Ryanpeikou",
            Yaku::Chinitsu => "Chinitsu",
            Yaku::Yakuman(k) => k.name(),
        }
    }
}

impl YakuhaiKind {
    pub open spec fn spec_name(self) -> Seq<char> {
        match self {
            YakuhaiKind::Haku => "Yakuhai Haku"@,
            YakuhaiKind::Hatsu => "Yakuhai Hatsu"@,
            YakuhaiKind::Chun => "Yakuhai Chun"@,
            YakuhaiKind::Bakaze => "Yakuhai Round Wind"@,
            YakuhaiKind::Jikaze => "Yakuhai Seat Wind"@,
            YakuhaiKind::Pei => "Yakuhai North"@,
        }
    }

    /// Romanized name, for reports.
    pub fn name(self) -> (r: &'static str)
        ensures
            r@ == self.spec_name(),
    {
        match self {
            YakuhaiKind::Haku => "Yakuhai Haku",
            YakuhaiKind::Hatsu => "Yakuhai Hatsu",
            YakuhaiKind::Chun => "Yakuhai Chun",
            YakuhaiKind::Bakaze => "Yakuhai Round Wind",
            YakuhaiKind::Jikaze => "Yakuhai Seat Wind",
            YakuhaiKind::Pei => "Yakuhai North",
        }
    }
}

impl YakumanKind {
    pub open spec fn spec_name(self) -> Seq<char> {
        match self {
            YakumanKind::KokushiMusou => "Kokushi Musou"@,
            YakumanKind::KokushiMusouJuusanmen => "Kokushi Musou 13-sided"@,
            YakumanKind::Suuankou => "Suuankou"@,
            YakumanKind::SuuankouTanki => "Suuankou Tanki"@,
            YakumanKind::Daisangen => "Daisangen"@,
            YakumanKind::Shousuushi => "Shousuushi"@,
            YakumanKind::Daisuushi => "Daisuushi"@,
            YakumanKind::Tsuuiisou => "Tsuuiisou"@,
            YakumanKind::Chinroutou => "Chinroutou"@,
            YakumanKind::Ryuuiisou => "Ryuuiisou"@,
            YakumanKind::ChuurenPoutou => "Chuuren Poutou"@,
            YakumanKind::JunseiChuuren => "Junsei Chuuren Poutou"@,
            YakumanKind::Suukantsu => "Suukantsu"@,
            YakumanKind::Tenhou => "Tenhou"@,
            YakumanKind::Chiihou => "Chiihou"@,
        }
    }

    /// Romanized name, for reports.
    pub fn name(self) -> (r: &'static str)
        ensures
            r@ == self.spec_name(),
    {
        match self {
            YakumanKind::KokushiMusou => "Kokushi Musou",
            YakumanKind::KokushiMusouJuusanmen => "Kokushi Musou 13-sided",
            YakumanKind::Suuankou => "Suuankou",
            YakumanKind::SuuankouTanki => "Suuankou Tanki",
            YakumanKind::Daisangen => "Daisangen",
            YakumanKind::Shousuushi => "Shousuushi",
            YakumanKind::Daisuushi => "Daisuushi",
            YakumanKind::Tsuuiisou => "Tsuuiisou",
            YakumanKind::Chinroutou => "Chinroutou",
            YakumanKind::Ryuuiisou => "Ryuuiisou",
            YakumanKind::ChuurenPoutou => "Chuuren Poutou",
            YakumanKind::JunseiChuuren => "Junsei Chuuren Poutou",
            YakumanKind::Suukantsu => "Suukantsu",
            YakumanKind::Tenhou => "Tenhou",
            YakumanKind::Chiihou => "Chiihou",
        }
    }
}

/// Win context: situational flags and table state.
#[derive(Debug)]
pub struct YakuContext {
    pub rule_profile: RiichiRuleProfile,
    /// Concealed counts with the winning tile, red fives folded.
    pub concealed: [u8; 34],
    /// Called melds and kans. Nukidora are counted in `nuki_count`.
    pub melds: Vec<Meld>,
    /// Winning tile, red five folded.
    pub win_tile: Tile,
    pub is_tsumo: bool,
    /// Closed hand (closed kans still count as closed).
    pub menzen: bool,
    /// Round wind tile.
    pub bakaze: Tile,
    pub jikaze: Tile,
    pub riichi: bool,
    pub double_riichi: bool,
    pub ippatsu: bool,
    pub haitei: bool,
    pub houtei: bool,
    pub rinshan: bool,
    pub chankan: bool,
    pub tenhou: bool,
    pub chiihou: bool,
    /// Number of nukidora, 0 in the four-player game. Adds dora han, not a yaku.
    pub nuki_count: u8,
    /// North counts as yakuhai.
    pub pei_is_yakuhai: bool,
}

/// What a win context says.
pub struct WinFacts {
    pub rule_profile: RiichiRuleProfile,
    pub concealed: Seq<u8>,
    pub melds: Seq<Meld>,
    pub win_tile: Tile,
    pub is_tsumo: bool,
    pub menzen: bool,
    pub bakaze: Tile,
    pub jikaze: Tile,
    pub riichi: bool,
    pub double_riichi: bool,
    pub ippatsu: bool,
    pub haitei: bool,
    pub houtei: bool,
    pub rinshan: bool,
    pub chankan: bool,
    pub tenhou: bool,
    pub chiihou: bool,
    pub nuki_count: u8,
    pub pei_is_yakuhai: bool,
}

impl View for YakuContext {
    type V = WinFacts;

    open spec fn view(&self) -> WinFacts {
        WinFacts {
            rule_profile: self.rule_profile,
            concealed: self.concealed@,
            melds: self.melds@,
            win_tile: self.win_tile,
            is_tsumo: self.is_tsumo,
            menzen: self.menzen,
            bakaze: self.bakaze,
            jikaze: self.jikaze,
            riichi: self.riichi,
            double_riichi: self.double_riichi,
            ippatsu: self.ippatsu,
            haitei: self.haitei,
            houtei: self.houtei,
            rinshan: self.rinshan,
            chankan: self.chankan,
            tenhou: self.tenhou,
            chiihou: self.chiihou,
            nuki_count: self.nuki_count,
            pei_is_yakuhai: self.pei_is_yakuhai,
        }
    }
}

pub fn clone_melds(v: &Vec<Meld>) -> (r: Vec<Meld>)
    ensures
        r@ == v@,
{
    let mut r: Vec<Meld> = Vec::new();
    let mut i: usize = 0;
    while i < v.len()
        invariant
            i <= v.len(),
            r@ == v@.subrange(0, i as int),
        decreases v.len() - i,
    {
        r.push(v[i]);
        assert(r@ =~= v@.subrange(0, i + 1));
        i = i + 1;
    }
    assert(r@ =~= v@);
    r
}

impl Clone for YakuContext {
    fn clone(&self) -> (r: Self)
        ensures
            r@ == self@,
    {
        YakuContext {
            rule_profile: self.rule_profile,
            concealed: self.concealed,
            melds: clone_melds(&self.melds),
            win_tile: self.win_tile,
            is_tsumo: self.is_tsumo,
            menzen: self.menzen,
            bakaze: self.bakaze,
            jikaze: self.jikaze,
            riichi: self.riichi,
            double_riichi: self.double_riichi,
            ippatsu: self.ippatsu,
            haitei: self.haitei,
            houtei: self.houtei,
            rinshan: self.rinshan,
            chankan: self.chankan,
            tenhou: self.tenhou,
            chiihou: self.chiihou,
            nuki_count: self.nuki_count,
            pei_is_yakuhai: self.pei_is_yakuhai,
        }
    }
}

/// Yaku result of a single win.
#[derive(Debug, PartialEq)]
pub struct YakuResult {
    pub yaku: Vec<(Yaku, u8)>,
    pub han: u8,
    /// Yakuman multiplier, 0 where there is none. With yakuman, `han` ignores regular yaku.
    pub yakuman: u8,
}

/// What a yaku result says.
pub struct YakuOutcome {
    pub yaku: Seq<(Yaku, u8)>,
    pub han: int,
    pub yakuman: int,
}

impl View for YakuResult {
    type V = YakuOutcome;

    open spec fn view(&self) -> YakuOutcome {
        YakuOutcome { yaku: self.yaku@, han: self.han as int, yakuman: self.yakuman as int }
    }
}

impl Clone for YakuResult {
    fn clone(&self) -> (r: Self)
        ensures
            r@ == self@,
    {
        let mut yaku: Vec<(Yaku, u8)> = Vec::new();
        let mut i: usize = 0;
        while i < self.yaku.len()
            invariant
                i <= self.yaku.len(),
                yaku@ == self.yaku@.subrange(0, i as int),
            decreases self.yaku.len() - i,
        {
            yaku.push(self.yaku[i]);
            assert(yaku@ =~= self.yaku@.subrange(0, i + 1));
            i = i + 1;
        }
        assert(yaku@ =~= self.yaku@);
        YakuResult { yaku, han: self.han, yakuman: self.yakuman }
    }
}

// Groups of the whole hand.

/// A group and whether it is concealed.
pub type Group = (MeldShape, bool);

pub open spec fn min3(a: int, b: int, c: int) -> int {
    if a <= b && a <= c { a } else if b <= c { b } else { c }
}

/// The group that a called meld forms; a nukidora forms none.
pub open spec fn meld_group(m: Meld) -> Option<Group> {
    match m {
        Meld::Chi { tiles, .. } => Some(
            (
                MeldShape::Shuntsu(min3(tiles@[0].kind() as int, tiles@[1].kind() as int, tiles@[2].kind() as int) as u8),
                false,
            ),
        ),
        Meld::Pon { tile, .. } => Some((MeldShape::Kotsu(tile.kind() as u8), false)),
        Meld::Daiminkan { tile, .. } => Some((MeldShape::Kotsu(tile.kind() as u8), false)),
        Meld::Kakan { tile, .. } => Some((MeldShape::Kotsu(tile.kind() as u8), false)),
        Meld::Ankan { tile } => Some((MeldShape::Kotsu(tile.kind() as u8), true)),
        Meld::Nukidora { .. } => None,
    }
}

/// The groups of the called melds, in order.
pub open spec fn called_groups(melds: Seq<Meld>) -> Seq<Group>
    decreases melds.len(),
{
    if melds.len() == 0 {
        Seq::empty()
    } else {
        match meld_group(melds.last()) {
            Some(g) => called_groups(melds.drop_last()).push(g),
            None => called_groups(melds.drop_last()),
        }
    }
}

/// The first position of a group in a list, its length where the group is not there.
pub open spec fn first_at(melds: Seq<MeldShape>, m: MeldShape) -> int
    decreases melds.len(),
{
    if melds.len() == 0 { 0 } else if melds[0] == m { 0 } else { 1 + first_at(melds.drop_first(), m) }
}

/// A triplet completed by ron on a dual pon wait counts as open: the first triplet of the
/// winning tile's kind.
pub open spec fn opened_by_ron(f: WinFacts, p: Reading) -> int {
    if !f.is_tsumo && best_wait(waits_of(p.pair, p.melds, f.win_tile.kind() as int)) == Some(WaitShape::Shanpon) {
        first_at(p.melds, MeldShape::Kotsu(f.win_tile.kind() as u8))
    } else {
        -1
    }
}

/// The groups of a reading and the called melds, each with whether it is concealed.
pub open spec fn groups_of(f: WinFacts, p: Reading) -> Seq<Group> {
    Seq::new(p.melds.len(), |i: int| (p.melds[i], i != opened_by_ron(f, p))) + called_groups(f.melds)
}

/// Number of called melds that are groups; nukidora are not.
pub open spec fn group_meld_count(melds: Seq<Meld>) -> nat
    decreases melds.len(),
{
    if melds.len() == 0 {
        0
    } else {
        group_meld_count(melds.drop_last()) + if melds.last() is Nukidora { 0nat } else { 1 }
    }
}

pub open spec fn kan_count(melds: Seq<Meld>) -> nat
    decreases melds.len(),
{
    if melds.len() == 0 { 0 } else { kan_count(melds.drop_last()) + if melds.last().is_kan() { 1nat } else { 0 } }
}

/// The number of called groups as the readings of the concealed tiles take it.
pub open spec fn open_count(f: WinFacts) -> u8 {
    (group_meld_count(f.melds) % 256) as u8
}

fn first_index(melds: &Vec<MeldShape>, m: MeldShape) -> (r: usize)
    ensures
        r == first_at(melds@, m),
        r <= melds.len(),
{
    let mut i: usize = 0;
    assert(melds@.subrange(0, melds@.len() as int) =~= melds@);
    while i < melds.len()
        invariant
            i <= melds.len(),
            first_at(melds@, m) == i + first_at(melds@.subrange(i as int, melds@.len() as int), m),
        decreases melds.len() - i,
    {
        let ghost rest = melds@.subrange(i as int, melds@.len() as int);
        assert(rest.drop_first() =~= melds@.subrange(i + 1, melds@.len() as int));
        if melds[i] == m {
            return i;
        }
        i = i + 1;
    }
    i
}

fn group_of_meld(m: &Meld) -> (r: Option<Group>)
    ensures
        r == meld_group(*m),
{
    match m {
        Meld::Chi { tiles, .. } => {
            let a: usize = tiles[0].kind();
            let b: usize = tiles[1].kind();
            let c: usize = tiles[2].kind();
            let low: usize = if a <= b && a <= c { a } else if b <= c { b } else { c };
            Some((MeldShape::Shuntsu(low as u8), false))
        },
        Meld::Pon { tile, .. } => Some((MeldShape::Kotsu(tile.kind() as u8), false)),
        Meld::Daiminkan { tile, .. } | Meld::Kakan { tile, .. } => Some((MeldShape::Kotsu(tile.kind() as u8), false)),
        Meld::Ankan { tile } => Some((MeldShape::Kotsu(tile.kind() as u8), true)),
        Meld::Nukidora { .. } => None,
    }
}

/// The kinds of a reading are such that a sequence has room above them.
pub open spec fn kinds_in_range(melds: Seq<MeldShape>) -> bool {
    forall|i: int| 0 <= i < melds.len() ==> (#[trigger] melds[i]).tile_kind() <= 253
}

impl YakuContext {
    /// Every group, called and concealed.
    pub fn all_melds(&self, parse: &StandardParse) -> (r: Vec<Group>)
        requires
            kinds_in_range(parse.melds@),
        ensures
            r@ == groups_of(self@, parse@),
    {
        let mut opened: usize = parse.melds.len();
        if !self.is_tsumo {
            match wait_shape(parse, self.win_tile) {
                Some(WaitShape::Shanpon) => {
                    opened = first_index(&parse.melds, MeldShape::Kotsu(self.win_tile.kind() as u8));
                },
                _ => {},
            }
        }
        let mut v: Vec<Group> = Vec::new();
        let mut i: usize = 0;
        let ghost o = opened_by_ron(self@, parse@);
        let ghost concealed = Seq::new(parse.melds@.len(), |i: int| (parse.melds@[i], i != o));
        while i < parse.melds.len()
            invariant
                i <= parse.melds.len(),
                opened == o || (o == -1 && opened == parse.melds.len()),
                concealed == Seq::new(parse.melds@.len(), |i: int| (parse.melds@[i], i != o)),
                v@ == concealed.subrange(0, i as int),
            decreases parse.melds.len() - i,
        {
            v.push((parse.melds[i], i != opened));
            assert(v@ =~= concealed.subrange(0, i + 1));
            i = i + 1;
        }
        assert(v@ =~= concealed);
        let mut j: usize = 0;
        assert(self.melds@.subrange(0, 0) =~= Seq::empty());
        assert(v@ =~= concealed + called_groups(self.melds@.subrange(0, 0)));
        while j < self.melds.len()
            invariant
                j <= self.melds.len(),
                v@ == concealed + called_groups(self.melds@.subrange(0, j as int)),
            decreases self.melds.len() - j,
        {
            assert(self.melds@.subrange(0, j + 1).drop_last() =~= self.melds@.subrange(0, j as int));
            match group_of_meld(&self.melds[j]) {
                Some(g) => v.push(g),
                None => {},
            }
            assert(v@ =~= concealed + called_groups(self.melds@.subrange(0, j + 1)));
            j = j + 1;
        }
        assert(self.melds@.subrange(0, j as int) =~= self.melds@);
        v
    }

    /// Number of kans of any type.
    pub fn count_kans(&self) -> (r: usize)
        ensures
            r == kan_count(self@.melds),
    {
        let mut n: usize = 0;
        let mut i: usize = 0;
        while i < self.melds.len()
            invariant
                i <= self.melds.len(),
                n == kan_count(self.melds@.subrange(0, i as int)),
                n <= i,
            decreases self.melds.len() - i,
        {
            assert(self.melds@.subrange(0, i + 1).drop_last() =~= self.melds@.subrange(0, i as int));
            if self.melds[i].is_kan() {
                n = n + 1;
            }
            i = i + 1;
        }
        assert(self.melds@.subrange(0, i as int) =~= self.melds@);
        n
    }

    /// Number of melds that count as groups.
    pub fn melds_set_count_pub(&self) -> (r: u8)
        ensures
            r == open_count(self@),
    {
        (count_group_melds(&self.melds) % 256) as u8
    }
}

pub fn count_group_melds(melds: &Vec<Meld>) -> (n: usize)
    ensures
        n == group_meld_count(melds@),
        n <= melds.len(),
{
    let mut n: usize = 0;
    let mut i: usize = 0;
    while i < melds.len()
        invariant
            i <= melds.len(),
            n == group_meld_count(melds@.subrange(0, i as int)),
            n <= i,
        decreases melds.len() - i,
    {
        assert(melds@.subrange(0, i + 1).drop_last() =~= melds@.subrange(0, i as int));
        if !matches!(melds[i], Meld::Nukidora { .. }) {
            n = n + 1;
        }
        i = i + 1;
    }
    assert(melds@.subrange(0, i as int) =~= melds@);
    n
}

// All tiles of the hand.

/// The tiles of the called melds, red fives folded, without nukidora.
pub open spec fn called_tiles(melds: Seq<Meld>) -> Seq<Tile>
    decreases melds.len(),
{
    if melds.len() == 0 {
        Seq::empty()
    } else if melds.last() is Nukidora {
        called_tiles(melds.drop_last())
    } else {
        called_tiles(melds.drop_last()) + melds.last().spec_tiles().map_values(|t: Tile| t.deaka())
    }
}

/// All tiles of the hand, concealed and called, red fives folded.
pub open spec fn hand_tiles(f: WinFacts) -> Seq<Tile> {
    expand(f.concealed) + called_tiles(f.melds)
}

fn all_tiles(ctx: &YakuContext) -> (r: Vec<Tile>)
    ensures
        r@ == hand_tiles(ctx@),
{
    let counts = TileCounts::from_raw(ctx.concealed);
    let mut v = counts.to_tiles();
    let ghost own = expand(ctx.concealed@);
    let mut i: usize = 0;
    assert(v@ =~= own + called_tiles(ctx.melds@.subrange(0, 0)));
    while i < ctx.melds.len()
        invariant
            i <= ctx.melds.len(),
            own == expand(ctx.concealed@),
            v@ == own + called_tiles(ctx.melds@.subrange(0, i as int)),
        decreases ctx.melds.len() - i,
    {
        assert(ctx.melds@.subrange(0, i + 1).drop_last() =~= ctx.melds@.subrange(0, i as int));
        match &ctx.melds[i] {
            Meld::Nukidora { .. } => {},
            m => {
                let tiles = m.tiles();
                let ghost before = v@;
                let ghost folded = tiles@.map_values(|t: Tile| t.deaka());
                let mut j: usize = 0;
                while j < tiles.len()
                    invariant
                        j <= tiles.len(),
                        folded == tiles@.map_values(|t: Tile| t.deaka()),
                        v@ == before + folded.subrange(0, j as int),
                    decreases tiles.len() - j,
                {
                    v.push(tiles[j].deaka());
                    assert(v@ =~= before + folded.subrange(0, j + 1));
                    j = j + 1;
                }
                assert(v@ =~= before + folded);
                assert(v@ =~= own + called_tiles(ctx.melds@.subrange(0, i + 1)));
            },
        }
        i = i + 1;
    }
    assert(ctx.melds@.subrange(0, i as int) =~= ctx.melds@);
    v
}

pub open spec fn all_honor(s: Seq<Tile>) -> bool {
    forall|i: int| 0 <= i < s.len() ==> (#[trigger] s[i]).is_honor()
}

pub open spec fn all_terminal(s: Seq<Tile>) -> bool {
    forall|i: int| 0 <= i < s.len() ==> (#[trigger] s[i]).is_terminal()
}

pub open spec fn all_yaochuu(s: Seq<Tile>) -> bool {
    forall|i: int| 0 <= i < s.len() ==> (#[trigger] s[i]).is_yaochuu()
}

pub open spec fn no_yaochuu(s: Seq<Tile>) -> bool {
    forall|i: int| 0 <= i < s.len() ==> !(#[trigger] s[i]).is_yaochuu()
}

pub open spec fn any_honor(s: Seq<Tile>) -> bool {
    exists|i: int| 0 <= i < s.len() && (#[trigger] s[i]).is_honor()
}

/// Tiles of ryuuiisou: 2s 3s 4s 6s 8s and hatsu.
pub open spec fn is_green_kind(k: int) -> bool {
    k == 19 || k == 20 || k == 21 || k == 23 || k == 25 || k == 32
}

pub open spec fn all_green(s: Seq<Tile>) -> bool {
    forall|i: int| 0 <= i < s.len() ==> is_green_kind((#[trigger] s[i]).kind() as int)
}

/// What the tiles have in common.
struct TileFacts {
    all_honor: bool,
    all_terminal: bool,
    all_yaochuu: bool,
    no_yaochuu: bool,
    any_honor: bool,
    all_green: bool,
}

fn tile_facts(all: &Vec<Tile>) -> (r: TileFacts)
    ensures
        r.all_honor == all_honor(all@),
        r.all_terminal == all_terminal(all@),
        r.all_yaochuu == all_yaochuu(all@),
        r.no_yaochuu == no_yaochuu(all@),
        r.any_honor == any_honor(all@),
        r.all_green == all_green(all@),
{
    let mut r = TileFacts {
        all_honor: true,
        all_terminal: true,
        all_yaochuu: true,
        no_yaochuu: true,
        any_honor: false,
        all_green: true,
    };
    let mut i: usize = 0;
    while i < all.len()
        invariant
            i <= all.len(),
            r.all_honor == forall|j: int| 0 <= j < i ==> (#[trigger] all@[j]).is_honor(),
            r.all_terminal == forall|j: int| 0 <= j < i ==> (#[trigger] all@[j]).is_terminal(),
            r.all_yaochuu == forall|j: int| 0 <= j < i ==> (#[trigger] all@[j]).is_yaochuu(),
            r.no_yaochuu == forall|j: int| 0 <= j < i ==> !(#[trigger] all@[j]).is_yaochuu(),
            r.any_honor == exists|j: int| 0 <= j < i && (#[trigger] all@[j]).is_honor(),
            r.all_green == forall|j: int| 0 <= j < i ==> is_green_kind((#[trigger] all@[j]).kind() as int),
        decreases all.len() - i,
    {
        let t = all[i];
        if !t.is_honor() {
            r.all_honor = false;
        } else {
            r.any_honor = true;
        }
        if !t.is_terminal() {
            r.all_terminal = false;
        }
        if t.is_yaochuu() {
            r.no_yaochuu = false;
        } else {
            r.all_yaochuu = false;
        }
        if !matches!(t.kind(), 19 | 20 | 21 | 23 | 25 | 32) {
            r.all_green = false;
        }
        i = i + 1;
    }
    r
}

/// The suits of the tiles other than honors are one and the same.
pub open spec fn one_suit(s: Seq<Tile>) -> bool {
    &&& exists|i: int| 0 <= i < s.len() && !(#[trigger] s[i]).is_honor()
    &&& forall|i: int, j: int|
        0 <= i < s.len() && 0 <= j < s.len() && !(#[trigger] s[i]).is_honor() && !(#[trigger] s[j]).is_honor() ==> s[i].suit()
            == s[j].suit()
}

/// `Some(true)` for one suit alone, `Some(false)` for one suit and honors.
pub open spec fn flush_of(s: Seq<Tile>) -> Option<bool> {
    if one_suit(s) { Some(!any_honor(s)) } else { None }
}

fn flush_kind(all: &Vec<Tile>) -> (r: Option<bool>)
    ensures
        r == flush_of(all@),
{
    let mut suit: Option<Suit> = None;
    let mut has_honor = false;
    let ghost mut at: int = 0;
    let mut i: usize = 0;
    while i < all.len()
        invariant
            i <= all.len(),
            has_honor == exists|j: int| 0 <= j < i && (#[trigger] all@[j]).is_honor(),
            suit is None ==> forall|j: int| 0 <= j < i ==> (#[trigger] all@[j]).is_honor(),
            suit is Some ==> 0 <= at < i && !all@[at].is_honor() && forall|j: int|
                0 <= j < i && !(#[trigger] all@[j]).is_honor() ==> all@[j].suit() == suit->0,
        decreases all.len() - i,
    {
        let t = all[i];
        if t.is_honor() {
            has_honor = true;
        } else {
            match suit {
                None => {
                    suit = Some(t.suit());
                    proof { at = i as int; }
                },
                Some(s) => {
                    if s != t.suit() {
                        assert(!all@[at].is_honor() && !all@[i as int].is_honor());
                        return None;
                    }
                },
            }
        }
        i = i + 1;
    }
    if suit.is_some() {
        assert(!all@[at].is_honor());
        Some(!has_honor)
    } else {
        None
    }
}

// Groups and what they have in common.

/// Whether a group is among the groups.
pub open spec fn holds_group(g: Seq<Group>, m: MeldShape) -> bool {
    exists|i: int| 0 <= i < g.len() && (#[trigger] g[i]).0 == m
}

pub open spec fn all_runs(g: Seq<Group>) -> bool {
    forall|i: int| 0 <= i < g.len() ==> (#[trigger] g[i]).0 is Shuntsu
}

pub open spec fn all_triplets(g: Seq<Group>) -> bool {
    forall|i: int| 0 <= i < g.len() ==> (#[trigger] g[i]).0 is Kotsu
}

pub open spec fn group_has_yaochuu(m: MeldShape) -> bool {
    match m {
        MeldShape::Kotsu(k) => is_yaochuu_kind(k as int),
        MeldShape::Shuntsu(s) => s % 9 == 0 || s % 9 == 6,
    }
}

pub open spec fn all_have_yaochuu(g: Seq<Group>) -> bool {
    forall|i: int| 0 <= i < g.len() ==> group_has_yaochuu((#[trigger] g[i]).0)
}

/// Number of concealed triplets.
pub open spec fn concealed_triplets(g: Seq<Group>) -> nat
    decreases g.len(),
{
    if g.len() == 0 {
        0
    } else {
        concealed_triplets(g.drop_last()) + if g.last().0 is Kotsu && g.last().1 { 1nat } else { 0 }
    }
}

/// Number of triplets of a kind from `lo` to `hi`.
pub open spec fn triplets_between(g: Seq<Group>, lo: u8, hi: u8) -> nat
    decreases g.len(),
{
    if g.len() == 0 {
        0
    } else {
        triplets_between(g.drop_last(), lo, hi) + match g.last().0 {
            MeldShape::Kotsu(k) => if lo <= k <= hi { 1nat } else { 0 },
            MeldShape::Shuntsu(_) => 0,
        }
    }
}

/// Number of sequences that begin at a kind.
pub open spec fn runs_at(g: Seq<Group>, k: int) -> nat
    decreases g.len(),
{
    if g.len() == 0 {
        0
    } else {
        runs_at(g.drop_last(), k) + match g.last().0 {
            MeldShape::Shuntsu(s) => if s == k { 1nat } else { 0 },
            MeldShape::Kotsu(_) => 0,
        }
    }
}

/// Number of pairs of equal sequences among those that begin below `k`.
pub open spec fn equal_run_pairs(g: Seq<Group>, k: nat) -> nat
    decreases k,
{
    if k == 0 { 0 } else { equal_run_pairs(g, (k - 1) as nat) + runs_at(g, k - 1) / 2 }
}

/// The same sequence in all three suits.
pub open spec fn has_sanshoku(g: Seq<Group>) -> bool {
    exists|r: u8|
        r < 9 && #[trigger] holds_group(g, MeldShape::Shuntsu(r)) && holds_group(g, MeldShape::Shuntsu((9 + r) as u8)) && holds_group(
            g,
            MeldShape::Shuntsu((18 + r) as u8),
        )
}

/// The same triplet in all three suits.
pub open spec fn has_sanshoku_triplets(g: Seq<Group>) -> bool {
    exists|r: u8|
        r < 9 && #[trigger] holds_group(g, MeldShape::Kotsu(r)) && holds_group(g, MeldShape::Kotsu((9 + r) as u8)) && holds_group(
            g,
            MeldShape::Kotsu((18 + r) as u8),
        )
}

/// 123, 456 and 789 in the suit that begins at `base`.
pub open spec fn straight_in(g: Seq<Group>, base: u8) -> bool {
    holds_group(g, MeldShape::Shuntsu(base)) && holds_group(g, MeldShape::Shuntsu((base + 3) as u8)) && holds_group(
        g,
        MeldShape::Shuntsu((base + 6) as u8),
    )
}

pub open spec fn has_straight(g: Seq<Group>) -> bool {
    straight_in(g, 0) || straight_in(g, 9) || straight_in(g, 18)
}

fn has_group(g: &Vec<Group>, m: MeldShape) -> (r: bool)
    ensures
        r == holds_group(g@, m),
{
    let mut i: usize = 0;
    while i < g.len()
        invariant
            i <= g.len(),
            forall|j: int| 0 <= j < i ==> (#[trigger] g@[j]).0 != m,
        decreases g.len() - i,
    {
        if g[i].0 == m {
            return true;
        }
        i = i + 1;
    }
    false
}

fn is_all_runs(g: &Vec<Group>) -> (r: bool)
    ensures
        r == all_runs(g@),
{
    let mut i: usize = 0;
    while i < g.len()
        invariant
            i <= g.len(),
            forall|j: int| 0 <= j < i ==> (#[trigger] g@[j]).0 is Shuntsu,
        decreases g.len() - i,
    {
        if !g[i].0.is_shuntsu() {
            assert(!(g@[i as int].0 is Shuntsu));
            return false;
        }
        i = i + 1;
    }
    true
}

fn is_all_triplets(g: &Vec<Group>) -> (r: bool)
    ensures
        r == all_triplets(g@),
{
    let mut i: usize = 0;
    while i < g.len()
        invariant
            i <= g.len(),
            forall|j: int| 0 <= j < i ==> (#[trigger] g@[j]).0 is Kotsu,
        decreases g.len() - i,
    {
        if !g[i].0.is_kotsu() {
            assert(!(g@[i as int].0 is Kotsu));
            return false;
        }
        i = i + 1;
    }
    true
}

fn meld_has_yaochuu(m: MeldShape) -> (r: bool)
    ensures
        r == group_has_yaochuu(m),
{
    match m {
        MeldShape::Kotsu(k) => k < 34 && (k >= 27 || k % 9 == 0 || k % 9 == 8),
        MeldShape::Shuntsu(s) => s % 9 == 0 || s % 9 == 6,
    }
}

fn every_group_has_yaochuu(g: &Vec<Group>) -> (r: bool)
    ensures
        r == all_have_yaochuu(g@),
{
    let mut i: usize = 0;
    while i < g.len()
        invariant
            i <= g.len(),
            forall|j: int| 0 <= j < i ==> group_has_yaochuu((#[trigger] g@[j]).0),
        decreases g.len() - i,
    {
        if !meld_has_yaochuu(g[i].0) {
            assert(!group_has_yaochuu(g@[i as int].0));
            return false;
        }
        i = i + 1;
    }
    true
}

fn count_concealed_triplets(g: &Vec<Group>) -> (n: usize)
    ensures
        n == concealed_triplets(g@),
{
    let mut n: usize = 0;
    let mut i: usize = 0;
    while i < g.len()
        invariant
            i <= g.len(),
            n <= i,
            n == concealed_triplets(g@.subrange(0, i as int)),
        decreases g.len() - i,
    {
        assert(g@.subrange(0, i + 1).drop_last() =~= g@.subrange(0, i as int));
        if g[i].0.is_kotsu() && g[i].1 {
            n = n + 1;
        }
        i = i + 1;
    }
    assert(g@.subrange(0, i as int) =~= g@);
    n
}

fn count_triplets_between(g: &Vec<Group>, lo: u8, hi: u8) -> (n: usize)
    ensures
        n == triplets_between(g@, lo, hi),
{
    let mut n: usize = 0;
    let mut i: usize = 0;
    while i < g.len()
        invariant
            i <= g.len(),
            n <= i,
            n == triplets_between(g@.subrange(0, i as int), lo, hi),
        decreases g.len() - i,
    {
        assert(g@.subrange(0, i + 1).drop_last() =~= g@.subrange(0, i as int));
        if let MeldShape::Kotsu(k) = g[i].0 {
            if lo <= k && k <= hi {
                n = n + 1;
            }
        }
        i = i + 1;
    }
    assert(g@.subrange(0, i as int) =~= g@);
    n
}

fn count_runs_at(g: &Vec<Group>, k: usize) -> (n: usize)
    ensures
        n == runs_at(g@, k as int),
        n <= g.len(),
{
    let mut n: usize = 0;
    let mut i: usize = 0;
    while i < g.len()
        invariant
            i <= g.len(),
            n <= i,
            n == runs_at(g@.subrange(0, i as int), k as int),
        decreases g.len() - i,
    {
        assert(g@.subrange(0, i + 1).drop_last() =~= g@.subrange(0, i as int));
        if let MeldShape::Shuntsu(s) = g[i].0 {
            if s as usize == k {
                n = n + 1;
            }
        }
        i = i + 1;
    }
    assert(g@.subrange(0, i as int) =~= g@);
    n
}

/// Number of equal sequence pairs, for iipeikou and ryanpeikou.
fn count_duplicate_pairs(g: &Vec<Group>) -> (n: u128)
    ensures
        n == equal_run_pairs(g@, 256),
{
    let mut n: u128 = 0;
    let mut k: usize = 0;
    while k < 256
        invariant
            k <= 256,
            n == equal_run_pairs(g@, k as nat),
            n <= k * 0xffff_ffff_ffff_ffff,
        decreases 256 - k,
    {
        n = n + (count_runs_at(g, k) / 2) as u128;
        k = k + 1;
    }
    n
}

fn has_sanshoku_shuntsu(g: &Vec<Group>) -> (b: bool)
    ensures
        b == has_sanshoku(g@),
{
    let mut r: u8 = 0;
    while r < 9
        invariant
            r <= 9,
            forall|q: u8| q < r && #[trigger] holds_group(g@, MeldShape::Shuntsu(q)) ==> !(holds_group(
                g@,
                MeldShape::Shuntsu((9 + q) as u8),
            ) && holds_group(g@, MeldShape::Shuntsu((18 + q) as u8))),
        decreases 9 - r,
    {
        if has_group(g, MeldShape::Shuntsu(r)) && has_group(g, MeldShape::Shuntsu(9 + r)) && has_group(
            g,
            MeldShape::Shuntsu(18 + r),
        ) {
            return true;
        }
        r = r + 1;
    }
    false
}

fn has_sanshoku_doukou(g: &Vec<Group>) -> (b: bool)
    ensures
        b == has_sanshoku_triplets(g@),
{
    let mut r: u8 = 0;
    while r < 9
        invariant
            r <= 9,
            forall|q: u8| q < r && #[trigger] holds_group(g@, MeldShape::Kotsu(q)) ==> !(holds_group(
                g@,
                MeldShape::Kotsu((9 + q) as u8),
            ) && holds_group(g@, MeldShape::Kotsu((18 + q) as u8))),
        decreases 9 - r,
    {
        if has_group(g, MeldShape::Kotsu(r)) && has_group(g, MeldShape::Kotsu(9 + r)) && has_group(
            g,
            MeldShape::Kotsu(18 + r),
        ) {
            return true;
        }
        r = r + 1;
    }
    false
}

fn has_ittsuu(g: &Vec<Group>) -> (b: bool)
    ensures
        b == has_straight(g@),
{
    (has_group(g, MeldShape::Shuntsu(0)) && has_group(g, MeldShape::Shuntsu(3)) && has_group(g, MeldShape::Shuntsu(6)))
        || (has_group(g, MeldShape::Shuntsu(9)) && has_group(g, MeldShape::Shuntsu(12)) && has_group(
        g,
        MeldShape::Shuntsu(15),
    )) || (has_group(g, MeldShape::Shuntsu(18)) && has_group(g, MeldShape::Shuntsu(21)) && has_group(
        g,
        MeldShape::Shuntsu(24),
    ))
}

// Lists of yaku.

/// One yaku with its han where a condition holds, else nothing.
pub open spec fn when(cond: bool, y: Yaku, han: u8) -> Seq<(Yaku, u8)> {
    if cond { seq![(y, han)] } else { Seq::empty() }
}

fn push_when(v: &mut Vec<(Yaku, u8)>, cond: bool, y: Yaku, han: u8)
    ensures
        final(v)@ == old(v)@ + when(cond, y, han),
{
    if cond {
        v.push((y, han));
        assert(v@ =~= old(v)@ + when(cond, y, han));
    } else {
        assert(v@ =~= old(v)@ + when(cond, y, han));
    }
}

pub open spec fn han_sum(s: Seq<(Yaku, u8)>) -> int
    decreases s.len(),
{
    if s.len() == 0 { 0 } else { han_sum(s.drop_last()) + s.last().1 }
}

proof fn lemma_han_sum_append(a: Seq<(Yaku, u8)>, b: Seq<(Yaku, u8)>)
    ensures
        han_sum(a + b) == han_sum(a) + han_sum(b),
    decreases b.len(),
{
    if b.len() == 0 {
        assert(a + b =~= a);
    } else {
        lemma_han_sum_append(a, b.drop_last());
        assert((a + b).drop_last() =~= a + b.drop_last());
    }
}

proof fn lemma_han_sum_when(cond: bool, y: Yaku, han: u8)
    ensures
        han_sum(when(cond, y, han)) == if cond { han as int } else { 0 },
{
    reveal_with_fuel(han_sum, 2);
    if cond {
        assert(when(cond, y, han).drop_last() =~= Seq::empty());
    }
}

proof fn lemma_han_sum_prefix(s: Seq<(Yaku, u8)>, n: int)
    requires
        0 <= n <= s.len(),
    ensures
        0 <= han_sum(s.subrange(0, n)) <= han_sum(s),
    decreases s.len(),
{
    if s.len() > 0 {
        if n == s.len() {
            assert(s.subrange(0, n) =~= s);
            lemma_han_sum_prefix(s.drop_last(), n - 1);
            assert(s.drop_last().subrange(0, n - 1) =~= s.drop_last());
        } else {
            lemma_han_sum_prefix(s.drop_last(), n);
            assert(s.drop_last().subrange(0, n) =~= s.subrange(0, n));
        }
    }
}

fn sum_han(v: &Vec<(Yaku, u8)>) -> (r: u8)
    requires
        han_sum(v@) <= 255,
    ensures
        r == han_sum(v@),
{
    let mut sum: u8 = 0;
    let mut i: usize = 0;
    while i < v.len()
        invariant
            i <= v.len(),
            han_sum(v@) <= 255,
            sum == han_sum(v@.subrange(0, i as int)),
        decreases v.len() - i,
    {
        assert(v@.subrange(0, i + 1).drop_last() =~= v@.subrange(0, i as int));
        proof { lemma_han_sum_prefix(v@, i + 1); }
        sum = sum + v[i].1;
        i = i + 1;
    }
    assert(v@.subrange(0, i as int) =~= v@);
    sum
}

/// Yaku that come from the situation. Haitei and rinshan do not combine: when the rinshan
/// tile is the last draw, only rinshan counts.
pub open spec fn situational(f: WinFacts, closed: bool) -> Seq<(Yaku, u8)> {
    when(f.double_riichi, Yaku::DoubleRiichi, 2)
        + when(!f.double_riichi && f.riichi, Yaku::Riichi, 1)
        + when(f.ippatsu && (f.riichi || f.double_riichi), Yaku::Ippatsu, 1)
        + when(f.is_tsumo && closed, Yaku::MenzenTsumo, 1)
        + when(f.haitei && !f.rinshan, Yaku::Haitei, 1)
        + when(f.houtei, Yaku::Houtei, 1)
        + when(f.rinshan, Yaku::Rinshan, 1)
        + when(f.chankan, Yaku::Chankan, 1)
}

/// Yakuhai of one group.
pub open spec fn yakuhai_of(f: WinFacts, m: MeldShape) -> Seq<(Yaku, u8)> {
    match m {
        MeldShape::Shuntsu(_) => Seq::empty(),
        MeldShape::Kotsu(k) => when(k == 31, Yaku::Yakuhai(YakuhaiKind::Haku), 1)
            + when(k == 32, Yaku::Yakuhai(YakuhaiKind::Hatsu), 1)
            + when(k == 33, Yaku::Yakuhai(YakuhaiKind::Chun), 1)
            + when(27 <= k <= 30 && k == f.bakaze.kind(), Yaku::Yakuhai(YakuhaiKind::Bakaze), 1)
            + when(27 <= k <= 30 && k == f.jikaze.kind(), Yaku::Yakuhai(YakuhaiKind::Jikaze), 1)
            + when(k == 30 && f.pei_is_yakuhai, Yaku::Yakuhai(YakuhaiKind::Pei), 1),
    }
}

/// Yakuhai of all groups, in order.
pub open spec fn yakuhai(f: WinFacts, g: Seq<Group>) -> Seq<(Yaku, u8)>
    decreases g.len(),
{
    if g.len() == 0 { Seq::empty() } else { yakuhai(f, g.drop_last()) + yakuhai_of(f, g.last().0) }
}

/// A dragon, the round wind or the seat wind.
pub open spec fn is_yakuhai_pair(f: WinFacts, pair: u8) -> bool {
    31 <= pair <= 33 || pair == f.bakaze.kind() || pair == f.jikaze.kind()
}

/// Closed, all sequences, a pair of no value and a two-sided wait.
pub open spec fn is_pinfu(f: WinFacts, p: Reading) -> bool {
    f.menzen && all_runs(groups_of(f, p)) && !is_yakuhai_pair(f, p.pair) && best_wait(
        waits_of(p.pair, p.melds, f.win_tile.kind() as int),
    ) == Some(WaitShape::Ryanmen)
}

/// The yaku of a standard reading, each with its han.
pub open spec fn standard_yaku(f: WinFacts, p: Reading) -> Seq<(Yaku, u8)> {
    let g = groups_of(f, p);
    let all = hand_tiles(f);
    let two: u8 = if f.menzen { 2 } else { 1 };
    let three: u8 = if f.menzen { 3 } else { 2 };
    let six: u8 = if f.menzen { 6 } else { 5 };
    let outside = all_have_yaochuu(g) && is_yaochuu_kind(p.pair as int);
    situational(f, f.menzen)
        + yakuhai(f, g)
        + when(is_pinfu(f, p), Yaku::Pinfu, 1)
        + when(no_yaochuu(all) && (f.menzen || f.rule_profile.open_tanyao), Yaku::Tanyao, 1)
        + when(f.menzen && equal_run_pairs(g, 256) == 2, Yaku::Ryanpeikou, 3)
        + when(f.menzen && equal_run_pairs(g, 256) == 1, Yaku::Iipeikou, 1)
        + when(has_sanshoku(g), Yaku::Sanshoku, two)
        + when(has_sanshoku_triplets(g), Yaku::SanshokuDoukou, 2)
        + when(has_straight(g), Yaku::Ittsuu, two)
        + when(all_triplets(g), Yaku::Toitoi, 2)
        + when(concealed_triplets(g) == 3, Yaku::Sanankou, 2)
        + when(kan_count(f.melds) == 3, Yaku::Sankantsu, 2)
        + when(outside && all_triplets(g), Yaku::Honroutou, 2)
        + when(outside && !all_triplets(g) && any_honor(all), Yaku::Chanta, two)
        + when(outside && !all_triplets(g) && !any_honor(all), Yaku::Junchan, three)
        + when(triplets_between(g, 31, 33) == 2 && 31 <= p.pair <= 33, Yaku::Shousangen, 2)
        + when(flush_of(all) == Some(true), Yaku::Chinitsu, six)
        + when(flush_of(all) == Some(false), Yaku::Honitsu, three)
}

/// The yaku of seven pairs, each with its han.
pub open spec fn seven_pairs_yaku(f: WinFacts) -> Seq<(Yaku, u8)> {
    let all = hand_tiles(f);
    seq![(Yaku::Chiitoitsu, 2u8)]
        + situational(f, true)
        + when(no_yaochuu(all), Yaku::Tanyao, 1)
        + when(all_yaochuu(all), Yaku::Honroutou, 2)
        + when(flush_of(all) == Some(true), Yaku::Chinitsu, 6)
        + when(flush_of(all) == Some(false), Yaku::Honitsu, 3)
}

pub open spec fn regular(yaku: Seq<(Yaku, u8)>) -> YakuOutcome {
    YakuOutcome { yaku, han: han_sum(yaku), yakuman: 0 }
}

pub open spec fn standard_outcome(f: WinFacts, p: Reading) -> YakuOutcome {
    regular(standard_yaku(f, p))
}

pub open spec fn seven_pairs_outcome(f: WinFacts) -> YakuOutcome {
    regular(seven_pairs_yaku(f))
}

fn push_situational(v: &mut Vec<(Yaku, u8)>, ctx: &YakuContext, closed: bool)
    ensures
        final(v)@ == old(v)@ + situational(ctx@, closed),
{
    let ghost v0 = v@;
    let mut w: Vec<(Yaku, u8)> = Vec::new();
    push_when(&mut w, ctx.double_riichi, Yaku::DoubleRiichi, 2);
    assert(w@ =~= when(ctx.double_riichi, Yaku::DoubleRiichi, 2));
    push_when(&mut w, !ctx.double_riichi && ctx.riichi, Yaku::Riichi, 1);
    push_when(&mut w, ctx.ippatsu && (ctx.riichi || ctx.double_riichi), Yaku::Ippatsu, 1);
    push_when(&mut w, ctx.is_tsumo && closed, Yaku::MenzenTsumo, 1);
    push_when(&mut w, ctx.haitei && !ctx.rinshan, Yaku::Haitei, 1);
    push_when(&mut w, ctx.houtei, Yaku::Houtei, 1);
    push_when(&mut w, ctx.rinshan, Yaku::Rinshan, 1);
    push_when(&mut w, ctx.chankan, Yaku::Chankan, 1);
    v.append(&mut w);
    assert(v@ =~= v0 + situational(ctx@, closed));
}

fn push_yakuhai(v: &mut Vec<(Yaku, u8)>, ctx: &YakuContext, g: &Vec<Group>)
    ensures
        final(v)@ == old(v)@ + yakuhai(ctx@, g@),
{
    let ghost v0 = v@;
    let mut i: usize = 0;
    assert(v@ =~= v0 + yakuhai(ctx@, g@.subrange(0, 0)));
    while i < g.len()
        invariant
            i <= g.len(),
            v@ == v0 + yakuhai(ctx@, g@.subrange(0, i as int)),
        decreases g.len() - i,
    {
        assert(g@.subrange(0, i + 1).drop_last() =~= g@.subrange(0, i as int));
        let ghost v1 = v@;
        match g[i].0 {
            MeldShape::Kotsu(k) => {
                let wind = 27 <= k && k <= 30;
                let mut w: Vec<(Yaku, u8)> = Vec::new();
                push_when(&mut w, k == 31, Yaku::Yakuhai(YakuhaiKind::Haku), 1);
                assert(w@ =~= when(k == 31, Yaku::Yakuhai(YakuhaiKind::Haku), 1));
                push_when(&mut w, k == 32, Yaku::Yakuhai(YakuhaiKind::Hatsu), 1);
                push_when(&mut w, k == 33, Yaku::Yakuhai(YakuhaiKind::Chun), 1);
                push_when(&mut w, wind && k as usize == ctx.bakaze.kind(), Yaku::Yakuhai(YakuhaiKind::Bakaze), 1);
                push_when(&mut w, wind && k as usize == ctx.jikaze.kind(), Yaku::Yakuhai(YakuhaiKind::Jikaze), 1);
                push_when(&mut w, k == 30 && ctx.pei_is_yakuhai, Yaku::Yakuhai(YakuhaiKind::Pei), 1);
                assert(w@ == yakuhai_of(ctx@, g@[i as int].0));
                v.append(&mut w);
            },
            MeldShape::Shuntsu(_) => {
                assert(v@ =~= v1 + yakuhai_of(ctx@, g@[i as int].0));
            },
        }
        assert(v@ =~= v1 + yakuhai_of(ctx@, g@[i as int].0));
        assert(v@ =~= v0 + yakuhai(ctx@, g@.subrange(0, i + 1)));
        i = i + 1;
    }
    assert(g@.subrange(0, i as int) =~= g@);
}

/// Whether a reading has pinfu.
pub(crate) fn has_pinfu(ctx: &YakuContext, parse: &StandardParse) -> (r: bool)
    requires
        kinds_in_range(parse.melds@),
    ensures
        r == is_pinfu(ctx@, parse@),
{
    if !ctx.menzen {
        return false;
    }
    let g = ctx.all_melds(parse);
    if !is_all_runs(&g) {
        return false;
    }
    let pair: u8 = parse.pair;
    let valued = (31 <= pair && pair <= 33) || pair as usize == ctx.bakaze.kind() || pair as usize == ctx.jikaze.kind();
    !valued && wait_shape(parse, ctx.win_tile) == Some(WaitShape::Ryanmen)
}

/// Yaku of a standard reading, as [`eval_standard_pub`] gives them.
#[verifier::rlimit(40)]
fn eval_standard(ctx: &YakuContext, parse: &StandardParse) -> (r: YakuResult)
    requires
        kinds_in_range(parse.melds@),
        standard_outcome(ctx@, parse@).han <= 255,
    ensures
        r@ == standard_outcome(ctx@, parse@),
{
    let g = ctx.all_melds(parse);
    let all = all_tiles(ctx);
    let facts = tile_facts(&all);
    let menzen = ctx.menzen;
    let pair: u8 = parse.pair;
    let two: u8 = if menzen { 2 } else { 1 };
    let three: u8 = if menzen { 3 } else { 2 };
    let six: u8 = if menzen { 6 } else { 5 };
    let pinfu = has_pinfu(ctx, parse);
    let dups: u128 = count_duplicate_pairs(&g);
    let triplets_only = is_all_triplets(&g);
    let outside = every_group_has_yaochuu(&g) && meld_has_yaochuu(MeldShape::Kotsu(pair));
    let flush = flush_kind(&all);
    let mut yaku: Vec<(Yaku, u8)> = Vec::new();
    push_situational(&mut yaku, ctx, menzen);
    assert(yaku@ =~= situational(ctx@, menzen));
    push_yakuhai(&mut yaku, ctx, &g);
    push_when(&mut yaku, pinfu, Yaku::Pinfu, 1);
    push_when(&mut yaku, facts.no_yaochuu && (menzen || ctx.rule_profile.allows_open_tanyao()), Yaku::Tanyao, 1);
    push_when(&mut yaku, menzen && dups == 2, Yaku::Ryanpeikou, 3);
    push_when(&mut yaku, menzen && dups == 1, Yaku::Iipeikou, 1);
    push_when(&mut yaku, has_sanshoku_shuntsu(&g), Yaku::Sanshoku, two);
    push_when(&mut yaku, has_sanshoku_doukou(&g), Yaku::SanshokuDoukou, 2);
    push_when(&mut yaku, has_ittsuu(&g), Yaku::Ittsuu, two);
    push_when(&mut yaku, triplets_only, Yaku::Toitoi, 2);
    push_when(&mut yaku, count_concealed_triplets(&g) == 3, Yaku::Sanankou, 2);
    push_when(&mut yaku, ctx.count_kans() == 3, Yaku::Sankantsu, 2);
    push_when(&mut yaku, outside && triplets_only, Yaku::Honroutou, 2);
    push_when(&mut yaku, outside && !triplets_only && facts.any_honor, Yaku::Chanta, two);
    push_when(&mut yaku, outside && !triplets_only && !facts.any_honor, Yaku::Junchan, three);
    push_when(&mut yaku, count_triplets_between(&g, 31, 33) == 2 && 31 <= pair && pair <= 33, Yaku::Shousangen, 2);
    push_when(&mut yaku, flush == Some(true), Yaku::Chinitsu, six);
    push_when(&mut yaku, flush == Some(false), Yaku::Honitsu, three);
    assert(yaku@ == standard_yaku(ctx@, parse@));
    let han: u8 = sum_han(&yaku);
    YakuResult { yaku, han, yakuman: 0 }
}

/// Yaku of a hand under one of its standard readings.
pub fn eval_standard_pub(ctx: &YakuContext, parse: &StandardParse) -> (r: YakuResult)
    requires
        kinds_in_range(parse.melds@),
        standard_outcome(ctx@, parse@).han <= 255,
    ensures
        r@ == standard_outcome(ctx@, parse@),
{
    eval_standard(ctx, parse)
}

/// The han of a list of yaku made of conditional parts.
proof fn lemma_han_of_parts(a: Seq<(Yaku, u8)>, cond: bool, y: Yaku, han: u8)
    ensures
        han_sum(a + when(cond, y, han)) == han_sum(a) + if cond { han as int } else { 0 },
{
    lemma_han_sum_append(a, when(cond, y, han));
    lemma_han_sum_when(cond, y, han);
}

proof fn lemma_situational_han(f: WinFacts, closed: bool)
    ensures
        0 <= han_sum(situational(f, closed)) <= 8,
{
    let s1 = when(f.double_riichi, Yaku::DoubleRiichi, 2);
    lemma_han_sum_when(f.double_riichi, Yaku::DoubleRiichi, 2);
    let s2 = s1 + when(!f.double_riichi && f.riichi, Yaku::Riichi, 1);
    lemma_han_of_parts(s1, !f.double_riichi && f.riichi, Yaku::Riichi, 1);
    let s3 = s2 + when(f.ippatsu && (f.riichi || f.double_riichi), Yaku::Ippatsu, 1);
    lemma_han_of_parts(s2, f.ippatsu && (f.riichi || f.double_riichi), Yaku::Ippatsu, 1);
    let s4 = s3 + when(f.is_tsumo && closed, Yaku::MenzenTsumo, 1);
    lemma_han_of_parts(s3, f.is_tsumo && closed, Yaku::MenzenTsumo, 1);
    let s5 = s4 + when(f.haitei && !f.rinshan, Yaku::Haitei, 1);
    lemma_han_of_parts(s4, f.haitei && !f.rinshan, Yaku::Haitei, 1);
    let s6 = s5 + when(f.houtei, Yaku::Houtei, 1);
    lemma_han_of_parts(s5, f.houtei, Yaku::Houtei, 1);
    let s7 = s6 + when(f.rinshan, Yaku::Rinshan, 1);
    lemma_han_of_parts(s6, f.rinshan, Yaku::Rinshan, 1);
    lemma_han_of_parts(s7, f.chankan, Yaku::Chankan, 1);
}

pub proof fn lemma_seven_pairs_han(f: WinFacts)
    ensures
        2 <= han_sum(seven_pairs_yaku(f)) <= 19,
{
    reveal_with_fuel(han_sum, 2);
    let all = hand_tiles(f);
    let s0 = seq![(Yaku::Chiitoitsu, 2u8)];
    assert(s0.drop_last() =~= Seq::empty());
    assert(han_sum(s0) == 2);
    lemma_situational_han(f, true);
    lemma_han_sum_append(s0, situational(f, true));
    let s1 = s0 + situational(f, true);
    lemma_han_of_parts(s1, no_yaochuu(all), Yaku::Tanyao, 1);
    let s2 = s1 + when(no_yaochuu(all), Yaku::Tanyao, 1);
    lemma_han_of_parts(s2, all_yaochuu(all), Yaku::Honroutou, 2);
    let s3 = s2 + when(all_yaochuu(all), Yaku::Honroutou, 2);
    lemma_han_of_parts(s3, flush_of(all) == Some(true), Yaku::Chinitsu, 6);
    let s4 = s3 + when(flush_of(all) == Some(true), Yaku::Chinitsu, 6);
    lemma_han_of_parts(s4, flush_of(all) == Some(false), Yaku::Honitsu, 3);
}

proof fn lemma_yakuhai_of_han(f: WinFacts, m: MeldShape)
    ensures
        0 <= han_sum(yakuhai_of(f, m)) <= 3,
{
    match m {
        MeldShape::Shuntsu(_) => {},
        MeldShape::Kotsu(k) => {
            let s1 = when(k == 31, Yaku::Yakuhai(YakuhaiKind::Haku), 1);
            lemma_han_sum_when(k == 31, Yaku::Yakuhai(YakuhaiKind::Haku), 1);
            let s2 = s1 + when(k == 32, Yaku::Yakuhai(YakuhaiKind::Hatsu), 1);
            lemma_han_of_parts(s1, k == 32, Yaku::Yakuhai(YakuhaiKind::Hatsu), 1);
            let s3 = s2 + when(k == 33, Yaku::Yakuhai(YakuhaiKind::Chun), 1);
            lemma_han_of_parts(s2, k == 33, Yaku::Yakuhai(YakuhaiKind::Chun), 1);
            let s4 = s3 + when(27 <= k <= 30 && k == f.bakaze.kind(), Yaku::Yakuhai(YakuhaiKind::Bakaze), 1);
            lemma_han_of_parts(s3, 27 <= k <= 30 && k == f.bakaze.kind(), Yaku::Yakuhai(YakuhaiKind::Bakaze), 1);
            let s5 = s4 + when(27 <= k <= 30 && k == f.jikaze.kind(), Yaku::Yakuhai(YakuhaiKind::Jikaze), 1);
            lemma_han_of_parts(s4, 27 <= k <= 30 && k == f.jikaze.kind(), Yaku::Yakuhai(YakuhaiKind::Jikaze), 1);
            lemma_han_of_parts(s5, k == 30 && f.pei_is_yakuhai, Yaku::Yakuhai(YakuhaiKind::Pei), 1);
        },
    }
}

proof fn lemma_yakuhai_han(f: WinFacts, g: Seq<Group>)
    ensures
        0 <= han_sum(yakuhai(f, g)) <= 3 * g.len(),
    decreases g.len(),
{
    if g.len() > 0 {
        lemma_yakuhai_han(f, g.drop_last());
        lemma_yakuhai_of_han(f, g.last().0);
        lemma_han_sum_append(yakuhai(f, g.drop_last()), yakuhai_of(f, g.last().0));
    }
}

pub proof fn lemma_called_groups_len(melds: Seq<Meld>)
    ensures
        called_groups(melds).len() == group_meld_count(melds),
        group_meld_count(melds) <= melds.len(),
    decreases melds.len(),
{
    if melds.len() > 0 {
        lemma_called_groups_len(melds.drop_last());
    }
}

/// A list followed by the conditional parts of a standard reading.
#[verifier::opaque]
pub open spec fn standard_parts(s0: Seq<(Yaku, u8)>, c0: bool, c1: bool, c2: bool, c3: bool, c4: bool, c5: bool, c6: bool, c7: bool, c8: bool, c9: bool, c10: bool, c11: bool, c12: bool, c13: bool, c14: bool, c15: bool, two: u8, three: u8, six: u8) -> Seq<(Yaku, u8)> {
    s0
        + when(c0, Yaku::Pinfu, 1)
        + when(c1, Yaku::Tanyao, 1)
        + when(c2, Yaku::Ryanpeikou, 3)
        + when(c3, Yaku::Iipeikou, 1)
        + when(c4, Yaku::Sanshoku, two)
        + when(c5, Yaku::SanshokuDoukou, 2)
        + when(c6, Yaku::Ittsuu, two)
        + when(c7, Yaku::Toitoi, 2)
        + when(c8, Yaku::Sanankou, 2)
        + when(c9, Yaku::Sankantsu, 2)
        + when(c10, Yaku::Honroutou, 2)
        + when(c11, Yaku::Chanta, two)
        + when(c12, Yaku::Junchan, three)
        + when(c13, Yaku::Shousangen, 2)
        + when(c14, Yaku::Chinitsu, six)
        + when(c15, Yaku::Honitsu, three)
}

proof fn lemma_standard_parts(s0: Seq<(Yaku, u8)>, c0: bool, c1: bool, c2: bool, c3: bool, c4: bool, c5: bool, c6: bool, c7: bool, c8: bool, c9: bool, c10: bool, c11: bool, c12: bool, c13: bool, c14: bool, c15: bool, two: u8, three: u8, six: u8)
    requires
        two <= 2,
        three <= 3,
        six <= 6,
    ensures
        han_sum(s0) <= han_sum(standard_parts(s0, c0, c1, c2, c3, c4, c5, c6, c7, c8, c9, c10, c11, c12, c13, c14, c15, two, three, six)) <= han_sum(s0) + 40,
{
    let s1 = s0 + when(c0, Yaku::Pinfu, 1);
    lemma_han_of_parts(s0, c0, Yaku::Pinfu, 1);
    let s2 = s1 + when(c1, Yaku::Tanyao, 1);
    lemma_han_of_parts(s1, c1, Yaku::Tanyao, 1);
    let s3 = s2 + when(c2, Yaku::Ryanpeikou, 3);
    lemma_han_of_parts(s2, c2, Yaku::Ryanpeikou, 3);
    let s4 = s3 + when(c3, Yaku::Iipeikou, 1);
    lemma_han_of_parts(s3, c3, Yaku::Iipeikou, 1);
    let s5 = s4 + when(c4, Yaku::Sanshoku, two);
    lemma_han_of_parts(s4, c4, Yaku::Sanshoku, two);
    let s6 = s5 + when(c5, Yaku::SanshokuDoukou, 2);
    lemma_han_of_parts(s5, c5, Yaku::SanshokuDoukou, 2);
    let s7 = s6 + when(c6, Yaku::Ittsuu, two);
    lemma_han_of_parts(s6, c6, Yaku::Ittsuu, two);
    let s8 = s7 + when(c7, Yaku::Toitoi, 2);
    lemma_han_of_parts(s7, c7, Yaku::Toitoi, 2);
    let s9 = s8 + when(c8, Yaku::Sanankou, 2);
    lemma_han_of_parts(s8, c8, Yaku::Sanankou, 2);
    let s10 = s9 + when(c9, Yaku::Sankantsu, 2);
    lemma_han_of_parts(s9, c9, Yaku::Sankantsu, 2);
    let s11 = s10 + when(c10, Yaku::Honroutou, 2);
    lemma_han_of_parts(s10, c10, Yaku::Honroutou, 2);
    let s12 = s11 + when(c11, Yaku::Chanta, two);
    lemma_han_of_parts(s11, c11, Yaku::Chanta, two);
    let s13 = s12 + when(c12, Yaku::Junchan, three);
    lemma_han_of_parts(s12, c12, Yaku::Junchan, three);
    let s14 = s13 + when(c13, Yaku::Shousangen, 2);
    lemma_han_of_parts(s13, c13, Yaku::Shousangen, 2);
    let s15 = s14 + when(c14, Yaku::Chinitsu, six);
    lemma_han_of_parts(s14, c14, Yaku::Chinitsu, six);
    let s16 = s15 + when(c15, Yaku::Honitsu, three);
    lemma_han_of_parts(s15, c15, Yaku::Honitsu, three);
    reveal(standard_parts);
    assert(standard_parts(s0, c0, c1, c2, c3, c4, c5, c6, c7, c8, c9, c10, c11, c12, c13, c14, c15, two, three, six) == s16);
}

/// The yaku of a standard reading behind the situational ones and yakuhai, with their conditions named.
pub open spec fn standard_as_parts(f: WinFacts, p: Reading) -> Seq<(Yaku, u8)> {
    let g = groups_of(f, p);
    let all = hand_tiles(f);
    let two: u8 = if f.menzen { 2 } else { 1 };
    let three: u8 = if f.menzen { 3 } else { 2 };
    let six: u8 = if f.menzen { 6 } else { 5 };
    let outside = all_have_yaochuu(g) && is_yaochuu_kind(p.pair as int);
    let c0 = is_pinfu(f, p);
    let c1 = no_yaochuu(all) && (f.menzen || f.rule_profile.open_tanyao);
    let c2 = f.menzen && equal_run_pairs(g, 256) == 2;
    let c3 = f.menzen && equal_run_pairs(g, 256) == 1;
    let c4 = has_sanshoku(g);
    let c5 = has_sanshoku_triplets(g);
    let c6 = has_straight(g);
    let c7 = all_triplets(g);
    let c8 = concealed_triplets(g) == 3;
    let c9 = kan_count(f.melds) == 3;
    let c10 = outside && all_triplets(g);
    let c11 = outside && !all_triplets(g) && any_honor(all);
    let c12 = outside && !all_triplets(g) && !any_honor(all);
    let c13 = triplets_between(g, 31, 33) == 2 && 31 <= p.pair <= 33;
    let c14 = flush_of(all) == Some(true);
    let c15 = flush_of(all) == Some(false);
    standard_parts(situational(f, f.menzen) + yakuhai(f, g), c0, c1, c2, c3, c4, c5, c6, c7, c8, c9, c10, c11, c12, c13, c14, c15, two, three, six)
}

pub proof fn lemma_standard_as_parts(f: WinFacts, p: Reading)
    ensures
        standard_yaku(f, p) == standard_as_parts(f, p),
{
    reveal(standard_parts);
}

proof fn lemma_all_parts_han()
    ensures
        forall|s0: Seq<(Yaku, u8)>, c0: bool, c1: bool, c2: bool, c3: bool, c4: bool, c5: bool, c6: bool, c7: bool, c8: bool, c9: bool, c10: bool, c11: bool, c12: bool, c13: bool, c14: bool, c15: bool, two: u8, three: u8, six: u8|
            two <= 2 && three <= 3 && six <= 6 ==> han_sum(s0) <= han_sum(
                #[trigger] standard_parts(s0, c0, c1, c2, c3, c4, c5, c6, c7, c8, c9, c10, c11, c12, c13, c14, c15, two, three, six),
            ) <= han_sum(s0) + 40,
{
    assert forall|s0: Seq<(Yaku, u8)>, c0: bool, c1: bool, c2: bool, c3: bool, c4: bool, c5: bool, c6: bool, c7: bool, c8: bool, c9: bool, c10: bool, c11: bool, c12: bool, c13: bool, c14: bool, c15: bool, two: u8, three: u8, six: u8|
        two <= 2 && three <= 3 && six <= 6 implies han_sum(s0) <= han_sum(
            #[trigger] standard_parts(s0, c0, c1, c2, c3, c4, c5, c6, c7, c8, c9, c10, c11, c12, c13, c14, c15, two, three, six),
        ) <= han_sum(s0) + 40 by {
        lemma_standard_parts(s0, c0, c1, c2, c3, c4, c5, c6, c7, c8, c9, c10, c11, c12, c13, c14, c15, two, three, six);
    }
}

proof fn lemma_parts_han(f: WinFacts, p: Reading)
    ensures
        ({
            let n = han_sum(situational(f, f.menzen) + yakuhai(f, groups_of(f, p)));
            n <= han_sum(standard_as_parts(f, p)) <= n + 40
        }),
{
    lemma_all_parts_han();
}

/// The han of a standard reading are bounded by the number of its groups.
pub proof fn lemma_standard_han(f: WinFacts, p: Reading)
    ensures
        0 <= standard_outcome(f, p).han <= 48 + 3 * (p.melds.len() + f.melds.len()),
{
    let g = groups_of(f, p);
    lemma_situational_han(f, f.menzen);
    lemma_yakuhai_han(f, g);
    lemma_called_groups_len(f.melds);
    assert(g.len() <= p.melds.len() + f.melds.len());
    lemma_han_sum_append(situational(f, f.menzen), yakuhai(f, g));
    lemma_standard_as_parts(f, p);
    lemma_parts_han(f, p);
}

/// Chiitoitsu yaku evaluation.
pub(crate) fn eval_chiitoitsu(ctx: &YakuContext) -> (r: YakuResult)
    ensures
        r@ == seven_pairs_outcome(ctx@),
        2 <= r.han <= 19,
{
    let all = all_tiles(ctx);
    let facts = tile_facts(&all);
    let flush = flush_kind(&all);
    let mut yaku: Vec<(Yaku, u8)> = vec![(Yaku::Chiitoitsu, 2)];
    assert(yaku@ =~= seq![(Yaku::Chiitoitsu, 2u8)]);
    push_situational(&mut yaku, ctx, true);
    push_when(&mut yaku, facts.no_yaochuu, Yaku::Tanyao, 1);
    push_when(&mut yaku, facts.all_yaochuu, Yaku::Honroutou, 2);
    push_when(&mut yaku, flush == Some(true), Yaku::Chinitsu, 6);
    push_when(&mut yaku, flush == Some(false), Yaku::Honitsu, 3);
    assert(yaku@ == seven_pairs_yaku(ctx@));
    proof { lemma_seven_pairs_han(ctx@); }
    let han: u8 = sum_han(&yaku);
    YakuResult { yaku, han, yakuman: 0 }
}

// Yakuman.

/// The form of the concealed tiles.
#[derive(Clone, Copy, PartialEq, Eq, Structural)]
pub enum HandForm {
    SevenPairs,
    Orphans,
    Standard,
}

pub open spec fn form_of(f: WinFacts) -> HandForm {
    if open_count(f) == 0 && is_seven_pairs(f.concealed) {
        HandForm::SevenPairs
    } else if open_count(f) == 0 && is_thirteen_orphans(f.concealed) {
        HandForm::Orphans
    } else {
        HandForm::Standard
    }
}

/// The standard readings of the hand.
pub open spec fn readings_of(f: WinFacts) -> Seq<Reading> {
    hand_readings(f.concealed, open_count(f))
}

/// A complete hand.
pub open spec fn is_complete_hand(f: WinFacts) -> bool {
    form_of(f) != HandForm::Standard || readings_of(f).len() > 0
}

/// Without the winning tile, exactly one of each terminal and honor.
pub open spec fn is_thirteen_wait(f: WinFacts) -> bool {
    let w = f.win_tile.kind() as int;
    &&& is_yaochuu_kind(w)
    &&& f.concealed[w] > 0
    &&& forall|k: int|
        0 <= k < 34 ==> #[trigger] f.concealed[k] - (if k == w { 1int } else { 0 }) == if is_yaochuu_kind(k) { 1int } else { 0 }
}

pub open spec fn when_kind(cond: bool, k: YakumanKind) -> Seq<YakumanKind> {
    if cond { seq![k] } else { Seq::empty() }
}

/// Yakuman that do not depend on a reading.
pub open spec fn whole_hand_yakuman(f: WinFacts) -> Seq<YakumanKind> {
    let all = hand_tiles(f);
    when_kind(f.tenhou, YakumanKind::Tenhou)
        + when_kind(f.chiihou, YakumanKind::Chiihou)
        + when_kind(form_of(f) == HandForm::Orphans && is_thirteen_wait(f), YakumanKind::KokushiMusouJuusanmen)
        + when_kind(form_of(f) == HandForm::Orphans && !is_thirteen_wait(f), YakumanKind::KokushiMusou)
        + when_kind(all.len() > 0 && all_honor(all), YakumanKind::Tsuuiisou)
        + when_kind(all.len() > 0 && all_terminal(all), YakumanKind::Chinroutou)
        + when_kind(all.len() > 0 && all_green(all), YakumanKind::Ryuuiisou)
}

/// A list with one more kind where a condition holds, unless it is there already.
pub open spec fn with_kind(s: Seq<YakumanKind>, cond: bool, k: YakumanKind) -> Seq<YakumanKind> {
    if cond && !s.contains(k) { s.push(k) } else { s }
}

/// A list with the yakuman of one reading added.
pub open spec fn with_reading(s: Seq<YakumanKind>, f: WinFacts, p: Reading) -> Seq<YakumanKind> {
    let g = groups_of(f, p);
    let winds = triplets_between(g, 27, 30);
    let four_concealed = concealed_triplets(g) >= 4;
    let on_pair = p.pair == f.win_tile.kind();
    let s1 = with_kind(s, triplets_between(g, 31, 33) == 3, YakumanKind::Daisangen);
    let s2 = with_kind(s1, winds == 4, YakumanKind::Daisuushi);
    let s3 = with_kind(s2, winds == 3 && 27 <= p.pair <= 30, YakumanKind::Shousuushi);
    let s4 = with_kind(s3, four_concealed && on_pair, YakumanKind::SuuankouTanki);
    let s5 = with_kind(s4, four_concealed && !on_pair && f.is_tsumo, YakumanKind::Suuankou);
    with_kind(s5, kan_count(f.melds) == 4, YakumanKind::Suukantsu)
}

/// A list with the yakuman of all readings added.
pub open spec fn with_readings(s: Seq<YakumanKind>, f: WinFacts, ps: Seq<Reading>) -> Seq<YakumanKind>
    decreases ps.len(),
{
    if ps.len() == 0 { s } else { with_reading(with_readings(s, f, ps.drop_last()), f, ps.last()) }
}

/// Copies of a rank in 1112345678999.
pub open spec fn nine_gates_need(i: int) -> int {
    if i == 0 || i == 8 { 3 } else { 1 }
}

/// 1112345678999 of the suit that begins at `base` and one more tile of rank index `extra`.
pub open spec fn is_nine_gates_with(c: Seq<u8>, base: int, extra: int) -> bool {
    &&& 0 <= extra < 9
    &&& forall|k: int|
        0 <= k < 34 ==> #[trigger] c[k] == if base <= k < base + 9 {
            nine_gates_need(k - base) + if k - base == extra { 1int } else { 0 }
        } else {
            0
        }
}

pub open spec fn is_nine_gates(c: Seq<u8>, base: int) -> bool {
    exists|extra: int| is_nine_gates_with(c, base, extra)
}

/// Chuuren poutou in the suit that begins at `base`: pure where the winning tile is the extra one.
pub open spec fn nine_gates_kind(f: WinFacts, base: int) -> Option<YakumanKind> {
    if f.win_tile.kind() < base {
        None
    } else if is_nine_gates_with(f.concealed, base, f.win_tile.kind() - base) {
        Some(YakumanKind::JunseiChuuren)
    } else {
        Some(YakumanKind::ChuurenPoutou)
    }
}

/// Chuuren poutou, for a hand without called groups.
pub open spec fn chuuren_of(f: WinFacts) -> Option<YakumanKind> {
    if group_meld_count(f.melds) > 0 {
        None
    } else if is_nine_gates(f.concealed, 0) {
        nine_gates_kind(f, 0)
    } else if is_nine_gates(f.concealed, 9) {
        nine_gates_kind(f, 9)
    } else if is_nine_gates(f.concealed, 18) {
        nine_gates_kind(f, 18)
    } else {
        None
    }
}

/// The winning tile of a nine-gates shape is not above its suit.
pub open spec fn win_fits_nine_gates(f: WinFacts) -> bool {
    group_meld_count(f.melds) == 0 && f.menzen ==> {
        &&& is_nine_gates(f.concealed, 0) ==> f.win_tile.kind() < 9
        &&& is_nine_gates(f.concealed, 9) ==> f.win_tile.kind() < 18
        &&& is_nine_gates(f.concealed, 18) ==> f.win_tile.kind() < 27
    }
}

/// The yakuman of a hand.
pub open spec fn yakuman_kinds(f: WinFacts) -> Seq<YakumanKind> {
    if !is_complete_hand(f) {
        Seq::empty()
    } else {
        let s = whole_hand_yakuman(f);
        if form_of(f) != HandForm::Standard {
            s
        } else {
            let t = with_readings(s, f, readings_of(f));
            match chuuren_of(f) {
                Some(k) => with_kind(t, f.menzen, k),
                None => t,
            }
        }
    }
}

/// Double yakuman where the profile grants it.
pub open spec fn kind_weight(profile: RiichiRuleProfile, kind: YakumanKind) -> int {
    if profile.double_special_yakuman && (kind == YakumanKind::SuuankouTanki || kind == YakumanKind::JunseiChuuren || kind
        == YakumanKind::Daisuushi || kind == YakumanKind::KokushiMusouJuusanmen) {
        2
    } else {
        1
    }
}

pub open spec fn weight_sum(profile: RiichiRuleProfile, s: Seq<YakumanKind>) -> int
    decreases s.len(),
{
    if s.len() == 0 { 0 } else { weight_sum(profile, s.drop_last()) + kind_weight(profile, s.last()) }
}

/// The result of a hand with yakuman.
pub open spec fn yakuman_outcome(f: WinFacts) -> YakuOutcome {
    YakuOutcome {
        yaku: yakuman_kinds(f).map_values(|k: YakumanKind| (Yaku::Yakuman(k), 0u8)),
        han: 0,
        yakuman: weight_sum(f.rule_profile, yakuman_kinds(f)),
    }
}

fn push_kind(v: &mut Vec<YakumanKind>, cond: bool, k: YakumanKind)
    requires
        !old(v)@.contains(k),
        old(v)@.no_duplicates(),
    ensures
        final(v)@ == old(v)@ + when_kind(cond, k),
        final(v)@.no_duplicates(),
        forall|j: YakumanKind| #[trigger] final(v)@.contains(j) ==> old(v)@.contains(j) || j == k,
{
    let ghost before = v@;
    if cond {
        v.push(k);
        assert(v@ =~= before + when_kind(cond, k));
        assert forall|j: YakumanKind| #[trigger] v@.contains(j) implies before.contains(j) || j == k by {
            let i = choose|i: int| 0 <= i < v@.len() && v@[i] == j;
            if i < before.len() {
                assert(before[i] == j);
            }
        }
        assert forall|a: int, b: int| 0 <= a < v@.len() && 0 <= b < v@.len() && a != b implies v@[a] != v@[b] by {
            if a < before.len() && b < before.len() {
                assert(before[a] != before[b]);
            } else if a < before.len() {
                assert(before.contains(before[a]));
            } else if b < before.len() {
                assert(before.contains(before[b]));
            }
        }
    } else {
        assert(v@ =~= before + when_kind(cond, k));
    }
}

fn push_unique(v: &mut Vec<YakumanKind>, cond: bool, k: YakumanKind)
    requires
        old(v)@.no_duplicates(),
    ensures
        final(v)@ == with_kind(old(v)@, cond, k),
        final(v)@.no_duplicates(),
{
    if !cond {
        return;
    }
    let ghost before = v@;
    let mut i: usize = 0;
    while i < v.len()
        invariant
            i <= v.len(),
            v@ == before,
            before.no_duplicates(),
            forall|j: int| 0 <= j < i ==> before[j] != k,
        decreases v.len() - i,
    {
        if v[i] == k {
            assert(before.contains(k));
            return;
        }
        i = i + 1;
    }
    v.push(k);
    assert forall|a: int, b: int| 0 <= a < v@.len() && 0 <= b < v@.len() && a != b implies v@[a] != v@[b] by {
        if a < before.len() && b < before.len() {
            assert(before[a] != before[b]);
        }
    }
}

/// Rank index of the extra tile of a nine-gates shape.
fn nine_gates_extra(c: &[u8; 34], base: usize) -> (r: Option<usize>)
    requires
        base <= 25,
    ensures
        match r {
            Some(e) => is_nine_gates_with(c@, base as int, e as int),
            None => !is_nine_gates(c@, base as int),
        },
{
    let mut extra: Option<usize> = None;
    let mut k: usize = 0;
    while k < 34
        invariant
            k <= 34,
            base <= 25,
            extra is Some ==> extra->0 < 9 && base + extra->0 < k,
            forall|j: int|
                0 <= j < k ==> #[trigger] c@[j] == if base <= j < base + 9 {
                    nine_gates_need(j - base) + if extra is Some && j - base == extra->0 { 1int } else { 0 }
                } else {
                    0
                },
        decreases 34 - k,
    {
        let n: u8 = c[k];
        if base <= k && k < base + 9 {
            let i: usize = k - base;
            let need: u8 = if i == 0 || i == 8 { 3 } else { 1 };
            if n == need + 1 {
                if extra.is_some() {
                    proof {
                        assert forall|e: int| !is_nine_gates_with(c@, base as int, e) by {
                            if is_nine_gates_with(c@, base as int, e) {
                                assert(c@[k as int] == n);
                                assert(c@[base + extra->0] > nine_gates_need(extra->0 as int));
                            }
                        }
                    }
                    return None;
                }
                extra = Some(i);
            } else if n != need {
                proof {
                    assert forall|e: int| !is_nine_gates_with(c@, base as int, e) by {
                        if is_nine_gates_with(c@, base as int, e) {
                            assert(c@[k as int] == n);
                        }
                    }
                }
                return None;
            }
        } else if n != 0 {
            proof {
                assert forall|e: int| !is_nine_gates_with(c@, base as int, e) by {
                    if is_nine_gates_with(c@, base as int, e) {
                        assert(c@[k as int] == n);
                    }
                }
            }
            return None;
        }
        k = k + 1;
    }
    if extra.is_none() {
        proof {
            assert forall|e: int| !is_nine_gates_with(c@, base as int, e) by {
                if is_nine_gates_with(c@, base as int, e) {
                    assert(c@[base + e] == nine_gates_need(e) + 1);
                }
            }
        }
    }
    extra
}

proof fn lemma_extra_unique(c: Seq<u8>, base: int, e: int, d: int)
    requires
        0 <= base <= 25,
        is_nine_gates_with(c, base, e),
        is_nine_gates_with(c, base, d),
    ensures
        e == d,
{
    assert(c[base + e] == nine_gates_need(e) + 1);
}

fn chuuren(ctx: &YakuContext) -> (r: Option<YakumanKind>)
    requires
        ctx.menzen,
        win_fits_nine_gates(ctx@),
    ensures
        r == chuuren_of(ctx@),
{
    if count_group_melds(&ctx.melds) > 0 {
        return None;
    }
    let win: usize = ctx.win_tile.kind();
    let mut base: usize = 0;
    while base < 27
        invariant
            base == 0 || base == 9 || base == 18 || base == 27,
            ctx.menzen,
            win == ctx.win_tile.kind(),
            win_fits_nine_gates(ctx@),
            group_meld_count(ctx@.melds) == 0,
            base > 0 ==> !is_nine_gates(ctx@.concealed, 0),
            base > 9 ==> !is_nine_gates(ctx@.concealed, 9),
            base > 18 ==> !is_nine_gates(ctx@.concealed, 18),
        decreases 27 - base,
    {
        match nine_gates_extra(&ctx.concealed, base) {
            Some(e) => {
                assert(is_nine_gates(ctx@.concealed, base as int));
                if win < base {
                    return None;
                }
                if win - base == e {
                    return Some(YakumanKind::JunseiChuuren);
                }
                proof {
                    if is_nine_gates_with(ctx@.concealed, base as int, win - base) {
                        lemma_extra_unique(ctx@.concealed, base as int, e as int, win - base);
                    }
                }
                return Some(YakumanKind::ChuurenPoutou);
            },
            None => {},
        }
        base = base + 9;
    }
    None
}

fn is_kokushi_thirteen_wait(ctx: &YakuContext) -> (r: bool)
    ensures
        r == is_thirteen_wait(ctx@),
{
    let win: usize = ctx.win_tile.kind();
    if !ctx.win_tile.is_yaochuu() {
        return false;
    }
    if ctx.concealed[win] == 0 {
        return false;
    }
    let mut k: usize = 0;
    while k < 34
        invariant
            k <= 34,
            win == ctx.win_tile.kind(),
            win < 34,
            ctx.concealed@[win as int] > 0,
            forall|j: int|
                0 <= j < k ==> #[trigger] ctx@.concealed[j] - (if j == win { 1int } else { 0 }) == if is_yaochuu_kind(j) {
                    1int
                } else {
                    0
                },
        decreases 34 - k,
    {
        let n: u8 = if k == win { ctx.concealed[k] - 1 } else { ctx.concealed[k] };
        let want: u8 = if k >= 27 || k % 9 == 0 || k % 9 == 8 { 1 } else { 0 };
        if n != want {
            assert(ctx@.concealed[k as int] - (if k == win { 1int } else { 0 }) != if is_yaochuu_kind(k as int) { 1int } else { 0 });
            return false;
        }
        k = k + 1;
    }
    true
}

fn push_reading(v: &mut Vec<YakumanKind>, ctx: &YakuContext, parse: &StandardParse)
    requires
        kinds_in_range(parse.melds@),
        old(v)@.no_duplicates(),
    ensures
        final(v)@ == with_reading(old(v)@, ctx@, parse@),
        final(v)@.no_duplicates(),
{
    let g = ctx.all_melds(parse);
    let winds: usize = count_triplets_between(&g, 27, 30);
    let wind_pair = 27 <= parse.pair && parse.pair <= 30;
    let four_concealed = count_concealed_triplets(&g) >= 4;
    let on_pair = parse.pair as usize == ctx.win_tile.kind();
    push_unique(v, count_triplets_between(&g, 31, 33) == 3, YakumanKind::Daisangen);
    push_unique(v, winds == 4, YakumanKind::Daisuushi);
    push_unique(v, winds == 3 && wind_pair, YakumanKind::Shousuushi);
    push_unique(v, four_concealed && on_pair, YakumanKind::SuuankouTanki);
    push_unique(v, four_concealed && !on_pair && ctx.is_tsumo, YakumanKind::Suuankou);
    push_unique(v, ctx.count_kans() == 4, YakumanKind::Suukantsu);
}

fn weight_of(profile: RiichiRuleProfile, kind: YakumanKind) -> (r: u8)
    ensures
        r == kind_weight(profile, kind),
{
    if !profile.double_special_yakuman() {
        return 1;
    }
    match kind {
        YakumanKind::SuuankouTanki
        | YakumanKind::JunseiChuuren
        | YakumanKind::Daisuushi
        | YakumanKind::KokushiMusouJuusanmen => 2,
        _ => 1,
    }
}

/// The yakuman kinds as numbers.
spec fn kind_number(k: YakumanKind) -> int {
    match k {
        YakumanKind::KokushiMusou => 0,
        YakumanKind::KokushiMusouJuusanmen => 1,
        YakumanKind::Suuankou => 2,
        YakumanKind::SuuankouTanki => 3,
        YakumanKind::Daisangen => 4,
        YakumanKind::Shousuushi => 5,
        YakumanKind::Daisuushi => 6,
        YakumanKind::Tsuuiisou => 7,
        YakumanKind::Chinroutou => 8,
        YakumanKind::Ryuuiisou => 9,
        YakumanKind::ChuurenPoutou => 10,
        YakumanKind::JunseiChuuren => 11,
        YakumanKind::Suukantsu => 12,
        YakumanKind::Tenhou => 13,
        YakumanKind::Chiihou => 14,
    }
}

proof fn lemma_few_kinds(s: Seq<YakumanKind>)
    requires
        s.no_duplicates(),
    ensures
        s.len() <= 15,
{
    let t = s.map_values(|k: YakumanKind| kind_number(k));
    assert(t.no_duplicates());
    t.unique_seq_to_set();
    vstd::set_lib::lemma_int_range(0, 15);
    assert(t.to_set().subset_of(vstd::set_lib::set_int_range(0, 15)));
    vstd::set_lib::lemma_len_subset(t.to_set(), vstd::set_lib::set_int_range(0, 15));
}

/// All yakuman of a complete hand.
fn collect_yakuman(ctx: &YakuContext, decomp: &Decomposition) -> (v: Vec<YakumanKind>)
    requires
        is_complete_hand(ctx@),
        win_fits_nine_gates(ctx@),
        form_matches(ctx@, *decomp),
    ensures
        v@ == yakuman_kinds(ctx@),
        v@.no_duplicates(),
{
    let all = all_tiles(ctx);
    let facts = tile_facts(&all);
    let some = all.len() > 0;
    let orphans = matches!(decomp, Decomposition::Kokushi);
    let thirteen = is_kokushi_thirteen_wait(ctx);
    let mut v: Vec<YakumanKind> = Vec::new();
    push_kind(&mut v, ctx.tenhou, YakumanKind::Tenhou);
    assert(v@ =~= when_kind(ctx.tenhou, YakumanKind::Tenhou));
    push_kind(&mut v, ctx.chiihou, YakumanKind::Chiihou);
    push_kind(&mut v, orphans && thirteen, YakumanKind::KokushiMusouJuusanmen);
    push_kind(&mut v, orphans && !thirteen, YakumanKind::KokushiMusou);
    push_kind(&mut v, some && facts.all_honor, YakumanKind::Tsuuiisou);
    push_kind(&mut v, some && facts.all_terminal, YakumanKind::Chinroutou);
    push_kind(&mut v, some && facts.all_green, YakumanKind::Ryuuiisou);
    assert(v@ == whole_hand_yakuman(ctx@));
    if let Decomposition::Standard(parses) = decomp {
        let ghost ps = reading_views(parses@);
        let ghost start = v@;
        let mut i: usize = 0;
        assert(ps.subrange(0, 0) =~= Seq::empty());
        while i < parses.len()
            invariant
                i <= parses.len(),
                ps == reading_views(parses@),
                ps == readings_of(ctx@),
                v@ == with_readings(start, ctx@, ps.subrange(0, i as int)),
                v@.no_duplicates(),
                all_kinds_in_range(ps),
            decreases parses.len() - i,
        {
            assert(ps.subrange(0, i + 1).drop_last() =~= ps.subrange(0, i as int));
            assert(kinds_in_range(ps[i as int].melds));
            push_reading(&mut v, ctx, &parses[i]);
            i = i + 1;
        }
        assert(ps.subrange(0, i as int) =~= ps);
        if ctx.menzen {
            match chuuren(ctx) {
                Some(k) => push_unique(&mut v, true, k),
                None => {},
            }
        }
    }
    v
}

pub open spec fn all_kinds_in_range(ps: Seq<Reading>) -> bool {
    forall|i: int| 0 <= i < ps.len() ==> kinds_in_range((#[trigger] ps[i]).melds)
}

/// A decomposition is that of the hand.
spec fn form_matches(f: WinFacts, d: Decomposition) -> bool {
    match d {
        Decomposition::Chiitoitsu => form_of(f) == HandForm::SevenPairs,
        Decomposition::Kokushi => form_of(f) == HandForm::Orphans,
        Decomposition::Standard(v) => form_of(f) == HandForm::Standard && reading_views(v@) == readings_of(f)
            && all_kinds_in_range(reading_views(v@)),
    }
}

/// The readings of a hand hold groups only.
pub proof fn lemma_readings_in_range(s: Seq<Reading>, c: Seq<u8>, need: nat)
    requires
        is_readings_list(s, c, need),
    ensures
        all_kinds_in_range(s),
        forall|i: int| 0 <= i < s.len() ==> (#[trigger] s[i]).melds.len() == need && s[i].pair < 34,
{
    assert forall|i: int| 0 <= i < s.len() implies kinds_in_range((#[trigger] s[i]).melds) by {
        assert(is_reading(c, need, s[i]));
        let m = s[i].melds;
        assert forall|j: int| 0 <= j < m.len() implies (#[trigger] m[j]).tile_kind() <= 253 by {
            assert(m[j].is_group());
        }
    }
    assert forall|i: int| 0 <= i < s.len() implies (#[trigger] s[i]).melds.len() == need && s[i].pair < 34 by {
        assert(is_reading(c, need, s[i]));
    }
}

/// Standard readings of the hand, for the score as well.
pub(crate) fn hand_parses(ctx: &YakuContext) -> (r: Vec<StandardParse>)
    ensures
        reading_views(r@) == readings_of(ctx@),
        all_kinds_in_range(reading_views(r@)),
        forall|i: int| 0 <= i < r@.len() ==> (#[trigger] r@[i]).melds.len() <= 4 && r@[i].pair < 34,
{
    let n: u8 = ctx.melds_set_count_pub();
    let r = standard_parses(&ctx.concealed, n);
    proof {
        let s = reading_views(r@);
        if n <= 4 {
            lemma_readings_in_range(s, ctx.concealed@, (4 - n) as nat);
        } else {
            assert(s.len() == 0);
        }
        assert forall|i: int| 0 <= i < r@.len() implies (#[trigger] r@[i]).melds.len() <= 4 && r@[i].pair < 34 by {
            assert(s[i] == r@[i]@);
        }
    }
    r
}

/// The decomposition of the hand.
pub(crate) fn hand_decomposition(ctx: &YakuContext) -> (d: Decomposition)
    ensures
        match d {
            Decomposition::Chiitoitsu => form_of(ctx@) == HandForm::SevenPairs,
            Decomposition::Kokushi => form_of(ctx@) == HandForm::Orphans,
            Decomposition::Standard(v) => form_of(ctx@) == HandForm::Standard && reading_views(v@) == readings_of(
                ctx@,
            ) && all_kinds_in_range(reading_views(v@)) && forall|i: int|
                0 <= i < v@.len() ==> (#[trigger] v@[i]).melds.len() <= 4 && v@[i].pair < 34,
        },
{
    let n: u8 = ctx.melds_set_count_pub();
    match decompose(&ctx.concealed, n) {
        Decomposition::Chiitoitsu => Decomposition::Chiitoitsu,
        Decomposition::Kokushi => Decomposition::Kokushi,
        Decomposition::Standard(_) => Decomposition::Standard(hand_parses(ctx)),
    }
}

/// The yakuman of the hand; none where it is incomplete or has none.
fn eval_yakuman(ctx: &YakuContext, decomp: &Decomposition) -> (r: Option<YakuResult>)
    requires
        is_complete_hand(ctx@) ==> win_fits_nine_gates(ctx@),
        form_matches(ctx@, *decomp),
    ensures
        match r {
            Some(y) => yakuman_kinds(ctx@).len() > 0 && y@ == yakuman_outcome(ctx@),
            None => yakuman_kinds(ctx@).len() == 0,
        },
{
    let complete = match decomp {
        Decomposition::Kokushi | Decomposition::Chiitoitsu => true,
        Decomposition::Standard(parses) => parses.len() > 0,
    };
    if !complete {
        return None;
    }
    let kinds = collect_yakuman(ctx, decomp);
    if kinds.len() == 0 {
        return None;
    }
    proof { lemma_few_kinds(kinds@); }
    let mut yaku: Vec<(Yaku, u8)> = Vec::new();
    let mut sum: u8 = 0;
    let ghost out = kinds@.map_values(|k: YakumanKind| (Yaku::Yakuman(k), 0u8));
    let mut i: usize = 0;
    while i < kinds.len()
        invariant
            i <= kinds.len() <= 15,
            out == kinds@.map_values(|k: YakumanKind| (Yaku::Yakuman(k), 0u8)),
            yaku@ == out.subrange(0, i as int),
            sum == weight_sum(ctx.rule_profile, kinds@.subrange(0, i as int)),
            sum <= 2 * i,
        decreases kinds.len() - i,
    {
        assert(kinds@.subrange(0, i + 1).drop_last() =~= kinds@.subrange(0, i as int));
        yaku.push((Yaku::Yakuman(kinds[i]), 0));
        assert(yaku@ =~= out.subrange(0, i + 1));
        sum = sum + weight_of(ctx.rule_profile, kinds[i]);
        i = i + 1;
    }
    assert(kinds@.subrange(0, i as int) =~= kinds@);
    assert(yaku@ =~= out);
    Some(YakuResult { yaku, han: 0, yakuman: sum })
}

/// The result with most han, the earlier one among equals, starting from a given one.
pub open spec fn best_standard(f: WinFacts, ps: Seq<Reading>, start: YakuOutcome) -> YakuOutcome
    decreases ps.len(),
{
    if ps.len() == 0 {
        start
    } else {
        let b = best_standard(f, ps.drop_last(), start);
        let r = standard_outcome(f, ps.last());
        if r.han > b.han { r } else { b }
    }
}

pub open spec fn no_yaku() -> YakuOutcome {
    YakuOutcome { yaku: Seq::empty(), han: 0, yakuman: 0 }
}

/// The yaku of a hand: its yakuman where it has any, else the reading with most han.
pub open spec fn evaluated(f: WinFacts) -> YakuOutcome {
    if yakuman_kinds(f).len() > 0 {
        yakuman_outcome(f)
    } else {
        match form_of(f) {
            HandForm::SevenPairs => best_standard(f, readings_of(f), seven_pairs_outcome(f)),
            HandForm::Orphans => no_yaku(),
            HandForm::Standard => best_standard(f, readings_of(f), no_yaku()),
        }
    }
}

/// The han of every reading fit in a byte.
pub open spec fn han_fit(f: WinFacts, ps: Seq<Reading>) -> bool {
    forall|i: int| 0 <= i < ps.len() ==> standard_outcome(f, #[trigger] ps[i]).han <= 255
}

/// A hand that holds its winning tile and has no more melds than its han leave room for.
pub open spec fn is_ordinary(f: WinFacts) -> bool {
    &&& f.concealed.len() == 34
    &&& f.melds.len() <= 40
    &&& f.win_tile.is_known()
    &&& f.concealed[f.win_tile.kind() as int] > 0
}

/// A hand can be evaluated: an ordinary one, or one whose winning tile is not above a
/// nine-gates suit and whose readings count no more han than a byte holds.
pub open spec fn can_evaluate(f: WinFacts) -> bool {
    is_ordinary(f) || {
        &&& is_complete_hand(f) ==> win_fits_nine_gates(f)
        &&& yakuman_kinds(f).len() == 0 ==> han_fit(f, readings_of(f))
    }
}

/// What evaluation needs of a hand.
pub proof fn lemma_can_evaluate(f: WinFacts)
    requires
        can_evaluate(f),
    ensures
        is_complete_hand(f) ==> win_fits_nine_gates(f),
        yakuman_kinds(f).len() == 0 ==> han_fit(f, readings_of(f)),
{
    if is_ordinary(f) {
        lemma_han_fit(f);
        let w = f.win_tile.kind() as int;
        if is_nine_gates(f.concealed, 0) {
            let e = choose|e: int| is_nine_gates_with(f.concealed, 0, e);
            assert(f.concealed[w] > 0);
        }
        if is_nine_gates(f.concealed, 9) {
            let e = choose|e: int| is_nine_gates_with(f.concealed, 9, e);
            assert(f.concealed[w] > 0);
        }
        if is_nine_gates(f.concealed, 18) {
            let e = choose|e: int| is_nine_gates_with(f.concealed, 18, e);
            assert(f.concealed[w] > 0);
        }
    }
}

fn best_of(ctx: &YakuContext, parses: &Vec<StandardParse>, start: YakuResult) -> (r: YakuResult)
    requires
        all_kinds_in_range(reading_views(parses@)),
        han_fit(ctx@, reading_views(parses@)),
    ensures
        r@ == best_standard(ctx@, reading_views(parses@), start@),
{
    let ghost ps = reading_views(parses@);
    let ghost s0 = start@;
    let mut best = start;
    let mut i: usize = 0;
    assert(ps.subrange(0, 0) =~= Seq::empty());
    while i < parses.len()
        invariant
            i <= parses.len(),
            ps == reading_views(parses@),
            all_kinds_in_range(ps),
            han_fit(ctx@, ps),
            best@ == best_standard(ctx@, ps.subrange(0, i as int), s0),
        decreases parses.len() - i,
    {
        assert(ps.subrange(0, i + 1).drop_last() =~= ps.subrange(0, i as int));
        assert(kinds_in_range(ps[i as int].melds));
        let r = eval_standard(ctx, &parses[i]);
        if r.han > best.han {
            best = r;
        }
        i = i + 1;
    }
    assert(ps.subrange(0, i as int) =~= ps);
    best
}

/// Evaluates the yaku of a win, over the reading with most han. Yakuman take precedence.
pub fn evaluate(ctx: &YakuContext) -> (r: YakuResult)
    requires
        can_evaluate(ctx@),
    ensures
        r@ == evaluated(ctx@),
{
    proof { lemma_can_evaluate(ctx@); }
    let decomp = hand_decomposition(ctx);
    match eval_yakuman(ctx, &decomp) {
        Some(y) => return y,
        None => {},
    }
    let nothing = YakuResult { yaku: Vec::new(), han: 0, yakuman: 0 };
    assert(nothing@.yaku =~= Seq::empty());
    match &decomp {
        Decomposition::Chiitoitsu => {
            let start = eval_chiitoitsu(ctx);
            let parses = hand_parses(ctx);
            best_of(ctx, &parses, start)
        },
        Decomposition::Kokushi => nothing,
        Decomposition::Standard(parses) => best_of(ctx, parses, nothing),
    }
}

/// A hand with few melds never counts more han than a byte holds.
pub proof fn lemma_han_fit(f: WinFacts)
    requires
        f.melds.len() <= 40,
        f.concealed.len() == 34,
    ensures
        han_fit(f, readings_of(f)),
{
    let ps = readings_of(f);
    if open_count(f) <= 4 {
        lemma_readings_exist(f.concealed, (4 - open_count(f)) as nat);
        lemma_readings_in_range(ps, f.concealed, (4 - open_count(f)) as nat);
    }
    assert forall|i: int| 0 <= i < ps.len() implies standard_outcome(f, #[trigger] ps[i]).han <= 255 by {
        lemma_standard_han(f, ps[i]);
    }
}

/// A hand has a yakuman multiplier exactly where it has yakuman.
pub proof fn lemma_yakuman_weight(f: WinFacts)
    ensures
        evaluated(f).yakuman > 0 <==> yakuman_kinds(f).len() > 0,
        evaluated(f).yakuman >= 0,
{
    lemma_weight_positive(f.rule_profile, yakuman_kinds(f));
    lemma_best_standard_regular(f, readings_of(f), seven_pairs_outcome(f));
    lemma_best_standard_regular(f, readings_of(f), no_yaku());
}

proof fn lemma_weight_positive(profile: RiichiRuleProfile, s: Seq<YakumanKind>)
    ensures
        weight_sum(profile, s) >= s.len(),
    decreases s.len(),
{
    if s.len() > 0 {
        lemma_weight_positive(profile, s.drop_last());
    }
}

proof fn lemma_best_standard_regular(f: WinFacts, ps: Seq<Reading>, start: YakuOutcome)
    requires
        start.yakuman == 0,
    ensures
        best_standard(f, ps, start).yakuman == 0,
    decreases ps.len(),
{
    if ps.len() > 0 {
        lemma_best_standard_regular(f, ps.drop_last(), start);
    }
}

} // verus!
