//! Settlement: from the state of a table to yaku, han, fu and points. Dora are counted here;
//! yaku evaluation never sees them.

use vstd::prelude::*;
use crate::event::scoring::HoraYakuFlags;
use crate::mahjong::hand::count_kind;
use crate::mahjong::meld::Meld;
use crate::mahjong::rules::{RedFiveCounts, RiichiRuleProfile};
use crate::mahjong::score::{can_score, evaluate_full, full_score, score_view, FullOutcome, FullScore};
use crate::mahjong::tile::Tile;
use crate::mahjong::yaku::{clone_melds, WinFacts, Yaku, YakuContext, YakumanKind};
use crate::maintainer::player::{countable, counts_of, PlayerState};
use crate::maintainer::tileset::clone_tiles;

verus! {

/// State of the table that settlement needs.
pub struct ScoringInput<'a> {
    pub rule_profile: RiichiRuleProfile,
    pub player: &'a PlayerState,
    pub win_tile: Tile,
    pub is_tsumo: bool,
    pub bakaze: Tile,
    pub jikaze: Tile,
    pub is_oya: bool,
    pub dora_indicators: &'a [Tile],
    /// Ura dora indicators revealed for riichi.
    pub ura_indicators: &'a [Tile],
    pub riichi: bool,
    pub double_riichi: bool,
    pub ippatsu: bool,
    pub haitei: bool,
    pub houtei: bool,
    pub rinshan: bool,
    pub chankan: bool,
    pub tenhou: bool,
    pub chiihou: bool,
    /// Number of nukidora.
    pub nuki_count: u8,
    /// Three-player game, in which 1m and 9m indicate each other.
    pub is_sanma: bool,
}

/// What a scoring input says.
pub struct ScoringFacts {
    pub rule_profile: RiichiRuleProfile,
    pub hand: Seq<Tile>,
    pub melds: Seq<Meld>,
    pub menzen: bool,
    pub win_tile: Tile,
    pub is_tsumo: bool,
    pub bakaze: Tile,
    pub jikaze: Tile,
    pub is_oya: bool,
    pub dora_indicators: Seq<Tile>,
    pub ura_indicators: Seq<Tile>,
    pub riichi: bool,
    pub double_riichi: bool,
    pub ippatsu: bool,
    pub haitei: bool,
    pub houtei: bool,
    pub rinshan: bool,
    pub chankan: bool,
    pub tenhou: bool,
    pub chiihou: bool,
    pub nuki_count: u8,
    pub is_sanma: bool,
}

impl<'a> View for ScoringInput<'a> {
    type V = ScoringFacts;

    open spec fn view(&self) -> ScoringFacts {
        ScoringFacts {
            rule_profile: self.rule_profile,
            hand: self.player.hand@,
            melds: self.player.melds@,
            menzen: self.player.menzen,
            win_tile: self.win_tile,
            is_tsumo: self.is_tsumo,
            bakaze: self.bakaze,
            jikaze: self.jikaze,
            is_oya: self.is_oya,
            dora_indicators: self.dora_indicators@,
            ura_indicators: self.ura_indicators@,
            riichi: self.riichi,
            double_riichi: self.double_riichi,
            ippatsu: self.ippatsu,
            haitei: self.haitei,
            houtei: self.houtei,
            rinshan: self.rinshan,
            chankan: self.chankan,
            tenhou: self.tenhou,
            chiihou: self.chiihou,
            nuki_count: self.nuki_count,
            is_sanma: self.is_sanma,
        }
    }
}

/// The win as yaku evaluation sees it.
pub open spec fn win_facts(s: ScoringFacts) -> WinFacts {
    WinFacts {
        rule_profile: s.rule_profile,
        concealed: counts_of(s.hand),
        melds: s.melds,
        win_tile: s.win_tile.deaka(),
        is_tsumo: s.is_tsumo,
        menzen: s.menzen,
        bakaze: s.bakaze,
        jikaze: s.jikaze,
        riichi: s.riichi,
        double_riichi: s.double_riichi,
        ippatsu: s.ippatsu,
        haitei: s.haitei,
        houtei: s.houtei,
        rinshan: s.rinshan,
        chankan: s.chankan,
        tenhou: s.tenhou,
        chiihou: s.chiihou,
        nuki_count: s.nuki_count,
        pei_is_yakuhai: false,
    }
}

/// The tiles of melds, without nukidora.
pub open spec fn meld_tiles(melds: Seq<Meld>) -> Seq<Tile>
    decreases melds.len(),
{
    if melds.len() == 0 {
        Seq::empty()
    } else if melds.last() is Nukidora {
        meld_tiles(melds.drop_last())
    } else {
        meld_tiles(melds.drop_last()) + melds.last().spec_tiles()
    }
}

/// The dora of an indicator.
pub open spec fn indicated(ind: Tile, sanma: bool) -> Tile {
    if sanma { ind.dora_from_indicator_3p() } else { ind.dora_from_indicator() }
}

/// Han of an indicator: one for each tile of the dora's kind, and one for each North set aside
/// where it is the dora.
pub open spec fn indicator_han(tiles: Seq<Tile>, ind: Tile, sanma: bool, nuki: u8) -> nat {
    count_kind(tiles, indicated(ind, sanma).kind() as int) + if sanma && indicated(ind, sanma).kind() == 30 { nuki as nat } else { 0 }
}

pub open spec fn indicators_han(tiles: Seq<Tile>, indicators: Seq<Tile>, sanma: bool, nuki: u8) -> nat
    decreases indicators.len(),
{
    if indicators.len() == 0 {
        0
    } else {
        indicators_han(tiles, indicators.drop_last(), sanma, nuki) + indicator_han(tiles, indicators.last(), sanma, nuki)
    }
}

/// Number of red fives in a list.
pub open spec fn count_aka(tiles: Seq<Tile>) -> nat
    decreases tiles.len(),
{
    if tiles.len() == 0 { 0 } else { count_aka(tiles.drop_last()) + if tiles.last().is_aka() { 1nat } else { 0 } }
}

/// Red fives of a meld. A kan holds all copies of its kind, so all red ones of the wall.
pub open spec fn meld_aka(m: Meld, reds: RedFiveCounts) -> nat {
    if m is Nukidora { 0 } else if m.is_kan() { m.kan_aka_count(reds) as nat } else { count_aka(m.spec_tiles()) }
}

pub open spec fn melds_aka(melds: Seq<Meld>, reds: RedFiveCounts) -> nat
    decreases melds.len(),
{
    if melds.len() == 0 { 0 } else { melds_aka(melds.drop_last(), reds) + meld_aka(melds.last(), reds) }
}

/// Dora han by category.
pub struct DoraHan {
    pub regular: nat,
    pub red: nat,
    pub ura: nat,
    pub nuki: nat,
}

impl DoraHan {
    pub open spec fn total(self) -> nat {
        self.regular + self.red + self.ura + self.nuki
    }
}

pub open spec fn nuki_han(s: ScoringFacts) -> nat {
    let n = s.nuki_count as nat * s.rule_profile.nuki_dora_han as nat;
    if n > 255 { 255 } else { n }
}

/// The dora han of a win.
pub open spec fn dora_of(s: ScoringFacts) -> DoraHan {
    let tiles = s.hand + meld_tiles(s.melds);
    DoraHan {
        regular: indicators_han(tiles, s.dora_indicators, s.is_sanma, s.nuki_count),
        red: count_aka(s.hand) + melds_aka(s.melds, s.rule_profile.red_fives(if s.is_sanma { 3 } else { 4 })),
        ura: indicators_han(tiles, s.ura_indicators, s.is_sanma, s.nuki_count),
        nuki: nuki_han(s),
    }
}

/// A win can be settled: its tiles can be counted, its dora fit in a byte, and it can be scored.
pub open spec fn can_settle(s: ScoringFacts) -> bool {
    &&& countable(s.hand)
    &&& dora_of(s).total() <= 255
    &&& can_score(win_facts(s), dora_of(s).total() as int)
}

/// The settlement of a win; none without a yaku.
pub open spec fn settlement(s: ScoringFacts) -> Option<FullOutcome> {
    let dora = dora_of(s);
    match full_score(win_facts(s), dora.total() as int, s.is_oya) {
        None => None,
        Some(f) => if f.score.yakuman == 0 {
            Some(
                FullOutcome {
                    regular_dora_han: dora.regular as int,
                    red_dora_han: dora.red as int,
                    ura_dora_han: dora.ura as int,
                    nuki_dora_han: dora.nuki as int,
                    ..f
                },
            )
        } else {
            Some(f)
        },
    }
}

fn count_of_kind(tiles: &Vec<Tile>, k: usize) -> (n: usize)
    ensures
        n == count_kind(tiles@, k as int),
{
    let mut n: usize = 0;
    let mut i: usize = 0;
    while i < tiles.len()
        invariant
            i <= tiles.len(),
            n <= i,
            n == count_kind(tiles@.subrange(0, i as int), k as int),
        decreases tiles.len() - i,
    {
        assert(tiles@.subrange(0, i + 1).drop_last() =~= tiles@.subrange(0, i as int));
        if tiles[i].kind() == k {
            n = n + 1;
        }
        i = i + 1;
    }
    assert(tiles@.subrange(0, i as int) =~= tiles@);
    n
}

fn count_red_fives(tiles: &Vec<Tile>) -> (n: usize)
    ensures
        n == count_aka(tiles@),
{
    let mut n: usize = 0;
    let mut i: usize = 0;
    while i < tiles.len()
        invariant
            i <= tiles.len(),
            n <= i,
            n == count_aka(tiles@.subrange(0, i as int)),
        decreases tiles.len() - i,
    {
        assert(tiles@.subrange(0, i + 1).drop_last() =~= tiles@.subrange(0, i as int));
        if tiles[i].is_aka() {
            n = n + 1;
        }
        i = i + 1;
    }
    assert(tiles@.subrange(0, i as int) =~= tiles@);
    n
}

proof fn lemma_indicators_prefix(tiles: Seq<Tile>, indicators: Seq<Tile>, sanma: bool, nuki: u8, n: int)
    requires
        0 <= n <= indicators.len(),
    ensures
        indicators_han(tiles, indicators.subrange(0, n), sanma, nuki) <= indicators_han(tiles, indicators, sanma, nuki),
    decreases indicators.len(),
{
    if n == indicators.len() {
        assert(indicators.subrange(0, n) =~= indicators);
    } else {
        lemma_indicators_prefix(tiles, indicators.drop_last(), sanma, nuki, n);
        assert(indicators.drop_last().subrange(0, n) =~= indicators.subrange(0, n));
    }
}

proof fn lemma_melds_aka_prefix(melds: Seq<Meld>, reds: RedFiveCounts, n: int)
    requires
        0 <= n <= melds.len(),
    ensures
        melds_aka(melds.subrange(0, n), reds) <= melds_aka(melds, reds),
    decreases melds.len(),
{
    if n == melds.len() {
        assert(melds.subrange(0, n) =~= melds);
    } else {
        lemma_melds_aka_prefix(melds.drop_last(), reds, n);
        assert(melds.drop_last().subrange(0, n) =~= melds.subrange(0, n));
    }
}

fn count_indicators(tiles: &Vec<Tile>, indicators: &[Tile], sanma: bool, nuki: u8) -> (n: usize)
    requires
        indicators_han(tiles@, indicators@, sanma, nuki) <= 255,
    ensures
        n == indicators_han(tiles@, indicators@, sanma, nuki),
{
    let mut n: usize = 0;
    let mut i: usize = 0;
    while i < indicators.len()
        invariant
            i <= indicators.len(),
            indicators_han(tiles@, indicators@, sanma, nuki) <= 255,
            n == indicators_han(tiles@, indicators@.subrange(0, i as int), sanma, nuki),
        decreases indicators.len() - i,
    {
        assert(indicators@.subrange(0, i + 1).drop_last() =~= indicators@.subrange(0, i as int));
        proof { lemma_indicators_prefix(tiles@, indicators@, sanma, nuki, i + 1); }
        let target = if sanma { indicators[i].dora_from_indicator_3p() } else { indicators[i].dora_from_indicator() };
        let k: usize = target.kind();
        n = n + count_of_kind(tiles, k);
        if sanma && k == 30 {
            n = n + nuki as usize;
        }
        i = i + 1;
    }
    assert(indicators@.subrange(0, i as int) =~= indicators@);
    n
}

fn count_melds_aka(melds: &Vec<Meld>, reds: RedFiveCounts) -> (n: usize)
    requires
        melds_aka(melds@, reds) <= 255,
    ensures
        n == melds_aka(melds@, reds),
{
    let mut n: usize = 0;
    let mut i: usize = 0;
    while i < melds.len()
        invariant
            i <= melds.len(),
            melds_aka(melds@, reds) <= 255,
            n == melds_aka(melds@.subrange(0, i as int), reds),
        decreases melds.len() - i,
    {
        assert(melds@.subrange(0, i + 1).drop_last() =~= melds@.subrange(0, i as int));
        proof { lemma_melds_aka_prefix(melds@, reds, i + 1); }
        let m = &melds[i];
        if matches!(m, Meld::Nukidora { .. }) {
        } else if m.is_kan() {
            n = n + m.kan_aka_count(reds) as usize;
        } else {
            n = n + count_red_fives(&m.tiles());
        }
        i = i + 1;
    }
    assert(melds@.subrange(0, i as int) =~= melds@);
    n
}

/// The hand and the tiles of its melds.
fn all_tiles(player: &PlayerState) -> (r: Vec<Tile>)
    ensures
        r@ == player.hand@ + meld_tiles(player.melds@),
{
    let mut all = clone_tiles(&player.hand);
    let ghost hand = player.hand@;
    let mut i: usize = 0;
    assert(all@ =~= hand + meld_tiles(player.melds@.subrange(0, 0)));
    while i < player.melds.len()
        invariant
            i <= player.melds.len(),
            hand == player.hand@,
            all@ == hand + meld_tiles(player.melds@.subrange(0, i as int)),
        decreases player.melds.len() - i,
    {
        let ghost s = player.melds@.subrange(0, i + 1);
        assert(s.drop_last() =~= player.melds@.subrange(0, i as int));
        let m = &player.melds[i];
        if !matches!(m, Meld::Nukidora { .. }) {
            let mut t = m.tiles();
            all.append(&mut t);
        }
        assert(all@ =~= hand + meld_tiles(s));
        i = i + 1;
    }
    assert(player.melds@.subrange(0, i as int) =~= player.melds@);
    all
}

/// Dora han by category.
#[derive(Debug, Clone, Copy, PartialEq, Eq, Structural)]
struct DoraBreakdown {
    regular: u8,
    red: u8,
    ura: u8,
    nuki: u8,
}

fn count_dora(input: &ScoringInput) -> (r: DoraBreakdown)
    requires
        dora_of(input@).total() <= 255,
    ensures
        r.regular == dora_of(input@).regular,
        r.red == dora_of(input@).red,
        r.ura == dora_of(input@).ura,
        r.nuki == dora_of(input@).nuki,
{
    let tiles = all_tiles(input.player);
    let regular: usize = count_indicators(&tiles, input.dora_indicators, input.is_sanma, input.nuki_count);
    let ura: usize = count_indicators(&tiles, input.ura_indicators, input.is_sanma, input.nuki_count);
    let seats: usize = if input.is_sanma { 3 } else { 4 };
    let reds = input.rule_profile.red_fives(seats);
    let red: usize = count_red_fives(&input.player.hand) + count_melds_aka(&input.player.melds, reds);
    let product: u16 = multiply(input.nuki_count, input.rule_profile.nuki_dora_han());
    let nuki: u8 = if product > 255 { 255 } else { product as u8 };
    DoraBreakdown { regular: regular as u8, red: red as u8, ura: ura as u8, nuki }
}

fn multiply(a: u8, b: u8) -> (r: u16)
    ensures
        r == a * b,
{
    assert(a * b <= 255 * 255) by (nonlinear_arith)
        requires
            a <= 255,
            b <= 255,
            0 <= a,
            0 <= b,
    ;
    a as u16 * b as u16
}

/// The context of a win.
fn win_context(input: &ScoringInput) -> (ctx: YakuContext)
    requires
        countable(input@.hand),
    ensures
        ctx@ == win_facts(input@),
{
    let counts = input.player.hand_counts();
    YakuContext {
        rule_profile: input.rule_profile,
        concealed: counts.0,
        melds: clone_melds(&input.player.melds),
        win_tile: input.win_tile.deaka(),
        is_tsumo: input.is_tsumo,
        menzen: input.player.menzen,
        bakaze: input.bakaze,
        jikaze: input.jikaze,
        riichi: input.riichi,
        double_riichi: input.double_riichi,
        ippatsu: input.ippatsu,
        haitei: input.haitei,
        houtei: input.houtei,
        rinshan: input.rinshan,
        chankan: input.chankan,
        tenhou: input.tenhou,
        chiihou: input.chiihou,
        nuki_count: input.nuki_count,
        pei_is_yakuhai: false,
    }
}

/// A score with the dora of a regular win put under their categories.
fn with_dora(s: FullScore, dora: DoraBreakdown) -> (r: FullScore)
    ensures
        r@ == if s.score.yakuman == 0 {
            (FullOutcome {
                regular_dora_han: dora.regular as int,
                red_dora_han: dora.red as int,
                ura_dora_han: dora.ura as int,
                nuki_dora_han: dora.nuki as int,
                ..s@
            })
        } else {
            s@
        },
{
    let mut score = s;
    if score.score.yakuman == 0 {
        score.regular_dora_han = dora.regular;
        score.red_dora_han = dora.red;
        score.ura_dora_han = dora.ura;
        score.nuki_dora_han = dora.nuki;
    }
    score
}

/// Settles a win; the winning tile is in the player's hand. `None` when there is no yaku.
pub fn settle(input: &ScoringInput) -> (r: Option<FullScore>)
    requires
        can_settle(input@),
    ensures
        score_view(r) == settlement(input@),
{
    let ctx = win_context(input);
    let dora = count_dora(input);
    let total: u8 = dora.regular + dora.red + dora.ura + dora.nuki;
    match evaluate_full(&ctx, total, input.is_oya) {
        None => None,
        Some(s) => Some(with_dora(s, dora)),
    }
}

/// Whether a yaku is among those of a score.
pub open spec fn lists_yaku(yaku: Seq<(Yaku, u8)>, y: Yaku) -> bool {
    exists|i: int| 0 <= i < yaku.len() && (#[trigger] yaku[i]).0 == y
}

/// The flags of a list of yaku.
pub open spec fn flags_of(yaku: Seq<(Yaku, u8)>) -> HoraYakuFlags {
    HoraYakuFlags {
        riichi: lists_yaku(yaku, Yaku::Riichi),
        double_riichi: lists_yaku(yaku, Yaku::DoubleRiichi),
        ippatsu: lists_yaku(yaku, Yaku::Ippatsu),
        menzen_tsumo: lists_yaku(yaku, Yaku::MenzenTsumo),
        haitei: lists_yaku(yaku, Yaku::Haitei),
        houtei: lists_yaku(yaku, Yaku::Houtei),
        rinshan: lists_yaku(yaku, Yaku::Rinshan),
        chankan: lists_yaku(yaku, Yaku::Chankan),
        tenhou: lists_yaku(yaku, Yaku::Yakuman(YakumanKind::Tenhou)),
        chiihou: lists_yaku(yaku, Yaku::Yakuman(YakumanKind::Chiihou)),
    }
}

fn has_yaku(yaku: &Vec<(Yaku, u8)>, y: Yaku) -> (r: bool)
    ensures
        r == lists_yaku(yaku@, y),
{
    let mut i: usize = 0;
    while i < yaku.len()
        invariant
            i <= yaku.len(),
            forall|j: int| 0 <= j < i ==> (#[trigger] yaku@[j]).0 != y,
        decreases yaku.len() - i,
    {
        if yaku[i].0 == y {
            return true;
        }
        i = i + 1;
    }
    false
}

/// The situational yaku of a score as flags.
pub fn yaku_flags_from_score(score: &FullScore) -> (r: HoraYakuFlags)
    ensures
        r == flags_of(score.yaku.yaku@),
{
    let y = &score.yaku.yaku;
    HoraYakuFlags {
        riichi: has_yaku(y, Yaku::Riichi),
        double_riichi: has_yaku(y, Yaku::DoubleRiichi),
        ippatsu: has_yaku(y, Yaku::Ippatsu),
        menzen_tsumo: has_yaku(y, Yaku::MenzenTsumo),
        haitei: has_yaku(y, Yaku::Haitei),
        houtei: has_yaku(y, Yaku::Houtei),
        rinshan: has_yaku(y, Yaku::Rinshan),
        chankan: has_yaku(y, Yaku::Chankan),
        tenhou: has_yaku(y, Yaku::Yakuman(YakumanKind::Tenhou)),
        chiihou: has_yaku(y, Yaku::Yakuman(YakumanKind::Chiihou)),
    }
}

} // verus!
