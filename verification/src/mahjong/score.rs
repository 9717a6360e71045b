//! Fu and points.
//!
//! Han and fu to points, with limit hands and yakuman multipliers, for dealer and
//! non-dealer, tsumo and ron. How a tsumo is split among three players is up to the caller;
//! this module computes the payment unit.

use vstd::prelude::*;
use crate::mahjong::decompose::{
    lemma_readings_exist, reading_views, wait_shapes, waits_of, Decomposition, MeldShape, Reading, StandardParse, WaitShape,
};
use crate::mahjong::meld::Meld;
use crate::mahjong::rules::{KazoeLimit, RiichiRuleProfile};
use crate::mahjong::shanten::is_yaochuu_kind;
use crate::mahjong::yaku::{
    all_kinds_in_range, can_evaluate, eval_chiitoitsu, eval_standard_pub, evaluate, evaluated, form_of, groups_of,
    group_meld_count, hand_decomposition, hand_parses, has_pinfu, is_pinfu, lemma_called_groups_len,
    lemma_can_evaluate, lemma_readings_in_range, lemma_seven_pairs_han, lemma_standard_han, lemma_yakuman_weight,
    is_ordinary, open_count, kinds_in_range, readings_of, seven_pairs_outcome, standard_outcome, Group, HandForm,
    WinFacts, YakuContext, YakuOutcome, YakuResult,
};

verus! {

/// Limit tier of a win, with kiriage and the counted-yakuman cap applied.
#[derive(Debug, Clone, Copy, PartialEq, Eq, Structural)]
pub enum ScoreLimit {
    Normal,
    Mangan,
    Haneman,
    Baiman,
    Sanbaiman,
    Yakuman(u8),
}

impl ScoreLimit {
    pub open spec fn spec_as_str(self) -> Seq<char> {
        match self {
            ScoreLimit::Normal => "normal"@,
            ScoreLimit::Mangan => "mangan"@,
            ScoreLimit::Haneman => "haneman"@,
            ScoreLimit::Baiman => "baiman"@,
            ScoreLimit::Sanbaiman => "sanbaiman"@,
            ScoreLimit::Yakuman(_) => "yakuman"@,
        }
    }

    pub fn as_str(self) -> (r: &'static str)
        ensures
            r@ == self.spec_as_str(),
    {
        match self {
            ScoreLimit::Normal => "normal",
            ScoreLimit::Mangan => "mangan",
            ScoreLimit::Haneman => "haneman",
            ScoreLimit::Baiman => "baiman",
            ScoreLimit::Sanbaiman => "sanbaiman",
            ScoreLimit::Yakuman(_) => "yakuman",
        }
    }

    pub open spec fn spec_yakuman_multiplier(self) -> u8 {
        match self {
            ScoreLimit::Yakuman(m) => m,
            _ => 0,
        }
    }

    #[verifier::when_used_as_spec(spec_yakuman_multiplier)]
    pub fn yakuman_multiplier(self) -> (r: u8)
        ensures
            r == self.yakuman_multiplier(),
    {
        match self {
            ScoreLimit::Yakuman(m) => m,
            _ => 0,
        }
    }
}

/// Scoring result of a single win.
#[derive(Debug, Clone, Copy, PartialEq, Eq, Structural)]
pub struct ScoreResult {
    pub han: u8,
    pub fu: u8,
    pub limit: ScoreLimit,
    /// Explicit yakuman multiplier; counted yakuman stay 0.
    pub yakuman: u8,
    /// Ron: amount paid by the discarder.
    pub ron: i32,
    /// Tsumo: amount paid by each non-dealer.
    pub tsumo_ko: i32,
    /// Tsumo: amount paid by the dealer, 0 on a dealer tsumo.
    pub tsumo_oya: i32,
}

impl ScoreResult {
    /// What a tsumo winner receives at a table of `seats`.
    pub open spec fn tsumo_sum(&self, seats: int) -> int {
        if self.tsumo_oya == 0 {
            self.tsumo_ko * (seats - 1)
        } else {
            self.tsumo_oya + self.tsumo_ko * (seats - 2)
        }
    }

    /// Total a tsumo winner receives (among three players only two pay). Under pao the liable
    /// player pays it alone. Zero for ron results.
    pub fn tsumo_total(&self, seats: usize) -> (r: i32)
        requires
            seats <= i32::MAX,
            i32::MIN <= self.tsumo_sum(seats as int) <= i32::MAX,
            self.tsumo_oya != 0 ==> i32::MIN <= self.tsumo_ko * (seats - 2) <= i32::MAX,
        ensures
            r == self.tsumo_sum(seats as int),
    {
        let payers: i32 = seats as i32 - 1;
        if self.tsumo_oya == 0 {
            self.tsumo_ko * payers
        } else {
            self.tsumo_oya + self.tsumo_ko * (payers - 1)
        }
    }
}

/// Base points of han and fu.
pub open spec fn base_points(han: int, fu: int, profile: RiichiRuleProfile) -> int {
    if han <= 0 {
        0
    } else if han <= 4 {
        let bp = if han == 1 { fu * 8 } else if han == 2 { fu * 16 } else if han == 3 { fu * 32 } else { fu * 64 };
        if profile.kiriage_mangan && ((han == 4 && fu == 30) || (han == 3 && fu == 60)) {
            2000
        } else if bp < 2000 {
            bp
        } else {
            2000
        }
    } else if han == 5 {
        2000
    } else if han <= 7 {
        3000
    } else if han <= 10 {
        4000
    } else if han <= 12 {
        6000
    } else {
        match profile.kazoe_limit {
            KazoeLimit::Yakuman => 8000,
            KazoeLimit::Sanbaiman => 6000,
        }
    }
}

/// The next multiple of 100.
pub open spec fn up_to_hundred(x: int) -> int {
    (x + 99) / 100 * 100
}

/// Limit tier of base points.
pub open spec fn limit_of(bp: int, yakuman: int) -> ScoreLimit {
    if yakuman > 0 {
        ScoreLimit::Yakuman(yakuman as u8)
    } else if bp == 2000 {
        ScoreLimit::Mangan
    } else if bp == 3000 {
        ScoreLimit::Haneman
    } else if bp == 4000 {
        ScoreLimit::Baiman
    } else if bp == 6000 {
        ScoreLimit::Sanbaiman
    } else if bp == 8000 {
        ScoreLimit::Yakuman(1)
    } else {
        ScoreLimit::Normal
    }
}

/// Payments of base points: six times from the discarder to a dealer, four times to another;
/// on tsumo twice from each to a dealer, twice from the dealer and once from each other.
pub open spec fn payments(bp: int, han: int, fu: int, yakuman: int, oya: bool, tsumo: bool) -> ScoreResult {
    ScoreResult {
        han: han as u8,
        fu: fu as u8,
        limit: limit_of(bp, yakuman),
        yakuman: yakuman as u8,
        ron: if tsumo { 0 } else { up_to_hundred(if oya { bp * 6 } else { bp * 4 }) as i32 },
        tsumo_ko: if tsumo { up_to_hundred(if oya { bp * 2 } else { bp }) as i32 } else { 0 },
        tsumo_oya: if tsumo && !oya { up_to_hundred(bp * 2) as i32 } else { 0 },
    }
}

/// Points of a number of han and fu.
pub open spec fn points(han: int, fu: int, oya: bool, tsumo: bool, profile: RiichiRuleProfile) -> ScoreResult {
    payments(base_points(han, fu, profile), han, fu, 0, oya, tsumo)
}

/// Points of a yakuman.
pub open spec fn yakuman_points(mult: int, oya: bool, tsumo: bool) -> ScoreResult {
    payments(8000 * mult, 0, 0, mult, oya, tsumo)
}

fn base_points_with_profile(han: u8, fu: u8, profile: RiichiRuleProfile) -> (r: i32)
    ensures
        r == base_points(han as int, fu as int, profile),
        0 <= r <= 8000,
{
    match han {
        0 => 0,
        1..=4 => {
            let unit: i32 = if han == 1 { 8 } else if han == 2 { 16 } else if han == 3 { 32 } else { 64 };
            let bp: i32 = fu as i32 * unit;
            if profile.kiriage_mangan() && ((han == 4 && fu == 30) || (han == 3 && fu == 60)) {
                2000
            } else if bp < 2000 {
                bp
            } else {
                2000
            }
        },
        5 => 2000,
        6..=7 => 3000,
        8..=10 => 4000,
        11..=12 => 6000,
        _ => match profile.kazoe_limit() {
            KazoeLimit::Yakuman => 8000,
            KazoeLimit::Sanbaiman => 6000,
        },
    }
}

fn ceil100(x: i32) -> (r: i32)
    requires
        0 <= x <= 20000000,
    ensures
        r == up_to_hundred(x as int),
{
    ((x + 99) / 100) * 100
}

fn score_from_base(bp: i32, han: u8, fu: u8, yakuman: u8, is_oya: bool, is_tsumo: bool) -> (r: ScoreResult)
    requires
        0 <= bp <= 3000000,
    ensures
        r == payments(bp as int, han as int, fu as int, yakuman as int, is_oya, is_tsumo),
{
    let limit = if yakuman > 0 {
        ScoreLimit::Yakuman(yakuman)
    } else {
        match bp {
            2000 => ScoreLimit::Mangan,
            3000 => ScoreLimit::Haneman,
            4000 => ScoreLimit::Baiman,
            6000 => ScoreLimit::Sanbaiman,
            8000 => ScoreLimit::Yakuman(1),
            _ => ScoreLimit::Normal,
        }
    };
    let mut r = ScoreResult { han, fu, limit, yakuman, ron: 0, tsumo_ko: 0, tsumo_oya: 0 };
    if is_oya {
        if is_tsumo {
            r.tsumo_ko = ceil100(bp * 2);
        } else {
            r.ron = ceil100(bp * 6);
        }
    } else {
        if is_tsumo {
            r.tsumo_oya = ceil100(bp * 2);
            r.tsumo_ko = ceil100(bp);
        } else {
            r.ron = ceil100(bp * 4);
        }
    }
    r
}

fn score_with_han(han: u8, fu: u8, is_oya: bool, is_tsumo: bool, profile: RiichiRuleProfile) -> (r: ScoreResult)
    ensures
        r == points(han as int, fu as int, is_oya, is_tsumo, profile),
{
    let bp: i32 = base_points_with_profile(han, fu, profile);
    score_from_base(bp, han, fu, 0, is_oya, is_tsumo)
}

/// Points of a yaku result.
pub open spec fn result_points(y: YakuOutcome, fu: int, oya: bool, tsumo: bool, profile: RiichiRuleProfile) -> ScoreResult {
    if y.yakuman > 0 { yakuman_points(y.yakuman, oya, tsumo) } else { points(y.han, fu, oya, tsumo, profile) }
}

/// Points for a win under Tenhou's limits. Honba and riichi sticks are added by the caller.
pub fn score(result: &YakuResult, fu: u8, is_oya: bool, is_tsumo: bool) -> (r: ScoreResult)
    ensures
        r == result_points(result@, fu as int, is_oya, is_tsumo, RiichiRuleProfile::tenhou()),
{
    score_with_profile(result, fu, is_oya, is_tsumo, RiichiRuleProfile::tenhou())
}

/// Points for a win under an explicit profile.
pub fn score_with_profile(
    result: &YakuResult,
    fu: u8,
    is_oya: bool,
    is_tsumo: bool,
    profile: RiichiRuleProfile,
) -> (r: ScoreResult)
    ensures
        r == result_points(result@, fu as int, is_oya, is_tsumo, profile),
{
    if result.yakuman > 0 {
        let bp: i32 = 8000 * result.yakuman as i32;
        return score_from_base(bp, 0, 0, result.yakuman, is_oya, is_tsumo);
    }
    score_with_han(result.han, fu, is_oya, is_tsumo, profile)
}

// Fu.

/// Whether a kan is of a kind.
pub open spec fn is_kan_kind(melds: Seq<Meld>, k: int) -> bool {
    exists|i: int| 0 <= i < melds.len() && (#[trigger] melds[i]).is_kan() && melds[i].kind_tile().kind() == k
}

/// Fu of a group that is no kan: concealed triplets 4 or, of terminals and honors, 8; open ones half.
pub open spec fn group_fu(melds: Seq<Meld>, g: Group) -> int {
    match g.0 {
        MeldShape::Shuntsu(_) => 0,
        MeldShape::Kotsu(k) => if is_kan_kind(melds, k as int) {
            0
        } else {
            let base = if is_yaochuu_kind(k as int) { 8int } else { 4 };
            if g.1 { base } else { base / 2 }
        },
    }
}

pub open spec fn groups_fu(melds: Seq<Meld>, g: Seq<Group>) -> int
    decreases g.len(),
{
    if g.len() == 0 { 0 } else { groups_fu(melds, g.drop_last()) + group_fu(melds, g.last()) }
}

/// Fu of a kan: open 8 or 16, closed 16 or 32.
pub open spec fn kan_fu(m: Meld) -> int {
    match m {
        Meld::Ankan { tile } => if tile.is_yaochuu() { 32 } else { 16 },
        Meld::Daiminkan { tile, .. } => if tile.is_yaochuu() { 16 } else { 8 },
        Meld::Kakan { tile, .. } => if tile.is_yaochuu() { 16 } else { 8 },
        _ => 0,
    }
}

pub open spec fn kans_fu(melds: Seq<Meld>) -> int
    decreases melds.len(),
{
    if melds.len() == 0 { 0 } else { kans_fu(melds.drop_last()) + kan_fu(melds.last()) }
}

/// 2 each for a pair of dragons, of the round wind and of the seat wind.
pub open spec fn pair_fu(f: WinFacts, pair: u8) -> int {
    (if 31 <= pair <= 33 { 2int } else { 0 }) + (if pair == f.bakaze.kind() { 2int } else { 0 })
        + (if pair == f.jikaze.kind() { 2int } else { 0 })
}

/// A wait that can be read as closed, edge or pair.
pub open spec fn has_narrow_wait(s: Seq<WaitShape>) -> bool {
    s.contains(WaitShape::Kanchan) || s.contains(WaitShape::Penchan) || s.contains(WaitShape::Tanki)
}

/// Fu before rounding.
pub open spec fn raw_fu(f: WinFacts, p: Reading) -> int {
    20 + (if f.menzen && !f.is_tsumo { 10int } else { 0 }) + (if f.is_tsumo { 2int } else { 0 }) + groups_fu(
        f.melds,
        groups_of(f, p),
    ) + kans_fu(f.melds) + pair_fu(f, p.pair) + (if has_narrow_wait(
        waits_of(p.pair, p.melds, f.win_tile.kind() as int),
    ) { 2int } else { 0 })
}

/// Rounded up to the next ten; a bare 20 counts as 30.
pub open spec fn rounded_fu(fu: int) -> int {
    let r = (fu + 9) / 10 * 10;
    if r == 20 { 30 } else { r }
}

/// Fu of a reading.
pub open spec fn fu_of(f: WinFacts, p: Reading, pinfu: bool, chiitoitsu: bool) -> int {
    if chiitoitsu {
        25
    } else if pinfu {
        if f.is_tsumo { 20 } else { 30 }
    } else {
        rounded_fu(raw_fu(f, p))
    }
}

fn has_kan_kind(melds: &Vec<Meld>, k: u8) -> (r: bool)
    ensures
        r == is_kan_kind(melds@, k as int),
{
    let mut i: usize = 0;
    while i < melds.len()
        invariant
            i <= melds.len(),
            forall|j: int| 0 <= j < i ==> !((#[trigger] melds@[j]).is_kan() && melds@[j].kind_tile().kind() == k),
        decreases melds.len() - i,
    {
        if melds[i].is_kan() && melds[i].kind_tile().kind() == k as usize {
            return true;
        }
        i = i + 1;
    }
    false
}

pub proof fn lemma_groups_fu_prefix(melds: Seq<Meld>, g: Seq<Group>, n: int)
    requires
        0 <= n <= g.len(),
    ensures
        0 <= groups_fu(melds, g.subrange(0, n)) <= groups_fu(melds, g),
        groups_fu(melds, g) <= 8 * g.len(),
    decreases g.len(),
{
    if g.len() > 0 {
        if n == g.len() {
            assert(g.subrange(0, n) =~= g);
            lemma_groups_fu_prefix(melds, g.drop_last(), n - 1);
            assert(g.drop_last().subrange(0, n - 1) =~= g.drop_last());
        } else {
            lemma_groups_fu_prefix(melds, g.drop_last(), n);
            assert(g.drop_last().subrange(0, n) =~= g.subrange(0, n));
        }
    }
}

proof fn lemma_kans_fu_prefix(melds: Seq<Meld>, n: int)
    requires
        0 <= n <= melds.len(),
    ensures
        0 <= kans_fu(melds.subrange(0, n)) <= kans_fu(melds),
    decreases melds.len(),
{
    if melds.len() > 0 {
        if n == melds.len() {
            assert(melds.subrange(0, n) =~= melds);
            lemma_kans_fu_prefix(melds.drop_last(), n - 1);
            assert(melds.drop_last().subrange(0, n - 1) =~= melds.drop_last());
        } else {
            lemma_kans_fu_prefix(melds.drop_last(), n);
            assert(melds.drop_last().subrange(0, n) =~= melds.subrange(0, n));
        }
    }
}

proof fn lemma_kans_fu_bound(melds: Seq<Meld>)
    ensures
        0 <= kans_fu(melds) <= 32 * group_meld_count(melds),
    decreases melds.len(),
{
    if melds.len() > 0 {
        lemma_kans_fu_bound(melds.drop_last());
    }
}

fn sum_groups_fu(melds: &Vec<Meld>, g: &Vec<Group>) -> (r: u8)
    requires
        groups_fu(melds@, g@) <= 255,
    ensures
        r == groups_fu(melds@, g@),
{
    let mut fu: u8 = 0;
    let mut i: usize = 0;
    while i < g.len()
        invariant
            i <= g.len(),
            groups_fu(melds@, g@) <= 255,
            fu == groups_fu(melds@, g@.subrange(0, i as int)),
        decreases g.len() - i,
    {
        assert(g@.subrange(0, i + 1).drop_last() =~= g@.subrange(0, i as int));
        proof { lemma_groups_fu_prefix(melds@, g@, i + 1); }
        if let MeldShape::Kotsu(k) = g[i].0 {
            if !has_kan_kind(melds, k) {
                let base: u8 = if k < 34 && (k >= 27 || k % 9 == 0 || k % 9 == 8) { 8 } else { 4 };
                fu = fu + if g[i].1 { base } else { base / 2 };
            }
        }
        i = i + 1;
    }
    assert(g@.subrange(0, i as int) =~= g@);
    fu
}

fn sum_kans_fu(melds: &Vec<Meld>) -> (r: u8)
    requires
        kans_fu(melds@) <= 255,
    ensures
        r == kans_fu(melds@),
{
    let mut fu: u8 = 0;
    let mut i: usize = 0;
    while i < melds.len()
        invariant
            i <= melds.len(),
            kans_fu(melds@) <= 255,
            fu == kans_fu(melds@.subrange(0, i as int)),
        decreases melds.len() - i,
    {
        assert(melds@.subrange(0, i + 1).drop_last() =~= melds@.subrange(0, i as int));
        proof { lemma_kans_fu_prefix(melds@, i + 1); }
        match &melds[i] {
            Meld::Ankan { tile } => {
                fu = fu + if tile.is_yaochuu() { 32 } else { 16 };
            },
            Meld::Daiminkan { tile, .. } | Meld::Kakan { tile, .. } => {
                fu = fu + if tile.is_yaochuu() { 16 } else { 8 };
            },
            _ => {},
        }
        i = i + 1;
    }
    assert(melds@.subrange(0, i as int) =~= melds@);
    fu
}

fn narrow_wait(v: &Vec<WaitShape>) -> (r: bool)
    ensures
        r == has_narrow_wait(v@),
{
    let mut i: usize = 0;
    while i < v.len()
        invariant
            i <= v.len(),
            forall|j: int|
                0 <= j < i ==> #[trigger] v@[j] != WaitShape::Kanchan && v@[j] != WaitShape::Penchan && v@[j]
                    != WaitShape::Tanki,
        decreases v.len() - i,
    {
        match v[i] {
            WaitShape::Kanchan | WaitShape::Penchan | WaitShape::Tanki => {
                assert(v@.contains(v@[i as int]));
                return true;
            },
            _ => {},
        }
        i = i + 1;
    }
    false
}

/// 20 for the win, 10 more for a closed ron and 2 for a tsumo.
fn win_fu(ctx: &YakuContext) -> (r: u8)
    ensures
        r == 20 + (if ctx.menzen && !ctx.is_tsumo { 10int } else { 0 }) + (if ctx.is_tsumo { 2int } else { 0 }),
{
    if ctx.is_tsumo {
        22
    } else if ctx.menzen {
        30
    } else {
        20
    }
}

fn fu_of_pair(ctx: &YakuContext, pair: u8) -> (r: u8)
    ensures
        r == pair_fu(ctx@, pair),
{
    let dragon: u8 = if 31 <= pair && pair <= 33 { 2 } else { 0 };
    let round: u8 = if pair as usize == ctx.bakaze.kind() { 2 } else { 0 };
    let seat: u8 = if pair as usize == ctx.jikaze.kind() { 2 } else { 0 };
    dragon + round + seat
}

fn round_fu(fu: u8) -> (r: u8)
    requires
        fu <= 250,
    ensures
        r == rounded_fu(fu as int),
{
    let rounded: u8 = if fu % 10 == 0 { fu } else { fu / 10 * 10 + 10 };
    if rounded == 20 { 30 } else { rounded }
}

/// Fu for a context and a reading, rounded up to 10: base, groups, pair, wait, and tsumo or
/// closed ron. Seven pairs have 25, pinfu 20 by tsumo and 30 by ron.
pub fn calc_fu(ctx: &YakuContext, parse: &StandardParse, is_pinfu: bool, is_chiitoitsu: bool) -> (r: u8)
    requires
        !is_pinfu && !is_chiitoitsu ==> kinds_in_range(parse.melds@) && raw_fu(ctx@, parse@) <= 250,
    ensures
        r == fu_of(ctx@, parse@, is_pinfu, is_chiitoitsu),
{
    if is_chiitoitsu {
        return 25;
    }
    if is_pinfu {
        return if ctx.is_tsumo { 20 } else { 30 };
    }
    let g = ctx.all_melds(parse);
    proof {
        lemma_groups_fu_prefix(ctx.melds@, g@, 0);
        lemma_kans_fu_prefix(ctx.melds@, 0);
    }
    let base: u8 = win_fu(ctx);
    let groups: u8 = sum_groups_fu(&ctx.melds, &g);
    let kans: u8 = sum_kans_fu(&ctx.melds);
    let pair: u8 = fu_of_pair(ctx, parse.pair);
    let wait: u8 = if narrow_wait(&wait_shapes(parse, ctx.win_tile)) { 2 } else { 0 };
    round_fu(base + groups + kans + pair + wait)
}

// Full evaluation.

#[derive(Debug)]
pub struct FullScore {
    pub yaku: YakuResult,
    pub fu: u8,
    /// Total dora han.
    pub dora_han: u8,
    /// Regular dora han, indicators pointing at set-aside Norths among them.
    pub regular_dora_han: u8,
    pub red_dora_han: u8,
    pub ura_dora_han: u8,
    /// Han from nukidora themselves, without indicator hits.
    pub nuki_dora_han: u8,
    pub score: ScoreResult,
}

/// What a full score says.
pub struct FullOutcome {
    pub yaku: YakuOutcome,
    pub fu: int,
    pub dora_han: int,
    pub regular_dora_han: int,
    pub red_dora_han: int,
    pub ura_dora_han: int,
    pub nuki_dora_han: int,
    pub score: ScoreResult,
}

impl View for FullScore {
    type V = FullOutcome;

    open spec fn view(&self) -> FullOutcome {
        FullOutcome {
            yaku: self.yaku@,
            fu: self.fu as int,
            dora_han: self.dora_han as int,
            regular_dora_han: self.regular_dora_han as int,
            red_dora_han: self.red_dora_han as int,
            ura_dora_han: self.ura_dora_han as int,
            nuki_dora_han: self.nuki_dora_han as int,
            score: self.score,
        }
    }
}

impl Clone for FullScore {
    fn clone(&self) -> (r: Self)
        ensures
            r@ == self@,
    {
        FullScore {
            yaku: self.yaku.clone(),
            fu: self.fu,
            dora_han: self.dora_han,
            regular_dora_han: self.regular_dora_han,
            red_dora_han: self.red_dora_han,
            ura_dora_han: self.ura_dora_han,
            nuki_dora_han: self.nuki_dora_han,
            score: self.score,
        }
    }
}

/// What an optional full score says.
pub open spec fn score_view(s: Option<FullScore>) -> Option<FullOutcome> {
    match s {
        Some(x) => Some(x@),
        None => None,
    }
}

/// What a score pays, as far as readings are compared by it.
pub open spec fn payout_of(s: ScoreResult) -> int {
    s.ron + s.tsumo_oya + s.tsumo_ko * 2
}

/// Higher points, then higher han, then higher fu.
pub open spec fn is_better(a: FullOutcome, b: FullOutcome) -> bool {
    let (pa, pb) = (payout_of(a.score), payout_of(b.score));
    pa > pb || (pa == pb && (a.score.han > b.score.han || (a.score.han == b.score.han && a.fu > b.fu)))
}

/// A regular win scored with dora.
pub open spec fn scored(f: WinFacts, y: YakuOutcome, fu: int, dora: int, oya: bool) -> FullOutcome {
    FullOutcome {
        yaku: y,
        fu,
        dora_han: dora,
        regular_dora_han: dora,
        red_dora_han: 0,
        ura_dora_han: 0,
        nuki_dora_han: 0,
        score: points(y.han + dora, fu, oya, f.is_tsumo, f.rule_profile),
    }
}

/// A yakuman; dora do not count.
pub open spec fn scored_yakuman(f: WinFacts, y: YakuOutcome, oya: bool) -> FullOutcome {
    FullOutcome {
        yaku: y,
        fu: 0,
        dora_han: 0,
        regular_dora_han: 0,
        red_dora_han: 0,
        ura_dora_han: 0,
        nuki_dora_han: 0,
        score: yakuman_points(y.yakuman, oya, f.is_tsumo),
    }
}

/// The score of one standard reading.
pub open spec fn reading_score(f: WinFacts, p: Reading, dora: int, oya: bool) -> FullOutcome {
    scored(f, standard_outcome(f, p), fu_of(f, p, is_pinfu(f, p), false), dora, oya)
}

/// The best score among the readings that have a yaku, the earlier one among equals,
/// starting from a given one.
pub open spec fn best_score(f: WinFacts, ps: Seq<Reading>, start: Option<FullOutcome>, dora: int, oya: bool) -> Option<FullOutcome>
    decreases ps.len(),
{
    if ps.len() == 0 {
        start
    } else {
        let cur = best_score(f, ps.drop_last(), start, dora, oya);
        if standard_outcome(f, ps.last()).han == 0 {
            cur
        } else {
            let cand = reading_score(f, ps.last(), dora, oya);
            match cur {
                None => Some(cand),
                Some(c) => if is_better(cand, c) { Some(cand) } else { Some(c) },
            }
        }
    }
}

/// The full score of a win; none without a yaku.
pub open spec fn full_score(f: WinFacts, dora: int, oya: bool) -> Option<FullOutcome> {
    let y = evaluated(f);
    if y.yakuman > 0 {
        Some(scored_yakuman(f, y, oya))
    } else {
        match form_of(f) {
            HandForm::Orphans => None,
            HandForm::SevenPairs => best_score(
                f,
                readings_of(f),
                Some(scored(f, seven_pairs_outcome(f), 25, dora, oya)),
                dora,
                oya,
            ),
            HandForm::Standard => best_score(f, readings_of(f), None, dora, oya),
        }
    }
}

/// Han with dora and fu of a reading fit in a byte.
pub open spec fn reading_fits(f: WinFacts, p: Reading, dora: int) -> bool {
    standard_outcome(f, p).han > 0 ==> standard_outcome(f, p).han + dora <= 255 && (!is_pinfu(f, p) ==> raw_fu(f, p) <= 250)
}

pub open spec fn readings_fit(f: WinFacts, ps: Seq<Reading>, dora: int) -> bool {
    forall|i: int| 0 <= i < ps.len() ==> reading_fits(f, #[trigger] ps[i], dora)
}

/// A win can be scored: an ordinary one with a moderate number of melds and dora, or one that
/// can be evaluated and whose han and fu fit in a byte.
pub open spec fn can_score(f: WinFacts, dora: int) -> bool {
    (is_ordinary(f) && f.melds.len() <= 16 && dora >= 0 && 3 * f.melds.len() + dora <= 190) || {
        &&& can_evaluate(f)
        &&& evaluated(f).yakuman == 0 ==> readings_fit(f, readings_of(f), dora)
        &&& evaluated(f).yakuman == 0 && form_of(f) == HandForm::SevenPairs ==> seven_pairs_outcome(f).han + dora
            <= 255
    }
}

/// What scoring needs of a win.
pub proof fn lemma_can_score(f: WinFacts, dora: int)
    requires
        can_score(f, dora),
    ensures
        can_evaluate(f),
        evaluated(f).yakuman == 0 ==> readings_fit(f, readings_of(f), dora),
        evaluated(f).yakuman == 0 && form_of(f) == HandForm::SevenPairs ==> seven_pairs_outcome(f).han + dora <= 255,
{
    if is_ordinary(f) && f.melds.len() <= 16 && dora >= 0 && 3 * f.melds.len() + dora <= 190 {
        lemma_seven_pairs_han(f);
        lemma_called_groups_len(f.melds);
        let ps = readings_of(f);
        if open_count(f) <= 4 {
            lemma_readings_exist(f.concealed, (4 - open_count(f)) as nat);
            lemma_readings_in_range(ps, f.concealed, (4 - open_count(f)) as nat);
        }
        assert forall|i: int| 0 <= i < ps.len() implies reading_fits(f, #[trigger] ps[i], dora) by {
            lemma_reading_fits(f, ps[i], dora);
        }
    }
}

/// Han and fu of a hand with at most four called groups fit in a byte.
pub proof fn lemma_reading_fits(f: WinFacts, p: Reading, dora: int)
    requires
        p.melds.len() + group_meld_count(f.melds) <= 5,
        f.melds.len() <= 16,
        dora >= 0,
        3 * f.melds.len() + dora <= 190,
    ensures
        reading_fits(f, p, dora),
{
    lemma_standard_han(f, p);
    lemma_groups_fu_prefix(f.melds, groups_of(f, p), 0);
    lemma_kans_fu_bound(f.melds);
    lemma_called_groups_len(f.melds);
}

fn key_better(a: &FullScore, b: &FullScore) -> (r: bool)
    requires
        score_in_range(a.score),
        score_in_range(b.score),
    ensures
        r == is_better(a@, b@),
{
    let pa: i32 = a.score.ron + a.score.tsumo_oya + a.score.tsumo_ko * 2;
    let pb: i32 = b.score.ron + b.score.tsumo_oya + b.score.tsumo_ko * 2;
    pa > pb || (pa == pb && (a.score.han > b.score.han || (a.score.han == b.score.han && a.fu > b.fu)))
}

spec fn score_in_range(s: ScoreResult) -> bool {
    0 <= s.ron <= 100000000 && 0 <= s.tsumo_oya <= 100000000 && 0 <= s.tsumo_ko <= 100000000
}

fn scored_candidate(ctx: &YakuContext, yaku: YakuResult, fu: u8, dora_han: u8, is_oya: bool) -> (r: FullScore)
    requires
        yaku.han + dora_han <= 255,
    ensures
        r@ == scored(ctx@, yaku@, fu as int, dora_han as int, is_oya),
        score_in_range(r.score),
{
    let total: u8 = yaku.han + dora_han;
    let score = score_with_han(total, fu, is_oya, ctx.is_tsumo, ctx.rule_profile);
    proof { lemma_points_range(total as int, fu as int, is_oya, ctx.is_tsumo, ctx.rule_profile); }
    FullScore {
        yaku,
        fu,
        dora_han,
        regular_dora_han: dora_han,
        red_dora_han: 0,
        ura_dora_han: 0,
        nuki_dora_han: 0,
        score,
    }
}

proof fn lemma_points_range(han: int, fu: int, oya: bool, tsumo: bool, profile: RiichiRuleProfile)
    requires
        fu >= 0,
    ensures
        score_in_range(points(han, fu, oya, tsumo, profile)),
        0 <= base_points(han, fu, profile) <= 8000,
{
}

/// Full evaluation: yaku, best reading by han and fu, points and dora. `dora_han` is the total
/// from dora, red fives, ura dora and nukidora. `None` when there is no yaku.
pub fn evaluate_full(ctx: &YakuContext, dora_han: u8, is_oya: bool) -> (r: Option<FullScore>)
    requires
        can_score(ctx@, dora_han as int),
    ensures
        score_view(r) == full_score(ctx@, dora_han as int, is_oya),
{
    proof {
        lemma_can_score(ctx@, dora_han as int);
        lemma_can_evaluate(ctx@);
        lemma_yakuman_weight(ctx@);
    }
    let decomp = hand_decomposition(ctx);
    let yk = evaluate(ctx);
    if yk.yakuman > 0 {
        let s = score(&yk, 0, is_oya, ctx.is_tsumo);
        return Some(
            FullScore {
                yaku: yk,
                fu: 0,
                dora_han: 0,
                regular_dora_han: 0,
                red_dora_han: 0,
                ura_dora_han: 0,
                nuki_dora_han: 0,
                score: s,
            },
        );
    }
    let mut best: Option<FullScore> = None;
    let parses: Vec<StandardParse>;
    match decomp {
        Decomposition::Kokushi => return None,
        Decomposition::Chiitoitsu => {
            let y = eval_chiitoitsu(ctx);
            best = Some(scored_candidate(ctx, y, 25, dora_han, is_oya));
            parses = hand_parses(ctx);
        },
        Decomposition::Standard(ps) => {
            parses = ps;
        },
    }
    let ghost dora = dora_han as int;
    let ghost ps = reading_views(parses@);
    let ghost start = score_view(best);
    let mut i: usize = 0;
    assert(ps.subrange(0, 0) =~= Seq::empty());
    while i < parses.len()
        invariant
            i <= parses.len(),
            dora == dora_han,
            ps == reading_views(parses@),
            all_kinds_in_range(ps),
            can_evaluate(ctx@),
            crate::mahjong::yaku::han_fit(ctx@, ps),
            readings_fit(ctx@, ps, dora),
            score_view(best) == best_score(ctx@, ps.subrange(0, i as int), start, dora, is_oya),
            best is Some ==> score_in_range(best->0.score),
        decreases parses.len() - i,
    {
        assert(ps.subrange(0, i + 1).drop_last() =~= ps.subrange(0, i as int));
        let parse = &parses[i];
        assert(ps[i as int] == parse@);
        assert(kinds_in_range(ps[i as int].melds));
        assert(reading_fits(ctx@, ps[i as int], dora));
        let y = eval_standard_pub(ctx, parse);
        if y.han != 0 {
            proof { lemma_standard_han(ctx@, parse@); }
            let pinfu = has_pinfu(ctx, parse);
            let fu: u8 = calc_fu(ctx, parse, pinfu, false);
            let cand = scored_candidate(ctx, y, fu, dora_han, is_oya);
            best = match best {
                None => Some(cand),
                Some(cur) => if key_better(&cand, &cur) { Some(cand) } else { Some(cur) },
            };
        }
        i = i + 1;
    }
    assert(ps.subrange(0, i as int) =~= ps);
    best
}

/// Every payment is a multiple of 100, none is negative, and a ron pays nothing by tsumo nor
/// a tsumo by ron.
pub proof fn payments_are_round(han: u8, fu: u8, oya: bool, tsumo: bool, profile: RiichiRuleProfile)
    ensures
        ({
            let s = points(han as int, fu as int, oya, tsumo, profile);
            &&& s.ron % 100 == 0 && s.tsumo_ko % 100 == 0 && s.tsumo_oya % 100 == 0
            &&& s.ron >= 0 && s.tsumo_ko >= 0 && s.tsumo_oya >= 0
            &&& tsumo ==> s.ron == 0
            &&& !tsumo ==> s.tsumo_sum(3) == 0 && s.tsumo_sum(4) == 0
        }),
{
    lemma_points_range(han as int, fu as int, oya, tsumo, profile);
}

proof fn lemma_base_points_grow(han: int, fu: int, han2: int, fu2: int, profile: RiichiRuleProfile)
    requires
        0 <= han <= han2,
        0 <= fu <= fu2,
        profile.kiriage_mangan ==> fu % 10 == 0 && fu2 % 10 == 0,
    ensures
        base_points(han, fu, profile) <= base_points(han2, fu2, profile),
{
}

proof fn lemma_payments_grow(bp: int, bp2: int, han: int, fu: int, han2: int, fu2: int, oya: bool, tsumo: bool)
    requires
        0 <= bp <= bp2 <= 8000,
    ensures
        payout_of(payments(bp, han, fu, 0, oya, tsumo)) <= payout_of(payments(bp2, han2, fu2, 0, oya, tsumo)),
{
    if tsumo {
        if oya {
            lemma_up_grows(bp * 2, bp2 * 2);
        } else {
            lemma_up_grows(bp, bp2);
            lemma_up_grows(bp * 2, bp2 * 2);
        }
    } else if oya {
        lemma_up_grows(bp * 6, bp2 * 6);
    } else {
        lemma_up_grows(bp * 4, bp2 * 4);
    }
}

proof fn lemma_up_grows(x: int, y: int)
    requires
        0 <= x <= y,
    ensures
        0 <= x <= up_to_hundred(x) <= up_to_hundred(y) < y + 100,
{
}

/// More han or more fu never pay less. Rounding up to mangan looks at whole tens of fu, so
/// under that rule fu are taken in tens.
pub proof fn points_grow(han: u8, fu: u8, han2: u8, fu2: u8, oya: bool, tsumo: bool, profile: RiichiRuleProfile)
    requires
        han <= han2,
        fu <= fu2,
        profile.kiriage_mangan ==> fu % 10 == 0 && fu2 % 10 == 0,
    ensures
        payout_of(points(han as int, fu as int, oya, tsumo, profile)) <= payout_of(
            points(han2 as int, fu2 as int, oya, tsumo, profile),
        ),
{
    lemma_points_range(han as int, fu as int, oya, tsumo, profile);
    lemma_points_range(han2 as int, fu2 as int, oya, tsumo, profile);
    lemma_base_points_grow(han as int, fu as int, han2 as int, fu2 as int, profile);
    lemma_payments_grow(
        base_points(han as int, fu as int, profile), base_points(han2 as int, fu2 as int, profile),
        han as int, fu as int, han2 as int, fu2 as int, oya, tsumo);
}

} // verus!
