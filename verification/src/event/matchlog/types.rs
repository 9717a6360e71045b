//! Basic types of the match log: physical tile references, melds, settlement profiles and
//! fingerprints.

use vstd::prelude::*;
use vstd::string::*;
use vstd::utf8::encode_utf8;
use crate::mahjong::rules::{KanDoraTiming, KazoeLimit, RedFiveCounts, RiichiAnkanRule, RiichiRuleProfile, RonResolution, RulePlatform};
use crate::mahjong::tile::Tile;
use crate::text::{dec_i64, dec_int, hex, hex_u64};

verus! {

/// Match log schema identifier.
pub const MATCHLOG_SCHEMA: &'static str = "flytable-matchlog-v1";

/// Tile reference with an optional physical identity.
///
/// The engine works at the kind level (`Tile`, `0..=37`); rules never distinguish
/// the four copies of a kind, and red fives are already modelled in `Tile`. The
/// physical identity (`0..=135`) is only used by the match log for wall
/// reconstruction and copy-level validation. The engine core is unaffected.
#[derive(Debug, Clone, Copy, PartialEq, Eq, Hash, Structural)]
pub struct TileRef {
    pub tile: Tile,
    /// 136-tile ID (`kind * 4 + copy`; red fives are 16 / 52 / 88). Scoped to a single hand.
    pub physical_id: Option<u8>,
}

impl TileRef {
    pub fn new(tile: Tile, physical_id: Option<u8>) -> (r: Self)
        ensures
            r == (TileRef { tile, physical_id }),
    {
        TileRef { tile, physical_id }
    }

    /// Reference without a physical identity.
    pub fn opaque(tile: Tile) -> (r: Self)
        ensures
            r == (TileRef { tile, physical_id: None }),
    {
        TileRef { tile, physical_id: None }
    }

    pub open spec fn spec_is_consistent(self) -> bool {
        match self.physical_id {
            None => true,
            Some(id) => id < 136 && id / 4 == self.tile.kind() && ((id == 16 || id == 52 || id == 88)
                == self.tile.is_aka()),
        }
    }

    /// Whether the physical ID agrees with the tile's kind and red flag.
    #[verifier::when_used_as_spec(spec_is_consistent)]
    pub fn is_consistent(self) -> (r: bool)
        ensures
            r == self.is_consistent(),
    {
        match self.physical_id {
            None => true,
            Some(id) => {
                if id >= 136 {
                    return false;
                }
                if (id / 4) as usize != self.tile.kind() {
                    return false;
                }
                matches!(id, 16 | 52 | 88) == self.tile.is_aka()
            },
        }
    }
}

/// A consistent physical ID determines the tile, red five or plain.
pub proof fn physical_id_determines_tile(a: TileRef, b: TileRef)
    requires
        a.is_consistent(),
        b.is_consistent(),
        a.physical_id is Some,
        a.physical_id == b.physical_id,
        a.tile.id() <= 37,
        b.tile.id() <= 37,
    ensures
        a == b,
{
    assert(a.tile.kind() == b.tile.kind());
    assert(a.tile.is_aka() == b.tile.is_aka());
}

/// How complete the physical identities in a match log are.
#[derive(Debug, Clone, Copy, PartialEq, Eq, Hash, Structural)]
pub enum TileIdentity {
    /// Every `physical_id` is `None`. Sporadic values are not allowed.
    Absent,
    /// Mixed. Given IDs must be consistent, but the ledger need not close.
    Partial,
    /// Every `TileRef` that appears has an ID, and the ledger closes over the observed set.
    ///
    /// Not all 136 / 108 tiles have to appear: unrevealed dead-wall tiles and the
    /// undrawn live wall never show up in events.
    Complete,
}

impl Default for TileIdentity {
    fn default() -> (r: Self)
        ensures
            r == TileIdentity::Absent,
    {
        TileIdentity::Absent
    }
}

#[derive(Debug, Clone, Copy, PartialEq, Eq, Hash, Structural)]
pub enum MeldKind {
    Chi,
    Pon,
    Daiminkan,
    Kakan,
    Ankan,
    /// 3-player nukidora. Does not create a dora indicator.
    Kita,
}

impl MeldKind {
    pub open spec fn spec_name(self) -> Seq<char> {
        match self {
            MeldKind::Chi => "Chi"@,
            MeldKind::Pon => "Pon"@,
            MeldKind::Daiminkan => "Daiminkan"@,
            MeldKind::Kakan => "Kakan"@,
            MeldKind::Ankan => "Ankan"@,
            MeldKind::Kita => "Kita"@,
        }
    }

    /// The kind in words, for diagnostics.
    pub fn name(self) -> (r: &'static str)
        ensures
            r@ == self.spec_name(),
    {
        match self {
            MeldKind::Chi => "Chi",
            MeldKind::Pon => "Pon",
            MeldKind::Daiminkan => "Daiminkan",
            MeldKind::Kakan => "Kakan",
            MeldKind::Ankan => "Ankan",
            MeldKind::Kita => "Kita",
        }
    }
}

/// A meld with physical tiles.
#[derive(Debug, PartialEq, Eq)]
pub struct MatchlogMeld {
    pub kind: MeldKind,
    /// Source seat; `None` for `Ankan` and `Kita`.
    pub from: Option<u8>,
    /// The called tile. For `Kakan` the added fourth tile; `None` for `Ankan`; for `Kita` the North.
    pub claimed: Option<TileRef>,
    /// Tiles of the meld other than `claimed`.
    ///
    /// Not necessarily from the player's own hand: the three tiles of a `Kakan` are the
    /// original pon, one of which came from another player's discard. Ownership is
    /// decided by the ledger.
    pub consumed: Vec<TileRef>,
}

impl MatchlogMeld {
    pub open spec fn spec_shape_is_valid(&self, seats: usize) -> bool {
        let n = self.consumed@.len();
        match self.kind {
            MeldKind::Chi => seats == 4 && self.from is Some && self.claimed is Some && n == 2,
            MeldKind::Pon => self.from is Some && self.claimed is Some && n == 2,
            MeldKind::Daiminkan => self.from is Some && self.claimed is Some && n == 3,
            MeldKind::Kakan => self.from is Some && self.claimed is Some && n == 3,
            MeldKind::Ankan => self.from is None && self.claimed is None && n == 4,
            MeldKind::Kita => seats == 3 && self.from is None && self.claimed is Some && n == 0,
        }
    }

    /// Whether the fields that are present and the number of tiles fit the kind of meld.
    pub fn shape_is_valid(&self, seats: usize) -> (r: bool)
        ensures
            r == self.spec_shape_is_valid(seats),
    {
        let n: usize = self.consumed.len();
        match self.kind {
            MeldKind::Chi => seats == 4 && self.from.is_some() && self.claimed.is_some() && n == 2,
            MeldKind::Pon => self.from.is_some() && self.claimed.is_some() && n == 2,
            MeldKind::Daiminkan => self.from.is_some() && self.claimed.is_some() && n == 3,
            MeldKind::Kakan => self.from.is_some() && self.claimed.is_some() && n == 3,
            MeldKind::Ankan => self.from.is_none() && self.claimed.is_none() && n == 4,
            MeldKind::Kita => seats == 3 && self.from.is_none() && self.claimed.is_some() && n == 0,
        }
    }
}

/// Tie-break rule. v1 only has one; `Split` has no platform using it.
#[derive(Debug, Clone, Copy, PartialEq, Eq, Hash, Structural)]
pub enum TieBreak {
    /// Ties go to the player earlier in seating order from the first dealer (Tenhou 4P and 3P).
    SeatOrder,
}

impl Default for TieBreak {
    fn default() -> (r: Self)
        ensures
            r == TieBreak::SeatOrder,
    {
        TieBreak::SeatOrder
    }
}

/// Rank points, oka and tie-break.
///
/// Rank points vary by room on some
/// platforms, and they are a ranking policy rather than a game rule.
#[derive(Debug, PartialEq, Eq)]
pub struct MatchSettlementProfile {
    /// In thousands of points. Tenhou 4P = `[20, 10, -10, -20]`, 3P = `[20, 0, -20]`.
    /// Length must equal `seats`.
    pub rank_points: Vec<i32>,
    /// Same unit. Tenhou 4P = 20, 3P = 15.
    pub oka: i32,
    pub tie_break: TieBreak,
}

impl MatchSettlementProfile {
    pub fn tenhou_4p() -> (r: Self)
        ensures
            r.rank_points@ == seq![20i32, 10i32, (-10) as i32, (-20) as i32],
            r.oka == 20,
            r.tie_break == TieBreak::SeatOrder,
    {
        let rank_points: Vec<i32> = vec![20, 10, -10, -20];
        assert(rank_points@ =~= seq![20i32, 10i32, (-10) as i32, (-20) as i32]);
        MatchSettlementProfile { rank_points, oka: 20, tie_break: TieBreak::SeatOrder }
    }

    pub fn tenhou_3p() -> (r: Self)
        ensures
            r.rank_points@ == seq![20i32, 0i32, (-20) as i32],
            r.oka == 15,
            r.tie_break == TieBreak::SeatOrder,
    {
        let rank_points: Vec<i32> = vec![20, 0, -20];
        assert(rank_points@ =~= seq![20i32, 0i32, (-20) as i32]);
        MatchSettlementProfile { rank_points, oka: 15, tie_break: TieBreak::SeatOrder }
    }

    pub fn mahjong_soul_4p() -> (r: Self)
        ensures
            r.rank_points@ == seq![15i32, 5i32, (-5) as i32, (-15) as i32],
            r.oka == 0,
            r.tie_break == TieBreak::SeatOrder,
    {
        let rank_points: Vec<i32> = vec![15, 5, -5, -15];
        assert(rank_points@ =~= seq![15i32, 5i32, (-5) as i32, (-15) as i32]);
        MatchSettlementProfile { rank_points, oka: 0, tie_break: TieBreak::SeatOrder }
    }

    pub fn mahjong_soul_3p() -> (r: Self)
        ensures
            r.rank_points@ == seq![15i32, 0i32, (-15) as i32],
            r.oka == 0,
            r.tie_break == TieBreak::SeatOrder,
    {
        let rank_points: Vec<i32> = vec![15, 0, -15];
        assert(rank_points@ =~= seq![15i32, 0i32, (-15) as i32]);
        MatchSettlementProfile { rank_points, oka: 0, tie_break: TieBreak::SeatOrder }
    }

    pub fn is_valid_for(&self, seats: usize) -> (r: bool)
        ensures
            r == (self.rank_points@.len() == seats),
    {
        self.rank_points.len() == seats
    }
}

/// Rule era, a label of the source. Replay uses the rule profile itself.
#[derive(Debug, PartialEq, Eq, Hash)]
pub struct RuleEra(pub String);

/// The rule as JSON.
pub open spec fn platform_json(x: RulePlatform) -> Seq<char> {
    match x {
        RulePlatform::Tenhou => "\"Tenhou\""@,
        RulePlatform::MahjongSoul => "\"MahjongSoul\""@,
        RulePlatform::RiichiCity => "\"RiichiCity\""@,
    }
}

fn platform_json_text(x: RulePlatform) -> (r: &'static str)
    ensures
        r@ == platform_json(x),
{
    match x {
        RulePlatform::Tenhou => "\"Tenhou\"",
        RulePlatform::MahjongSoul => "\"MahjongSoul\"",
        RulePlatform::RiichiCity => "\"RiichiCity\"",
    }
}

/// The rule as JSON.
pub open spec fn ron_json(x: RonResolution) -> Seq<char> {
    match x {
        RonResolution::AtamaHane => "\"AtamaHane\""@,
        RonResolution::Multiple => "\"Multiple\""@,
        RonResolution::TripleRonAbortive => "\"TripleRonAbortive\""@,
    }
}

fn ron_json_text(x: RonResolution) -> (r: &'static str)
    ensures
        r@ == ron_json(x),
{
    match x {
        RonResolution::AtamaHane => "\"AtamaHane\"",
        RonResolution::Multiple => "\"Multiple\"",
        RonResolution::TripleRonAbortive => "\"TripleRonAbortive\"",
    }
}

/// The rule as JSON.
pub open spec fn kazoe_json(x: KazoeLimit) -> Seq<char> {
    match x {
        KazoeLimit::Yakuman => "\"Yakuman\""@,
        KazoeLimit::Sanbaiman => "\"Sanbaiman\""@,
    }
}

fn kazoe_json_text(x: KazoeLimit) -> (r: &'static str)
    ensures
        r@ == kazoe_json(x),
{
    match x {
        KazoeLimit::Yakuman => "\"Yakuman\"",
        KazoeLimit::Sanbaiman => "\"Sanbaiman\"",
    }
}

/// The rule as JSON.
pub open spec fn ankan_json(x: RiichiAnkanRule) -> Seq<char> {
    match x {
        RiichiAnkanRule::Forbidden => "\"Forbidden\""@,
        RiichiAnkanRule::DrawnFourthAndWaitsUnchanged => "\"DrawnFourthAndWaitsUnchanged\""@,
    }
}

fn ankan_json_text(x: RiichiAnkanRule) -> (r: &'static str)
    ensures
        r@ == ankan_json(x),
{
    match x {
        RiichiAnkanRule::Forbidden => "\"Forbidden\"",
        RiichiAnkanRule::DrawnFourthAndWaitsUnchanged => "\"DrawnFourthAndWaitsUnchanged\"",
    }
}

/// The rule as JSON.
pub open spec fn timing_json(x: KanDoraTiming) -> Seq<char> {
    match x {
        KanDoraTiming::AnkanImmediateOpenKanDelayed => "\"AnkanImmediateOpenKanDelayed\""@,
        KanDoraTiming::Immediate => "\"Immediate\""@,
    }
}

fn timing_json_text(x: KanDoraTiming) -> (r: &'static str)
    ensures
        r@ == timing_json(x),
{
    match x {
        KanDoraTiming::AnkanImmediateOpenKanDelayed => "\"AnkanImmediateOpenKanDelayed\"",
        KanDoraTiming::Immediate => "\"Immediate\"",
    }
}

pub open spec fn bool_json(b: bool) -> Seq<char> {
    if b { "true"@ } else { "false"@ }
}

fn bool_json_text(b: bool) -> (r: &'static str)
    ensures
        r@ == bool_json(b),
{
    if b { "true" } else { "false" }
}

/// Red five counts as JSON.
pub open spec fn reds_json(c: RedFiveCounts) -> Seq<char> {
    "{\"man\":"@ + dec_int(c.man as int) + ",\"pin\":"@ + dec_int(c.pin as int) + ",\"sou\":"@ + dec_int(c.sou as int) + "}"@
}

fn push_reds(s: &mut String, c: RedFiveCounts)
    ensures
        final(s)@ == old(s)@ + reds_json(c),
{
    let ghost s0 = s@;
    let mut t = String::new();
    t.append("{\"man\":");
    assert(t@ =~= "{\"man\":"@);
    t.append(dec_i64(c.man as i64).as_str());
    t.append(",\"pin\":");
    t.append(dec_i64(c.pin as i64).as_str());
    t.append(",\"sou\":");
    t.append(dec_i64(c.sou as i64).as_str());
    t.append("}");
    s.append(t.as_str());
}

/// Fields of a profile as JSON, part of [`profile_json`].
pub open spec fn profile_part0(p: RiichiRuleProfile) -> Seq<char> {
    "{\"platform\":"@ + platform_json(p.platform)
        + ",\"open_tanyao\":"@ + bool_json(p.open_tanyao)
        + ",\"red_fives_4p\":"@ + reds_json(p.red_fives_4p)
        + ",\"red_fives_3p\":"@ + reds_json(p.red_fives_3p)
        + ",\"start_score_4p\":"@ + dec_int(p.start_score_4p as int)
        + ",\"start_score_3p\":"@ + dec_int(p.start_score_3p as int)
}

fn profile_part0_text(p: RiichiRuleProfile) -> (s: String)
    ensures
        s@ == profile_part0(p),
{
    let mut s = String::new();
    s.append("{\"platform\":");
    assert(s@ =~= "{\"platform\":"@);
    s.append(platform_json_text(p.platform));
    s.append(",\"open_tanyao\":");
    s.append(bool_json_text(p.open_tanyao));
    s.append(",\"red_fives_4p\":");
    push_reds(&mut s, p.red_fives_4p);
    s.append(",\"red_fives_3p\":");
    push_reds(&mut s, p.red_fives_3p);
    s.append(",\"start_score_4p\":");
    s.append(dec_i64(p.start_score_4p as i64).as_str());
    s.append(",\"start_score_3p\":");
    s.append(dec_i64(p.start_score_3p as i64).as_str());
    s
}

/// Fields of a profile as JSON, part of [`profile_json`].
pub open spec fn profile_part1(p: RiichiRuleProfile) -> Seq<char> {
    ",\"target_score_4p\":"@ + dec_int(p.target_score_4p as int)
        + ",\"target_score_3p\":"@ + dec_int(p.target_score_3p as int)
        + ",\"bust_below_zero\":"@ + bool_json(p.bust_below_zero)
        + ",\"max_extra_bakaze\":"@ + dec_int(p.max_extra_bakaze as int)
        + ",\"agariyame\":"@ + bool_json(p.agariyame)
        + ",\"tenpaiyame\":"@ + bool_json(p.tenpaiyame)
}

fn profile_part1_text(p: RiichiRuleProfile) -> (s: String)
    ensures
        s@ == profile_part1(p),
{
    let mut s = String::new();
    s.append(",\"target_score_4p\":");
    assert(s@ =~= ",\"target_score_4p\":"@);
    s.append(dec_i64(p.target_score_4p as i64).as_str());
    s.append(",\"target_score_3p\":");
    s.append(dec_i64(p.target_score_3p as i64).as_str());
    s.append(",\"bust_below_zero\":");
    s.append(bool_json_text(p.bust_below_zero));
    s.append(",\"max_extra_bakaze\":");
    s.append(dec_i64(p.max_extra_bakaze as i64).as_str());
    s.append(",\"agariyame\":");
    s.append(bool_json_text(p.agariyame));
    s.append(",\"tenpaiyame\":");
    s.append(bool_json_text(p.tenpaiyame));
    s
}

/// Fields of a profile as JSON, part of [`profile_json`].
pub open spec fn profile_part2(p: RiichiRuleProfile) -> Seq<char> {
    ",\"kuikae_forbidden\":"@ + bool_json(p.kuikae_forbidden)
        + ",\"kiriage_mangan\":"@ + bool_json(p.kiriage_mangan)
        + ",\"kazoe_limit\":"@ + kazoe_json(p.kazoe_limit)
        + ",\"double_special_yakuman\":"@ + bool_json(p.double_special_yakuman)
        + ",\"ron_resolution\":"@ + ron_json(p.ron_resolution)
        + ",\"kokushi_ankan_ron\":"@ + bool_json(p.kokushi_ankan_ron)
}

fn profile_part2_text(p: RiichiRuleProfile) -> (s: String)
    ensures
        s@ == profile_part2(p),
{
    let mut s = String::new();
    s.append(",\"kuikae_forbidden\":");
    assert(s@ =~= ",\"kuikae_forbidden\":"@);
    s.append(bool_json_text(p.kuikae_forbidden));
    s.append(",\"kiriage_mangan\":");
    s.append(bool_json_text(p.kiriage_mangan));
    s.append(",\"kazoe_limit\":");
    s.append(kazoe_json_text(p.kazoe_limit));
    s.append(",\"double_special_yakuman\":");
    s.append(bool_json_text(p.double_special_yakuman));
    s.append(",\"ron_resolution\":");
    s.append(ron_json_text(p.ron_resolution));
    s.append(",\"kokushi_ankan_ron\":");
    s.append(bool_json_text(p.kokushi_ankan_ron));
    s
}

/// Fields of a profile as JSON, part of [`profile_json`].
pub open spec fn profile_part3(p: RiichiRuleProfile) -> Seq<char> {
    ",\"nukidora_ron\":"@ + bool_json(p.nukidora_ron)
        + ",\"nagashi_mangan\":"@ + bool_json(p.nagashi_mangan)
        + ",\"pao\":"@ + bool_json(p.pao)
        + ",\"suukaikan\":"@ + bool_json(p.suukaikan)
        + ",\"suucha_riichi\":"@ + bool_json(p.suucha_riichi)
        + ",\"no_draw_riichi\":"@ + bool_json(p.no_draw_riichi)
}

fn profile_part3_text(p: RiichiRuleProfile) -> (s: String)
    ensures
        s@ == profile_part3(p),
{
    let mut s = String::new();
    s.append(",\"nukidora_ron\":");
    assert(s@ =~= ",\"nukidora_ron\":"@);
    s.append(bool_json_text(p.nukidora_ron));
    s.append(",\"nagashi_mangan\":");
    s.append(bool_json_text(p.nagashi_mangan));
    s.append(",\"pao\":");
    s.append(bool_json_text(p.pao));
    s.append(",\"suukaikan\":");
    s.append(bool_json_text(p.suukaikan));
    s.append(",\"suucha_riichi\":");
    s.append(bool_json_text(p.suucha_riichi));
    s.append(",\"no_draw_riichi\":");
    s.append(bool_json_text(p.no_draw_riichi));
    s
}

/// Fields of a profile as JSON, part of [`profile_json`].
pub open spec fn profile_part4(p: RiichiRuleProfile) -> Seq<char> {
    ",\"riichi_ankan\":"@ + ankan_json(p.riichi_ankan)
        + ",\"kan_dora_timing\":"@ + timing_json(p.kan_dora_timing)
        + ",\"kan_dora_pending_flush_at_declaration\":"@ + bool_json(p.kan_dora_pending_flush_at_declaration)
        + ",\"suukaikan_on_kita_declaration\":"@ + bool_json(p.suukaikan_on_kita_declaration)
        + ",\"nuki_dora_han\":"@ + dec_int(p.nuki_dora_han as int)
}

fn profile_part4_text(p: RiichiRuleProfile) -> (s: String)
    ensures
        s@ == profile_part4(p),
{
    let mut s = String::new();
    s.append(",\"riichi_ankan\":");
    assert(s@ =~= ",\"riichi_ankan\":"@);
    s.append(ankan_json_text(p.riichi_ankan));
    s.append(",\"kan_dora_timing\":");
    s.append(timing_json_text(p.kan_dora_timing));
    s.append(",\"kan_dora_pending_flush_at_declaration\":");
    s.append(bool_json_text(p.kan_dora_pending_flush_at_declaration));
    s.append(",\"suukaikan_on_kita_declaration\":");
    s.append(bool_json_text(p.suukaikan_on_kita_declaration));
    s.append(",\"nuki_dora_han\":");
    s.append(dec_i64(p.nuki_dora_han as i64).as_str());
    s
}

/// The profile as canonical JSON: its fields in order of declaration, no white space.
pub open spec fn profile_json(p: RiichiRuleProfile) -> Seq<char> {
    profile_part0(p) + profile_part1(p) + profile_part2(p) + profile_part3(p) + profile_part4(p) + "}"@
}

/// The profile as canonical JSON.
pub fn profile_canonical(profile: &RiichiRuleProfile) -> (r: String)
    ensures
        r@ == profile_json(*profile),
{
    let p = *profile;
    let mut s = profile_part0_text(p);
    s.append(profile_part1_text(p).as_str());
    s.append(profile_part2_text(p).as_str());
    s.append(profile_part3_text(p).as_str());
    s.append(profile_part4_text(p).as_str());
    s.append("}");
    s
}

/// FNV-1a over 64 bits.
pub open spec fn fnv1a(bytes: Seq<u8>) -> u64
    decreases bytes.len(),
{
    if bytes.len() == 0 {
        0xcbf2_9ce4_8422_2325
    } else {
        let h = fnv1a(bytes.drop_last()) ^ (bytes.last() as u64);
        ((h as nat * 0x0000_0100_0000_01b3) % 0x1_0000_0000_0000_0000) as u64
    }
}

fn fnv1a_64(bytes: &[u8]) -> (hash: u64)
    ensures
        hash == fnv1a(bytes@),
{
    let mut hash: u64 = 0xcbf2_9ce4_8422_2325;
    let mut i: usize = 0;
    assert(bytes@.subrange(0, 0) =~= Seq::empty());
    while i < bytes.len()
        invariant
            i <= bytes.len(),
            hash == fnv1a(bytes@.subrange(0, i as int)),
        decreases bytes.len() - i,
    {
        assert(bytes@.subrange(0, i + 1).drop_last() =~= bytes@.subrange(0, i as int));
        hash = hash ^ (bytes[i] as u64);
        hash = hash.wrapping_mul(0x0000_0100_0000_01b3);
        i = i + 1;
    }
    assert(bytes@.subrange(0, i as int) =~= bytes@);
    hash
}

/// Fingerprint of a rule profile: FNV-1a of its canonical JSON, as 16 hexadecimal digits.
pub open spec fn fingerprint_of(p: RiichiRuleProfile) -> Seq<char> {
    hex(fnv1a(encode_utf8(profile_json(p))) as nat, 16)
}

/// Rule profile fingerprint. For change detection and coverage checks, not for security.
pub fn profile_fingerprint(profile: &RiichiRuleProfile) -> (r: String)
    ensures
        r@ == fingerprint_of(*profile),
{
    let canonical = profile_canonical(profile);
    let hash: u64 = fnv1a_64(canonical.as_str().as_bytes());
    hex_u64(hash, 16)
}

} // verus!
